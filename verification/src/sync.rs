//! The synchronization core: exclusive owner of the two backend stores. It
//! serializes every change request — whichever replica sent it — applies the
//! request to the originating side's backend, cross-propagates that backend's
//! full history to the other backend, and hands back one combined pair of
//! patches so that both projections update together.
//!
//! The surrounding process runs the loop: it waits on the inbound channels
//! and the shutdown signal and feeds each ready event to [`SyncCore::on_event`].
//! All backend mutation happens inside this type, one request at a time.

use vstd::prelude::*;
use crate::backend::{lemma_remaining_empty, BackendStore};
use crate::model::{
    count_by_actor, doc_of, hist_wf, lemma_merge_self_push, lemma_wf_fresh, lemma_wf_push,
    ChangeModel, DocModel,
};
use crate::protocol::{ChangeRequest, Dep, Patch, SyncError};

verus! {

/// Which editing context a request came from.
#[derive(Clone, Copy, Debug, PartialEq, Eq, Structural)]
pub enum Source {
    A,
    B,
}

/// The combined notification published after one processed request: one
/// patch for each side's replica, delivered together so both projections
/// update in the same step.
pub struct PatchPair {
    pub for_a: Patch,
    pub for_b: Patch,
}

/// One event the loop can wake up on.
pub enum Event {
    Request { source: Source, req: ChangeRequest },
    Shutdown,
}

/// What the loop must do with a processed event.
pub enum Outcome {
    /// Deliver the combined patches to the editing contexts.
    Deliver { patches: PatchPair },
    /// Report the rejection to the originating replica only; the peer and
    /// both backends are untouched.
    Rejected { source: Source },
    /// Exit the loop; no further requests are accepted.
    Stop,
}

/// Owner of the two backend stores; serializes all mutation.
pub struct SyncCore {
    a: BackendStore,
    b: BackendStore,
}

impl SyncCore {
    /// Backend A, for observation.
    pub closed spec fn store_a_spec(&self) -> BackendStore {
        self.a
    }

    /// Backend B, for observation.
    pub closed spec fn store_b_spec(&self) -> BackendStore {
        self.b
    }

    /// The shared history: after every processed request both backends hold
    /// the same one.
    pub closed spec fn hist(&self) -> Seq<ChangeModel> {
        self.a.hist()
    }

    /// The document both backends hold.
    pub open spec fn doc(&self) -> DocModel {
        doc_of(self.hist())
    }

    /// Core invariant: both backends are internally consistent, hold
    /// identical histories, and the history is well-formed.
    pub closed spec fn wf(&self) -> bool {
        &&& self.a.inv()
        &&& self.b.inv()
        &&& self.a.hist() == self.b.hist()
        &&& hist_wf(self.a.hist())
    }

    /// A fresh core over two empty backends.
    pub fn new() -> (r: SyncCore)
        ensures
            r.wf(),
            r.hist() == Seq::<ChangeModel>::empty(),
    {
        SyncCore { a: BackendStore::new(), b: BackendStore::new() }
    }

    /// Read access to backend A.
    pub fn store_a(&self) -> (r: &BackendStore)
        ensures
            *r == self.store_a_spec(),
    {
        &self.a
    }

    /// Read access to backend B.
    pub fn store_b(&self) -> (r: &BackendStore)
        ensures
            *r == self.store_b_spec(),
    {
        &self.b
    }

    /// Processes one change request: applies it to the originating side's
    /// backend, merges that backend's full history into the other backend,
    /// and returns the combined patch pair. Succeeds exactly when the
    /// request's sequence number is the next one expected of its actor; a
    /// rejected request leaves both backends untouched. After a successful
    /// step both patches — and both backends — carry the same document, and
    /// both patches are tagged with the actor whose edit caused them, so
    /// the originating replica suppresses its echo and the peer re-renders.
    pub fn step(&mut self, source: Source, req: &ChangeRequest) -> (r: Result<PatchPair, SyncError>)
        requires
            old(self).wf(),
        ensures
            final(self).wf(),
            (r is Ok) <==> (req.model().seq == count_by_actor(old(self).hist(), req.actor as int)
                + 1),
            r is Ok ==> final(self).hist() == old(self).hist().push(req.model()),
            r matches Ok(pp) ==> ({
                &&& pp.for_a.doc() == final(self).doc()
                &&& pp.for_b.doc() == final(self).doc()
                &&& pp.for_a.doc() == pp.for_b.doc()
                &&& pp.for_a.actor == req.actor
                &&& pp.for_b.actor == req.actor
            }),
            r is Err ==> *final(self) == *old(self) && r == Err::<PatchPair, SyncError>(
                SyncError::RequestRejected,
            ),
    {
        let deps: Vec<Dep> = Vec::new();
        match source {
            Source::A => {
                let p_local = match self.a.apply_local_change(req) {
                    Ok(p) => p,
                    Err(e) => {
                        return Err(e);
                    },
                };
                proof {
                    lemma_wf_fresh(old(self).hist(), req.actor as int);
                    lemma_wf_push(old(self).hist(), req.model());
                    lemma_merge_self_push(old(self).hist(), req.model());
                    lemma_remaining_empty(self.a.hist());
                    assert(deps@ =~= Seq::<Dep>::empty());
                }
                let changes = self.a.changes_since(&deps);
                let p_remote = self.b.apply_remote_changes(req.actor, &changes);
                Ok(PatchPair { for_a: p_local, for_b: p_remote })
            },
            Source::B => {
                let p_local = match self.b.apply_local_change(req) {
                    Ok(p) => p,
                    Err(e) => {
                        return Err(e);
                    },
                };
                proof {
                    lemma_wf_fresh(old(self).hist(), req.actor as int);
                    lemma_wf_push(old(self).hist(), req.model());
                    lemma_merge_self_push(old(self).hist(), req.model());
                    lemma_remaining_empty(self.b.hist());
                    assert(deps@ =~= Seq::<Dep>::empty());
                }
                let changes = self.b.changes_since(&deps);
                let p_remote = self.a.apply_remote_changes(req.actor, &changes);
                Ok(PatchPair { for_a: p_remote, for_b: p_local })
            },
        }
    }

    /// Dispatches one loop event. A shutdown event stops the loop and
    /// changes nothing — no request submitted after shutdown is applied and
    /// no patch is produced for it. A request event is processed as
    /// [`SyncCore::step`] does, and a rejection is reported to the
    /// originating side only.
    pub fn on_event(&mut self, e: Event) -> (r: Outcome)
        requires
            old(self).wf(),
        ensures
            final(self).wf(),
            e is Shutdown ==> (r is Stop && *final(self) == *old(self)),
            e is Request ==> !(r is Stop),
            e matches Event::Request { source: _, req } ==> ((r is Deliver) <==> (
            req.model().seq == count_by_actor(old(self).hist(), req.actor as int) + 1)),
            e matches Event::Request { source: _, req } ==> (r matches Outcome::Deliver {
                patches,
            } ==> final(self).hist() == old(self).hist().push(req.model())
                && patches.for_a.doc() == final(self).doc()
                && patches.for_b.doc() == final(self).doc()),
            e matches Event::Request { source: _, req } ==> (r matches Outcome::Deliver { patches }
                ==> patches.for_a.actor == req.actor && patches.for_b.actor == req.actor),
            e matches Event::Request { source, req: _ } ==> (r matches Outcome::Rejected {
                source: s,
            } ==> s == source && *final(self) == *old(self)),
    {
        match e {
            Event::Shutdown => Outcome::Stop,
            Event::Request { source, req } => match self.step(source, &req) {
                Ok(pp) => Outcome::Deliver { patches: pp },
                Err(_) => Outcome::Rejected { source },
            },
        }
    }
}

/// Convergence: in every state the core invariant admits — and it holds
/// after every processed request, whatever the interleaving of edits across
/// the two replicas was — the two backends hold identical histories and
/// identical counter and text values.
pub proof fn lemma_convergence(core: SyncCore)
    requires
        core.wf(),
    ensures
        core.store_a_spec().hist() == core.store_b_spec().hist(),
        core.store_a_spec().doc() == core.store_b_spec().doc(),
        core.store_a_spec().doc() == core.doc(),
{
}

} // verus!
