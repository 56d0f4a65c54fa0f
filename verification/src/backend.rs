//! The backend store: canonical document state and the append-only change
//! history for one actor group. A backend is exclusively owned and mutated by
//! the synchronization core, so it needs no locking of its own.

use vstd::prelude::*;
use crate::model::{
    count_by_actor, doc_of, empty_doc, has_id, merge, ChangeModel, DocModel,
    lemma_count_take_succ, lemma_merge_concat, lemma_merge_one,
};
use crate::protocol::{apply_batch, copy_chars, copy_ops, Change, ChangeRequest, Dep, Patch, SyncError};

verus! {

/// The dependency set entry `(actor, seq)` covers the change identified by
/// `(actor, cseq)` when `cseq <= seq`.
pub open spec fn covered(deps: Seq<Dep>, actor: int, cseq: int) -> bool {
    exists|j: int|
        0 <= j < deps.len() && (#[trigger] deps[j]).actor as int == actor && cseq <= deps[j].seq as int
}

/// The subsequence of a history not covered by a dependency set, in history
/// order.
pub open spec fn remaining(h: Seq<ChangeModel>, deps: Seq<Dep>) -> Seq<ChangeModel>
    decreases h.len(),
{
    if h.len() == 0 {
        Seq::empty()
    } else {
        remaining(h.drop_last(), deps) + (if covered(deps, h.last().actor, h.last().seq) {
            Seq::<ChangeModel>::empty()
        } else {
            seq![h.last()]
        })
    }
}

/// With an empty dependency set, nothing is covered: the whole history
/// remains (what every synchronization step requests).
pub proof fn lemma_remaining_empty(h: Seq<ChangeModel>)
    ensures
        remaining(h, Seq::<Dep>::empty()) == h,
    decreases h.len(),
{
    if h.len() == 0 {
        assert(remaining(h, Seq::<Dep>::empty()) =~= h);
    } else {
        lemma_remaining_empty(h.drop_last());
        assert(remaining(h, Seq::<Dep>::empty()) =~= h);
    }
}

/// Spec-level view of an executable change sequence.
pub open spec fn models_of(cs: Seq<Change>) -> Seq<ChangeModel> {
    cs.map(|i: int, c: Change| c.model())
}

/// Canonical state and change history for one actor group.
pub struct BackendStore {
    counter: u64,
    text: Vec<char>,
    log: Vec<Change>,
}

impl BackendStore {
    /// The append-only change history.
    pub closed spec fn hist(&self) -> Seq<ChangeModel> {
        models_of(self.log@)
    }

    /// The canonical document value the store holds.
    pub closed spec fn doc(&self) -> DocModel {
        DocModel { counter: self.counter as int, text: self.text@ }
    }

    /// Internal invariant: the held document is exactly the one the history
    /// denotes.
    pub open spec fn inv(&self) -> bool {
        self.doc() == doc_of(self.hist())
    }

    /// A fresh store: empty history, empty document.
    pub fn new() -> (r: BackendStore)
        ensures
            r.inv(),
            r.hist() == Seq::<ChangeModel>::empty(),
            r.doc() == empty_doc(),
    {
        let r = BackendStore { counter: 0, text: Vec::new(), log: Vec::new() };
        proof {
            assert(r.hist() =~= Seq::<ChangeModel>::empty());
            assert(r.doc().text =~= empty_doc().text);
        }
        r
    }

    /// The canonical counter value.
    pub fn counter_value(&self) -> (r: u64)
        ensures
            r as int == self.doc().counter,
    {
        self.counter
    }

    /// The canonical text value.
    pub fn text_value(&self) -> (r: Vec<char>)
        ensures
            r@ == self.doc().text,
    {
        copy_chars(&self.text)
    }

    /// How many changes of `actor` the history holds.
    fn count_for(&self, actor: u64) -> (r: u64)
        ensures
            r as int == count_by_actor(self.hist(), actor as int),
    {
        let mut count: u64 = 0;
        let mut i: usize = 0;
        while i < self.log.len()
            invariant
                i <= self.log.len(),
                count as int == count_by_actor(self.hist().take(i as int), actor as int),
                count as int <= i as int,
            decreases self.log.len() - i,
        {
            proof {
                lemma_count_take_succ(self.hist(), i as int, actor as int);
                assert(self.hist()[i as int] == self.log@[i as int].model());
            }
            if self.log[i].actor == actor {
                count = count + 1;
            }
            i = i + 1;
        }
        proof {
            assert(self.hist().take(self.hist().len() as int) =~= self.hist());
        }
        count
    }

    /// Whether the history holds a change with the given identity.
    fn has_change(&self, actor: u64, seq: u64) -> (r: bool)
        ensures
            r == has_id(self.hist(), actor as int, seq as int),
    {
        let mut i: usize = 0;
        while i < self.log.len()
            invariant
                i <= self.log.len(),
                forall|k: int|
                    0 <= k < i ==> !((#[trigger] self.hist()[k]).actor == actor as int
                        && self.hist()[k].seq == seq as int),
            decreases self.log.len() - i,
        {
            proof {
                assert(self.hist()[i as int] == self.log@[i as int].model());
            }
            if self.log[i].actor == actor && self.log[i].seq == seq {
                assert(has_id(self.hist(), actor as int, seq as int));
                return true;
            }
            i = i + 1;
        }
        false
    }

    /// Integrates a change request into the canonical state and history.
    /// Succeeds exactly when the request's sequence number is the next one
    /// the store expects of its actor; a request whose causal dependency is
    /// unmet (or already integrated) is rejected and changes nothing.
    pub fn apply_local_change(&mut self, req: &ChangeRequest) -> (r: Result<Patch, SyncError>)
        requires
            old(self).inv(),
        ensures
            final(self).inv(),
            (r is Ok) <==> (req.model().seq == count_by_actor(old(self).hist(), req.actor as int)
                + 1),
            r is Ok ==> final(self).hist() == old(self).hist().push(req.model()),
            r matches Ok(p) ==> p.actor == req.actor && p.doc() == final(self).doc(),
            r is Err ==> *final(self) == *old(self) && r == Err::<Patch, SyncError>(
                SyncError::RequestRejected,
            ),
    {
        let count = self.count_for(req.actor);
        if !(req.seq >= 1 && req.seq - 1 == count) {
            return Err(SyncError::RequestRejected);
        }
        let c = Change { actor: req.actor, seq: req.seq, ops: copy_ops(&req.ops) };
        proof {
            assert(models_of(self.log@.push(c)) =~= self.hist().push(req.model()));
        }
        let ghost old_hist = self.hist();
        self.log.push(c);
        self.counter = apply_batch(self.counter, &mut self.text, &req.ops);
        proof {
            assert(self.hist().drop_last() =~= old_hist);
            assert(self.hist().last() == req.model());
        }
        Ok(Patch { actor: req.actor, counter: self.counter, text: copy_chars(&self.text) })
    }

    /// The causally ordered changes not covered by the given dependency set.
    /// The synchronization core passes an empty set, requesting full history
    /// on every step; per-peer dependency tracking would only trim traffic.
    pub fn changes_since(&self, deps: &Vec<Dep>) -> (r: Vec<Change>)
        ensures
            models_of(r@) == remaining(self.hist(), deps@),
    {
        let mut r: Vec<Change> = Vec::new();
        let mut i: usize = 0;
        proof {
            assert(models_of(r@) =~= remaining(self.hist().take(0), deps@));
        }
        while i < self.log.len()
            invariant
                i <= self.log.len(),
                models_of(r@) == remaining(self.hist().take(i as int), deps@),
            decreases self.log.len() - i,
        {
            let c = &self.log[i];
            proof {
                assert(self.hist()[i as int] == self.log@[i as int].model());
                assert(self.hist().take(i + 1).drop_last() =~= self.hist().take(i as int));
                assert(self.hist().take(i + 1).last() == self.hist()[i as int]);
            }
            if !covered_by(deps, c.actor, c.seq) {
                let cc = Change { actor: c.actor, seq: c.seq, ops: copy_ops(&c.ops) };
                proof {
                    assert(cc.model() == self.hist()[i as int]);
                    assert(models_of(r@.push(cc)) =~= models_of(r@).push(cc.model()));
                    assert(remaining(self.hist().take(i + 1), deps@) =~= remaining(
                        self.hist().take(i as int),
                        deps@,
                    ).push(self.hist()[i as int]));
                }
                r.push(cc);
            } else {
                proof {
                    assert(remaining(self.hist().take(i + 1), deps@) =~= remaining(
                        self.hist().take(i as int),
                        deps@,
                    ));
                }
            }
            i = i + 1;
        }
        proof {
            assert(self.hist().take(self.hist().len() as int) =~= self.hist());
        }
        r
    }

    /// Merges foreign history into the canonical state: each incoming change
    /// is appended, in order, unless its identity is already present. The
    /// returned patch carries the identifier of the actor whose edit caused
    /// this propagation, and the resulting authoritative field values.
    pub fn apply_remote_changes(&mut self, origin: u64, changes: &Vec<Change>) -> (r: Patch)
        requires
            old(self).inv(),
        ensures
            final(self).inv(),
            final(self).hist() == merge(old(self).hist(), models_of(changes@)),
            r.actor == origin,
            r.doc() == final(self).doc(),
    {
        let ghost inc = models_of(changes@);
        let mut i: usize = 0;
        proof {
            assert(inc.take(0) =~= Seq::<ChangeModel>::empty());
        }
        while i < changes.len()
            invariant
                i <= changes.len(),
                self.inv(),
                inc == models_of(changes@),
                self.hist() == merge(old(self).hist(), inc.take(i as int)),
            decreases changes.len() - i,
        {
            let c = &changes[i];
            proof {
                assert(inc[i as int] == changes@[i as int].model());
                assert(inc.take(i + 1) =~= inc.take(i as int) + seq![inc[i as int]]);
                lemma_merge_concat(old(self).hist(), inc.take(i as int), seq![inc[i as int]]);
                lemma_merge_one(self.hist(), inc[i as int]);
            }
            let present = self.has_change(c.actor, c.seq);
            if !present {
                let cc = Change { actor: c.actor, seq: c.seq, ops: copy_ops(&c.ops) };
                proof {
                    assert(models_of(self.log@.push(cc)) =~= self.hist().push(cc.model()));
                }
                let ghost pre_hist = self.hist();
                self.log.push(cc);
                self.counter = apply_batch(self.counter, &mut self.text, &c.ops);
                proof {
                    assert(self.hist().drop_last() =~= pre_hist);
                    assert(self.hist().last() == inc[i as int]);
                }
            }
            i = i + 1;
        }
        proof {
            assert(inc.take(inc.len() as int) =~= inc);
        }
        Patch { actor: origin, counter: self.counter, text: copy_chars(&self.text) }
    }
}

/// Whether the dependency set covers the change identified by
/// `(actor, seq)`.
fn covered_by(deps: &Vec<Dep>, actor: u64, seq: u64) -> (r: bool)
    ensures
        r == covered(deps@, actor as int, seq as int),
{
    let mut j: usize = 0;
    while j < deps.len()
        invariant
            j <= deps.len(),
            forall|k: int|
                0 <= k < j ==> !((#[trigger] deps@[k]).actor as int == actor as int && seq as int
                    <= deps@[k].seq as int),
        decreases deps.len() - j,
    {
        if deps[j].actor == actor && seq <= deps[j].seq {
            assert(covered(deps@, actor as int, seq as int));
            return true;
        }
        j = j + 1;
    }
    false
}

} // verus!
