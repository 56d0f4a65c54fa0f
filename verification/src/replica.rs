//! The document replica: one editable projection of the document. It turns
//! user edit intents into change requests, applying them optimistically to
//! its own projection, and absorbs incoming patches, suppressing the
//! re-render of an echoed patch (one that reports the replica's own edit).
//!
//! A replica is single-threaded: its owning editing context talks to the
//! synchronization core only by handing over the requests this type returns.

use vstd::prelude::*;
use crate::model::{apply_op, empty_doc, op_valid, ChangeModel, DocModel, Op};
use crate::protocol::{apply_op_exec, copy_chars, ChangeRequest, Patch};

verus! {

/// One editable instance of the document with its local projection.
pub struct Replica {
    actor: u64,
    seq: u64,
    counter: u64,
    text: Vec<char>,
}

impl Replica {
    /// The replica's actor identifier, assigned at creation and immutable.
    pub closed spec fn id(&self) -> int {
        self.actor as int
    }

    /// The sequence number of the replica's most recent change request.
    pub closed spec fn seq_no(&self) -> int {
        self.seq as int
    }

    /// The projection the replica currently shows.
    pub closed spec fn doc(&self) -> DocModel {
        DocModel { counter: self.counter as int, text: self.text@ }
    }

    /// Creates a replica with the given actor identifier and the initial
    /// change request that encodes its empty document (counter 0, empty
    /// text). That request must reach a backend before any other request of
    /// this replica.
    pub fn create(actor: u64) -> (r: (Replica, ChangeRequest))
        ensures
            r.0.id() == actor as int,
            r.0.seq_no() == 1,
            r.0.doc() == empty_doc(),
            r.1.model() == (ChangeModel {
                actor: actor as int,
                seq: 1,
                ops: seq![Op::SetCounter(0), Op::SetText],
            }),
    {
        let replica = Replica { actor, seq: 1, counter: 0, text: Vec::new() };
        let req = ChangeRequest { actor, seq: 1, ops: vec![Op::SetCounter(0), Op::SetText] };
        proof {
            assert(replica.doc().text =~= empty_doc().text);
            assert(req.model().ops =~= seq![Op::SetCounter(0), Op::SetText]);
        }
        (replica, req)
    }

    /// The replica's actor identifier.
    pub fn actor_id(&self) -> (r: u64)
        ensures
            r as int == self.id(),
    {
        self.actor
    }

    /// Translates a user edit intent — insert, delete or increment; the
    /// initializing assignments are not edit intents and only [`Replica::create`]
    /// issues them — into a change request, mutating the local projection
    /// immediately (optimistic update). Returns no request exactly when the
    /// operation is invalid for the current projection (an out-of-bounds
    /// index), in which case nothing changes.
    pub fn local_edit(&mut self, op: Op) -> (r: Option<ChangeRequest>)
        requires
            old(self).seq_no() < u64::MAX,
            !(op is SetCounter),
            !(op is SetText),
        ensures
            (r is Some) <==> op_valid(old(self).doc(), op),
            r is None ==> *final(self) == *old(self),
            final(self).id() == old(self).id(),
            r is Some ==> final(self).doc() == apply_op(old(self).doc(), op)
                && final(self).seq_no() == old(self).seq_no() + 1,
            r matches Some(req) ==> req.model() == (ChangeModel {
                actor: old(self).id(),
                seq: old(self).seq_no() + 1,
                ops: seq![op],
            }),
    {
        let valid = match op {
            Op::Insert { idx, ch: _ } => idx <= self.text.len(),
            Op::Delete { idx } => idx < self.text.len(),
            _ => true,
        };
        if !valid {
            return None;
        }
        self.counter = apply_op_exec(self.counter, &mut self.text, op);
        self.seq = self.seq + 1;
        let req = ChangeRequest { actor: self.actor, seq: self.seq, ops: vec![op] };
        proof {
            assert(req.model().ops =~= seq![op]);
        }
        Some(req)
    }

    /// Increments the counter locally and returns the request that
    /// propagates the increment. Always produces a request.
    pub fn increment(&mut self) -> (r: Option<ChangeRequest>)
        requires
            old(self).seq_no() < u64::MAX,
        ensures
            r is Some,
            final(self).id() == old(self).id(),
            final(self).doc() == apply_op(old(self).doc(), Op::Increment),
            final(self).seq_no() == old(self).seq_no() + 1,
            r matches Some(req) ==> req.model() == (ChangeModel {
                actor: old(self).id(),
                seq: old(self).seq_no() + 1,
                ops: seq![Op::Increment],
            }),
    {
        self.local_edit(Op::Increment)
    }

    /// Absorbs a patch. The authoritative field values the patch carries
    /// always replace the projection; the returned text to re-render is
    /// `None` exactly when the patch's actor tag equals this replica's own
    /// identifier (echo suppression: the projection already reflected that
    /// edit optimistically, and no re-render may re-enter editing).
    pub fn apply_patch(&mut self, p: &Patch) -> (r: Option<Vec<char>>)
        ensures
            final(self).doc() == p.doc(),
            final(self).id() == old(self).id(),
            final(self).seq_no() == old(self).seq_no(),
            (r is None) <==> p.actor as int == old(self).id(),
            r matches Some(t) ==> t@ == p.doc().text,
    {
        self.counter = p.counter;
        self.text = copy_chars(&p.text);
        if p.actor == self.actor {
            None
        } else {
            Some(copy_chars(&self.text))
        }
    }

    /// The sequence number of the replica's most recent change request, for
    /// callers that must check it before requesting another edit.
    pub fn seq_value(&self) -> (r: u64)
        ensures
            r as int == self.seq_no(),
    {
        self.seq
    }

    /// Pure read projection of the current counter value.
    pub fn counter_value(&self) -> (r: u64)
        ensures
            r as int == self.doc().counter,
    {
        self.counter
    }

    /// Pure read projection of the current text value.
    pub fn text_value(&self) -> (r: Vec<char>)
        ensures
            r@ == self.doc().text,
    {
        copy_chars(&self.text)
    }
}

} // verus!
