//! Protocol types: the immutable message shapes exchanged between replicas,
//! the synchronization core and the backends, and the executable form of
//! operation application.

use vstd::prelude::*;
use crate::model::{apply_op, apply_ops, ChangeModel, DocModel, Op};

verus! {

/// Errors of the replication protocol.
#[derive(Clone, Copy, Debug, PartialEq, Eq, Structural)]
pub enum SyncError {
    /// A change request's causal dependency is unmet: its sequence number is
    /// not the next one the backend expects from its actor.
    RequestRejected,
    /// An inbound request source is unexpectedly gone.
    ChannelClosed,
    /// A destination editing context has been torn down; the patch for it is
    /// dropped silently.
    PatchDeliveryFailure,
}

/// An ordered batch of local operations produced by exactly one replica and
/// consumed exactly once by a backend. `seq` is the producing actor's
/// sequence number for the batch.
pub struct ChangeRequest {
    pub actor: u64,
    pub seq: u64,
    pub ops: Vec<Op>,
}

impl ChangeRequest {
    /// The change this request asks the backend to record.
    pub open spec fn model(&self) -> ChangeModel {
        ChangeModel { actor: self.actor as int, seq: self.seq as int, ops: self.ops@ }
    }
}

/// One change in a backend's append-only history: the unit exchanged during
/// cross-backend replication.
pub struct Change {
    pub actor: u64,
    pub seq: u64,
    pub ops: Vec<Op>,
}

impl Change {
    pub open spec fn model(&self) -> ChangeModel {
        ChangeModel { actor: self.actor as int, seq: self.seq as int, ops: self.ops@ }
    }
}

/// One entry of a dependency set: the changes of `actor` with sequence
/// numbers up to and including `seq` are already observed.
#[derive(Clone, Copy)]
pub struct Dep {
    pub actor: u64,
    pub seq: u64,
}

/// A state delta produced by a backend after applying a change request or a
/// batch of remote changes. `actor` tags the replica whose edit caused the
/// patch: the requester, both for the patch its own backend answers with and
/// for the patch the peer backend produces when that request's history is
/// merged into it. The receiving replica rebuilds its projection from the
/// carried authoritative field values, so reapplying a patch is a no-op.
pub struct Patch {
    pub actor: u64,
    pub counter: u64,
    pub text: Vec<char>,
}

impl Patch {
    /// The authoritative document value the patch carries.
    pub open spec fn doc(&self) -> DocModel {
        DocModel { counter: self.counter as int, text: self.text@ }
    }
}

/// Applies one operation to an executable document held as a counter and a
/// text vector; returns the new counter value.
pub(crate) fn apply_op_exec(counter: u64, text: &mut Vec<char>, op: Op) -> (r: u64)
    ensures
        ({
            let d = apply_op(DocModel { counter: counter as int, text: old(text)@ }, op);
            r as int == d.counter && final(text)@ == d.text
        }),
{
    match op {
        Op::SetCounter(n) => n,
        Op::SetText => {
            text.clear();
            counter
        },
        Op::Increment => {
            if counter < u64::MAX {
                counter + 1
            } else {
                counter
            }
        },
        Op::Insert { idx, ch } => {
            if idx <= text.len() {
                text.insert(idx, ch);
            }
            counter
        },
        Op::Delete { idx } => {
            if idx < text.len() {
                text.remove(idx);
            }
            counter
        },
    }
}

/// Applies an ordered operation batch to an executable document held as a
/// counter and a text vector; returns the new counter value.
pub(crate) fn apply_batch(counter: u64, text: &mut Vec<char>, ops: &Vec<Op>) -> (r: u64)
    ensures
        ({
            let d = apply_ops(DocModel { counter: counter as int, text: old(text)@ }, ops@);
            r as int == d.counter && final(text)@ == d.text
        }),
{
    let mut c = counter;
    let mut j: usize = 0;
    while j < ops.len()
        invariant
            j <= ops.len(),
            ({
                let d = apply_ops(
                    DocModel { counter: counter as int, text: old(text)@ },
                    ops@.take(j as int),
                );
                c as int == d.counter && text@ == d.text
            }),
        decreases ops.len() - j,
    {
        c = apply_op_exec(c, text, ops[j]);
        proof {
            assert(ops@.take(j + 1).drop_last() =~= ops@.take(j as int));
            assert(ops@.take(j + 1).last() == ops@[j as int]);
        }
        j = j + 1;
    }
    proof {
        assert(ops@.take(ops@.len() as int) =~= ops@);
    }
    c
}

/// Copies a text value.
pub(crate) fn copy_chars(v: &Vec<char>) -> (r: Vec<char>)
    ensures
        r@ == v@,
{
    let mut r: Vec<char> = Vec::new();
    let mut i: usize = 0;
    while i < v.len()
        invariant
            i <= v.len(),
            r@ == v@.take(i as int),
        decreases v.len() - i,
    {
        r.push(v[i]);
        assert(v@.take(i + 1) =~= v@.take(i as int).push(v@[i as int]));
        i = i + 1;
    }
    assert(v@.take(v@.len() as int) =~= v@);
    r
}

/// Copies an operation batch.
pub(crate) fn copy_ops(v: &Vec<Op>) -> (r: Vec<Op>)
    ensures
        r@ == v@,
{
    let mut r: Vec<Op> = Vec::new();
    let mut i: usize = 0;
    while i < v.len()
        invariant
            i <= v.len(),
            r@ == v@.take(i as int),
        decreases v.len() - i,
    {
        r.push(v[i]);
        assert(v@.take(i + 1) =~= v@.take(i as int).push(v@[i as int]));
        i = i + 1;
    }
    assert(v@.take(v@.len() as int) =~= v@);
    r
}

} // verus!
