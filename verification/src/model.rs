//! Mathematical model of the replicated document and of backend change
//! histories.
//!
//! The document has two fields: a counter (mutable only by increment) and a
//! text sequence (mutable only by insert-at-index and delete-at-index). A
//! backend's history is an append-only sequence of changes; a change records
//! the ordered operation batch of one change request and is identified by
//! the originating actor and that actor's sequence number. Merging a peer's
//! history appends exactly the changes whose identities are not already
//! present.

use vstd::prelude::*;

verus! {

/// A single operation on the two-field document, addressed by field.
/// `SetCounter` and `SetText` initialize a field (`SetText` sets the text
/// field to the empty sequence, the only assignment this domain uses);
/// the other operations mutate a field in place.
#[derive(Clone, Copy)]
pub enum Op {
    SetCounter(u64),
    SetText,
    Insert { idx: usize, ch: char },
    Delete { idx: usize },
    Increment,
}

/// The value of the two document fields.
pub struct DocModel {
    pub counter: int,
    pub text: Seq<char>,
}

/// One change as history records it: the originating actor, that actor's
/// sequence number for the change, and the ordered operation batch.
pub struct ChangeModel {
    pub actor: int,
    pub seq: int,
    pub ops: Seq<Op>,
}

/// The document before any change has been applied.
pub open spec fn empty_doc() -> DocModel {
    DocModel { counter: 0, text: Seq::empty() }
}

/// An operation is valid for a document when its index is in bounds.
pub open spec fn op_valid(d: DocModel, op: Op) -> bool {
    match op {
        Op::Insert { idx, ch: _ } => idx <= d.text.len(),
        Op::Delete { idx } => idx < d.text.len(),
        _ => true,
    }
}

/// Effect of one operation on the document. An out-of-bounds index leaves
/// the document unchanged: a replica never builds one against its own
/// projection, but a peer's delete processed first can shrink the text below
/// an in-flight insert's index, and that operation is then dropped — both
/// backends drop it alike, so convergence is unharmed. The counter saturates
/// at the machine bound instead of wrapping.
pub open spec fn apply_op(d: DocModel, op: Op) -> DocModel {
    match op {
        Op::SetCounter(n) => DocModel { counter: n as int, text: d.text },
        Op::SetText => DocModel { counter: d.counter, text: Seq::empty() },
        Op::Increment => DocModel {
            counter: if d.counter < u64::MAX {
                d.counter + 1
            } else {
                d.counter
            },
            text: d.text,
        },
        Op::Insert { idx, ch } => if idx <= d.text.len() {
            DocModel { counter: d.counter, text: d.text.insert(idx as int, ch) }
        } else {
            d
        },
        Op::Delete { idx } => if idx < d.text.len() {
            DocModel { counter: d.counter, text: d.text.remove(idx as int) }
        } else {
            d
        },
    }
}

/// Effect of a batch of operations, applied in order.
pub open spec fn apply_ops(d: DocModel, ops: Seq<Op>) -> DocModel
    decreases ops.len(),
{
    if ops.len() == 0 {
        d
    } else {
        apply_op(apply_ops(d, ops.drop_last()), ops.last())
    }
}

/// The document a history denotes: every change's batch applied in history
/// order, starting from the empty document.
pub open spec fn doc_of(h: Seq<ChangeModel>) -> DocModel
    decreases h.len(),
{
    if h.len() == 0 {
        empty_doc()
    } else {
        apply_ops(doc_of(h.drop_last()), h.last().ops)
    }
}

/// How many changes of `actor` a history holds.
pub open spec fn count_by_actor(h: Seq<ChangeModel>, actor: int) -> int
    decreases h.len(),
{
    if h.len() == 0 {
        0
    } else {
        count_by_actor(h.drop_last(), actor) + (if h.last().actor == actor {
            1int
        } else {
            0int
        })
    }
}

/// Whether a history already holds a change with the given identity.
pub open spec fn has_id(h: Seq<ChangeModel>, actor: int, seq: int) -> bool {
    exists|i: int| 0 <= i < h.len() && (#[trigger] h[i]).actor == actor && h[i].seq == seq
}

/// A well-formed history: each actor's changes appear with sequence numbers
/// 1, 2, 3, ... in order, so a change's identity pins its position among
/// that actor's changes.
pub open spec fn hist_wf(h: Seq<ChangeModel>) -> bool {
    forall|i: int|
        0 <= i < h.len() ==> (#[trigger] h[i]).seq == count_by_actor(h.take(i), h[i].actor) + 1
}

/// Merge of a peer history into a local one: incoming changes are taken in
/// order, each appended unless a change with the same identity is already
/// present.
pub open spec fn merge(h: Seq<ChangeModel>, inc: Seq<ChangeModel>) -> Seq<ChangeModel>
    decreases inc.len(),
{
    if inc.len() == 0 {
        h
    } else {
        let h1 = if has_id(h, inc[0].actor, inc[0].seq) {
            h
        } else {
            h.push(inc[0])
        };
        merge(h1, inc.skip(1))
    }
}

proof fn lemma_count_push(h: Seq<ChangeModel>, c: ChangeModel, actor: int)
    ensures
        count_by_actor(h.push(c), actor) == count_by_actor(h, actor) + (if c.actor == actor {
            1int
        } else {
            0int
        }),
{
    assert(h.push(c).drop_last() =~= h);
    assert(h.push(c).last() == c);
}

proof fn lemma_count_prefix_le(h: Seq<ChangeModel>, i: int, actor: int)
    requires
        0 <= i <= h.len(),
    ensures
        count_by_actor(h.take(i), actor) <= count_by_actor(h, actor),
    decreases h.len(),
{
    if i == h.len() {
        assert(h.take(i) =~= h);
    } else {
        assert(h.take(i) =~= h.drop_last().take(i));
        lemma_count_prefix_le(h.drop_last(), i, actor);
    }
}

/// Counting over one more element of a prefix.
pub proof fn lemma_count_take_succ(h: Seq<ChangeModel>, i: int, actor: int)
    requires
        0 <= i < h.len(),
    ensures
        count_by_actor(h.take(i + 1), actor) == count_by_actor(h.take(i), actor) + (
        if h[i].actor == actor {
            1int
        } else {
            0int
        }),
{
    assert(h.take(i + 1) =~= h.take(i).push(h[i]));
    lemma_count_push(h.take(i), h[i], actor);
}

/// In a well-formed history, the next sequence number of an actor is fresh:
/// no change of that actor with that number is present yet.
pub proof fn lemma_wf_fresh(h: Seq<ChangeModel>, actor: int)
    requires
        hist_wf(h),
    ensures
        !has_id(h, actor, count_by_actor(h, actor) + 1),
{
    assert forall|i: int|
        0 <= i < h.len() implies !((#[trigger] h[i]).actor == actor && h[i].seq == count_by_actor(
        h,
        actor,
    ) + 1) by {
        if h[i].actor == actor {
            lemma_count_take_succ(h, i, actor);
            lemma_count_prefix_le(h, i + 1, actor);
        }
    }
}

/// Appending a change with the actor's next sequence number keeps a history
/// well-formed.
pub proof fn lemma_wf_push(h: Seq<ChangeModel>, c: ChangeModel)
    requires
        hist_wf(h),
        c.seq == count_by_actor(h, c.actor) + 1,
    ensures
        hist_wf(h.push(c)),
{
    let h1 = h.push(c);
    assert forall|i: int|
        0 <= i < h1.len() implies (#[trigger] h1[i]).seq == count_by_actor(
        h1.take(i),
        h1[i].actor,
    ) + 1 by {
        if i < h.len() {
            assert(h1.take(i) =~= h.take(i));
            assert(h1[i] == h[i]);
        } else {
            assert(h1.take(i) =~= h);
        }
    }
}

proof fn lemma_merge_all_present(h: Seq<ChangeModel>, inc: Seq<ChangeModel>)
    requires
        forall|j: int| 0 <= j < inc.len() ==> has_id(h, (#[trigger] inc[j]).actor, inc[j].seq),
    ensures
        merge(h, inc) == h,
    decreases inc.len(),
{
    if inc.len() > 0 {
        assert(has_id(h, inc[0].actor, inc[0].seq));
        assert(forall|j: int|
            0 <= j < inc.skip(1).len() ==> #[trigger] inc.skip(1)[j] == inc[j + 1]);
        lemma_merge_all_present(h, inc.skip(1));
    }
}

/// Merging a concatenation merges the parts in turn.
pub proof fn lemma_merge_concat(h: Seq<ChangeModel>, i1: Seq<ChangeModel>, i2: Seq<ChangeModel>)
    ensures
        merge(h, i1 + i2) == merge(merge(h, i1), i2),
    decreases i1.len(),
{
    if i1.len() == 0 {
        assert(i1 + i2 =~= i2);
    } else {
        assert((i1 + i2)[0] == i1[0]);
        assert((i1 + i2).skip(1) =~= i1.skip(1) + i2);
        let h1 = if has_id(h, i1[0].actor, i1[0].seq) {
            h
        } else {
            h.push(i1[0])
        };
        lemma_merge_concat(h1, i1.skip(1), i2);
    }
}

/// Merging a single incoming change appends it exactly when its identity is
/// new.
pub proof fn lemma_merge_one(h: Seq<ChangeModel>, c: ChangeModel)
    ensures
        merge(h, seq![c]) == (if has_id(h, c.actor, c.seq) {
            h
        } else {
            h.push(c)
        }),
{
    let single = seq![c];
    assert(single[0] == c);
    assert(single.skip(1) =~= Seq::<ChangeModel>::empty());
    let h1 = if has_id(h, c.actor, c.seq) {
        h
    } else {
        h.push(c)
    };
    assert(merge(h, single) == merge(h1, single.skip(1)));
    assert(merge(h1, Seq::<ChangeModel>::empty()) == h1);
}

/// Merging a history that extends our own by one fresh change appends
/// exactly that change: the two sides end with identical histories.
pub proof fn lemma_merge_self_push(h: Seq<ChangeModel>, c: ChangeModel)
    requires
        !has_id(h, c.actor, c.seq),
    ensures
        merge(h, h.push(c)) == h.push(c),
{
    let single = seq![c];
    assert(h.push(c) =~= h + single);
    lemma_merge_concat(h, h, single);
    assert(forall|j: int|
        0 <= j < h.len() ==> has_id(h, (#[trigger] h[j]).actor, h[j].seq));
    lemma_merge_all_present(h, h);
    assert(single.skip(1) =~= Seq::<ChangeModel>::empty());
    assert(single[0] == c);
    assert(!has_id(h, single[0].actor, single[0].seq));
    assert(merge(h, single) == merge(h.push(c), single.skip(1)));
    assert(merge(h.push(c), Seq::<ChangeModel>::empty()) == h.push(c));
}

proof fn lemma_merge_preserves_ids(
    h: Seq<ChangeModel>,
    inc: Seq<ChangeModel>,
    actor: int,
    seq: int,
)
    requires
        has_id(h, actor, seq),
    ensures
        has_id(merge(h, inc), actor, seq),
    decreases inc.len(),
{
    if inc.len() > 0 {
        let h1 = if has_id(h, inc[0].actor, inc[0].seq) {
            h
        } else {
            h.push(inc[0])
        };
        assert(has_id(h1, actor, seq)) by {
            let i = choose|i: int|
                0 <= i < h.len() && (#[trigger] h[i]).actor == actor && h[i].seq == seq;
            assert(h1[i].actor == actor && h1[i].seq == seq);
        }
        lemma_merge_preserves_ids(h1, inc.skip(1), actor, seq);
    }
}

proof fn lemma_merge_absorbs(h: Seq<ChangeModel>, inc: Seq<ChangeModel>, j: int)
    requires
        0 <= j < inc.len(),
    ensures
        has_id(merge(h, inc), inc[j].actor, inc[j].seq),
    decreases inc.len(),
{
    let h1 = if has_id(h, inc[0].actor, inc[0].seq) {
        h
    } else {
        h.push(inc[0])
    };
    if j == 0 {
        assert(has_id(h1, inc[0].actor, inc[0].seq)) by {
            if !has_id(h, inc[0].actor, inc[0].seq) {
                assert(h1[h.len() as int] == inc[0]);
            } else {
                let i = choose|i: int|
                    0 <= i < h.len() && (#[trigger] h[i]).actor == inc[0].actor && h[i].seq
                        == inc[0].seq;
                assert(h1[i] == h[i]);
            }
        }
        lemma_merge_preserves_ids(h1, inc.skip(1), inc[0].actor, inc[0].seq);
    } else {
        assert(inc.skip(1)[j - 1] == inc[j]);
        lemma_merge_absorbs(h1, inc.skip(1), j - 1);
    }
}

/// Merge is idempotent under replay: merging the same incoming history a
/// second time changes nothing.
pub proof fn lemma_merge_idempotent(h: Seq<ChangeModel>, inc: Seq<ChangeModel>)
    ensures
        merge(merge(h, inc), inc) == merge(h, inc),
{
    assert forall|j: int|
        0 <= j < inc.len() implies has_id(
        merge(h, inc),
        (#[trigger] inc[j]).actor,
        inc[j].seq,
    ) by {
        lemma_merge_absorbs(h, inc, j);
    }
    lemma_merge_all_present(merge(h, inc), inc);
}

/// Counter monotonicity: only initialization writes the counter; every
/// other operation leaves it unchanged or raises it, so the counter is
/// non-decreasing across all replicas and interleavings once initialized.
pub proof fn lemma_counter_monotonic(d: DocModel, op: Op)
    requires
        !(op is SetCounter),
    ensures
        apply_op(d, op).counter >= d.counter,
{
}

/// A history made only of initialization changes (each setting the counter
/// to zero and the text to empty) denotes the empty document.
pub proof fn lemma_init_changes_zero(h: Seq<ChangeModel>)
    requires
        forall|i: int|
            0 <= i < h.len() ==> (#[trigger] h[i]).ops == seq![Op::SetCounter(0), Op::SetText],
    ensures
        doc_of(h).counter == 0,
        doc_of(h).text == Seq::<char>::empty(),
    decreases h.len(),
{
    if h.len() > 0 {
        assert(forall|i: int| 0 <= i < h.len() - 1 ==> #[trigger] h.drop_last()[i] == h[i]);
        lemma_init_changes_zero(h.drop_last());
        let d = doc_of(h.drop_last());
        let ops = h.last().ops;
        let first = seq![Op::SetCounter(0)];
        assert(ops.drop_last() =~= first);
        assert(ops.last() == Op::SetText);
        assert(first.drop_last() =~= Seq::<Op>::empty());
        assert(first.last() == Op::SetCounter(0));
        assert(apply_ops(d, Seq::<Op>::empty()) == d);
        assert(apply_ops(d, first) == apply_op(d, Op::SetCounter(0)));
        assert(apply_ops(d, ops) == apply_op(apply_ops(d, first), Op::SetText));
        assert(doc_of(h) == apply_ops(d, ops));
    }
}

/// Increment correctness: a history that initializes the document (any
/// number of initialization changes, in any order across the actors) and
/// then carries N increment changes — issued by either or both actors, in
/// any interleaving — denotes counter value exactly N.
pub proof fn lemma_increment_correctness(h: Seq<ChangeModel>, k: int)
    requires
        0 <= k <= h.len(),
        forall|i: int|
            0 <= i < k ==> (#[trigger] h[i]).ops == seq![Op::SetCounter(0), Op::SetText],
        forall|i: int| k <= i < h.len() ==> (#[trigger] h[i]).ops == seq![Op::Increment],
        h.len() - k <= u64::MAX,
    ensures
        doc_of(h).counter == h.len() - k,
    decreases h.len(),
{
    if h.len() == k {
        lemma_init_changes_zero(h);
    } else {
        assert(forall|i: int| 0 <= i < h.len() - 1 ==> #[trigger] h.drop_last()[i] == h[i]);
        lemma_increment_correctness(h.drop_last(), k);
        let ops = h.last().ops;
        assert(ops.drop_last() =~= Seq::<Op>::empty());
        assert(ops.last() == Op::Increment);
        let d = doc_of(h.drop_last());
        assert(apply_ops(d, Seq::<Op>::empty()) == d);
        assert(apply_ops(d, ops) == apply_op(apply_ops(d, ops.drop_last()), Op::Increment));
        assert(doc_of(h) == apply_ops(d, ops));
    }
}

} // verus!
