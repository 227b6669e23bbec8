//! Laws of the store, stated over a small model of its operations. Each
//! store command acts on the store's view exactly as `apply_op` says:
//! `add_dump` / `append` turn `v` into `v.push(record@)`, and `clear_dumps` /
//! `clear` turn any `v` into the empty sequence, by their `ensures`; a
//! `get_dumps` / `snapshot` returns the view unchanged. The proof functions
//! here state what whole runs of such operations leave behind.

use vstd::prelude::*;

use crate::record::RecordView;

verus! {

/// One store operation, as it acts on the store's mathematical content.
pub enum StoreOp {
    Add(RecordView),
    Clear,
}

/// The effect of one operation on the store's view.
pub open spec fn apply_op(v: Seq<RecordView>, op: StoreOp) -> Seq<RecordView> {
    match op {
        StoreOp::Add(r) => v.push(r),
        StoreOp::Clear => Seq::empty(),
    }
}

/// The effect of a run of operations, applied one at a time, first first.
pub open spec fn apply_ops(v: Seq<RecordView>, ops: Seq<StoreOp>) -> Seq<RecordView>
    decreases ops.len(),
{
    if ops.len() == 0 {
        v
    } else {
        apply_ops(apply_op(v, ops[0]), ops.drop_first())
    }
}

/// Law: adds performed one at a time append their records in order. A run
/// consisting exactly of the adds of `adds` leaves the store holding its
/// prior records followed by `adds`, in the order performed; reading the
/// store afterwards (`get_dumps`) returns that sequence.
pub proof fn lemma_adds_in_order(v: Seq<RecordView>, adds: Seq<RecordView>)
    ensures
        apply_ops(v, adds.map_values(|r: RecordView| StoreOp::Add(r))) == v + adds,
    decreases adds.len(),
{
    let ops = adds.map_values(|r: RecordView| StoreOp::Add(r));
    if adds.len() == 0 {
        assert(v + adds =~= v);
    } else {
        assert(ops.drop_first() =~= adds.drop_first().map_values(
            |r: RecordView| StoreOp::Add(r),
        ));
        lemma_adds_in_order(v.push(adds[0]), adds.drop_first());
        assert(v.push(adds[0]) + adds.drop_first() =~= v + adds);
    }
}

/// Law: from an empty store, a run of adds leaves exactly those records.
pub proof fn lemma_adds_from_empty(adds: Seq<RecordView>)
    ensures
        apply_ops(
            Seq::<RecordView>::empty(),
            adds.map_values(|r: RecordView| StoreOp::Add(r)),
        ) == adds,
{
    lemma_adds_in_order(Seq::<RecordView>::empty(), adds);
    assert(Seq::<RecordView>::empty() + adds =~= adds);
}

/// Law: no add is lost and none is duplicated. After a run made of adds
/// alone, the store's length is its prior length plus the number of adds
/// performed — one entry per successful add, whatever serialization order
/// the exclusivity primitive granted them.
pub proof fn lemma_no_add_lost(v: Seq<RecordView>, adds: Seq<RecordView>)
    ensures
        apply_ops(v, adds.map_values(|r: RecordView| StoreOp::Add(r))).len()
            == v.len() + adds.len(),
{
    lemma_adds_in_order(v, adds);
}

/// Law: reads are all-or-nothing with respect to an add. Store operations
/// act only at serialization points, so a read racing an add is serialized
/// either before it or after it: it observes either the store without the
/// record or the store with the whole record at its end — never a store
/// holding part of one.
pub proof fn lemma_read_around_add(v: Seq<RecordView>, r: RecordView)
    ensures
        apply_ops(v, Seq::<StoreOp>::empty()) == v,
        apply_ops(v, seq![StoreOp::Add(r)]) == v.push(r),
{
    let ops = seq![StoreOp::Add(r)];
    assert(ops[0] == StoreOp::Add(r));
    assert(ops.drop_first().len() == 0);
    assert(apply_ops(v, ops) == apply_ops(apply_op(v, ops[0]), ops.drop_first()));
}

/// Law: a clear resets the store whatever it held: a run ending right after
/// a clear leaves the empty sequence, so a `get_dumps` that follows the
/// clear at once returns no records, regardless of prior contents.
pub proof fn lemma_clear_resets(v: Seq<RecordView>, ops: Seq<StoreOp>)
    requires
        ops.len() > 0,
        ops.last() == StoreOp::Clear,
    ensures
        apply_ops(v, ops) == Seq::<RecordView>::empty(),
    decreases ops.len(),
{
    if ops.len() == 1 {
        assert(apply_ops(v, ops) == apply_ops(apply_op(v, ops[0]), ops.drop_first()));
        assert(ops.drop_first().len() == 0);
    } else {
        assert(ops.drop_first().last() == ops.last());
        lemma_clear_resets(apply_op(v, ops[0]), ops.drop_first());
    }
}

} // verus!
