//! What holds of every run of allocations, stated over the abstract chunk list.
use vstd::prelude::*;

use crate::chunks::{ChunksView, Slot};

verus! {

broadcast use vstd::seq_lib::group_seq_properties;

/// The state after allocating each value of `values` in turn.
pub open spec fn allocate_all<T>(start: ChunksView<T>, values: Seq<T>) -> ChunksView<T>
    decreases values.len(),
{
    if values.len() == 0 {
        start
    } else {
        allocate_all(start, values.drop_last()).allocate(values.last())
    }
}

/// One allocation on a well-formed list: the list stays well-formed, leaves
/// room for the next value, keeps every slot it had, appends the value after
/// all others and places it in the slot that was next.
pub proof fn lemma_allocate<T>(a: ChunksView<T>, value: T)
    requires
        a.wf(),
    ensures
        a.allocate(value).wf(),
        a.allocate(value).keeps(a),
        a.allocate(value).elements() == a.elements().push(value),
        forall|s: Slot| #[trigger]
            a.is_next(s) ==> a.allocate(value).valid(s) && a.allocate(value).at(s) == value,
{
    let pushed = a.push(value);
    let b = a.allocate(value);
    if pushed.is_full() {
        a.sealed.lemma_flatten_push(pushed.open);
        assert(b.elements() =~= a.elements().push(value));
        assert(b.chunks() =~= a.sealed.push(pushed.open).push(Seq::empty()));
    } else {
        assert(b.elements() =~= a.elements().push(value));
        assert(b.chunks() =~= a.sealed.push(pushed.open));
    }
    assert forall|s: Slot| #[trigger] a.valid(s) implies b.valid(s) && b.at(s) == a.at(s) by {
        if s.chunk < a.sealed.len() {
            assert(b.chunks()[s.chunk as int] == a.chunks()[s.chunk as int]);
        } else {
            assert(b.chunks()[s.chunk as int] == pushed.open);
        }
    }
}

/// Keeping every slot is transitive.
pub proof fn lemma_keeps_transitive<T>(a: ChunksView<T>, b: ChunksView<T>, c: ChunksView<T>)
    requires
        b.keeps(a),
        c.keeps(b),
    ensures
        c.keeps(a),
{
    assert forall|s: Slot| #[trigger] a.valid(s) implies c.valid(s) && c.at(s) == a.at(s) by {
        assert(b.valid(s));
    }
}

/// Address stability: after any run of allocations, every slot that held an
/// element before the run still exists and still holds that element.
pub proof fn address_stability<T>(start: ChunksView<T>, values: Seq<T>)
    requires
        start.wf(),
    ensures
        allocate_all(start, values).wf(),
        allocate_all(start, values).keeps(start),
    decreases values.len(),
{
    if values.len() == 0 {
        assert forall|s: Slot| #[trigger] start.valid(s) implies start.valid(s) && start.at(s)
            == start.at(s) by {}
    } else {
        let mid = allocate_all(start, values.drop_last());
        address_stability(start, values.drop_last());
        lemma_allocate(mid, values.last());
        lemma_keeps_transitive(start, mid, mid.allocate(values.last()));
    }
}

/// Order preservation: a run of allocations appends its values, in order,
/// after the elements already there.
pub proof fn order_preservation<T>(start: ChunksView<T>, values: Seq<T>)
    requires
        start.wf(),
    ensures
        allocate_all(start, values).elements() == start.elements() + values,
    decreases values.len(),
{
    if values.len() == 0 {
        assert(start.elements() + values =~= start.elements());
    } else {
        let mid = allocate_all(start, values.drop_last());
        order_preservation(start, values.drop_last());
        address_stability(start, values.drop_last());
        lemma_allocate(mid, values.last());
        assert(start.elements() + values =~= (start.elements() + values.drop_last()).push(
            values.last(),
        ));
    }
}

/// Minimum capacity: asking for no capacity at all gives the same list as
/// asking for one slot.
pub proof fn zero_capacity_is_one<T>()
    ensures
        ChunksView::<T>::initial(0) == ChunksView::<T>::initial(1),
{
}

/// Eager growth: the allocation that fills the open chunk seals it and opens
/// an empty chunk of twice the capacity before it returns, so the next
/// allocation always finds a free slot.
pub proof fn eager_growth<T>(a: ChunksView<T>, value: T)
    requires
        a.wf(),
    ensures
        a.allocate(value).has_room(),
        a.open.len() + 1 == a.capacity ==> {
            &&& a.allocate(value).sealed == a.sealed.push(a.open.push(value))
            &&& a.allocate(value).open.len() == 0
            &&& a.allocate(value).capacity == 2 * a.capacity
        },
{
    lemma_allocate(a, value);
}

/// Rollback: a reservation that is abandoned leaves the list as it was, so
/// the slot it held is the one that the next allocation fills.
pub proof fn rollback_frees_slot<T>(
    before: ChunksView<T>,
    after: ChunksView<T>,
    reserved: Slot,
    value: T,
)
    requires
        before.wf(),
        before.is_next(reserved),
        after == before,
    ensures
        after.elements() == before.elements(),
        after.is_next(reserved),
        after.allocate(value).valid(reserved),
        after.allocate(value).at(reserved) == value,
{
    lemma_allocate(after, value);
}

} // verus!
