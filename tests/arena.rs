use std::cell::Cell;
use std::rc::Rc;

use typed_arena::{Arena, Slot};

struct DropCounter {
    value: u32,
    drops: Rc<Cell<usize>>,
}

impl Drop for DropCounter {
    fn drop(&mut self) {
        self.drops.set(self.drops.get() + 1);
    }
}

#[test]
fn three_allocations_seal_the_first_chunk() {
    let mut arena: Arena<u32> = Arena::with_capacity(2);
    let a = arena.allocate(10);
    assert_eq!(arena.current_capacity(), 2);
    assert_eq!(arena.current_length(), 1);
    let b = arena.allocate(20);
    assert_eq!(arena.current_capacity(), 4);
    assert_eq!(arena.current_length(), 0);
    let c = arena.allocate(30);
    assert_eq!(a, Slot { chunk: 0, index: 0 });
    assert_eq!(b, Slot { chunk: 0, index: 1 });
    assert_eq!(c, Slot { chunk: 1, index: 0 });
    assert_eq!(arena.current_length(), 1);
    assert_eq!(arena.into_vec(), vec![10, 20, 30]);
}

#[test]
fn abandoned_place_leaves_no_trace() {
    let mut arena: Arena<u32> = Arena::with_capacity(2);
    let place = arena.make_place();
    place.abandon();
    assert_eq!(arena.current_length(), 0);
    arena.allocate(5);
    assert_eq!(arena.into_vec(), vec![5]);
}

#[test]
fn zero_capacity_becomes_one() {
    let arena: Arena<u32> = Arena::with_capacity(0);
    assert_eq!(arena.current_capacity(), 1);
}

#[test]
fn finalized_value_is_mutable_and_dropped_once() {
    let drops = Rc::new(Cell::new(0));
    {
        let mut arena: Arena<DropCounter> = Arena::with_capacity(2);
        arena.allocate(DropCounter { value: 1, drops: drops.clone() });
        let place = arena.make_place();
        let slot = place.finalize(DropCounter { value: 2, drops: drops.clone() });
        arena.get_mut(slot).unwrap().value = 42;
        assert_eq!(arena.get(slot).unwrap().value, 42);
        arena.allocate(DropCounter { value: 3, drops: drops.clone() });
        assert_eq!(drops.get(), 0);
    }
    assert_eq!(drops.get(), 3);
}

#[test]
fn slots_keep_their_elements_across_later_allocations() {
    let mut arena: Arena<u64> = Arena::with_capacity(1);
    let mut slots: Vec<Slot> = Vec::new();
    for i in 0..200u64 {
        slots.push(arena.allocate(i * 7));
        for (j, s) in slots.iter().enumerate() {
            assert_eq!(*arena.get(*s).unwrap(), j as u64 * 7);
        }
    }
    assert_eq!(*arena.get(slots[0]).unwrap(), 0);
    assert_eq!(*arena.get(slots[199]).unwrap(), 199 * 7);
}

#[test]
fn issued_slots_are_distinct() {
    let mut arena: Arena<u8> = Arena::with_capacity(3);
    let mut slots: Vec<Slot> = Vec::new();
    for i in 0..50u8 {
        let s = arena.allocate(i);
        assert!(!slots.contains(&s));
        slots.push(s);
    }
}

#[test]
fn allocations_and_places_come_out_in_order() {
    let mut arena: Arena<i32> = Arena::with_capacity(2);
    let mut expected = Vec::new();
    for i in 0..40 {
        if i % 3 == 0 {
            let place = arena.make_place();
            place.finalize(i);
        } else if i % 5 == 0 {
            let place = arena.make_place();
            place.abandon();
            continue;
        } else {
            arena.allocate(i);
        }
        expected.push(i);
    }
    assert_eq!(arena.into_vec(), expected);
}

#[test]
fn zero_capacity_behaves_as_one() {
    let mut zero: Arena<u32> = Arena::with_capacity(0);
    let mut one: Arena<u32> = Arena::with_capacity(1);
    for i in 0..10 {
        assert_eq!(zero.allocate(i), one.allocate(i));
        assert_eq!(zero.current_capacity(), one.current_capacity());
        assert_eq!(zero.current_length(), one.current_length());
    }
    assert_eq!(zero.into_vec(), one.into_vec());
}

#[test]
fn filling_the_open_chunk_grows_at_once() {
    let mut arena: Arena<u32> = Arena::with_capacity(3);
    arena.allocate(1);
    arena.allocate(2);
    assert_eq!(arena.current_capacity(), 3);
    arena.allocate(3);
    assert_eq!(arena.current_capacity(), 6);
    assert_eq!(arena.current_length(), 0);
    for i in 0..6 {
        arena.allocate(i);
    }
    assert_eq!(arena.current_capacity(), 12);
    assert_eq!(arena.current_length(), 0);
}

#[test]
fn finalize_that_fills_the_chunk_grows_at_once() {
    let mut arena: Arena<u32> = Arena::with_capacity(1);
    let place = arena.make_place();
    let s = place.finalize(9);
    assert_eq!(s, Slot { chunk: 0, index: 0 });
    assert_eq!(arena.current_capacity(), 2);
    assert_eq!(arena.current_length(), 0);
}

#[test]
fn abandoned_slot_is_reused() {
    let mut arena: Arena<u32> = Arena::with_capacity(4);
    arena.allocate(1);
    let place = arena.make_place();
    let reserved = place.slot();
    assert_eq!(reserved, Slot { chunk: 0, index: 1 });
    place.abandon();
    assert_eq!(arena.current_length(), 1);
    let issued = arena.allocate(2);
    assert_eq!(issued, reserved);
    assert_eq!(*arena.get(issued).unwrap(), 2);
}

#[test]
fn dropped_place_is_abandoned() {
    let mut arena: Arena<u32> = Arena::with_capacity(4);
    {
        let place = arena.make_place();
        assert_eq!(place.slot(), Slot { chunk: 0, index: 0 });
    }
    assert_eq!(arena.current_length(), 0);
    assert_eq!(arena.into_vec(), Vec::<u32>::new());
}

#[test]
fn unknown_slots_are_not_found() {
    let mut arena: Arena<u32> = Arena::with_capacity(2);
    arena.allocate(1);
    assert!(arena.get(Slot { chunk: 0, index: 1 }).is_none());
    assert!(arena.get(Slot { chunk: 1, index: 0 }).is_none());
    assert!(arena.get(Slot { chunk: 5, index: 0 }).is_none());
    assert!(arena.get_mut(Slot { chunk: 0, index: 3 }).is_none());
    arena.allocate(2);
    assert_eq!(*arena.get(Slot { chunk: 0, index: 1 }).unwrap(), 2);
    assert!(arena.get(Slot { chunk: 1, index: 0 }).is_none());
}

#[test]
fn mutation_through_a_slot_changes_only_that_element() {
    let mut arena: Arena<u32> = Arena::with_capacity(2);
    let a = arena.allocate(1);
    let b = arena.allocate(2);
    let c = arena.allocate(3);
    *arena.get_mut(a).unwrap() = 10;
    *arena.get_mut(c).unwrap() = 30;
    assert_eq!(*arena.get(b).unwrap(), 2);
    assert_eq!(arena.into_vec(), vec![10, 2, 30]);
}

#[test]
fn new_divides_the_byte_budget_by_the_element_size() {
    assert_eq!(Arena::<u64>::new().current_capacity(), 128);
    assert_eq!(Arena::<u8>::new().current_capacity(), 1024);
    assert_eq!(Arena::<[u8; 3]>::new().current_capacity(), 341);
    assert_eq!(Arena::<()>::new().current_capacity(), 1024);
    assert_eq!(Arena::<[u8; 2048]>::new().current_capacity(), 1);
}

#[test]
fn empty_arena_gives_an_empty_vec() {
    let arena: Arena<String> = Arena::new();
    assert!(arena.into_vec().is_empty());
}

#[test]
fn owned_values_come_out_unchanged() {
    let mut arena: Arena<String> = Arena::with_capacity(1);
    for w in ["a", "bc", "def", "", "ghij"] {
        arena.allocate(w.to_string());
    }
    assert_eq!(arena.into_vec(), vec!["a", "bc", "def", "", "ghij"]);
}
