//! Chunked storage: one open chunk that takes new elements, and the sealed
//! chunks before it, each exactly full and never touched again.
use vstd::prelude::*;

verus! {

broadcast use vstd::seq_lib::group_seq_properties;

/// The coordinates of one slot: the chunk it lives in (sealed chunks first,
/// oldest first, then the open chunk) and its index within that chunk.
#[derive(Clone, Copy, PartialEq, Eq, Structural, Debug)]
pub struct Slot {
    pub chunk: usize,
    pub index: usize,
}

/// The abstract state of a chunk list.
pub struct ChunksView<T> {
    /// The sealed chunks, oldest first.
    pub sealed: Seq<Seq<T>>,
    /// The contents of the open chunk.
    pub open: Seq<T>,
    /// The fixed capacity of the open chunk.
    pub capacity: nat,
}

impl<T> ChunksView<T> {
    /// A fresh list: one empty open chunk whose capacity is the requested one,
    /// raised to at least one slot.
    pub open spec fn initial(requested: nat) -> Self {
        ChunksView {
            sealed: Seq::empty(),
            open: Seq::empty(),
            capacity: if requested == 0 { 1 } else { requested },
        }
    }

    /// Every chunk, sealed ones first, the open chunk last.
    pub open spec fn chunks(self) -> Seq<Seq<T>> {
        self.sealed.push(self.open)
    }

    /// All elements in the order in which they were appended.
    pub open spec fn elements(self) -> Seq<T> {
        self.sealed.flatten() + self.open
    }

    /// Each sealed chunk holds exactly the capacity it was created with: half
    /// the capacity of the chunk that replaced it.
    pub open spec fn sealed_full(self) -> bool {
        forall|i: int|
            0 <= i < self.sealed.len() ==> 2 * (#[trigger] self.sealed[i]).len() == if i + 1
                < self.sealed.len() {
                self.sealed[i + 1].len() as int
            } else {
                self.capacity as int
            }
    }

    /// The shape that holds between operations, the open chunk possibly full.
    pub open spec fn sound(self) -> bool {
        &&& self.capacity >= 1
        &&& self.open.len() <= self.capacity
        &&& self.sealed_full()
    }

    /// The open chunk has at least one free slot.
    pub open spec fn has_room(self) -> bool {
        self.open.len() < self.capacity
    }

    /// The open chunk is exactly full.
    pub open spec fn is_full(self) -> bool {
        self.open.len() == self.capacity
    }

    /// The shape that holds after every completed operation on an arena.
    pub open spec fn wf(self) -> bool {
        self.sound() && self.has_room()
    }

    /// Writes a value into the next free slot of the open chunk.
    pub open spec fn push(self, value: T) -> Self {
        ChunksView { open: self.open.push(value), ..self }
    }

    /// Seals the open chunk and opens an empty one of twice its capacity.
    pub open spec fn grow(self) -> Self {
        ChunksView { sealed: self.sealed.push(self.open), open: Seq::empty(), capacity: 2 * self.capacity }
    }

    /// Appends a value and, if that filled the open chunk, grows at once.
    pub open spec fn allocate(self, value: T) -> Self {
        let pushed = self.push(value);
        if pushed.is_full() {
            pushed.grow()
        } else {
            pushed
        }
    }

    /// Growth, if the next append brings it about, yields a capacity that fits in `usize`.
    pub open spec fn growth_fits(self) -> bool {
        self.open.len() + 1 < self.capacity || 2 * self.capacity <= usize::MAX
    }

    /// `s` is the slot that the next append fills.
    pub open spec fn is_next(self, s: Slot) -> bool {
        s.chunk == self.sealed.len() && s.index == self.open.len()
    }

    /// `s` names a slot that holds an element.
    pub open spec fn valid(self, s: Slot) -> bool {
        s.chunk < self.chunks().len() && s.index < self.chunks()[s.chunk as int].len()
    }

    /// The element in slot `s`.
    pub open spec fn at(self, s: Slot) -> T {
        self.chunks()[s.chunk as int][s.index as int]
    }

    /// The same state with the element in slot `s` replaced.
    pub open spec fn update(self, s: Slot, value: T) -> Self {
        if s.chunk < self.sealed.len() {
            ChunksView {
                sealed: self.sealed.update(
                    s.chunk as int,
                    self.sealed[s.chunk as int].update(s.index as int, value),
                ),
                ..self
            }
        } else {
            ChunksView { open: self.open.update(s.index as int, value), ..self }
        }
    }

    /// Every slot that held an element in `earlier` still exists here and
    /// holds the same element.
    pub open spec fn keeps(self, earlier: Self) -> bool {
        forall|s: Slot| #[trigger] earlier.valid(s) ==> self.valid(s) && self.at(s) == earlier.at(s)
    }
}

/// The contents of each chunk in a list of chunks.
pub open spec fn chunk_views<T>(chunks: Seq<Vec<T>>) -> Seq<Seq<T>> {
    chunks.map_values(|c: Vec<T>| c@)
}

/// An open chunk and the sealed chunks before it.
pub struct ChunkList<T> {
    current: Vec<T>,
    capacity: usize,
    rest: Vec<Vec<T>>,
}

impl<T> View for ChunkList<T> {
    type V = ChunksView<T>;

    closed spec fn view(&self) -> ChunksView<T> {
        ChunksView {
            sealed: chunk_views(self.rest@),
            open: self.current@,
            capacity: self.capacity as nat,
        }
    }
}

impl<T> ChunkList<T> {
    /// One empty open chunk of the requested capacity (at least one slot) and
    /// no sealed chunks.
    pub fn new(requested: usize) -> (r: Self)
        ensures
            r@ == ChunksView::<T>::initial(requested as nat),
    {
        let capacity: usize = if requested == 0 {
            1
        } else {
            requested
        };
        let r = ChunkList { current: Vec::with_capacity(capacity), capacity, rest: Vec::new() };
        assert(r@.sealed =~= Seq::<Seq<T>>::empty());
        r
    }

    /// The number of elements in the open chunk.
    pub fn current_length(&self) -> (r: usize)
        ensures
            r == self@.open.len(),
    {
        self.current.len()
    }

    /// The capacity of the open chunk.
    pub fn current_capacity(&self) -> (r: usize)
        ensures
            r == self@.capacity,
    {
        self.capacity
    }

    /// The number of sealed chunks.
    pub fn sealed_count(&self) -> (r: usize)
        ensures
            r == self@.sealed.len(),
    {
        self.rest.len()
    }

    /// Writes `value` into the next free slot of the open chunk and returns
    /// that slot's index within the open chunk.
    pub fn push(&mut self, value: T) -> (index: usize)
        requires
            old(self)@.sound(),
            old(self)@.has_room(),
        ensures
            final(self)@ == old(self)@.push(value),
            index == old(self)@.open.len(),
    {
        let index = self.current.len();
        self.current.push(value);
        index
    }

    /// Seals the full open chunk, unchanged, after the other sealed chunks and
    /// opens an empty chunk of twice its capacity.
    pub fn grow(&mut self)
        requires
            old(self)@.sound(),
            old(self)@.is_full(),
            2 * old(self)@.capacity <= usize::MAX,
        ensures
            final(self)@ == old(self)@.grow(),
            final(self)@.sound(),
    {
        let new_capacity = self.capacity * 2;
        let mut chunk: Vec<T> = Vec::with_capacity(new_capacity);
        std::mem::swap(&mut chunk, &mut self.current);
        self.rest.push(chunk);
        self.capacity = new_capacity;
        proof {
            let before = old(self)@;
            assert(self@.sealed =~= before.sealed.push(before.open));
            assert(self@.open =~= Seq::<T>::empty());
        }
    }

    /// The element in slot `s`, if `s` holds one.
    pub fn get(&self, s: Slot) -> (r: Option<&T>)
        ensures
            r is Some <==> self@.valid(s),
            r matches Some(v) ==> *v == self@.at(s),
    {
        if s.chunk < self.rest.len() {
            if s.index < self.rest[s.chunk].len() {
                Some(&self.rest[s.chunk][s.index])
            } else {
                None
            }
        } else if s.chunk == self.rest.len() && s.index < self.current.len() {
            Some(&self.current[s.index])
        } else {
            None
        }
    }

    /// A mutable reference to the element in slot `s`, if `s` holds one.
    pub fn get_mut(&mut self, s: Slot) -> (r: Option<&mut T>)
        ensures
            r is Some <==> old(self)@.valid(s),
            r matches Some(v) ==> *v == old(self)@.at(s) && final(self)@ == old(self)@.update(
                s,
                *final(v),
            ),
            r is None ==> final(self)@ == old(self)@,
    {
        if s.chunk < self.rest.len() {
            if s.index < self.rest[s.chunk].len() {
                proof {
                    let before = self.rest@;
                    // Replacing one chunk replaces only that chunk's contents.
                    assert forall|after: Seq<Vec<T>>|
                        after =~= before.update(s.chunk as int, after[s.chunk as int]) implies
                        #[trigger] chunk_views(after) =~= chunk_views(before).update(
                            s.chunk as int,
                            after[s.chunk as int]@,
                        ) by {}
                }
                Some(&mut self.rest[s.chunk][s.index])
            } else {
                None
            }
        } else if s.chunk == self.rest.len() && s.index < self.current.len() {
            Some(&mut self.current[s.index])
        } else {
            None
        }
    }

    /// Consumes the list and returns every element in append order: the
    /// sealed chunks, oldest first, then the open chunk.
    pub fn extract_all_in_order(self) -> (r: Vec<T>)
        ensures
            r@ == self@.elements(),
    {
        let ghost sealed = self@.sealed;
        let ChunkList { current, capacity: _, rest } = self;
        let mut current = current;
        let mut rest = rest;
        let mut total: usize = current.len();
        let mut i: usize = 0;
        while i < rest.len()
            invariant
                i <= rest@.len(),
            decreases rest@.len() - i,
        {
            total = total.saturating_add(rest[i].len());
            i = i + 1;
        }
        let mut result: Vec<T> = Vec::with_capacity(total);
        let mut i: usize = 0;
        while i < rest.len()
            invariant
                i <= rest@.len() == sealed.len(),
                forall|j: int| i <= j < sealed.len() ==> (#[trigger] rest@[j])@ == sealed[j],
                result@ == sealed.take(i as int).flatten(),
            decreases rest@.len() - i,
        {
            let mut chunk: Vec<T> = Vec::new();
            std::mem::swap(&mut chunk, &mut rest[i]);
            proof {
                assert(sealed.take(i + 1) =~= sealed.take(i as int).push(sealed[i as int]));
                sealed.take(i as int).lemma_flatten_push(sealed[i as int]);
            }
            result.append(&mut chunk);
            i = i + 1;
        }
        proof {
            assert(sealed.take(sealed.len() as int) =~= sealed);
        }
        result.append(&mut current);
        result
    }
}

} // verus!
