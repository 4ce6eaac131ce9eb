//! The arena itself: move-in allocation, two-phase placement through an
//! `ArenaPlace`, lookups by slot, and extraction of every element in order.
use vstd::layout::size_of;
use vstd::prelude::*;

use crate::chunks::{ChunkList, ChunksView, Slot};
use crate::laws::lemma_allocate;

verus! {

/// The byte budget of the first chunk that `Arena::new` creates.
pub const INITIAL_SIZE: usize = 1024;

/// The capacity `Arena::new` asks for: the byte budget divided by the element
/// size, a zero-sized element counting as one byte.
pub open spec fn default_capacity<T>() -> nat {
    INITIAL_SIZE as nat / if size_of::<T>() == 0 {
        1
    } else {
        size_of::<T>()
    }
}

/// A container that hands out slots for values of one type and releases them
/// all together. Slots are never freed one by one, and a slot, once issued,
/// keeps its element until the arena is dropped or emptied.
///
/// Every method takes the arena by `&mut` or by value, so no call on an arena
/// can start while another call on it is still running.
pub struct Arena<T> {
    chunks: ChunkList<T>,
}

impl<T> View for Arena<T> {
    type V = ChunksView<T>;

    closed spec fn view(&self) -> ChunksView<T> {
        self.chunks@
    }
}

impl<T> Arena<T> {
    /// An empty arena whose first chunk holds about `INITIAL_SIZE` bytes of
    /// elements, and at least one element.
    pub fn new() -> (r: Arena<T>)
        ensures
            r@ == ChunksView::<T>::initial(default_capacity::<T>()),
            r@.wf(),
    {
        let size = core::mem::size_of::<T>();
        let size: usize = if size == 0 {
            1
        } else {
            size
        };
        Arena::with_capacity(INITIAL_SIZE / size)
    }

    /// An empty arena whose first chunk has room for `n` elements, and for
    /// one if `n` is zero.
    pub fn with_capacity(n: usize) -> (r: Arena<T>)
        ensures
            r@ == ChunksView::<T>::initial(n as nat),
            r@.wf(),
    {
        Arena { chunks: ChunkList::new(n) }
    }

    /// Moves `value` into the next free slot and returns that slot. If this
    /// fills the open chunk, the chunk is sealed and a chunk of twice its
    /// capacity is opened before the call returns.
    pub fn allocate(&mut self, value: T) -> (s: Slot)
        requires
            old(self)@.wf(),
            old(self)@.growth_fits(),
        ensures
            final(self)@ == old(self)@.allocate(value),
            final(self)@.wf(),
            old(self)@.is_next(s),
            !old(self)@.valid(s),
            final(self)@.valid(s),
            final(self)@.at(s) == value,
            final(self)@.keeps(old(self)@),
            final(self)@.elements() == old(self)@.elements().push(value),
    {
        proof {
            lemma_allocate(self@, value);
        }
        let index = self.chunks.push(value);
        let chunk = self.chunks.sealed_count();
        if self.chunks.current_length() == self.chunks.current_capacity() {
            self.chunks.grow();
        }
        Slot { chunk, index }
    }

    /// Reserves the next free slot for a value that the caller is about to
    /// build. The arena cannot be used in any other way until the place is
    /// finalized or abandoned; dropping the place abandons it.
    pub fn make_place(&mut self) -> (p: ArenaPlace<'_, T>)
        ensures
            *p.arena == *old(self),
            *final(p.arena) == *final(self),
    {
        ArenaPlace { arena: self }
    }

    /// The number of elements in the open chunk.
    pub fn current_length(&self) -> (r: usize)
        ensures
            r == self@.open.len(),
    {
        self.chunks.current_length()
    }

    /// The capacity of the open chunk.
    pub fn current_capacity(&self) -> (r: usize)
        ensures
            r == self@.capacity,
    {
        self.chunks.current_capacity()
    }

    /// The element in slot `s`, or `None` if this arena has issued no such slot.
    pub fn get(&self, s: Slot) -> (r: Option<&T>)
        ensures
            r is Some <==> self@.valid(s),
            r matches Some(v) ==> *v == self@.at(s),
    {
        self.chunks.get(s)
    }

    /// A mutable reference to the element in slot `s`, or `None` if this
    /// arena has issued no such slot.
    pub fn get_mut(&mut self, s: Slot) -> (r: Option<&mut T>)
        ensures
            r is Some <==> old(self)@.valid(s),
            r matches Some(v) ==> *v == old(self)@.at(s) && final(self)@ == old(self)@.update(
                s,
                *final(v),
            ),
            r is None ==> final(self)@ == old(self)@,
    {
        self.chunks.get_mut(s)
    }

    /// Consumes the arena and returns its elements in the order in which they
    /// were allocated.
    pub fn into_vec(self) -> (r: Vec<T>)
        ensures
            r@ == self@.elements(),
    {
        self.chunks.extract_all_in_order()
    }
}

/// A reservation of the next free slot of an arena, made by
/// `Arena::make_place`. It ends in exactly one of `finalize`, which fills the
/// slot, or `abandon`, which leaves the arena as it was; dropping it abandons
/// it too. While it lives, it holds the only access to the arena.
pub struct ArenaPlace<'a, T> {
    /// The arena the slot is reserved in.
    pub arena: &'a mut Arena<T>,
}

impl<'a, T> ArenaPlace<'a, T> {
    /// The slot that this reservation fills when it is finalized.
    pub fn slot(&self) -> (s: Slot)
        ensures
            old(self.arena)@.is_next(s),
    {
        Slot { chunk: self.arena.chunks.sealed_count(), index: self.arena.current_length() }
    }

    /// Fills the reserved slot with `value` and returns it. If this fills the
    /// open chunk, the arena grows before the call returns.
    pub fn finalize(self, value: T) -> (s: Slot)
        requires
            self.arena@.wf(),
            self.arena@.growth_fits(),
        ensures
            final(self.arena)@ == old(self.arena)@.allocate(value),
            final(self.arena)@.wf(),
            old(self.arena)@.is_next(s),
            final(self.arena)@.valid(s),
            final(self.arena)@.at(s) == value,
            final(self.arena)@.keeps(old(self.arena)@),
            final(self.arena)@.elements() == old(self.arena)@.elements().push(value),
    {
        self.arena.allocate(value)
    }

    /// Gives the reservation up: the arena is left exactly as it was, and its
    /// next allocation fills the slot that was reserved.
    pub fn abandon(self)
        ensures
            *final(self.arena) == *old(self.arena),
    {
    }
}

} // verus!
