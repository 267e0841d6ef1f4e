//! Identifiers of points.
//!
//! A run numbers its points from a starting identifier upwards, one by
//! one. After a reset the numbering starts at zero; otherwise it starts at
//! the number of points that the collection holds, which takes the
//! identifiers below that number to be in use.

use vstd::prelude::*;

verus! {

/// Hands out consecutive identifiers.
pub struct IdAllocator {
    first: u64,
    next: u64,
}

impl IdAllocator {
    /// The identifier that the run starts with.
    pub closed spec fn first(&self) -> u64 {
        self.first
    }

    /// The identifier that is handed out next.
    pub closed spec fn next(&self) -> u64 {
        self.next
    }

    /// An allocator for a collection that was emptied.
    pub fn after_reset() -> (ids: IdAllocator)
        ensures
            ids.first() == 0,
            ids.next() == 0,
    {
        IdAllocator { first: 0, next: 0 }
    }

    /// An allocator for a collection that holds `points_count` points.
    pub fn continuing(points_count: u64) -> (ids: IdAllocator)
        ensures
            ids.first() == points_count,
            ids.next() == points_count,
    {
        IdAllocator { first: points_count, next: points_count }
    }

    /// The identifier that the run starts with.
    pub fn first_id(&self) -> (id: u64)
        ensures
            id == self.first(),
    {
        self.first
    }

    /// The identifier that is handed out next.
    pub fn next_id(&self) -> (id: u64)
        ensures
            id == self.next(),
    {
        self.next
    }

    /// Whether `count` more identifiers can be handed out.
    pub fn has_room(&self, count: usize) -> (room: bool)
        ensures
            room == (self.next() + count <= u64::MAX),
    {
        count as u64 <= u64::MAX - self.next
    }

    /// Hands out the next identifier.
    pub fn allocate(&mut self) -> (id: u64)
        requires
            old(self).next() < u64::MAX,
        ensures
            id == old(self).next(),
            final(self).next() == old(self).next() + 1,
            final(self).first() == old(self).first(),
    {
        let id = self.next;
        self.next = id + 1;
        id
    }
}

} // verus!
