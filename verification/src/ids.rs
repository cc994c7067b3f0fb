//! Allocation of record ids.

use vstd::prelude::*;

verus! {

/// Hands out the ids of one kind of record: 1, 2, 3 and so on, each once.
pub struct IdAllocator {
    last: u64,
}

impl View for IdAllocator {
    type V = u64;

    /// The id handed out last, or 0 if none was.
    closed spec fn view(&self) -> u64 {
        self.last
    }
}

/// The id that follows `last`, if there is one.
pub open spec fn id_after(last: u64) -> Option<u64> {
    if last == u64::MAX {
        None
    } else {
        Some((last + 1) as u64)
    }
}

impl IdAllocator {
    /// An allocator that has handed out nothing.
    pub fn new() -> (ids: IdAllocator)
        ensures
            ids@ == 0,
    {
        IdAllocator { last: 0 }
    }

    /// An allocator that goes on after `last`.
    pub fn starting_after(last: u64) -> (ids: IdAllocator)
        ensures
            ids@ == last,
    {
        IdAllocator { last }
    }

    /// The id handed out last, or 0 if none was.
    pub fn last(&self) -> (last: u64)
        ensures
            last == self@,
    {
        self.last
    }

    /// Hands out the next id. Once `u64::MAX` has been handed out there is no
    /// next id, and the allocator stays as it is.
    pub fn next(&mut self) -> (id: Option<u64>)
        ensures
            id == id_after(old(self)@),
            final(self)@ == match id {
                Some(id) => id,
                None => old(self)@,
            },
    {
        if self.last == u64::MAX {
            None
        } else {
            self.last = self.last + 1;
            Some(self.last)
        }
    }
}

} // verus!
