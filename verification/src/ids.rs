//! Numbers that tell one window from another.

use vstd::prelude::*;

verus! {

/// Hands out numbers, each one more than the one before.
#[derive(Debug)]
pub struct IdSource {
    next: u64,
}

impl View for IdSource {
    type V = u64;

    closed spec fn view(&self) -> u64 {
        self.next
    }
}

impl IdSource {
    /// A source whose first number is zero.
    pub fn new() -> (source: Self)
        ensures
            source@ == 0,
    {
        IdSource { next: 0 }
    }

    /// The next number. After the greatest number the count begins again at zero.
    pub fn get_id(&mut self) -> (id: u64)
        ensures
            id == old(self)@,
            final(self)@ == (if old(self)@ == u64::MAX {
                0
            } else {
                (old(self)@ + 1) as u64
            }),
    {
        let id = self.next;
        self.next = if id == u64::MAX {
            0
        } else {
            id + 1
        };
        id
    }
}

} // verus!
