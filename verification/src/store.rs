//! The counter store: one unsigned integer that only ever grows.

use vstd::prelude::*;

verus! {

/// The count shown on the pages. It starts at zero and is only ever raised.
pub struct Counter {
    value: usize,
}

impl View for Counter {
    type V = nat;

    closed spec fn view(&self) -> nat {
        self.value as nat
    }
}

impl Counter {
    /// A counter at zero.
    pub fn new() -> (counter: Counter)
        ensures
            counter@ == 0,
    {
        Counter { value: 0 }
    }

    /// The current count.
    pub fn read(&self) -> (n: usize)
        ensures
            n == self@,
    {
        self.value
    }

    /// Raises the count by `diff` and returns the new count. Where the sum
    /// does not fit in a `usize`, the count stays as it was and `None` comes
    /// back.
    pub fn increment_by(&mut self, diff: usize) -> (r: Option<usize>)
        ensures
            r == spec_increment_by(old(self)@, diff as nat).1,
            final(self)@ == spec_increment_by(old(self)@, diff as nat).0,
            final(self)@ >= old(self)@,
    {
        match self.value.checked_add(diff) {
            Some(sum) => {
                self.value = sum;
                Some(sum)
            },
            None => None,
        }
    }
}

/// What `increment_by` does to a count of `n`: the count afterwards, and the
/// value handed back.
pub open spec fn spec_increment_by(n: nat, diff: nat) -> (nat, Option<usize>) {
    if n + diff <= usize::MAX {
        (n + diff, Some((n + diff) as usize))
    } else {
        (n, None)
    }
}

} // verus!
