//! A number together with what it was read off.
use vstd::prelude::*;

verus! {

/// A number that was read off a value of type `S`.
pub struct Reading<S> {
    value: usize,
    of: Ghost<S>,
}

/// What is known of a reading once the number has been used.
pub struct Mark<S> {
    value: Ghost<usize>,
    of: Ghost<S>,
}

impl<S> Reading<S> {
    /// The number.
    pub closed spec fn value(self) -> usize {
        self.value
    }

    /// What it was read off.
    pub closed spec fn of(self) -> S {
        self.of@
    }

    /// A number that was read off something. What that was is for the caller to say.
    pub(crate) fn new(value: usize) -> (reading: Self)
        ensures
            reading.value() == value,
    {
        Reading { value, of: Ghost(arbitrary()) }
    }

    /// The number.
    pub fn get(&self) -> (value: usize)
        ensures
            value == self.value(),
        opens_invariants none
        no_unwind
    {
        self.value
    }

    /// The mark of the reading.
    pub fn mark(self) -> (mark: Mark<S>)
        ensures
            mark.value() == self.value(),
            mark.of() == self.of(),
        opens_invariants none
        no_unwind
    {
        Mark { value: Ghost(self.value), of: self.of }
    }
}

impl<S> Mark<S> {
    /// The number.
    pub closed spec fn value(self) -> usize {
        self.value@
    }

    /// What it was read off.
    pub closed spec fn of(self) -> S {
        self.of@
    }
}

} // verus!
