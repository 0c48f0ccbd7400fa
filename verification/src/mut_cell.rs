use vstd::prelude::*;

verus! {

/// A cell owning a value that the rest of the program reaches through shared references.
pub struct MutCell<T>(T);

impl<T> View for MutCell<T> {
    type V = T;

    closed spec fn view(&self) -> T {
        self.0
    }
}

impl<T> MutCell<T> {
    pub fn new(value: T) -> (c: Self)
        ensures
            c@ == value,
    {
        Self(value)
    }

    /// The value held.
    pub fn get(&self) -> (r: &T)
        ensures
            *r == self@,
    {
        &self.0
    }
}

} // verus!
