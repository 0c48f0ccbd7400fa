use vstd::prelude::*;

verus! {

/// A value that is filled in after construction and used as if always present.
pub struct OptionCell<T>(Option<T>);

impl<T> View for OptionCell<T> {
    type V = Option<T>;

    closed spec fn view(&self) -> Option<T> {
        self.0
    }
}

impl<T> OptionCell<T> {
    pub fn none() -> (c: Self)
        ensures
            c@ is None,
    {
        Self(None)
    }

    pub fn new(value: T) -> (c: Self)
        ensures
            c@ == Some(value),
    {
        Self(Some(value))
    }

    /// The value; the cell must have been filled.
    pub fn get(&self) -> (r: &T)
        requires
            self@ is Some,
        ensures
            *r == self@->0,
    {
        self.0.as_ref().unwrap()
    }

    /// The value, mutably; the cell must have been filled.
    pub fn get_mut(&mut self) -> (r: &mut T)
        requires
            old(self)@ is Some,
        ensures
            *r == old(self)@->0,
            final(self)@ == Some(*final(r)),
    {
        self.0.as_mut().unwrap()
    }
}

} // verus!
