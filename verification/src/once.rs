//! A cell that is written at most once.

use vstd::prelude::*;

verus! {

/// A cell that is empty at first and keeps the first value it is given.
pub struct OnceCell<T> {
    value: Option<T>,
}

impl<T> View for OnceCell<T> {
    type V = Option<T>;

    closed spec fn view(&self) -> Option<T> {
        self.value
    }
}

impl<T> OnceCell<T> {
    /// An empty cell.
    pub fn new() -> (cell: OnceCell<T>)
        ensures
            cell@ == None::<T>,
    {
        OnceCell { value: None }
    }

    /// Whether the cell holds a value.
    pub fn initialized(&self) -> (initialized: bool)
        ensures
            initialized == (self@ is Some),
    {
        self.value.is_some()
    }

    /// The value in the cell, if there is one.
    pub fn get(&self) -> (value: Option<&T>)
        ensures
            match value {
                Some(v) => self@ == Some(*v),
                None => self@ is None,
            },
    {
        self.value.as_ref()
    }

    /// Puts a value into an empty cell. A cell that holds one keeps it, and the new value
    /// comes back.
    pub fn set(&mut self, value: T) -> (result: Result<(), T>)
        ensures
            old(self)@ is None ==> result is Ok && final(self)@ == Some(value),
            old(self)@ is Some ==> result == Err::<(), T>(value) && final(self)@ == old(self)@,
    {
        if self.value.is_some() {
            Err(value)
        } else {
            self.value = Some(value);
            Ok(())
        }
    }
}

} // verus!
