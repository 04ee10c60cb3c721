//! A value that remembers whether it was handed out for writing since it was
//! last asked.

use vstd::prelude::*;

verus! {

/// A value with a flag that is raised whenever the value is handed out for
/// writing, and lowered by the one who asks for it.
pub struct CValue<T> {
    value: T,
    changed: bool,
}

impl<T> CValue<T> {
    /// The value held.
    pub closed spec fn content(&self) -> T {
        self.value
    }

    /// Whether the value was handed out for writing since the flag was last
    /// read.
    pub closed spec fn pending(&self) -> bool {
        self.changed
    }

    /// Wraps a value, with the flag lowered.
    pub fn new(value: T) -> (wrapped: Self)
        ensures
            wrapped.content() == value,
            !wrapped.pending(),
    {
        CValue { value, changed: false }
    }

    /// Reads the flag and lowers it: after a change the first call returns
    /// `true`, and the calls after it `false` until the next change.
    pub fn is_changed(&mut self) -> (was: bool)
        ensures
            was == old(self).pending(),
            !final(self).pending(),
            final(self).content() == old(self).content(),
    {
        let b = self.changed;
        self.changed = false;
        b
    }

    /// Lends the value for reading. The flag stays as it is.
    pub fn get(&self) -> (value: &T)
        ensures
            *value == self.content(),
    {
        &self.value
    }

    /// Lends the value for writing and raises the flag, whether or not the
    /// borrower then writes.
    pub fn change(&mut self) -> (value: &mut T)
        ensures
            *value == old(self).content(),
            final(self).content() == *final(value),
            final(self).pending(),
    {
        self.changed = true;
        &mut self.value
    }

    /// Replaces the value and raises the flag.
    pub fn set(&mut self, value: T)
        ensures
            final(self).content() == value,
            final(self).pending(),
    {
        self.value = value;
        self.changed = true;
    }
}

} // verus!
