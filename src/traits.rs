//! Small capabilities shared by runtime values.
use vstd::prelude::*;

verus! {

/// Whether a value equals its type's default.
pub trait IsEmpty {
    fn is_empty(&self) -> bool;
}

impl<T: Default + Eq> IsEmpty for T {
    fn is_empty(&self) -> bool {
        self.eq(&T::default())
    }
}

/// Release of the resources a value holds.
pub trait Dispose {
    fn dispose(&mut self);
}

} // verus!
