//! A reference-counted pointer: clones share one value, which is dropped with the last clone.

use vstd::prelude::*;
use std::rc::Rc;

verus! {

/// A shared, immutable value; cloning the pointer does not clone the value.
pub struct MyRc<T> {
    inner: Rc<T>,
}

impl<T> MyRc<T> {
    /// The value that the pointer shares.
    pub closed spec fn value(&self) -> T {
        *self.inner
    }

    /// A pointer to a new shared value.
    pub fn new(value: T) -> (r: Self)
        ensures
            r.value() == value,
    {
        MyRc { inner: Rc::new(value) }
    }

    /// A reference to the shared value.
    pub fn get(&self) -> (r: &T)
        ensures
            *r == self.value(),
    {
        &*self.inner
    }
}

impl<T> Clone for MyRc<T> {
    /// Another pointer to the same value.
    fn clone(&self) -> (r: Self)
        ensures
            r.value() == self.value(),
    {
        MyRc { inner: Rc::clone(&self.inner) }
    }
}

impl<T> std::ops::Deref for MyRc<T> {
    type Target = T;

    fn deref(&self) -> (r: &T)
        ensures
            *r == self.value(),
    {
        &*self.inner
    }
}

} // verus!
