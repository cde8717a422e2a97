//! The storage capability: a backing buffer that exposes its contents as
//! one contiguous slice, read-only or mutably. Owned buffers and borrowed
//! spans satisfy the same contract, so code generic over storage works
//! with either.

use vstd::prelude::*;

verus! {

/// Read access to a flat backing buffer.
pub trait AsSlice {
    type Item;

    /// The buffer's contents.
    spec fn spec_items(&self) -> Seq<Self::Item>;

    fn as_slice(&self) -> (r: &[Self::Item])
        ensures
            r@ == self.spec_items(),
    ;
}

/// Write access to a flat backing buffer. Writing through the exposed
/// slice cannot change anything but the buffer's contents.
pub trait AsMutSlice: AsSlice {
    fn as_mut_slice(&mut self) -> (r: &mut [Self::Item])
        ensures
            r@ == old(self).spec_items(),
            final(self).spec_items() == final(r)@,
    ;
}

impl<T> AsSlice for Vec<T> {
    type Item = T;

    open spec fn spec_items(&self) -> Seq<T> {
        self@
    }

    fn as_slice(&self) -> (r: &[T]) {
        Vec::as_slice(self)
    }
}

impl<T> AsMutSlice for Vec<T> {
    fn as_mut_slice(&mut self) -> (r: &mut [T]) {
        Vec::as_mut_slice(self)
    }
}

impl<'s, T> AsSlice for &'s [T] {
    type Item = T;

    open spec fn spec_items(&self) -> Seq<T> {
        (*self)@
    }

    fn as_slice(&self) -> (r: &[T]) {
        *self
    }
}

impl<'s, T> AsSlice for &'s mut [T] {
    type Item = T;

    open spec fn spec_items(&self) -> Seq<T> {
        (*self)@
    }

    fn as_slice(&self) -> (r: &[T]) {
        *self
    }
}

impl<'s, T> AsMutSlice for &'s mut [T] {
    fn as_mut_slice(&mut self) -> (r: &mut [T]) {
        *self
    }
}

} // verus!
