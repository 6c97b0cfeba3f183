//! Wrappers that give their contents a cache-line sized alignment.

use vstd::prelude::*;

verus! {

/// Holds a value meant to sit on a 64-byte boundary, against false sharing.
/// The wrapper gives no layout guarantee: its contents sit wherever the
/// compiler places them.
pub struct Align64<T>(pub T);

impl<T> Align64<T> {
    pub fn new(inner: T) -> (r: Self)
        ensures
            r.0 == inner,
    {
        Align64(inner)
    }
}

impl<T> core::ops::Deref for Align64<T> {
    type Target = T;

    fn deref(&self) -> (r: &T)
        ensures
            *r == self.0,
    {
        &self.0
    }
}

impl<T> core::ops::DerefMut for Align64<T> {
    fn deref_mut(&mut self) -> (r: &mut T)
        ensures
            *r == old(self).0,
            final(self).0 == *final(r),
    {
        &mut self.0
    }
}

/// Holds a value meant to sit on a 128-byte boundary: on CPUs whose
/// adjacent-line prefetcher pulls cache lines in pairs, a write to one line
/// can also invalidate its neighbour. The wrapper gives no layout
/// guarantee: its contents sit wherever the compiler places them.
pub struct Align128<T>(pub T);

impl<T> Align128<T> {
    pub fn new(inner: T) -> (r: Self)
        ensures
            r.0 == inner,
    {
        Align128(inner)
    }
}

impl<T> core::ops::Deref for Align128<T> {
    type Target = T;

    fn deref(&self) -> (r: &T)
        ensures
            *r == self.0,
    {
        &self.0
    }
}

impl<T> core::ops::DerefMut for Align128<T> {
    fn deref_mut(&mut self) -> (r: &mut T)
        ensures
            *r == old(self).0,
            final(self).0 == *final(r),
    {
        &mut self.0
    }
}

} // verus!
