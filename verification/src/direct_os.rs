//! An allocator that hands every request straight to the operating
//! system's page mapping and unmapping calls. It keeps no state of its own:
//! the calls themselves are made by the program that installs it.

use vstd::prelude::*;

verus! {

/// A stateless handle for the direct operating-system allocator.
pub struct DirectOsAllocator {}

impl DirectOsAllocator {
    pub fn new() -> (r: Self)
        ensures
            r == (DirectOsAllocator {}),
    {
        DirectOsAllocator {}
    }
}

} // verus!
