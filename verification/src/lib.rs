//! A small memory-allocation library: alignment arithmetic, a bump
//! allocator modelled as a state machine over addresses, and a handle for
//! an allocator that goes straight to the operating system.

pub mod util;
pub mod bump;
pub mod bump_laws;
pub mod direct_os;

pub use direct_os::DirectOsAllocator;
