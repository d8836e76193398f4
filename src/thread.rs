//! Sizing of the native threads that carry logical cores.
use vstd::prelude::*;

verus! {

/// The smallest stack a worker thread gets: 2 MiB.
pub const DEFAULT_MIN_STACK_SIZE: usize = 2 * 1024 * 1024;

/// The stack size a thread is created with when `requested` bytes are asked
/// for: the request, raised to the floor `DEFAULT_MIN_STACK_SIZE`.
pub fn stack_size(requested: usize) -> (r: usize)
    ensures
        r == if requested < DEFAULT_MIN_STACK_SIZE {
            DEFAULT_MIN_STACK_SIZE
        } else {
            requested
        },
{
    if requested < DEFAULT_MIN_STACK_SIZE {
        DEFAULT_MIN_STACK_SIZE
    } else {
        requested
    }
}

} // verus!
