//! io_uring backend scaffold: not wired into the runtime yet.
use vstd::prelude::*;

verus! {

/// Marker of the io_uring backend.
pub struct IoUringBackend;

impl IoUringBackend {
    /// Whether the kernel supports io_uring: conservatively `false` until
    /// the backend probes it.
    pub fn kernel_supported() -> (r: bool)
        ensures
            !r,
    {
        false
    }
}

} // verus!
