//! Core of a single-threaded completion-based I/O runtime.
//!
//! The crate models the operation lifecycle engine of an io_uring driver:
//! submissions are stamped with a dense slot key, completions are routed back
//! to the owning slot, kernel-selected receive buffers are lent out and
//! reclaimed, and dropping an in-flight handle abandons the slot and issues a
//! best-effort cancellation. The kernel itself (ring creation, syscalls,
//! blocking waits) lives outside the crate; the embedder feeds raw completion
//! values in and carries stamped descriptors out.

use vstd::prelude::*;

pub mod ext;
pub mod pool;
pub mod table;
pub mod lifecycle;
pub mod queue;
pub mod driver;
pub mod shutdown;

verus! {

/// Buffer group id used for the registered receive-buffer ring.
pub const BUF_GROUP_ID: u16 = 666;

/// Number of receive buffers registered with the kernel.
pub const BUF_COUNT: u16 = 128;

/// Byte length of each receive buffer.
pub const BUF_LEN: usize = 4096;

/// Capacity of the submission queue.
pub const RING_CAPACITY: usize = 256;

/// Reserved all-ones user-data value: completions carrying it are discarded.
pub const SENTINEL_USER_DATA: u64 = u64::MAX;

/// Interrupted system call.
pub const ERRNO_INTR: i32 = 4;

/// Device or resource busy.
pub const ERRNO_BUSY: i32 = 16;

/// Resource already exists (duplicate buffer-group registration).
pub const ERRNO_EXIST: i32 = 17;

/// Invalid argument (buffer-ring registration on a kernel that lacks it).
pub const ERRNO_INVAL: i32 = 22;

/// Why driver initialization was refused.
#[derive(PartialEq, Eq, Structural, Clone, Copy, Debug)]
pub enum InitError {
    /// The kernel is too old or lacks a required feature.
    Unsupported,
    /// The buffer group id is already registered.
    Conflict,
    /// Any other registration failure, with the raw error number.
    Other(i32),
}

/// Why a completion could not be dispatched. Each variant marks a protocol
/// violation between the kernel and the driver; the embedder aborts on it.
#[derive(PartialEq, Eq, Structural, Clone, Copy, Debug)]
pub enum DispatchError {
    /// The completion's user-data does not name an occupied slot.
    UnknownKey,
    /// The slot already holds a buffered terminal completion.
    AlreadyCompleted,
    /// The kernel reported a buffer index that is out of range or already lent out.
    BadBuffer,
}

/// The error number classification for buffer-ring registration.
pub open spec fn spec_classify_register(errno: i32) -> InitError {
    if errno == ERRNO_INVAL {
        InitError::Unsupported
    } else if errno == ERRNO_EXIST {
        InitError::Conflict
    } else {
        InitError::Other(errno)
    }
}

/// Maps the error number returned by buffer-ring registration to the
/// initialization error taxonomy: invalid-argument means the kernel predates
/// buffer rings, an existing entry means the group id is already taken.
pub fn classify_register_errno(errno: i32) -> (r: InitError)
    ensures
        r == spec_classify_register(errno),
{
    if errno == ERRNO_INVAL {
        InitError::Unsupported
    } else if errno == ERRNO_EXIST {
        InitError::Conflict
    } else {
        InitError::Other(errno)
    }
}

/// Refuses to start unless the kernel offers fast poll and buffer-ring
/// support; both were probed by the embedder.
pub fn check_kernel_features(fast_poll: bool, buf_ring: bool) -> (r: Result<(), InitError>)
    ensures
        r is Ok <==> (fast_poll && buf_ring),
        r is Err ==> r->Err_0 == InitError::Unsupported,
{
    if fast_poll && buf_ring {
        Ok(())
    } else {
        Err(InitError::Unsupported)
    }
}

/// A wait that fails with one of these error numbers is treated as an empty
/// drain, not a failure: the caller performs no state transition.
pub fn wait_error_benign(errno: i32) -> (r: bool)
    ensures
        r == (errno == ERRNO_BUSY || errno == ERRNO_INTR),
{
    errno == ERRNO_BUSY || errno == ERRNO_INTR
}

} // verus!
