//! Trusted boundary to the io_uring descriptor types and the task waker.
//!
//! Everything here either declares an outside type so that verified code can
//! carry its values, or wraps one outside call whose contract Verus believes.

use vstd::prelude::*;

verus! {

#[verifier::external_type_specification]
#[verifier::external_body]
pub struct ExSubmissionEntry(io_uring::squeue::Entry);

#[verifier::external_type_specification]
#[verifier::external_body]
pub struct ExWaker(core::task::Waker);

/// What the more-completions-to-follow bit of a completion's flags decodes to.
pub open spec fn spec_more(flags: u32) -> bool {
    flags & 2u32 != 0u32
}

/// Which kernel-selected buffer index, if any, a completion's flags carry:
/// bit zero marks the presence of a buffer, the upper sixteen bits its index.
pub open spec fn spec_buffer_select(flags: u32) -> Option<u16> {
    if flags & 1u32 != 0u32 {
        Some((flags >> 16u32) as u16)
    } else {
        None
    }
}

/// Relies on io_uring::cqueue::more: reports the flag bit that announces
/// further completions for the same submission.
pub assume_specification [ io_uring::cqueue::more ](flags: u32) -> (r: bool)
    ensures
        r == spec_more(flags),
;

/// Relies on io_uring::cqueue::buffer_select: decodes the kernel-selected
/// buffer index out of the completion flags.
pub assume_specification [ io_uring::cqueue::buffer_select ](flags: u32) -> (r: Option<u16>)
    ensures
        r == spec_buffer_select(flags),
;

/// Relies on core::task::Waker::will_wake: best-effort test whether the two
/// wakers would awake the same task. Nothing is promised of the answer.
pub assume_specification [ core::task::Waker::will_wake ](a: &core::task::Waker, b: &core::task::Waker) -> (r: bool)
;

/// Relies on core::task::Waker::wake: signals the owning task and consumes
/// the waker. The effect is on the task scheduler, not on any crate state.
pub assume_specification [ core::task::Waker::wake ](w: core::task::Waker)
;

/// Relies on core::task::Waker::wake_by_ref: as wake, keeping the waker.
pub assume_specification [ core::task::Waker::wake_by_ref ](w: &core::task::Waker)
;

/// Relies on io_uring::squeue::Entry::user_data: writes the given value into
/// the descriptor's user-data field, which the kernel echoes verbatim in the
/// matching completion. The descriptor is opaque here; `Submission` keeps the
/// stamped value beside it so that contracts can speak of it.
#[verifier::external_body]
pub(crate) fn stamp_user_data(e: io_uring::squeue::Entry, data: u64) -> (r: io_uring::squeue::Entry) {
    e.user_data(data)
}

/// Relies on io_uring::opcode::AsyncCancel: builds a descriptor that asks the
/// kernel to cancel the in-flight operation carrying the given user-data.
#[verifier::external_body]
pub(crate) fn build_cancel_entry(target: u64) -> (r: io_uring::squeue::Entry) {
    io_uring::opcode::AsyncCancel::new(target).build()
}

/// Relies on io_uring::opcode::Shutdown: builds a descriptor that shuts down
/// all or part of a full-duplex connection on the given socket.
#[verifier::external_body]
pub(crate) fn build_shutdown_entry(fd: i32, how: i32) -> (r: io_uring::squeue::Entry) {
    io_uring::opcode::Shutdown::new(io_uring::types::Fd(fd), how).build()
}

} // verus!
