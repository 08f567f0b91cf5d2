//! The socket-shutdown operation: the one per-opcode wrapper the core keeps,
//! as the smallest payload exercising the whole lifecycle.

use vstd::prelude::*;
use crate::SENTINEL_USER_DATA;
use crate::driver::Driver;
use crate::driver::Handle;
use crate::ext::build_shutdown_entry;
use crate::lifecycle::Completable;
use crate::lifecycle::CqeResult;
use crate::lifecycle::Lifecycle;

verus! {

/// A shutdown of all or part of a full-duplex connection; the payload only
/// remembers the target socket.
pub struct Shutdown {
    pub fd: i32,
}

impl Completable for Shutdown {
    type Output = Result<u32, i32>;

    fn complete(self, cqe: CqeResult) -> Result<u32, i32> {
        cqe.result
    }

    fn update(&mut self, _cqe: CqeResult) {
    }
}

impl Driver<Shutdown> {
    /// Submits a shutdown descriptor for the given socket and mode.
    pub fn shutdown(&mut self, fd: i32, how: i32) -> (h: Handle<Shutdown>)
        requires
            old(self).wf(),
            old(self).table.slots@.len() < usize::MAX,
        ensures
            final(self).wf(),
            !old(self).table@.dom().contains(h.key as int),
            final(self).table@ == old(self).table@.insert(h.key as int, Lifecycle::<Shutdown>::Submitted),
            h.payload matches Some(p) && p.fd == fd,
            (h.key as u64) != SENTINEL_USER_DATA,
            final(self).queue.all_data() == old(self).queue.all_data().push(h.key as u64),
            final(self).pool == old(self).pool,
    {
        let entry = build_shutdown_entry(fd, how);
        self.submit(Shutdown { fd }, entry)
    }
}

} // verus!
