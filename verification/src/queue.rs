//! The submission queue model: a bounded ring of stamped descriptors with
//! in-line flushing when full, and a hand-off point where the embedder takes
//! everything that must reach the kernel.

use vstd::prelude::*;
use crate::ext::stamp_user_data;

verus! {

/// One stamped submission descriptor. The kernel-readable entry is opaque;
/// the user-data value written into it is kept beside it so that contracts
/// can speak of it. The library builds every submission through `stamp`,
/// which writes both at once, so the two never drift apart.
pub struct Submission {
    pub entry: io_uring::squeue::Entry,
    pub user_data: u64,
}

impl Submission {
    /// Stamps a descriptor with the given user-data.
    pub fn stamp(entry: io_uring::squeue::Entry, data: u64) -> (s: Submission)
        ensures
            s.user_data == data,
    {
        let stamped = stamp_user_data(entry, data);
        Submission { entry: stamped, user_data: data }
    }

    /// Surrenders the kernel-readable descriptor.
    pub fn into_entry(self) -> io_uring::squeue::Entry {
        self.entry
    }
}

/// The user-data values of a sequence of submissions, in order.
pub open spec fn data_of(s: Seq<Submission>) -> Seq<u64> {
    s.map(|i: int, p: Submission| p.user_data)
}

/// The bounded submission queue. `ring` holds descriptors not yet flushed;
/// `flushed` holds those an in-line flush has moved out, awaiting pickup;
/// `handed_off` remembers the user-data of every descriptor the embedder
/// already took for the kernel.
pub struct SubmissionQueue {
    pub capacity: usize,
    pub ring: Vec<Submission>,
    pub flushed: Vec<Submission>,
    pub handed_off: Ghost<Seq<u64>>,
}

impl SubmissionQueue {
    /// Every user-data value this queue was ever given, oldest first:
    /// already handed to the kernel, then flushed, then still in the ring.
    pub open spec fn all_data(&self) -> Seq<u64> {
        self.handed_off@ + data_of(self.flushed@) + data_of(self.ring@)
    }

    /// An empty queue of the given capacity.
    pub fn new(capacity: usize) -> (q: SubmissionQueue)
        requires
            capacity >= 1,
        ensures
            q.capacity == capacity,
            q.ring@.len() == 0,
            q.flushed@.len() == 0,
            q.handed_off@.len() == 0,
            q.all_data().len() == 0,
    {
        SubmissionQueue {
            capacity,
            ring: Vec::new(),
            flushed: Vec::new(),
            handed_off: Ghost(Seq::empty()),
        }
    }

    /// Appends one descriptor. A full ring is flushed in-line first, so no
    /// descriptor is ever lost and order is kept.
    pub fn push(&mut self, s: Submission)
        ensures
            final(self).capacity == old(self).capacity,
            final(self).handed_off@ == old(self).handed_off@,
            final(self).all_data() == old(self).all_data().push(s.user_data),
            old(self).ring@.len() < old(self).capacity ==> {
                &&& final(self).flushed@ == old(self).flushed@
                &&& final(self).ring@ == old(self).ring@.push(s)
            },
            old(self).ring@.len() >= old(self).capacity ==> {
                &&& final(self).flushed@ == old(self).flushed@ + old(self).ring@
                &&& final(self).ring@ =~= seq![s]
            },
    {
        if self.ring.len() >= self.capacity {
            self.flushed.append(&mut self.ring);
        }
        self.ring.push(s);
        proof {
            assert(data_of(self.ring@).last() == s.user_data);
            assert(self.all_data() =~= old(self).all_data().push(s.user_data));
        }
    }

    /// Hands every pending descriptor to the embedder, which pushes them to
    /// the kernel ring and submits; their user-data moves to the hand-off
    /// record, so nothing is forgotten.
    pub fn drain(&mut self) -> (v: Vec<Submission>)
        ensures
            final(self).capacity == old(self).capacity,
            v@ == old(self).flushed@ + old(self).ring@,
            final(self).ring@.len() == 0,
            final(self).flushed@.len() == 0,
            final(self).handed_off@ == old(self).handed_off@ + data_of(v@),
            final(self).all_data() == old(self).all_data(),
    {
        let mut v: Vec<Submission> = Vec::new();
        core::mem::swap(&mut v, &mut self.flushed);
        v.append(&mut self.ring);
        proof {
            self.handed_off@ = self.handed_off@ + data_of(v@);
            assert(self.all_data() =~= old(self).all_data());
        }
        v
    }

    /// How many descriptors an in-line flush has set aside.
    pub fn flushed_count(&self) -> (n: usize)
        ensures
            n == self.flushed@.len(),
    {
        self.flushed.len()
    }

    /// How many descriptors sit in the ring.
    pub fn ring_count(&self) -> (n: usize)
        ensures
            n == self.ring@.len(),
    {
        self.ring.len()
    }
}

} // verus!
