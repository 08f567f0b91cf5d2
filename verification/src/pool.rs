//! The receive-buffer pool: a fixed set of kernel-registered buffer indices
//! and the bookkeeping of which indices are currently lent out to user code.

use vstd::prelude::*;

verus! {

/// One buffer lent out after a successful read: the kernel-chosen index and
/// the number of valid bytes, clamped to the pool's per-buffer length.
pub struct BorrowedBuf {
    pub bid: u16,
    pub len: usize,
}

/// The pool itself. `in_use[i]` is true while index `i` is lent out in a
/// `BorrowedBuf`; every other index is free for the kernel to pick.
pub struct BufPool {
    pub bgid: u16,
    pub buf_len: usize,
    pub in_use: Vec<bool>,
}

/// One acquisition step: `b` was free in `pre` and is lent out in `post`,
/// with nothing else changed.
pub open spec fn acquire_rel(pre: BufPool, post: BufPool, b: BorrowedBuf) -> bool {
    &&& (b.bid as int) < pre.in_use@.len()
    &&& !pre.in_use@[b.bid as int]
    &&& post.in_use@ == pre.in_use@.update(b.bid as int, true)
    &&& post.bgid == pre.bgid
    &&& post.buf_len == pre.buf_len
}

/// One release step: `bid` was lent out in `pre` and is free again in `post`,
/// with nothing else changed.
pub open spec fn release_rel(pre: BufPool, post: BufPool, bid: u16) -> bool {
    &&& (bid as int) < pre.in_use@.len()
    &&& pre.in_use@[bid as int]
    &&& post.in_use@ == pre.in_use@.update(bid as int, false)
    &&& post.bgid == pre.bgid
    &&& post.buf_len == pre.buf_len
}

impl BufPool {
    /// The set of indices currently free for the kernel to select.
    pub open spec fn free_set(&self) -> Set<int> {
        Set::new(|i: int| 0 <= i < self.in_use@.len() && !self.in_use@[i])
    }

    /// A fresh pool: every index free.
    pub fn new(bgid: u16, buf_cnt: u16, buf_len: usize) -> (p: BufPool)
        ensures
            p.bgid == bgid,
            p.buf_len == buf_len,
            p.in_use@.len() == buf_cnt,
            forall|i: int| 0 <= i < buf_cnt ==> !p.in_use@[i],
    {
        let mut in_use: Vec<bool> = Vec::new();
        let mut i: u16 = 0;
        while i < buf_cnt
            invariant
                i <= buf_cnt,
                in_use@.len() == i,
                forall|j: int| 0 <= j < i ==> !in_use@[j],
            decreases buf_cnt - i,
        {
            in_use.push(false);
            i = i + 1;
        }
        BufPool { bgid, buf_len, in_use }
    }

    /// Number of registered buffers.
    pub fn capacity(&self) -> (n: usize)
        ensures
            n == self.in_use@.len(),
    {
        self.in_use.len()
    }

    /// Whether the index is currently lent out.
    pub fn is_busy(&self, bid: u16) -> (r: bool)
        ensures
            r == ((bid as int) < self.in_use@.len() && self.in_use@[bid as int]),
    {
        (bid as usize) < self.in_use.len() && self.in_use[bid as usize]
    }

    /// Converts a kernel-reported buffer index and returned length into a
    /// borrowed buffer, marking the index as lent out. The length is clamped
    /// to the per-buffer length. Fails exactly when the index is out of range
    /// or already lent out, which the kernel protocol rules out.
    pub fn acquire(&mut self, len: usize, bid: u16) -> (r: Option<BorrowedBuf>)
        ensures
            r is Some <==> ((bid as int) < old(self).in_use@.len()
                && !old(self).in_use@[bid as int]),
            r matches Some(b) ==> {
                &&& b.bid == bid
                &&& b.len == if len <= old(self).buf_len { len as int } else { old(self).buf_len as int }
                &&& acquire_rel(*old(self), *final(self), b)
            },
            r is None ==> *final(self) == *old(self),
    {
        if (bid as usize) < self.in_use.len() && !self.in_use[bid as usize] {
            self.in_use.set(bid as usize, true);
            let clamped: usize = if len <= self.buf_len {
                len
            } else {
                self.buf_len
            };
            Some(BorrowedBuf { bid, len: clamped })
        } else {
            None
        }
    }

    /// The outcome of registering this pool's backing region with the
    /// kernel under its group id. The embedder performs the registration
    /// call and hands back the error number, if there was one; an invalid
    /// argument means the kernel predates buffer rings, an existing entry
    /// that the group id is already taken.
    pub fn register_result(&self, errno: Option<i32>) -> (r: Result<(), crate::InitError>)
        ensures
            r is Ok <==> errno is None,
            errno matches Some(e) ==> r == Err::<(), crate::InitError>(crate::spec_classify_register(e)),
    {
        match errno {
            None => Ok(()),
            Some(e) => Err(crate::classify_register_errno(e)),
        }
    }

    /// Returns a buffer index to the free set. A free or out-of-range index
    /// is left alone, and the call reports whether anything changed.
    pub fn release(&mut self, bid: u16) -> (r: bool)
        ensures
            r == ((bid as int) < old(self).in_use@.len() && old(self).in_use@[bid as int]),
            r ==> release_rel(*old(self), *final(self), bid),
            !r ==> *final(self) == *old(self),
    {
        if (bid as usize) < self.in_use.len() && self.in_use[bid as usize] {
            self.in_use.set(bid as usize, false);
            true
        } else {
            false
        }
    }
}

/// No buffer index is ever present in two borrowed buffers at once: two
/// acquisitions with no release of the first in between yield distinct
/// indices.
pub proof fn lemma_borrows_distinct(p0: BufPool, p1: BufPool, p2: BufPool, b1: BorrowedBuf, b2: BorrowedBuf)
    requires
        acquire_rel(p0, p1, b1),
        acquire_rel(p1, p2, b2),
    ensures
        b1.bid != b2.bid,
{
    assert(p1.in_use@[b1.bid as int]);
    assert(!p1.in_use@[b2.bid as int]);
}

/// Acquiring and then releasing a buffer index leaves the free set unchanged.
pub proof fn lemma_acquire_release_round(p0: BufPool, p1: BufPool, p2: BufPool, b: BorrowedBuf)
    requires
        acquire_rel(p0, p1, b),
        release_rel(p1, p2, b.bid),
    ensures
        p2.in_use@ == p0.in_use@,
        p2.free_set() == p0.free_set(),
        p2.bgid == p0.bgid,
        p2.buf_len == p0.buf_len,
{
    assert(p2.in_use@ =~= p0.in_use@);
    assert(p2.free_set() =~= p0.free_set());
}

/// A chain of pool states in which each step is an acquisition immediately
/// undone by the matching release.
pub open spec fn round_chain(states: Seq<BufPool>) -> bool {
    forall|i: int| 0 <= i < states.len() - 1 ==> #[trigger] acquire_release_round(states[i], states[i + 1])
}

/// One acquire-then-release round between two pool states.
pub open spec fn acquire_release_round(p0: BufPool, p2: BufPool) -> bool {
    exists|p1: BufPool, b: BorrowedBuf| #[trigger] acquire_rel(p0, p1, b) && #[trigger] release_rel(p1, p2, b.bid)
}

/// Acquire then release, repeated any number of times, leaves the free set
/// unchanged.
pub proof fn lemma_rounds_identity(states: Seq<BufPool>)
    requires
        states.len() >= 1,
        round_chain(states),
    ensures
        states.last().in_use@ == states.first().in_use@,
        states.last().free_set() == states.first().free_set(),
    decreases states.len(),
{
    if states.len() == 1 {
        assert(states.last().free_set() =~= states.first().free_set());
    } else {
        let prefix = states.drop_last();
        assert(round_chain(prefix)) by {
            assert forall|i: int| 0 <= i < prefix.len() - 1 implies #[trigger] acquire_release_round(prefix[i], prefix[i + 1]) by {
                assert(prefix[i] == states[i]);
                assert(prefix[i + 1] == states[i + 1]);
                assert(acquire_release_round(states[i], states[i + 1]));
            }
        }
        lemma_rounds_identity(prefix);
        let n = states.len() as int;
        let j = n - 2;
        assert(acquire_release_round(states[j], states[j + 1]));
        assert(acquire_release_round(states[n - 2], states[n - 1]));
        let (p1, b): (BufPool, BorrowedBuf) = choose|p1: BufPool, b: BorrowedBuf|
            #[trigger] acquire_rel(states[n - 2], p1, b) && #[trigger] release_rel(p1, states[n - 1], b.bid);
        lemma_acquire_release_round(states[n - 2], p1, states[n - 1], b);
        assert(prefix.last() == states[n - 2]);
        assert(states.last().in_use@ == states.first().in_use@);
        assert(states.last().free_set() =~= states.first().free_set());
    }
}

} // verus!
