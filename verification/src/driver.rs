//! The driver: the operation table, buffer pool and submission queue bound
//! together, with the submit, dispatch, poll and drop transitions of the
//! operation lifecycle.

use vstd::prelude::*;
use crate::SENTINEL_USER_DATA;
use crate::DispatchError;
use crate::ext::spec_more;
use crate::ext::spec_buffer_select;
use crate::ext::build_cancel_entry;
use crate::lifecycle::Lifecycle;
use crate::lifecycle::CqeResult;
use crate::lifecycle::StateKind;
use crate::lifecycle::spec_result;
use crate::lifecycle::is_terminal;
use crate::lifecycle::nonterminal_prefix_len;
use crate::lifecycle::OpPoll;
use crate::lifecycle::Completable;
use crate::pool::BufPool;
use crate::pool::BorrowedBuf;
use crate::queue::Submission;
use crate::queue::SubmissionQueue;
use crate::table::OpTable;

verus! {

/// How many of the values are the reserved sentinel.
pub open spec fn count_sentinels(s: Seq<u64>) -> nat
    decreases s.len(),
{
    if s.len() == 0 {
        0
    } else {
        count_sentinels(s.drop_last()) + if s.last() == SENTINEL_USER_DATA {
            1nat
        } else {
            0nat
        }
    }
}

/// Appending one value raises the sentinel count exactly when the value is
/// the sentinel.
pub proof fn lemma_count_sentinels_push(s: Seq<u64>, x: u64)
    ensures
        count_sentinels(s.push(x)) == count_sentinels(s) + if x == SENTINEL_USER_DATA {
            1nat
        } else {
            0nat
        },
{
    assert(s.push(x).drop_last() =~= s);
    assert(s.push(x).last() == x);
}

/// The keys of the abandoned slots of a table.
pub open spec fn abandoned_in<T>(t: OpTable<Lifecycle<T>>) -> Set<int> {
    Set::new(|i: int| t@.dom().contains(i) && t@[i] is Ignored)
}

/// The abandoned-key set is finite: it sits inside the slot index range.
pub proof fn lemma_abandoned_finite<T>(t: OpTable<Lifecycle<T>>)
    ensures
        abandoned_in(t).finite(),
        abandoned_in(t).len() <= t.slots@.len(),
{
    broadcast use vstd::set_lib::lemma_set_subset_finite;

    let range = vstd::set_lib::set_int_range(0, t.slots@.len() as int);
    vstd::set_lib::lemma_int_range(0, t.slots@.len() as int);
    assert(abandoned_in(t).subset_of(range));
    vstd::set_lib::lemma_len_subset(abandoned_in(t), range);
}

/// A map step that can touch at most the entry at `k`: every other key is
/// present and bound exactly as before.
pub open spec fn updated_at<T>(pre: Map<int, Lifecycle<T>>, post: Map<int, Lifecycle<T>>, k: int) -> bool {
    &&& post.dom() == pre.dom()
    &&& forall|j: int| pre.dom().contains(j) && j != k ==> post[j] == pre[j]
}

/// A reported length clamped to the pool's per-buffer length.
pub open spec fn clamp_len(len: int, cap: int) -> int {
    if len <= cap {
        len
    } else {
        cap
    }
}

/// The borrowed buffer a completion carries: present exactly when the flags
/// select a buffer and the operation succeeded.
pub open spec fn spec_attached_buf(p: BufPool, result: i32, flags: u32) -> Option<BorrowedBuf> {
    match spec_buffer_select(flags) {
        Some(bid) => if result >= 0 {
            Some(BorrowedBuf { bid, len: clamp_len(result as int, p.buf_len as int) as usize })
        } else {
            None
        },
        None => None,
    }
}

/// The completion record the dispatcher derives from a raw kernel entry.
pub open spec fn spec_record(p: BufPool, result: i32, flags: u32) -> CqeResult {
    CqeResult { result: spec_result(result), flags: flags, buf: spec_attached_buf(p, result, flags) }
}

/// A successful completion selected a buffer index that is out of range or
/// already lent out: a violation of the kernel protocol.
pub open spec fn bad_buffer(p: BufPool, result: i32, flags: u32) -> bool {
    &&& result >= 0
    &&& match spec_buffer_select(flags) {
        Some(bid) => !((bid as int) < p.in_use@.len() && !p.in_use@[bid as int]),
        None => false,
    }
}

/// What one dispatched completion does to the pool: a successful selection
/// lends the index out — unless the record is discarded for an abandoned
/// slot, which returns it at once — and a failed selection returns the
/// index, which the model already holds free.
pub open spec fn pool_effect(pre: BufPool, post: BufPool, result: i32, flags: u32, discard: bool) -> bool {
    &&& post.bgid == pre.bgid
    &&& post.buf_len == pre.buf_len
    &&& match spec_buffer_select(flags) {
        None => post.in_use@ == pre.in_use@,
        Some(bid) => {
            if result >= 0 {
                if discard {
                    post.in_use@ == pre.in_use@
                } else {
                    post.in_use@ == pre.in_use@.update(bid as int, true)
                }
            } else {
                if (bid as int) < pre.in_use@.len() && pre.in_use@[bid as int] {
                    post.in_use@ == pre.in_use@.update(bid as int, false)
                } else {
                    post.in_use@ == pre.in_use@
                }
            }
        },
    }
}

/// Whether the pool currently holds the index lent out.
pub open spec fn pool_busy(p: BufPool, bid: u16) -> bool {
    (bid as int) < p.in_use@.len() && p.in_use@[bid as int]
}

/// The record's buffer, if it carried one, is not lent out in this pool.
pub open spec fn buf_released_in(p: BufPool, b: Option<BorrowedBuf>) -> bool {
    match b {
        Some(bb) => !pool_busy(p, bb.bid),
        None => true,
    }
}

/// The pool after some releases: no index newly lent out, shape unchanged.
pub open spec fn pool_shrinks(pre: BufPool, post: BufPool) -> bool {
    &&& post.bgid == pre.bgid
    &&& post.buf_len == pre.buf_len
    &&& post.in_use@.len() == pre.in_use@.len()
    &&& forall|i: int| 0 <= i < post.in_use@.len() && #[trigger] post.in_use@[i] ==> pre.in_use@[i]
}

/// The pool after a discarded record's buffer, if any, went back: a lent-out
/// index is returned, anything else leaves the pool alone.
pub open spec fn buf_discarded(pre: BufPool, post: BufPool, b: Option<BorrowedBuf>) -> bool {
    match b {
        None => post == pre,
        Some(bb) => if pool_busy(pre, bb.bid) {
            &&& post.in_use@ == pre.in_use@.update(bb.bid as int, false)
            &&& post.bgid == pre.bgid
            &&& post.buf_len == pre.buf_len
        } else {
            post == pre
        },
    }
}

/// The number of sentinel-tagged submissions ever queued equals the number
/// of slots abandoned so far: those still in the table — their operation
/// not yet confirmed over by the kernel — plus those already collected by
/// the dispatcher. Every driver transition preserves this balance.
pub proof fn lemma_sentinel_accounting<T>(d: Driver<T>)
    requires
        d.wf(),
    ensures
        count_sentinels(d.queue.all_data()) == d.abandoned_set().len() + d.cancels_finished@,
{
}

/// The future-like handle for one in-flight operation: the slot key and the
/// payload, which the handle owns until the operation completes or the
/// handle is dropped.
pub struct Handle<T> {
    pub key: usize,
    pub payload: Option<T>,
}

impl<T> Handle<T> {
    /// Borrows the payload of a live handle.
    pub fn get_mut(&mut self) -> (r: &mut T)
        requires
            old(self).payload is Some,
        ensures
            *r == old(self).payload->0,
            final(self).payload == Some(*final(r)),
            final(self).key == old(self).key,
    {
        self.payload.as_mut().unwrap()
    }
}

/// The driver: single-owner within a thread; the embedder performs the
/// kernel syscalls and feeds raw completion values back in.
pub struct Driver<T> {
    pub table: OpTable<Lifecycle<T>>,
    pub pool: BufPool,
    pub queue: SubmissionQueue,
    pub cancels_started: Ghost<nat>,
    pub cancels_finished: Ghost<nat>,
}

impl<T> Driver<T> {
    /// The keys of the currently abandoned slots.
    pub open spec fn abandoned_set(&self) -> Set<int> {
        abandoned_in(self.table)
    }

    /// The driver invariant: the table is well-formed; every sentinel-tagged
    /// submission was issued for exactly one abandonment; and the abandoned
    /// slots still in the table are the abandonments whose operation the
    /// kernel has not yet confirmed over.
    pub open spec fn wf(&self) -> bool {
        &&& self.table.wf()
        &&& self.queue.capacity >= 1
        &&& count_sentinels(self.queue.all_data()) == self.cancels_started@
        &&& self.abandoned_set().finite()
        &&& self.abandoned_set().len() + self.cancels_finished@ == self.cancels_started@
    }

    /// A fresh driver: empty table, all buffers free, empty queue.
    pub fn new(bgid: u16, buf_cnt: u16, buf_len: usize, sq_capacity: usize) -> (d: Driver<T>)
        requires
            sq_capacity >= 1,
        ensures
            d.wf(),
            d.table@ == Map::<int, Lifecycle<T>>::empty(),
            d.table.slots@.len() == 0,
            d.pool.bgid == bgid,
            d.pool.buf_len == buf_len,
            d.pool.in_use@.len() == buf_cnt,
            forall|i: int| 0 <= i < buf_cnt ==> !d.pool.in_use@[i],
            d.queue.capacity == sq_capacity,
            d.queue.all_data().len() == 0,
            d.cancels_started@ == 0,
            d.cancels_finished@ == 0,
    {
        let d = Driver {
            table: OpTable::new(),
            pool: BufPool::new(bgid, buf_cnt, buf_len),
            queue: SubmissionQueue::new(sq_capacity),
            cancels_started: Ghost(0nat),
            cancels_finished: Ghost(0nat),
        };
        proof {
            assert(d.abandoned_set() =~= Set::<int>::empty());
        }
        d
    }

    /// Submits one operation: a fresh slot key is allocated, stamped into
    /// the descriptor as its user-data, and the descriptor queued; the
    /// caller receives the handle owning the payload.
    pub fn submit(&mut self, payload: T, entry: io_uring::squeue::Entry) -> (h: Handle<T>)
        requires
            old(self).wf(),
            old(self).table.slots@.len() < usize::MAX,
        ensures
            final(self).wf(),
            !old(self).table@.dom().contains(h.key as int),
            final(self).table@ == old(self).table@.insert(h.key as int, Lifecycle::<T>::Submitted),
            h.payload == Some(payload),
            (h.key as u64) != SENTINEL_USER_DATA,
            final(self).pool == old(self).pool,
            final(self).queue.capacity == old(self).queue.capacity,
            final(self).queue.all_data() == old(self).queue.all_data().push(h.key as u64),
            final(self).cancels_started@ == old(self).cancels_started@,
            final(self).cancels_finished@ == old(self).cancels_finished@,
    {
        let key = self.table.insert(Lifecycle::Submitted);
        assert((key as u64) != SENTINEL_USER_DATA) by {
            assert(key < usize::MAX);
        }
        let s = Submission::stamp(entry, key as u64);
        self.queue.push(s);
        proof {
            lemma_count_sentinels_push(old(self).queue.all_data(), key as u64);
            assert(self.abandoned_set() =~= old(self).abandoned_set());
        }
        Handle { key, payload: Some(payload) }
    }

    /// Hands every queued descriptor to the embedder for the kernel ring.
    pub fn take_submissions(&mut self) -> (v: Vec<Submission>)
        requires
            old(self).wf(),
        ensures
            final(self).wf(),
            final(self).table == old(self).table,
            final(self).pool == old(self).pool,
            final(self).queue.all_data() == old(self).queue.all_data(),
            final(self).queue.ring@.len() == 0,
            final(self).queue.flushed@.len() == 0,
            v@ == old(self).queue.flushed@ + old(self).queue.ring@,
            final(self).cancels_started@ == old(self).cancels_started@,
            final(self).cancels_finished@ == old(self).cancels_finished@,
    {
        self.queue.drain()
    }

    /// How many slots the table has ever grown to.
    pub fn slot_count(&self) -> (n: usize)
        ensures
            n == self.table.slots@.len(),
    {
        self.table.slot_count()
    }

    /// The state name of the slot at a key, if the key is occupied.
    pub fn state_of(&self, key: usize) -> (r: Option<StateKind>)
        ensures
            r is Some <==> self.table@.dom().contains(key as int),
            r matches Some(k) ==> k == self.table@[key as int].kind_spec(),
    {
        if self.table.contains_key(key) {
            Some(self.table.borrow_at(key).kind())
        } else {
            None
        }
    }

    /// Delivers one raw kernel completion. A sentinel-tagged completion is
    /// discarded. Otherwise the user-data names the slot: the completion is
    /// decoded, a kernel-selected buffer is lent out on success or returned
    /// on failure, and the slot takes its lifecycle step — parking the
    /// record, extending the completion list, waking a waiting task, or
    /// collecting an abandoned slot whose operation is now over. The errors
    /// are protocol violations and leave the driver untouched.
    pub fn dispatch(&mut self, user_data: u64, result: i32, flags: u32) -> (r: Result<(), DispatchError>)
        requires
            old(self).wf(),
            result != i32::MIN,
        ensures
            final(self).wf(),
            final(self).queue == old(self).queue,
            final(self).cancels_started@ == old(self).cancels_started@,
            ({
                let k = user_data as int;
                let known = old(self).table@.dom().contains(k);
                if user_data == SENTINEL_USER_DATA {
                    r is Ok && *final(self) == *old(self)
                } else if !known {
                    r == Err::<(), DispatchError>(DispatchError::UnknownKey) && *final(self) == *old(self)
                } else if old(self).table@[k] is Completed {
                    r == Err::<(), DispatchError>(DispatchError::AlreadyCompleted) && *final(self) == *old(self)
                } else if bad_buffer(old(self).pool, result, flags) {
                    r == Err::<(), DispatchError>(DispatchError::BadBuffer) && *final(self) == *old(self)
                } else {
                    let rec = spec_record(old(self).pool, result, flags);
                    let s = old(self).table@[k];
                    let more = spec_more(flags);
                    &&& r is Ok
                    &&& pool_effect(old(self).pool, final(self).pool, result, flags, s is Ignored)
                    &&& match s {
                        Lifecycle::Submitted | Lifecycle::Waiting(_) => {
                            &&& updated_at(old(self).table@, final(self).table@, k)
                            &&& if more {
                                final(self).table@[k] matches Lifecycle::CompletionList(l) && l@ =~= seq![rec]
                            } else {
                                final(self).table@[k] == Lifecycle::<T>::Completed(rec)
                            }
                            &&& final(self).cancels_finished@ == old(self).cancels_finished@
                        },
                        Lifecycle::CompletionList(l0) => {
                            &&& updated_at(old(self).table@, final(self).table@, k)
                            &&& (final(self).table@[k] matches Lifecycle::CompletionList(l) && l@ == l0@.push(rec))
                            &&& final(self).cancels_finished@ == old(self).cancels_finished@
                        },
                        Lifecycle::Ignored(_) => {
                            if more {
                                &&& final(self).table@ == old(self).table@
                                &&& final(self).cancels_finished@ == old(self).cancels_finished@
                            } else {
                                &&& final(self).table@ == old(self).table@.remove(k)
                                &&& final(self).cancels_finished@ == old(self).cancels_finished@ + 1
                            }
                        },
                        _ => false,
                    }
                }
            }),
    {
        if user_data == SENTINEL_USER_DATA {
            return Ok(());
        }
        let sc = self.table.slot_count();
        if user_data >= sc as u64 {
            proof {
                assert(!old(self).table@.dom().contains(user_data as int));
            }
            return Err(DispatchError::UnknownKey);
        }
        let key = user_data as usize;
        if !self.table.contains_key(key) {
            return Err(DispatchError::UnknownKey);
        }
        let kind = self.table.borrow_at(key).kind();
        if kind == StateKind::Completed {
            return Err(DispatchError::AlreadyCompleted);
        }
        let mut rec = CqeResult::from_raw(result, flags);
        match io_uring::cqueue::buffer_select(flags) {
            Some(bid) => {
                if result >= 0 {
                    let blen = (result as u32) as usize;
                    match self.pool.acquire(blen, bid) {
                        Some(b) => {
                            rec.buf = Some(b);
                        }
                        None => {
                            return Err(DispatchError::BadBuffer);
                        }
                    }
                } else {
                    let _freed = self.pool.release(bid);
                }
            }
            None => {}
        }
        proof {
            assert(rec == spec_record(old(self).pool, result, flags));
        }
        let slot = self.table.swap_at(key, Lifecycle::Submitted);
        let o = slot.complete(rec);
        if o.collect {
            let _dummy = self.table.remove(key);
            proof {
                self.cancels_finished@ = self.cancels_finished@ + 1;
            }
        } else {
            let _prev = self.table.swap_at(key, o.next);
        }
        match o.wake {
            Some(w) => {
                w.wake();
            }
            None => {}
        }
        match o.discarded {
            Some(c) => {
                match c.buf {
                    Some(b) => {
                        let _freed = self.pool.release(b.bid);
                    }
                    None => {}
                }
            }
            None => {}
        }
        proof {
            let k = user_data as int;
            let s = old(self).table@[k];
            if s is Ignored {
                if spec_more(flags) {
                    assert(self.table@ =~= old(self).table@);
                    assert(self.abandoned_set() =~= old(self).abandoned_set());
                    if result >= 0 && spec_buffer_select(flags) is Some {
                        assert(self.pool.in_use@ =~= old(self).pool.in_use@);
                    }
                } else {
                    assert(self.table@ =~= old(self).table@.remove(k));
                    assert(self.abandoned_set() =~= old(self).abandoned_set().remove(k));
                    assert(old(self).abandoned_set().contains(k));
                    lemma_abandoned_finite(old(self).table);
                    assert(self.abandoned_set().len() == old(self).abandoned_set().len() - 1);
                    if result >= 0 && spec_buffer_select(flags) is Some {
                        assert(self.pool.in_use@ =~= old(self).pool.in_use@);
                    }
                }
            } else {
                assert(self.table@.dom() =~= old(self).table@.dom());
                assert(self.abandoned_set() =~= old(self).abandoned_set());
            }
            lemma_abandoned_finite(self.table);
        }
        Ok(())
    }

    /// Returns a buffer lent out to user code to the pool's free set.
    pub fn release_buf(&mut self, b: BorrowedBuf) -> (r: bool)
        requires
            old(self).wf(),
        ensures
            final(self).wf(),
            final(self).table == old(self).table,
            final(self).queue == old(self).queue,
            final(self).cancels_started@ == old(self).cancels_started@,
            final(self).cancels_finished@ == old(self).cancels_finished@,
            r == ((b.bid as int) < old(self).pool.in_use@.len() && old(self).pool.in_use@[b.bid as int]),
            r ==> final(self).pool.in_use@ == old(self).pool.in_use@.update(b.bid as int, false),
            !r ==> final(self).pool == old(self).pool,
            final(self).pool.bgid == old(self).pool.bgid,
            final(self).pool.buf_len == old(self).pool.buf_len,
    {
        self.pool.release(b.bid)
    }

    /// Re-arms the handle's slot for another wait: whatever the slot held
    /// is replaced by a fresh waiting state, and buffers parked in a
    /// discarded completion go back to the pool. A vacated key is left
    /// alone.
    pub fn reset(&mut self, h: &Handle<T>, waker: core::task::Waker)
        requires
            old(self).wf(),
            old(self).table@.dom().contains(h.key as int) ==> !(old(self).table@[h.key as int] is Ignored),
        ensures
            final(self).wf(),
            final(self).queue == old(self).queue,
            final(self).cancels_started@ == old(self).cancels_started@,
            final(self).cancels_finished@ == old(self).cancels_finished@,
            ({
                let k = h.key as int;
                if !old(self).table@.dom().contains(k) {
                    *final(self) == *old(self)
                } else {
                    &&& final(self).table@ == old(self).table@.insert(k, Lifecycle::<T>::Waiting(waker))
                    &&& pool_shrinks(old(self).pool, final(self).pool)
                    &&& match old(self).table@[k] {
                        Lifecycle::Completed(c) => buf_released_in(final(self).pool, c.buf),
                        Lifecycle::CompletionList(l0) => forall|j: int| 0 <= j < l0@.len()
                            ==> buf_released_in(final(self).pool, (#[trigger] l0@[j]).buf),
                        _ => final(self).pool == old(self).pool,
                    }
                }
            }),
    {
        let key = h.key;
        if !self.table.contains_key(key) {
            return;
        }
        let prev = self.table.swap_at(key, Lifecycle::Waiting(waker));
        proof {
            assert(self.abandoned_set() =~= old(self).abandoned_set());
        }
        match prev {
            Lifecycle::Completed(c) => {
                match c.buf {
                    Some(b) => {
                        let _freed = self.pool.release(b.bid);
                    }
                    None => {}
                }
            }
            Lifecycle::CompletionList(l) => {
                let ghost mid = *self;
                let mut i: usize = 0;
                while i < l.len()
                    invariant
                        self.table == mid.table,
                        self.queue == mid.queue,
                        self.cancels_started == mid.cancels_started,
                        self.cancels_finished == mid.cancels_finished,
                        i <= l@.len(),
                        pool_shrinks(mid.pool, self.pool),
                        i == 0 ==> self.pool == mid.pool,
                        forall|j: int| 0 <= j < i
                            ==> buf_released_in(self.pool, (#[trigger] l@[j]).buf),
                    decreases l@.len() - i,
                {
                    let li = &l[i];
                    match &li.buf {
                        Some(b) => {
                            let _freed = self.pool.release(b.bid);
                        }
                        None => {}
                    }
                    i = i + 1;
                }
            }
            _ => {}
        }
    }

    /// Drops a handle. An in-flight slot is abandoned: the payload moves
    /// into the slot, out of the handle for good, and one best-effort
    /// cancellation descriptor is queued under the sentinel user-data. A
    /// slot whose terminal completion already arrived is simply removed —
    /// zero cancellations — and its buffered buffers are returned.
    pub fn drop_op(&mut self, h: Handle<T>) -> (r: bool)
        requires
            old(self).wf(),
            old(self).table@.dom().contains(h.key as int) ==> !(old(self).table@[h.key as int] is Ignored),
        ensures
            final(self).wf(),
            final(self).queue.capacity == old(self).queue.capacity,
            final(self).cancels_finished@ == old(self).cancels_finished@,
            ({
                let k = h.key as int;
                if !old(self).table@.dom().contains(k) {
                    &&& r == false
                    &&& *final(self) == *old(self)
                } else {
                    match old(self).table@[k] {
                        Lifecycle::Submitted | Lifecycle::Waiting(_) => {
                            &&& r == true
                            &&& final(self).table@ == old(self).table@.insert(k, Lifecycle::Ignored(h.payload))
                            &&& final(self).pool == old(self).pool
                            &&& final(self).queue.all_data() == old(self).queue.all_data().push(SENTINEL_USER_DATA)
                            &&& final(self).cancels_started@ == old(self).cancels_started@ + 1
                        },
                        Lifecycle::Completed(c) => {
                            &&& r == false
                            &&& final(self).table@ == old(self).table@.remove(k)
                            &&& buf_discarded(old(self).pool, final(self).pool, c.buf)
                            &&& final(self).queue == old(self).queue
                            &&& final(self).cancels_started@ == old(self).cancels_started@
                        },
                        Lifecycle::CompletionList(l0) => {
                            if l0@.len() > 0 && !is_terminal(l0@.last()) {
                                &&& r == true
                                &&& final(self).table@ == old(self).table@.insert(k, Lifecycle::Ignored(h.payload))
                                &&& final(self).pool == old(self).pool
                                &&& final(self).queue.all_data() == old(self).queue.all_data().push(SENTINEL_USER_DATA)
                                &&& final(self).cancels_started@ == old(self).cancels_started@ + 1
                            } else {
                                &&& r == false
                                &&& final(self).table@ == old(self).table@.remove(k)
                                &&& pool_shrinks(old(self).pool, final(self).pool)
                                &&& (forall|j: int| 0 <= j < l0@.len()
                                    ==> buf_released_in(final(self).pool, (#[trigger] l0@[j]).buf))
                                &&& final(self).queue == old(self).queue
                                &&& final(self).cancels_started@ == old(self).cancels_started@
                            }
                        },
                        Lifecycle::Ignored(_) => false,
                    }
                }
            }),
    {
        let key = h.key;
        if !self.table.contains_key(key) {
            return false;
        }
        let kind = self.table.borrow_at(key).kind();
        match kind {
            StateKind::Submitted | StateKind::Waiting => {
                let _prev = self.table.swap_at(key, Lifecycle::Ignored(h.payload));
                let entry = build_cancel_entry(key as u64);
                let s = Submission::stamp(entry, SENTINEL_USER_DATA);
                self.queue.push(s);
                proof {
                    self.cancels_started@ = self.cancels_started@ + 1;
                    lemma_count_sentinels_push(old(self).queue.all_data(), SENTINEL_USER_DATA);
                    assert(self.abandoned_set() =~= old(self).abandoned_set().insert(key as int));
                    lemma_abandoned_finite(self.table);
                    assert(self.abandoned_set().len() == old(self).abandoned_set().len() + 1);
                }
                true
            }
            StateKind::Completed => {
                let slot = self.table.remove(key);
                match slot {
                    Lifecycle::Completed(c) => {
                        match c.buf {
                            Some(b) => {
                                let _freed = self.pool.release(b.bid);
                            }
                            None => {}
                        }
                    }
                    _ => {}
                }
                proof {
                    assert(self.abandoned_set() =~= old(self).abandoned_set());
                }
                false
            }
            StateKind::MultiPending => {
                let more_last = match self.table.borrow_at(key) {
                    Lifecycle::CompletionList(l) => {
                        if l.len() > 0 {
                            io_uring::cqueue::more(l[l.len() - 1].flags)
                        } else {
                            false
                        }
                    }
                    _ => false,
                };
                if more_last {
                    let _prev = self.table.swap_at(key, Lifecycle::Ignored(h.payload));
                    let entry = build_cancel_entry(key as u64);
                    let s = Submission::stamp(entry, SENTINEL_USER_DATA);
                    self.queue.push(s);
                    proof {
                        self.cancels_started@ = self.cancels_started@ + 1;
                        lemma_count_sentinels_push(old(self).queue.all_data(), SENTINEL_USER_DATA);
                        assert(self.abandoned_set() =~= old(self).abandoned_set().insert(key as int));
                        lemma_abandoned_finite(self.table);
                        assert(self.abandoned_set().len() == old(self).abandoned_set().len() + 1);
                    }
                    true
                } else {
                    let slot = self.table.remove(key);
                    match slot {
                        Lifecycle::CompletionList(l) => {
                            let ghost mid = *self;
                            let mut i: usize = 0;
                            while i < l.len()
                                invariant
                                    self.table == mid.table,
                                    self.queue == mid.queue,
                                    self.cancels_started == mid.cancels_started,
                                    self.cancels_finished == mid.cancels_finished,
                                    i <= l@.len(),
                                    pool_shrinks(mid.pool, self.pool),
                                    forall|j: int| 0 <= j < i
                                        ==> buf_released_in(self.pool, (#[trigger] l@[j]).buf),
                                decreases l@.len() - i,
                            {
                                let li = &l[i];
                                match &li.buf {
                                    Some(b) => {
                                        let _freed = self.pool.release(b.bid);
                                    }
                                    None => {}
                                }
                                i = i + 1;
                            }
                        }
                        _ => {}
                    }
                    proof {
                        assert(self.abandoned_set() =~= old(self).abandoned_set());
                    }
                    false
                }
            }
            StateKind::Abandoned => {
                proof {
                    assert(false);
                }
                vstd::pervasive::unreached()
            }
        }
    }
}

impl<T: Completable> Driver<T> {
    /// Polls the handle's slot. A slot still in flight registers the waker
    /// — keeping the stored one when it already wakes the same task — and
    /// stays pending. A parked terminal record removes the slot and hands
    /// the payload's result out. A buffered completion list feeds each
    /// non-terminal record to the payload's `update` in delivery order; if
    /// the terminal arrived it is parked for the next poll and the task is
    /// re-woken, so every poll reports ready at most once.
    pub fn poll_op(&mut self, h: &mut Handle<T>, waker: core::task::Waker) -> (r: OpPoll<T::Output>)
        requires
            old(self).wf(),
            old(self).table@.dom().contains(old(h).key as int),
            !(old(self).table@[old(h).key as int] is Ignored),
            old(h).payload is Some,
        ensures
            final(self).wf(),
            final(h).key == old(h).key,
            final(self).queue == old(self).queue,
            final(self).cancels_started@ == old(self).cancels_started@,
            final(self).cancels_finished@ == old(self).cancels_finished@,
            ({
                let k = old(h).key as int;
                match old(self).table@[k] {
                    Lifecycle::Submitted => {
                        &&& r is Pending
                        &&& final(self).table@ == old(self).table@.insert(k, Lifecycle::<T>::Waiting(waker))
                        &&& *final(h) == *old(h)
                        &&& final(self).pool == old(self).pool
                    },
                    Lifecycle::Waiting(w) => {
                        &&& r is Pending
                        &&& (final(self).table@ == old(self).table@.insert(k, Lifecycle::<T>::Waiting(w))
                            || final(self).table@ == old(self).table@.insert(k, Lifecycle::<T>::Waiting(waker)))
                        &&& *final(h) == *old(h)
                        &&& final(self).pool == old(self).pool
                    },
                    Lifecycle::Completed(_) => {
                        &&& r is Ready
                        &&& final(self).table@ == old(self).table@.remove(k)
                        &&& final(h).payload is None
                        &&& final(self).pool == old(self).pool
                    },
                    Lifecycle::CompletionList(l0) => {
                        let n = nonterminal_prefix_len(l0@);
                        &&& r is Pending
                        &&& final(h).payload is Some
                        &&& updated_at(old(self).table@, final(self).table@, k)
                        &&& if n < l0@.len() {
                            &&& final(self).table@[k] == Lifecycle::<T>::Completed(l0@[n])
                            &&& pool_shrinks(old(self).pool, final(self).pool)
                            &&& (forall|j: int| n < j < l0@.len()
                                ==> buf_released_in(final(self).pool, (#[trigger] l0@[j]).buf))
                        } else {
                            &&& final(self).table@[k] == Lifecycle::<T>::Waiting(waker)
                            &&& final(self).pool == old(self).pool
                        }
                    },
                    Lifecycle::Ignored(_) => false,
                }
            }),
    {
        let key = h.key;
        let slot = self.table.swap_at(key, Lifecycle::Submitted);
        match slot {
            Lifecycle::Submitted => {
                let _prev = self.table.swap_at(key, Lifecycle::Waiting(waker));
                proof {
                    assert(self.table@ =~= old(self).table@.insert(key as int, Lifecycle::<T>::Waiting(waker)));
                    assert(self.abandoned_set() =~= old(self).abandoned_set());
                }
                OpPoll::Pending
            }
            Lifecycle::Waiting(w) => {
                if w.will_wake(&waker) {
                    let _prev = self.table.swap_at(key, Lifecycle::Waiting(w));
                    proof {
                        assert(self.table@ =~= old(self).table@.insert(key as int, Lifecycle::<T>::Waiting(w)));
                        assert(self.abandoned_set() =~= old(self).abandoned_set());
                    }
                } else {
                    let _prev = self.table.swap_at(key, Lifecycle::Waiting(waker));
                    proof {
                        assert(self.table@ =~= old(self).table@.insert(key as int, Lifecycle::<T>::Waiting(waker)));
                        assert(self.abandoned_set() =~= old(self).abandoned_set());
                    }
                }
                OpPoll::Pending
            }
            Lifecycle::Completed(c) => {
                let _dummy = self.table.remove(key);
                let payload = h.payload.take();
                proof {
                    assert(self.table@ =~= old(self).table@.remove(key as int));
                    assert(self.abandoned_set() =~= old(self).abandoned_set());
                }
                match payload {
                    Some(p) => OpPoll::Ready(p.complete(c)),
                    None => vstd::pervasive::unreached(),
                }
            }
            Lifecycle::CompletionList(l) => {
                let ghost l0 = l@;
                let (mut updates, terminal, rest) = crate::lifecycle::partition_completions(l);
                let ghost u0 = updates@;
                let ghost rest0 = rest@;
                proof {
                    assert forall|i: int| 0 <= i < u0.len() implies !is_terminal(#[trigger] l0[i]) by {
                        assert(l0[i] == u0[i]);
                    }
                    if terminal is Some {
                        assert(l0[u0.len() as int] == crate::lifecycle::opt_seq(terminal)[0]);
                    }
                    crate::lifecycle::lemma_prefix_len(l0, u0.len() as int);
                }
                let had_updates = updates.len() > 0;
                let ghost s_mid = *self;
                while updates.len() > 0
                    invariant
                        *self == s_mid,
                        h.key == old(h).key,
                        h.payload is Some,
                    decreases updates@.len(),
                {
                    let c = updates.remove(0);
                    match &mut h.payload {
                        Some(p) => {
                            p.update(c);
                        }
                        None => {}
                    }
                }
                let mut i: usize = 0;
                while i < rest.len()
                    invariant
                        rest@ == rest0,
                        self.table == s_mid.table,
                        self.queue == s_mid.queue,
                        self.cancels_started == s_mid.cancels_started,
                        self.cancels_finished == s_mid.cancels_finished,
                        i <= rest0.len(),
                        pool_shrinks(s_mid.pool, self.pool),
                        i == 0 ==> self.pool == s_mid.pool,
                        forall|j: int| 0 <= j < i
                            ==> buf_released_in(self.pool, (#[trigger] rest0[j]).buf),
                    decreases rest0.len() - i,
                {
                    let ri = &rest[i];
                    match &ri.buf {
                        Some(b) => {
                            let _freed = self.pool.release(b.bid);
                        }
                        None => {}
                    }
                    i = i + 1;
                }
                if had_updates {
                    waker.wake_by_ref();
                }
                match terminal {
                    Some(c) => {
                        let _prev = self.table.swap_at(key, Lifecycle::Completed(c));
                    }
                    None => {
                        let _prev = self.table.swap_at(key, Lifecycle::Waiting(waker));
                    }
                }
                proof {
                    let k = key as int;
                    let n = nonterminal_prefix_len(l0);
                    assert(self.table@.dom() =~= old(self).table@.dom());
                    assert(self.abandoned_set() =~= old(self).abandoned_set());
                    if n < l0.len() {
                        assert(l0[n] == crate::lifecycle::opt_seq(terminal)[0]);
                        assert forall|j: int| n < j < l0.len()
                            implies buf_released_in(self.pool, (#[trigger] l0[j]).buf) by {
                            let idx = j - n - 1;
                            assert(l0[j] == rest0[idx]);
                            assert(buf_released_in(self.pool, rest0[idx].buf));
                        }
                    } else {
                        assert(rest0.len() == 0);
                        assert(self.pool == old(self).pool);
                    }
                }
                OpPoll::Pending
            }
            Lifecycle::Ignored(p) => {
                proof {
                    assert(false);
                }
                vstd::pervasive::unreached()
            }
        }
    }
}

} // verus!
