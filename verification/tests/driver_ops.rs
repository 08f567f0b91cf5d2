use std::sync::atomic::AtomicUsize;
use std::sync::atomic::Ordering;
use std::sync::Arc;

use uring_core::driver::Driver;
use uring_core::lifecycle::Completable;
use uring_core::lifecycle::CqeResult;
use uring_core::lifecycle::OpPoll;
use uring_core::lifecycle::StateKind;
use uring_core::DispatchError;

const MORE: u32 = 2;

fn nop() -> io_uring::squeue::Entry {
    io_uring::opcode::Nop::new().build()
}

fn buffer_flags(bid: u16) -> u32 {
    1u32 | ((bid as u32) << 16)
}

struct CountWake(AtomicUsize);

impl std::task::Wake for CountWake {
    fn wake(self: Arc<Self>) {
        self.0.fetch_add(1, Ordering::SeqCst);
    }

    fn wake_by_ref(self: &Arc<Self>) {
        self.0.fetch_add(1, Ordering::SeqCst);
    }
}

fn counting_waker() -> (Arc<CountWake>, std::task::Waker) {
    let a = Arc::new(CountWake(AtomicUsize::new(0)));
    let w = std::task::Waker::from(a.clone());
    (a, w)
}

struct ReadOp;

impl Completable for ReadOp {
    type Output = CqeResult;

    fn complete(self, cqe: CqeResult) -> CqeResult {
        cqe
    }

    fn update(&mut self, _cqe: CqeResult) {}
}

struct AcceptOp {
    seen: Vec<u32>,
}

impl Completable for AcceptOp {
    type Output = (Vec<u32>, Result<u32, i32>);

    fn complete(self, cqe: CqeResult) -> (Vec<u32>, Result<u32, i32>) {
        (self.seen, cqe.result)
    }

    fn update(&mut self, cqe: CqeResult) {
        if let Ok(v) = cqe.result {
            self.seen.push(v);
        }
    }
}

struct DropProbe {
    drops: Arc<AtomicUsize>,
}

impl Drop for DropProbe {
    fn drop(&mut self) {
        self.drops.fetch_add(1, Ordering::SeqCst);
    }
}

impl Completable for DropProbe {
    type Output = ();

    fn complete(self, _cqe: CqeResult) {}

    fn update(&mut self, _cqe: CqeResult) {}
}

fn new_driver<T>() -> Driver<T> {
    Driver::new(
        uring_core::BUF_GROUP_ID,
        uring_core::BUF_COUNT,
        uring_core::BUF_LEN,
        uring_core::RING_CAPACITY,
    )
}

#[test]
fn user_data_equals_slot_key() {
    let mut d: Driver<ReadOp> = new_driver();
    let h0 = d.submit(ReadOp, nop());
    let h1 = d.submit(ReadOp, nop());
    let h2 = d.submit(ReadOp, nop());
    assert_eq!(h0.key, 0);
    assert_eq!(h1.key, 1);
    assert_eq!(h2.key, 2);
    let subs = d.take_submissions();
    assert_eq!(subs.len(), 3);
    for (i, s) in subs.into_iter().enumerate() {
        assert_eq!(s.user_data, i as u64);
        assert_eq!(s.into_entry().get_user_data(), i as u64);
    }
}

#[test]
fn single_read_immediate_completion() {
    let mut d: Driver<ReadOp> = new_driver();
    let mut h = d.submit(ReadOp, nop());
    assert_eq!(d.state_of(h.key), Some(StateKind::Submitted));
    assert_eq!(d.dispatch(h.key as u64, 17, buffer_flags(3)), Ok(()));
    assert_eq!(d.state_of(h.key), Some(StateKind::Completed));
    assert!(d.pool.is_busy(3));
    let (_a, w) = counting_waker();
    match d.poll_op(&mut h, w) {
        OpPoll::Ready(cqe) => {
            assert_eq!(cqe.result, Ok(17));
            let buf = cqe.buf.expect("buffer expected");
            assert_eq!(buf.bid, 3);
            assert_eq!(buf.len, 17);
            assert!(d.release_buf(buf));
        }
        OpPoll::Pending => panic!("expected ready"),
    }
    assert!(!d.pool.is_busy(3));
    assert_eq!(d.state_of(h.key), None);
}

#[test]
fn buffer_length_clamped() {
    let mut d: Driver<ReadOp> = new_driver();
    let mut h = d.submit(ReadOp, nop());
    assert_eq!(d.dispatch(h.key as u64, 5000, buffer_flags(0)), Ok(()));
    let (_a, w) = counting_waker();
    match d.poll_op(&mut h, w) {
        OpPoll::Ready(cqe) => {
            let buf = cqe.buf.expect("buffer expected");
            assert_eq!(buf.len, uring_core::BUF_LEN);
        }
        OpPoll::Pending => panic!("expected ready"),
    }
}

#[test]
fn failed_read_releases_buffer_index() {
    let mut d: Driver<ReadOp> = new_driver();
    let mut h = d.submit(ReadOp, nop());
    assert_eq!(d.dispatch(h.key as u64, -104, buffer_flags(7)), Ok(()));
    assert!(!d.pool.is_busy(7));
    let (_a, w) = counting_waker();
    match d.poll_op(&mut h, w) {
        OpPoll::Ready(cqe) => {
            assert_eq!(cqe.result, Err(104));
            assert!(cqe.buf.is_none());
        }
        OpPoll::Pending => panic!("expected ready"),
    }
}

#[test]
fn waker_stored_and_woken_on_completion() {
    let mut d: Driver<ReadOp> = new_driver();
    let mut h = d.submit(ReadOp, nop());
    let (a, w) = counting_waker();
    assert!(matches!(d.poll_op(&mut h, w), OpPoll::Pending));
    assert_eq!(d.state_of(h.key), Some(StateKind::Waiting));
    assert_eq!(a.0.load(Ordering::SeqCst), 0);
    assert_eq!(d.dispatch(h.key as u64, 4, 0), Ok(()));
    assert_eq!(a.0.load(Ordering::SeqCst), 1);
    assert_eq!(d.state_of(h.key), Some(StateKind::Completed));
}

#[test]
fn waker_reused_for_same_task_replaced_for_other() {
    let mut d: Driver<ReadOp> = new_driver();
    let mut h = d.submit(ReadOp, nop());
    let (a, wa) = counting_waker();
    assert!(matches!(d.poll_op(&mut h, wa.clone()), OpPoll::Pending));
    // Same task polls again: the stored waker already wakes it.
    assert!(matches!(d.poll_op(&mut h, wa), OpPoll::Pending));
    assert_eq!(d.state_of(h.key), Some(StateKind::Waiting));
    // A different task takes over: the stored waker is replaced.
    let (b, wb) = counting_waker();
    assert!(matches!(d.poll_op(&mut h, wb), OpPoll::Pending));
    assert_eq!(d.dispatch(h.key as u64, 0, 0), Ok(()));
    assert_eq!(a.0.load(Ordering::SeqCst), 0);
    assert_eq!(b.0.load(Ordering::SeqCst), 1);
}

#[test]
fn multishot_updates_then_single_complete() {
    let mut d: Driver<AcceptOp> = new_driver();
    let mut h = d.submit(AcceptOp { seen: Vec::new() }, nop());
    assert_eq!(d.dispatch(h.key as u64, 7, MORE), Ok(()));
    assert_eq!(d.state_of(h.key), Some(StateKind::MultiPending));
    assert_eq!(d.dispatch(h.key as u64, 8, MORE), Ok(()));
    assert_eq!(d.dispatch(h.key as u64, 9, MORE), Ok(()));
    assert_eq!(d.dispatch(h.key as u64, 0, 0), Ok(()));
    assert_eq!(d.state_of(h.key), Some(StateKind::MultiPending));
    let (a, w) = counting_waker();
    // First poll delivers the three updates, parks the terminal, re-wakes.
    assert!(matches!(d.poll_op(&mut h, w.clone()), OpPoll::Pending));
    assert_eq!(a.0.load(Ordering::SeqCst), 1);
    assert_eq!(d.state_of(h.key), Some(StateKind::Completed));
    // Second poll observes the terminal.
    match d.poll_op(&mut h, w) {
        OpPoll::Ready((seen, status)) => {
            assert_eq!(seen, vec![7, 8, 9]);
            assert_eq!(status, Ok(0));
        }
        OpPoll::Pending => panic!("expected ready"),
    }
    assert_eq!(d.state_of(h.key), None);
}

#[test]
fn multishot_without_terminal_stays_waiting() {
    let mut d: Driver<AcceptOp> = new_driver();
    let mut h = d.submit(AcceptOp { seen: Vec::new() }, nop());
    assert_eq!(d.dispatch(h.key as u64, 5, MORE), Ok(()));
    let (a, w) = counting_waker();
    assert!(matches!(d.poll_op(&mut h, w), OpPoll::Pending));
    // The update was delivered and the task re-woken to observe it.
    assert_eq!(a.0.load(Ordering::SeqCst), 1);
    assert_eq!(d.state_of(h.key), Some(StateKind::Waiting));
}

#[test]
fn drop_inflight_submits_one_cancellation() {
    let mut d: Driver<DropProbe> = new_driver();
    let drops = Arc::new(AtomicUsize::new(0));
    let h = d.submit(DropProbe { drops: drops.clone() }, nop());
    let key = h.key;
    let before = d.take_submissions();
    assert_eq!(before.len(), 1);
    assert!(d.drop_op(h));
    assert_eq!(d.state_of(key), Some(StateKind::Abandoned));
    assert_eq!(drops.load(Ordering::SeqCst), 0);
    let cancels = d.take_submissions();
    assert_eq!(cancels.len(), 1);
    assert_eq!(cancels[0].user_data, u64::MAX);
    // The kernel still confirms the abandoned operation; the slot then goes
    // away and the payload is dropped exactly once.
    assert_eq!(d.dispatch(key as u64, -125, 0), Ok(()));
    assert_eq!(d.state_of(key), None);
    assert_eq!(drops.load(Ordering::SeqCst), 1);
}

#[test]
fn cancel_descriptor_is_cancel_opcode() {
    let mut d: Driver<ReadOp> = new_driver();
    let h = d.submit(ReadOp, nop());
    let _ = d.take_submissions();
    assert!(d.drop_op(h));
    let cancels = d.take_submissions();
    assert_eq!(cancels.len(), 1);
    let entry = cancels.into_iter().next().unwrap().into_entry();
    assert_eq!(entry.get_user_data(), u64::MAX);
    assert_eq!(entry.get_opcode(), u32::from(io_uring::opcode::AsyncCancel::CODE));
}

#[test]
fn abandoned_read_releases_buffer() {
    let mut d: Driver<ReadOp> = new_driver();
    let h = d.submit(ReadOp, nop());
    let key = h.key;
    assert!(d.drop_op(h));
    // The read still completes with a kernel-selected buffer; nothing leaks.
    assert_eq!(d.dispatch(key as u64, 12, buffer_flags(5)), Ok(()));
    assert_eq!(d.state_of(key), None);
    assert!(!d.pool.is_busy(5));
}

#[test]
fn abandoned_multishot_waits_for_terminal() {
    let mut d: Driver<ReadOp> = new_driver();
    let h = d.submit(ReadOp, nop());
    let key = h.key;
    assert!(d.drop_op(h));
    assert_eq!(d.dispatch(key as u64, 3, MORE), Ok(()));
    assert_eq!(d.state_of(key), Some(StateKind::Abandoned));
    assert_eq!(d.dispatch(key as u64, 0, 0), Ok(()));
    assert_eq!(d.state_of(key), None);
}

#[test]
fn drop_completed_performs_zero_cancellations() {
    let mut d: Driver<ReadOp> = new_driver();
    let h = d.submit(ReadOp, nop());
    let key = h.key;
    let _ = d.take_submissions();
    assert_eq!(d.dispatch(key as u64, 17, buffer_flags(2)), Ok(()));
    assert!(d.pool.is_busy(2));
    assert!(!d.drop_op(h));
    assert_eq!(d.state_of(key), None);
    // No cancellation was queued, and the parked buffer went back.
    assert_eq!(d.take_submissions().len(), 0);
    assert!(!d.pool.is_busy(2));
}

#[test]
fn drop_multishot_with_terminal_just_removes() {
    let mut d: Driver<AcceptOp> = new_driver();
    let h = d.submit(AcceptOp { seen: Vec::new() }, nop());
    let key = h.key;
    let _ = d.take_submissions();
    assert_eq!(d.dispatch(key as u64, 7, MORE), Ok(()));
    assert_eq!(d.dispatch(key as u64, 0, 0), Ok(()));
    assert!(!d.drop_op(h));
    assert_eq!(d.state_of(key), None);
    assert_eq!(d.take_submissions().len(), 0);
}

#[test]
fn drop_multishot_still_pending_abandons() {
    let mut d: Driver<AcceptOp> = new_driver();
    let h = d.submit(AcceptOp { seen: Vec::new() }, nop());
    let key = h.key;
    let _ = d.take_submissions();
    assert_eq!(d.dispatch(key as u64, 7, MORE), Ok(()));
    assert!(d.drop_op(h));
    assert_eq!(d.state_of(key), Some(StateKind::Abandoned));
    let cancels = d.take_submissions();
    assert_eq!(cancels.len(), 1);
    assert_eq!(cancels[0].user_data, u64::MAX);
}

#[test]
fn slot_keys_are_reused_after_removal() {
    let mut d: Driver<ReadOp> = new_driver();
    let mut h = d.submit(ReadOp, nop());
    let first = h.key;
    assert_eq!(d.dispatch(first as u64, 1, 0), Ok(()));
    let (_a, w) = counting_waker();
    assert!(matches!(d.poll_op(&mut h, w), OpPoll::Ready(_)));
    let h2 = d.submit(ReadOp, nop());
    assert_eq!(h2.key, first);
    assert_eq!(d.slot_count(), 1);
}

#[test]
fn handle_lends_its_payload_out() {
    let mut d: Driver<AcceptOp> = new_driver();
    let mut h = d.submit(AcceptOp { seen: Vec::new() }, nop());
    h.get_mut().seen.push(42);
    assert_eq!(h.payload.as_ref().unwrap().seen, vec![42]);
    let _ = d.drop_op(h);
}

#[test]
fn reset_rearms_the_slot() {
    let mut d: Driver<ReadOp> = new_driver();
    let h = d.submit(ReadOp, nop());
    let (a, w) = counting_waker();
    d.reset(&h, w);
    assert_eq!(d.state_of(h.key), Some(StateKind::Waiting));
    assert_eq!(d.dispatch(h.key as u64, 1, 0), Ok(()));
    assert_eq!(a.0.load(Ordering::SeqCst), 1);
}

#[test]
fn reset_discards_parked_completion_and_its_buffer() {
    let mut d: Driver<ReadOp> = new_driver();
    let h = d.submit(ReadOp, nop());
    assert_eq!(d.dispatch(h.key as u64, 9, buffer_flags(6)), Ok(()));
    assert!(d.pool.is_busy(6));
    let (_a, w) = counting_waker();
    d.reset(&h, w);
    assert_eq!(d.state_of(h.key), Some(StateKind::Waiting));
    assert!(!d.pool.is_busy(6));
}

#[test]
fn dispatch_unknown_key_is_refused() {
    let mut d: Driver<ReadOp> = new_driver();
    assert_eq!(d.dispatch(0, 1, 0), Err(DispatchError::UnknownKey));
    let h = d.submit(ReadOp, nop());
    assert_eq!(d.dispatch(h.key as u64 + 1, 1, 0), Err(DispatchError::UnknownKey));
}

#[test]
fn dispatch_on_completed_slot_is_refused() {
    let mut d: Driver<ReadOp> = new_driver();
    let h = d.submit(ReadOp, nop());
    assert_eq!(d.dispatch(h.key as u64, 1, 0), Ok(()));
    assert_eq!(d.dispatch(h.key as u64, 2, 0), Err(DispatchError::AlreadyCompleted));
}

#[test]
fn dispatch_duplicate_buffer_index_is_refused() {
    let mut d: Driver<ReadOp> = new_driver();
    let h0 = d.submit(ReadOp, nop());
    let h1 = d.submit(ReadOp, nop());
    assert_eq!(d.dispatch(h0.key as u64, 10, buffer_flags(4)), Ok(()));
    // The kernel never hands the same index out twice; doing so is refused.
    assert_eq!(
        d.dispatch(h1.key as u64, 11, buffer_flags(4)),
        Err(DispatchError::BadBuffer)
    );
    assert_eq!(d.state_of(h1.key), Some(StateKind::Submitted));
}

#[test]
fn dispatch_out_of_range_buffer_is_refused() {
    let mut d: Driver<ReadOp> = new_driver();
    let h = d.submit(ReadOp, nop());
    let bad = uring_core::BUF_COUNT;
    assert_eq!(
        d.dispatch(h.key as u64, 1, buffer_flags(bad)),
        Err(DispatchError::BadBuffer)
    );
}

#[test]
fn sentinel_completion_is_discarded() {
    let mut d: Driver<ReadOp> = new_driver();
    let h = d.submit(ReadOp, nop());
    assert_eq!(d.dispatch(u64::MAX, -2, 0), Ok(()));
    assert_eq!(d.state_of(h.key), Some(StateKind::Submitted));
}

#[test]
fn shutdown_is_submitted_like_any_operation() {
    let mut d: Driver<uring_core::shutdown::Shutdown> = new_driver();
    let mut h = d.shutdown(9, 2);
    let subs = d.take_submissions();
    assert_eq!(subs.len(), 1);
    assert_eq!(subs[0].user_data, h.key as u64);
    let entry = subs.into_iter().next().unwrap().into_entry();
    assert_eq!(entry.get_opcode(), u32::from(io_uring::opcode::Shutdown::CODE));
    assert_eq!(d.dispatch(h.key as u64, 0, 0), Ok(()));
    let (_a, w) = counting_waker();
    match d.poll_op(&mut h, w) {
        OpPoll::Ready(status) => assert_eq!(status, Ok(0)),
        OpPoll::Pending => panic!("expected ready"),
    }
}
