use uring_core::driver::Driver;
use uring_core::lifecycle::Completable;
use uring_core::lifecycle::CqeResult;
use uring_core::pool::BufPool;
use uring_core::InitError;

fn nop() -> io_uring::squeue::Entry {
    io_uring::opcode::Nop::new().build()
}

struct NopOp;

impl Completable for NopOp {
    type Output = ();

    fn complete(self, _cqe: CqeResult) {}

    fn update(&mut self, _cqe: CqeResult) {}
}

#[test]
fn acquire_then_release_repeated_leaves_free_set_unchanged() {
    let mut p = BufPool::new(uring_core::BUF_GROUP_ID, 8, 4096);
    for _ in 0..10 {
        let b = p.acquire(100, 3).expect("index 3 is free");
        assert_eq!(b.bid, 3);
        assert_eq!(b.len, 100);
        assert!(p.release(b.bid));
    }
    assert_eq!(p.capacity(), 8);
    for bid in 0..8u16 {
        assert!(!p.is_busy(bid));
    }
}

#[test]
fn acquired_index_cannot_be_lent_twice() {
    let mut p = BufPool::new(uring_core::BUF_GROUP_ID, 8, 4096);
    let b = p.acquire(10, 3).expect("index 3 is free");
    assert!(p.acquire(10, 3).is_none());
    assert!(p.release(b.bid));
    assert!(p.acquire(10, 3).is_some());
}

#[test]
fn release_of_free_index_changes_nothing() {
    let mut p = BufPool::new(uring_core::BUF_GROUP_ID, 4, 4096);
    assert!(!p.release(2));
    assert!(!p.release(100));
    for bid in 0..4u16 {
        assert!(!p.is_busy(bid));
    }
}

#[test]
fn acquire_clamps_length_to_buffer_length() {
    let mut p = BufPool::new(uring_core::BUF_GROUP_ID, 4, 4096);
    let b = p.acquire(10_000, 1).expect("index 1 is free");
    assert_eq!(b.len, 4096);
}

#[test]
fn submission_queue_full_triggers_inline_flushes() {
    // A ring of 128 entries, fed 257 submissions with nothing drained.
    let mut d: Driver<NopOp> = Driver::new(uring_core::BUF_GROUP_ID, 0, 4096, 128);
    let mut handles = Vec::new();
    for i in 0..257usize {
        let h = d.submit(NopOp, nop());
        assert_eq!(h.key, i);
        handles.push(h);
        let expected_flushed = if i >= 256 {
            256
        } else if i >= 128 {
            128
        } else {
            0
        };
        assert_eq!(d.queue.flushed_count(), expected_flushed);
    }
    // Every descriptor reaches the kernel hand-off, keys intact and in order.
    let subs = d.take_submissions();
    assert_eq!(subs.len(), 257);
    for (i, s) in subs.into_iter().enumerate() {
        assert_eq!(s.user_data, i as u64);
        assert_eq!(s.into_entry().get_user_data(), i as u64);
    }
}

#[test]
fn kernel_too_old_is_unsupported() {
    assert_eq!(uring_core::check_kernel_features(false, false), Err(InitError::Unsupported));
    assert_eq!(uring_core::check_kernel_features(false, true), Err(InitError::Unsupported));
    assert_eq!(uring_core::check_kernel_features(true, false), Err(InitError::Unsupported));
    assert_eq!(uring_core::check_kernel_features(true, true), Ok(()));
}

#[test]
fn pool_registration_outcome() {
    let p = BufPool::new(uring_core::BUF_GROUP_ID, 4, 4096);
    assert_eq!(p.register_result(None), Ok(()));
    assert_eq!(p.register_result(Some(uring_core::ERRNO_INVAL)), Err(InitError::Unsupported));
    assert_eq!(p.register_result(Some(uring_core::ERRNO_EXIST)), Err(InitError::Conflict));
    assert_eq!(p.register_result(Some(7)), Err(InitError::Other(7)));
}

#[test]
fn register_errno_classification() {
    assert_eq!(
        uring_core::classify_register_errno(uring_core::ERRNO_INVAL),
        InitError::Unsupported
    );
    assert_eq!(
        uring_core::classify_register_errno(uring_core::ERRNO_EXIST),
        InitError::Conflict
    );
    assert_eq!(uring_core::classify_register_errno(13), InitError::Other(13));
}

#[test]
fn busy_and_interrupted_waits_are_benign() {
    assert!(uring_core::wait_error_benign(uring_core::ERRNO_BUSY));
    assert!(uring_core::wait_error_benign(uring_core::ERRNO_INTR));
    assert!(!uring_core::wait_error_benign(uring_core::ERRNO_INVAL));
    assert!(!uring_core::wait_error_benign(0));
    assert!(!uring_core::wait_error_benign(-1));
}
