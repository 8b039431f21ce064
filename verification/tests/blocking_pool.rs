use vibeio::blocking::{DefaultBlockingThreadPool, DEFAULT_MAX_THREADS, MAX_THREADS_LIMIT};

#[test]
fn work_that_nobody_has_taken_starts_a_thread() {
    let mut pool = DefaultBlockingThreadPool::with_max_threads(2);
    let receiver = pool.spawn(1).unwrap();
    assert_eq!(receiver.try_recv(), Ok(1));
    let other = pool.spawn(2).unwrap();
    assert!(pool.spawn(3).is_none());
    assert_eq!(receiver.try_recv(), Ok(2));
    assert_eq!(other.try_recv(), Ok(3));
}

#[test]
fn pool_that_is_not_waited_for_joins_nothing() {
    let mut pool = DefaultBlockingThreadPool::with_max_threads(2);
    assert!(pool.spawn(1).is_some());
    assert!(pool.close().is_empty());
}

#[test]
fn threads_are_waited_for_in_the_order_in_which_they_started() {
    let mut pool = DefaultBlockingThreadPool::with_max_threads_and_wait_on_exit(3, true);
    for work in 10..15u64 {
        let started = pool.spawn(work);
        assert_eq!(started.is_some(), work < 13);
    }
    assert_eq!(pool.close(), vec![10, 11, 12]);
    assert!(pool.close().is_empty());
}

#[test]
fn closed_pool_takes_no_work_and_lets_its_threads_end() {
    let mut pool = DefaultBlockingThreadPool::new();
    let receiver = pool.spawn(1).unwrap();
    pool.close();
    assert!(pool.spawn(2).is_none());
    assert!(!pool.start_thread(2, false));
    assert_eq!(receiver.recv(), Ok(1));
    assert!(receiver.recv().is_err());
}

#[test]
fn no_thread_is_started_when_all_work_was_taken() {
    let mut pool = DefaultBlockingThreadPool::new();
    assert_eq!(DEFAULT_MAX_THREADS, 512);
    assert!(!pool.start_thread(1, true));
    assert!(pool.start_thread(1, false));
}

#[test]
fn default_pool_has_at_most_its_number_of_threads() {
    let mut pool = DefaultBlockingThreadPool::new();
    let mut started = 0;
    for work in 0..600u64 {
        if pool.spawn(work).is_some() {
            started += 1;
        }
    }
    assert_eq!(started, 512);
}

#[test]
fn first_work_always_starts_a_thread() {
    let mut pool = DefaultBlockingThreadPool::with_max_threads(1);
    let receiver = pool.spawn(9).unwrap();
    assert!(pool.spawn(10).is_none());
    assert_eq!((receiver.try_recv(), receiver.try_recv()), (Ok(9), Ok(10)));
    assert!(receiver.try_recv().is_err());
    assert_eq!(MAX_THREADS_LIMIT, isize::MAX as usize / 16);
}
