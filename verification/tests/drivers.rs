use vibeio::driver::iocp::{self, IocpDriver, PortStatus};
use vibeio::driver::mio::{self, MioDriver, ReadinessSubmit};
use vibeio::driver::mock::MockDriver;
use vibeio::driver::uring::{
    self, CompletionStart, Cqe, PollSubmit, SubmitPlan, Timespec, UringDriver,
};
use vibeio::driver::{
    push_waiter, unsupported_completion_error, update_waiter, CompletionIoResult, Interest,
    Interruptor, RegistrationMode,
};
use vibeio::error::{IoError, EAGAIN, EBUSY, ETIME};

const READABLE: Interest = Interest { readable: true, writable: false };
const WRITABLE: Interest = Interest { readable: false, writable: true };
const BOTH: Interest = Interest { readable: true, writable: true };

#[test]
fn submit_executes_operation_and_returns_output() {
    let mut driver = MioDriver::new();
    match driver.submit(0, READABLE, 1, Ok(42usize)) {
        ReadinessSubmit::Finished(Ok(output)) => assert_eq!(output, 42),
        other => panic!("operation should succeed: {:?}", other),
    }
    assert_eq!(driver.waiter(0), None);
}

#[test]
fn submit_would_block_arms_task() {
    let mut driver = MioDriver::new();
    let token = driver.register_handle(0, BOTH);
    assert_eq!(driver.finish_register(token, Ok(())), Ok(token));
    match driver.submit::<usize>(token, BOTH, 77, Err(IoError::Os(EAGAIN))) {
        ReadinessSubmit::Finished(Err(err)) => assert!(err.is_would_block()),
        other => panic!("operation should be pending: {:?}", other),
    }
    assert_eq!(driver.registered_fd(token), Ok(0));
    assert_eq!(driver.waiter(token), Some(77));
}

#[test]
fn test_mock_driver_interrupt_basic() {
    let driver = MockDriver::new();
    let interruptor = driver.get_interruptor();
    interruptor.interrupt();
    interruptor.interrupt();
}

#[test]
fn wait_wakes_waiter_of_ready_token_only() {
    let mut driver = MioDriver::new();
    let first = driver.register_handle(3, READABLE);
    let second = driver.register_handle(4, READABLE);
    let _ = driver.submit::<()>(first, READABLE, 10, Err(IoError::Os(EAGAIN)));
    let _ = driver.submit::<()>(second, READABLE, 20, Err(IoError::Os(EAGAIN)));
    assert_eq!(driver.wait_timeout(&vec![mio::INTERRUPT_TOKEN, first, 99]), vec![10]);
    assert_eq!(driver.waiter(first), None);
    assert_eq!(driver.waiter(second), Some(20));
    assert_eq!(driver.wait_timeout(&vec![first]), Vec::<u64>::new());
}

#[test]
fn readiness_driver_reregisters_for_another_interest() {
    let mut driver = MioDriver::new();
    let token = driver.register_handle(5, READABLE);
    match driver.submit::<()>(token, WRITABLE, 1, Err(IoError::Os(EAGAIN))) {
        ReadinessSubmit::Reregister { fd, interest, blocked } => {
            assert_eq!((fd, interest), (5, WRITABLE));
            assert_eq!(blocked, IoError::Os(EAGAIN));
        }
        other => panic!("unexpected: {:?}", other),
    }
    assert_eq!(driver.waiter(token), None);
    let report = driver.finish_submit(token, WRITABLE, 1, Err(IoError::Os(9)), IoError::Os(EAGAIN));
    assert_eq!(report, IoError::Os(9));
    assert_eq!(driver.waiter(token), None);
    let report = driver.finish_submit(token, WRITABLE, 1, Ok(()), IoError::Os(EAGAIN));
    assert_eq!(report, IoError::Os(EAGAIN));
    assert_eq!(driver.waiter(token), Some(1));
    match driver.submit::<()>(token, WRITABLE, 2, Err(IoError::Os(EAGAIN))) {
        ReadinessSubmit::Finished(Err(err)) => assert_eq!(err, IoError::Os(EAGAIN)),
        other => panic!("unexpected: {:?}", other),
    }
    assert_eq!(driver.waiter(token), Some(2));
}

#[test]
fn readiness_driver_knows_its_handles_only() {
    let mut driver = MioDriver::new();
    assert_eq!(driver.registered_fd(0), Err(IoError::NotRegistered(0)));
    assert_eq!(driver.reregister_handle(0, READABLE, Ok(())), Err(IoError::NotRegistered(0)));
    assert_eq!(driver.deregister_handle(0, Ok(())), Err(IoError::NotRegistered(0)));
    match driver.submit::<()>(0, READABLE, 1, Err(IoError::Os(EAGAIN))) {
        ReadinessSubmit::Finished(Err(err)) => assert_eq!(err, IoError::NotRegistered(0)),
        other => panic!("unexpected: {:?}", other),
    }
    let token = driver.register_handle(8, READABLE);
    assert_eq!(driver.finish_register(token, Err(IoError::Os(1))), Err(IoError::Os(1)));
    assert_eq!(driver.registered_fd(token), Err(IoError::NotRegistered(token)));
    let token = driver.register_handle(8, READABLE);
    assert_eq!(driver.reregister_handle(token, BOTH, Ok(())), Ok(()));
    assert_eq!(driver.deregister_handle(token, Ok(())), Ok(()));
    assert_eq!(driver.registered_fd(token), Err(IoError::NotRegistered(token)));
    assert!(!driver.supports_completion());
    assert_eq!(driver.submit_completion(), IoError::CompletionUnsupported);
}

#[test]
fn mock_driver_refuses_everything() {
    let driver = MockDriver::new();
    assert_eq!(driver.submit(), IoError::MockSubmission);
    assert_eq!(driver.register_handle(), IoError::MockRegistration);
    assert_eq!(driver.reregister_handle(), IoError::MockReregistration);
    assert_eq!(driver.deregister_handle(), IoError::MockDeregistration);
    assert_eq!(driver.submit_completion(), IoError::CompletionUnsupported);
    assert!(!driver.supports_completion());
    assert_eq!(unsupported_completion_error(), IoError::CompletionUnsupported);
}

#[test]
fn waiters_are_kept_once() {
    let mut waiter = None;
    update_waiter(&mut waiter, 3);
    assert_eq!(waiter, Some(3));
    update_waiter(&mut waiter, 4);
    assert_eq!(waiter, Some(4));
    let mut waiters = vec![1, 2];
    push_waiter(&mut waiters, 2);
    assert_eq!(waiters, vec![1, 2]);
    push_waiter(&mut waiters, 3);
    assert_eq!(waiters, vec![1, 2, 3]);
}

#[test]
fn keys_tell_token_and_kind() {
    assert_eq!(UringDriver::encode_completion_key(5), 11);
    assert_eq!(UringDriver::encode_poll_key(5), 10);
    for token in vec![0usize, 1, 7, 1 << 40] {
        let operation = UringDriver::encode_completion_key(token);
        let poll = UringDriver::encode_poll_key(token);
        assert_eq!(UringDriver::decode_token(operation), token);
        assert_eq!(UringDriver::decode_token(poll), token);
        assert_eq!(UringDriver::decode_key_kind(operation), 1);
        assert_eq!(UringDriver::decode_key_kind(poll), 0);
        assert_ne!(operation, uring::INTERRUPT_KEY);
        assert_ne!(poll, uring::TIMEOUT_KEY);
    }
}

#[test]
fn interests_are_spelled_as_poll_masks() {
    assert_eq!(UringDriver::interest_to_poll_mask(READABLE), libc::POLLIN as u32);
    assert_eq!(UringDriver::interest_to_poll_mask(WRITABLE), libc::POLLOUT as u32);
    assert_eq!(UringDriver::interest_to_poll_mask(BOTH), (libc::POLLIN | libc::POLLOUT) as u32);
    assert_eq!(uring::POLLIN, libc::POLLIN as u32);
    assert_eq!(uring::POLLOUT, libc::POLLOUT as u32);
}

#[test]
fn busy_ring_and_timeout_are_no_errors() {
    assert_eq!(UringDriver::submitter_call_result(Ok(3)), Ok(()));
    assert_eq!(UringDriver::submitter_call_result(Err(IoError::Os(EBUSY))), Ok(()));
    assert_eq!(UringDriver::submitter_call_result(Err(IoError::Os(ETIME))), Ok(()));
    assert_eq!(UringDriver::submitter_call_result(Err(IoError::Os(5))), Err(IoError::Os(5)));
    assert_eq!(UringDriver::push_entry(None, true), Ok(()));
    assert_eq!(UringDriver::push_entry(Some(Ok(1)), true), Ok(()));
    assert_eq!(UringDriver::push_entry(Some(Err(IoError::Os(EBUSY))), true), Ok(()));
    let full = UringDriver::push_entry(Some(Ok(1)), false);
    assert_eq!(full, Err(IoError::SubmissionQueueFull));
    assert_eq!(UringDriver::push_entry(Some(Err(IoError::Os(5))), true), Err(IoError::Os(5)));
}

#[test]
fn submission_is_planned_by_what_the_ring_can_do() {
    let time = Timespec { secs: 1, nanos: 2 };
    let modern = UringDriver::new(16, true);
    let plain = UringDriver::new(16, false);
    assert_eq!(modern.submit_plan(true, Some(time), true), SubmitPlan::SubmitWithTimeout(time));
    assert_eq!(plain.submit_plan(true, Some(time), true), SubmitPlan::PushTimeoutAndWait(time));
    assert_eq!(plain.submit_plan(true, None, true), SubmitPlan::SubmitAndWait);
    assert_eq!(plain.submit_plan(false, None, true), SubmitPlan::Skip);
    assert_eq!(plain.submit_plan(false, Some(time), false), SubmitPlan::Submit);
    assert!(plain.supports_completion());
}

#[test]
fn completed_operation_hands_its_result_over_once() {
    let mut driver = UringDriver::new(16, true);
    let token = driver.register_handle(3, BOTH);
    let key = UringDriver::encode_completion_key(token);
    assert_eq!(driver.start_completion(token, 1), CompletionStart::Submit { key });
    assert_eq!(driver.finish_completion(token, Ok(Some(9))), IoError::CompletionPending);
    assert_eq!(driver.start_completion(token, 2), CompletionStart::Pending);
    assert_eq!(driver.start_completion(token, 2), CompletionStart::Pending);
    let collected = driver.collect_completions(&vec![Cqe { key, result: 17 }]);
    assert_eq!(collected.wakers, vec![1, 2]);
    assert!(collected.woke_any);
    assert!(!collected.interrupted);
    let done = CompletionStart::Done { result: 17, aux: Some(9) };
    assert_eq!(driver.start_completion(token, 1), done);
    assert_eq!(driver.start_completion(token, 1), CompletionStart::Submit { key });
}

#[test]
fn failed_submission_frees_the_handle() {
    let mut driver = UringDriver::new(16, true);
    let token = driver.register_handle(3, BOTH);
    let key = UringDriver::encode_completion_key(token);
    assert_eq!(driver.start_completion(token, 1), CompletionStart::Submit { key });
    let report = driver.finish_completion(token, Err(IoError::SubmissionQueueFull));
    assert_eq!(report, IoError::SubmissionQueueFull);
    assert_eq!(driver.start_completion(token, 2), CompletionStart::Submit { key });
    let collected = driver.collect_completions(&vec![Cqe { key, result: 0 }]);
    assert_eq!(collected.wakers, vec![2]);
}

#[test]
fn blocked_operation_is_woken_by_its_poll_request() {
    let mut driver = UringDriver::new(16, true);
    let token = driver.register_handle_with_mode(6, READABLE, RegistrationMode::Poll);
    let key = UringDriver::encode_poll_key(token);
    match driver.submit::<()>(token, WRITABLE, 4, Err(IoError::Os(EAGAIN))) {
        PollSubmit::Arm { key: armed, fd, poll_mask, blocked } => {
            assert_eq!((armed, fd, poll_mask), (key, 6, uring::POLLOUT));
            assert_eq!(driver.finish_arm(token, Ok(()), blocked), IoError::Os(EAGAIN));
        }
        other => panic!("unexpected: {:?}", other),
    }
    match driver.submit::<()>(token, WRITABLE, 5, Err(IoError::Os(EAGAIN))) {
        PollSubmit::Finished(Err(err)) => assert_eq!(err, IoError::Os(EAGAIN)),
        other => panic!("unexpected: {:?}", other),
    }
    let collected = driver.collect_completions(&vec![Cqe { key, result: 4 }]);
    assert_eq!(collected.wakers, vec![5]);
    assert!(!collected.woke_any);
    match driver.submit(token, WRITABLE, 5, Ok(3usize)) {
        PollSubmit::Finished(Ok(count)) => assert_eq!(count, 3),
        other => panic!("unexpected: {:?}", other),
    }
}

#[test]
fn poll_request_that_could_not_be_pushed_leaves_nobody_waiting() {
    let mut driver = UringDriver::new(16, true);
    let token = driver.register_handle_with_mode(6, READABLE, RegistrationMode::Poll);
    let _ = driver.submit::<()>(token, READABLE, 4, Err(IoError::Os(EAGAIN)));
    let report = driver.finish_arm(token, Err(IoError::SubmissionQueueFull), IoError::Os(EAGAIN));
    assert_eq!(report, IoError::SubmissionQueueFull);
    let key = UringDriver::encode_poll_key(token);
    let collected = driver.collect_completions(&vec![Cqe { key, result: 1 }]);
    assert!(collected.wakers.is_empty());
    let again = driver.submit::<()>(token, READABLE, 4, Err(IoError::Os(EAGAIN)));
    assert!(matches!(again, PollSubmit::Arm { .. }));
}

#[test]
fn handle_has_one_mode() {
    let mut driver = UringDriver::new(16, true);
    let poll = driver.register_handle_with_mode(6, READABLE, RegistrationMode::Poll);
    let completion = driver.register_handle(7, READABLE);
    let refused = CompletionStart::Refused(IoError::RegisteredForPoll(poll));
    assert_eq!(driver.start_completion(poll, 1), refused);
    assert_eq!(driver.check_poll(poll), Ok(()));
    let refusal = IoError::RegisteredForCompletion(completion);
    assert_eq!(driver.check_poll(completion), Err(refusal));
    match driver.submit::<()>(completion, READABLE, 1, Err(IoError::Os(EAGAIN))) {
        PollSubmit::Finished(Err(err)) => assert_eq!(err, refusal),
        other => panic!("unexpected: {:?}", other),
    }
    match driver.submit(completion, READABLE, 1, Ok(5usize)) {
        PollSubmit::Finished(Err(err)) => assert_eq!(err, refusal),
        other => panic!("unexpected: {:?}", other),
    }
    let wrong_kind = Cqe { key: UringDriver::encode_poll_key(completion), result: 1 };
    let _ = driver.start_completion(completion, 1);
    assert!(driver.collect_completions(&vec![wrong_kind]).wakers.is_empty());
    assert_eq!(driver.start_completion(completion, 1), CompletionStart::Pending);
}

#[test]
fn ring_driver_knows_its_handles_only() {
    let mut driver = UringDriver::new(16, true);
    assert_eq!(driver.check_poll(2), Err(IoError::NotRegistered(2)));
    let refused = CompletionStart::Refused(IoError::NotRegistered(2));
    assert_eq!(driver.start_completion(2, 1), refused);
    for executed in [Ok(()), Err(IoError::Os(9)), Err(IoError::Os(EAGAIN))] {
        match driver.submit(2, READABLE, 1, executed) {
            PollSubmit::Finished(Err(err)) => assert_eq!(err, IoError::NotRegistered(2)),
            other => panic!("unexpected: {:?}", other),
        }
    }
    assert_eq!(driver.reregister_handle(2, READABLE), Err(IoError::NotRegistered(2)));
    assert_eq!(driver.deregister_handle(2), Err(IoError::NotRegistered(2)));
    let token = driver.register_handle_with_mode(1, READABLE, RegistrationMode::Poll);
    assert_eq!(driver.reregister_handle(token, WRITABLE), Ok(()));
    assert_eq!(driver.deregister_handle(token), Ok(()));
    assert_eq!(driver.check_poll(token), Err(IoError::NotRegistered(token)));
    let late = Cqe { key: UringDriver::encode_poll_key(token), result: 1 };
    assert!(driver.collect_completions(&vec![late]).wakers.is_empty());
}

#[test]
fn interrupt_and_timeout_end_the_wait() {
    let mut driver = UringDriver::new(16, true);
    let collected = driver.collect_completions(&vec![]);
    assert!(!collected.woke_any && !collected.interrupted);
    let interrupt = Cqe { key: uring::INTERRUPT_KEY, result: 8 };
    let collected = driver.collect_completions(&vec![interrupt]);
    assert!(collected.woke_any && collected.interrupted);
    let timeout = Cqe { key: uring::TIMEOUT_KEY, result: -62 };
    let collected = driver.collect_completions(&vec![timeout]);
    assert!(collected.woke_any && !collected.interrupted);
}

#[test]
fn waits_for_packets_are_bounded() {
    assert_eq!(IocpDriver::duration_to_timeout_ms(None), iocp::INFINITE);
    assert_eq!(IocpDriver::duration_to_timeout_ms(Some(0)), 0);
    assert_eq!(IocpDriver::duration_to_timeout_ms(Some(1500)), 1500);
    assert_eq!(IocpDriver::duration_to_timeout_ms(Some(1 << 40)), 0xffff_ffff);
}

#[test]
fn packet_completes_its_operation_once() {
    let mut driver = IocpDriver::new();
    let token = driver.start_submission(3);
    assert_eq!(driver.finish_submission(token, Ok(())), CompletionIoResult::Retry(token));
    assert_eq!(driver.get_completion_result(token), None);
    driver.set_completion_waker(token, 4);
    let status = PortStatus {
        success: true,
        transferred: 12,
        completion_key: 0,
        operation: Some(token),
        last_error: 0,
    };
    let processed = driver.process_one(status);
    assert_eq!(processed.found, Ok(true));
    assert_eq!(processed.waker, Some(4));
    assert_eq!(driver.get_completion_result(token), Some(12));
    assert_eq!(driver.get_completion_result(token), None);
}

#[test]
fn failed_packet_carries_its_error_number() {
    let mut driver = IocpDriver::new();
    let token = driver.start_submission(3);
    let status = PortStatus {
        success: false,
        transferred: 0,
        completion_key: 0,
        operation: Some(token),
        last_error: 64,
    };
    let processed = driver.process_one(status);
    assert_eq!(processed.waker, Some(3));
    assert_eq!(driver.get_completion_result(token), Some(-64));
}

#[test]
fn packets_that_belong_to_no_operation() {
    let mut driver = IocpDriver::new();
    let token = driver.start_submission(3);
    let mut status = PortStatus {
        success: false,
        transferred: 0,
        completion_key: 0,
        operation: None,
        last_error: iocp::WAIT_TIMEOUT,
    };
    assert_eq!(driver.process_one(status).found, Ok(false));
    status.last_error = iocp::ERROR_ABANDONED_WAIT_0;
    assert_eq!(driver.process_one(status).found, Ok(false));
    status.last_error = 6;
    assert_eq!(driver.process_one(status).found, Err(IoError::Windows(6)));
    status.success = true;
    assert_eq!(driver.process_one(status).found, Ok(true));
    status.operation = Some(token);
    status.completion_key = iocp::INTERRUPT_KEY;
    let processed = driver.process_one(status);
    assert_eq!((processed.found, processed.waker), (Ok(true), None));
    assert_eq!(driver.get_completion_result(token), None);
}

#[test]
fn refused_submission_is_forgotten() {
    let mut driver = IocpDriver::new();
    let token = driver.start_submission(3);
    let answer = driver.finish_submission(token, Err(IoError::Os(5)));
    assert_eq!(answer, CompletionIoResult::SubmitErr(IoError::Os(5)));
    assert_eq!(driver.get_completion_result(token), None);
    assert_eq!(driver.start_submission(4), token);
}

#[test]
fn port_driver_registers_for_completions_only() {
    let mut driver = IocpDriver::new();
    let refused = driver.register_handle_with_mode(RegistrationMode::Poll);
    assert_eq!(refused, Err(IoError::CompletionModeOnly));
    let token = driver.register_handle().unwrap();
    assert_eq!(driver.finish_register(token, Ok(())), Ok(token));
    assert_eq!(driver.reregister_handle(token), Ok(()));
    assert_eq!(driver.deregister_handle(token), Ok(()));
    assert_eq!(driver.reregister_handle(token), Err(IoError::NotRegistered(token)));
    assert_eq!(driver.deregister_handle(token), Err(IoError::NotRegistered(token)));
    let token = driver.register_handle().unwrap();
    assert_eq!(driver.finish_register(token, Err(IoError::Os(1))), Err(IoError::Os(1)));
    assert_eq!(driver.reregister_handle(token), Err(IoError::NotRegistered(token)));
    assert!(driver.supports_completion());
    assert!(driver.submit_poll().is_err());
}
