use vibeio::driver::{CompletionIoResult, Interest};
use vibeio::error::{
    BufferRole, ErrorKind, IoError, LengthLimit, SocketCall, System, EAGAIN, EALREADY, EBUSY,
    EINPROGRESS, ENOTCONN, ETIME, WSAEWOULDBLOCK,
};
use vibeio::net::addr::{
    self, sockaddr_storage_to_socketaddr, SocketAddress, INET6_LEN, INET_LEN, STORAGE_LEN,
};
use vibeio::net::connect::{is_in_progress, start_nonblocking_connect, ConnectAttempts};
use vibeio::net::unix;
use vibeio::op::accept::{self, accepted, set_cloexec, Accepted};
use vibeio::op::buffers::{checked_len, checked_lens, finish_readv, scatter, total_len};
use vibeio::op::connect::{self, pending_error, ConnectCheck};
use vibeio::op::overlapped::{
    self, poll_readv, poll_socket, submit_windows, OverlappedCall, OverlappedReadv, RawOsHandle,
    IO_PENDING,
};
use vibeio::op::recvfrom::{poll_completion, poll_poll, recv_flags, MSG_PEEK};
use vibeio::op::{
    completion_result, completion_result_to_poll, poll_blocking_result, poll_result_or_wait,
    poll_waiting, syscall_result, Attempt, CompletionOp, CompletionRequest, CompletionStep, OpKind,
    Polled,
};

const READABLE: Interest = Interest { readable: true, writable: false };
const WRITABLE: Interest = Interest { readable: false, writable: true };
const LOCALHOST: SocketAddress = SocketAddress::V4 { ip4: 0x7f00_0001, port: 5555 };

#[test]
fn constants_of_calls_are_those_of_the_system() {
    assert_eq!(EAGAIN, libc::EAGAIN);
    assert_eq!(EAGAIN, libc::EWOULDBLOCK);
    assert_eq!(EBUSY, libc::EBUSY);
    assert_eq!(ETIME, libc::ETIME);
    assert_eq!(ENOTCONN, libc::ENOTCONN);
    assert_eq!(EALREADY, libc::EALREADY);
    assert_eq!(EINPROGRESS, libc::EINPROGRESS);
    assert_eq!(addr::AF_INET, libc::AF_INET);
    assert_eq!(addr::AF_INET6, libc::AF_INET6);
    assert_eq!(unix::AF_UNIX, libc::AF_UNIX);
    assert_eq!(STORAGE_LEN, std::mem::size_of::<libc::sockaddr_storage>());
    assert_eq!(INET_LEN as usize, std::mem::size_of::<libc::sockaddr_in>());
    assert_eq!(INET6_LEN as usize, std::mem::size_of::<libc::sockaddr_in6>());
    assert_eq!(2 + unix::PATH_LEN, std::mem::size_of::<libc::sockaddr_un>());
    assert_eq!(MSG_PEEK, libc::MSG_PEEK);
    assert_eq!(accept::FD_CLOEXEC, libc::FD_CLOEXEC);
}

#[test]
fn addresses_are_stored_as_the_system_takes_them() {
    let raw = addr::socket_addr_to_raw(LOCALHOST, System::Linux);
    assert_eq!((raw.family, raw.len, raw.storage.len()), (libc::AF_INET, 16, 128));
    assert_eq!(raw.storage[..8], [2, 0, 0x15, 0xb3, 127, 0, 0, 1]);
    assert!(raw.storage[8..].iter().all(|byte| *byte == 0));
    let six = SocketAddress::V6 { ip6: 1, port: 80, flowinfo: 0x0102, scope_id: 3 };
    let raw = addr::socket_addr_to_raw(six, System::Linux);
    assert_eq!((raw.family, raw.len, raw.storage.len()), (libc::AF_INET6, 28, 128));
    assert_eq!(raw.storage[..8], [10, 0, 0, 80, 2, 1, 0, 0]);
    assert_eq!(raw.storage[23], 1);
    assert_eq!(raw.storage[24..28], [3, 0, 0, 0]);
}

#[test]
fn addresses_come_back_as_they_were_stored() {
    for address in vec![
        LOCALHOST,
        SocketAddress::V4 { ip4: u32::MAX, port: u16::MAX },
        SocketAddress::V6 { ip6: u128::MAX - 7, port: 1, flowinfo: u32::MAX, scope_id: 9 },
    ] {
        let raw = addr::socket_addr_to_raw(address, System::Linux);
        assert_eq!(sockaddr_storage_to_socketaddr(&raw.storage, System::Linux), Ok(address));
    }
    let other = sockaddr_storage_to_socketaddr(&vec![0u8; 128], System::Linux);
    assert_eq!(other, Err(IoError::UnsupportedFamily));
}

#[test]
fn socket_paths_are_checked_and_stored() {
    let raw = unix::socket_addr_to_raw(&b"/tmp/s".to_vec()).unwrap();
    assert_eq!(raw.len, 9);
    assert_eq!(raw.storage.len(), 110);
    assert_eq!(raw.storage[..9], *b"\x01\0/tmp/s\0");
    let refused = |path: Vec<u8>| unix::socket_addr_to_raw(&path).unwrap_err();
    assert_eq!(refused(vec![]), IoError::EmptySocketPath);
    assert_eq!(refused(b"a\0b".to_vec()), IoError::SocketPathContainsNul);
    assert_eq!(refused(vec![b'x'; 108]), IoError::SocketPathTooLong);
    assert_eq!(unix::socket_addr_to_raw(&vec![b'x'; 107]).unwrap().len, 110);
}

#[test]
fn last_failed_attempt_is_reported() {
    let mut attempts = ConnectAttempts::new();
    assert_eq!(attempts.exhausted(), IoError::NoAddresses);
    attempts.failed(IoError::Os(111));
    attempts.failed(IoError::Os(110));
    assert_eq!(attempts.exhausted(), IoError::Os(110));
}

#[test]
fn connection_that_is_under_way_has_started() {
    assert!(is_in_progress(System::Linux, EINPROGRESS) && is_in_progress(System::Linux, EALREADY) && is_in_progress(System::Linux, EAGAIN));
    assert!(!is_in_progress(System::Linux, 111));
    assert_eq!(start_nonblocking_connect(System::Linux, None), Ok(()));
    assert_eq!(start_nonblocking_connect(System::Linux, Some(EINPROGRESS)), Ok(()));
    assert_eq!(start_nonblocking_connect(System::Linux, Some(111)), Err(IoError::Os(111)));
}

#[test]
fn connection_is_made_when_no_error_pends_and_there_is_a_peer() {
    assert!(matches!(pending_error(Ok(0)), ConnectCheck::AskPeer));
    for waiting in vec![pending_error(Ok(EINPROGRESS)), pending_error(Err(EAGAIN))] {
        match waiting {
            ConnectCheck::Attempt(Attempt::Wait(interest)) => assert_eq!(interest, WRITABLE),
            other => panic!("unexpected: {:?}", other),
        }
    }
    for (failed, code) in vec![(pending_error(Ok(111)), 111), (pending_error(Err(9)), 9)] {
        match failed {
            ConnectCheck::Attempt(Attempt::Ready(result)) => {
                assert_eq!(result, Err(IoError::Os(code)))
            }
            other => panic!("unexpected: {:?}", other),
        }
    }
    assert!(matches!(connect::peer(None), Attempt::Ready(Ok(()))));
    assert!(matches!(connect::peer(Some(ENOTCONN)), Attempt::Wait(WRITABLE)));
    assert!(matches!(connect::peer(Some(EINPROGRESS)), Attempt::Wait(WRITABLE)));
    assert!(matches!(connect::peer(Some(9)), Attempt::Ready(Err(IoError::Os(9)))));
}

#[test]
fn accepted_connection_is_reported_with_its_peer() {
    assert!(matches!(accepted(Ok(7)), Accepted::Connection(7)));
    assert!(matches!(accepted(Err(EAGAIN)), Accepted::Attempt(Attempt::Wait(READABLE))));
    let failed = accepted(Err(24));
    assert!(matches!(failed, Accepted::Attempt(Attempt::Ready(Err(IoError::Os(24))))));
    let storage = addr::socket_addr_to_raw(LOCALHOST, System::Linux).storage;
    match accept::peer(7, Ok(storage), true) {
        Attempt::Ready(result) => assert_eq!(result, Ok((7, LOCALHOST))),
        other => panic!("unexpected: {:?}", other),
    }
    assert!(matches!(accept::peer(7, Err(EAGAIN), true), Attempt::Wait(READABLE)));
    let failed = accept::peer(7, Err(EAGAIN), false);
    assert!(matches!(failed, Attempt::Ready(Err(IoError::Os(EAGAIN)))));
    let failed = accept::peer(7, Ok(vec![0u8; 128]), true);
    assert!(matches!(failed, Attempt::Ready(Err(IoError::UnsupportedFamily))));
}

#[test]
fn descriptors_are_closed_for_other_programs() {
    assert_eq!(set_cloexec(0), Some(libc::FD_CLOEXEC));
    assert_eq!(set_cloexec(4), Some(5));
    assert_eq!(set_cloexec(5), None);
}

#[test]
fn datagram_is_reported_with_its_source() {
    assert_eq!((recv_flags(true), recv_flags(false)), (libc::MSG_PEEK, 0));
    let storage = addr::socket_addr_to_raw(LOCALHOST, System::Linux).storage;
    match poll_poll(Ok(4), &storage, System::Linux) {
        Attempt::Ready(result) => assert_eq!(result, Ok((4, LOCALHOST))),
        other => panic!("unexpected: {:?}", other),
    }
    assert!(matches!(poll_poll(Err(EAGAIN), &storage, System::Linux), Attempt::Wait(READABLE)));
    assert!(matches!(poll_poll(Err(9), &storage, System::Linux), Attempt::Ready(Err(IoError::Os(9)))));
    let unknown = poll_poll(Ok(4), &vec![0u8; 128], System::Linux);
    assert!(matches!(unknown, Attempt::Ready(Err(IoError::UnsupportedFamily))));
    assert_eq!(poll_completion(Ok(4), Some(storage), System::Linux), Ok((4, LOCALHOST)));
    assert_eq!(poll_completion(Ok(4), None, System::Linux), Err(IoError::MissingSource));
    assert_eq!(poll_completion(Err(IoError::Os(9)), None, System::Linux), Err(IoError::Os(9)));
}

#[test]
fn operations_wait_for_their_readiness() {
    for kind in vec![
        OpKind::Read,
        OpKind::Readv,
        OpKind::Recv,
        OpKind::Recvfrom,
        OpKind::Accept,
    ] {
        assert_eq!(kind.interest(), READABLE);
    }
    for kind in vec![
        OpKind::Write,
        OpKind::Writev,
        OpKind::WriteAt,
        OpKind::Send,
        OpKind::Connect,
    ] {
        assert_eq!(kind.interest(), WRITABLE);
    }
    let blocked = poll_result_or_wait::<u64>(Err(IoError::Os(EAGAIN)), OpKind::Send);
    assert!(matches!(blocked, Attempt::Wait(WRITABLE)));
    let failed = poll_result_or_wait::<u64>(Err(IoError::Os(9)), OpKind::Send);
    assert!(matches!(failed, Attempt::Ready(Err(IoError::Os(9)))));
    assert!(matches!(poll_result_or_wait(Ok(3u64), OpKind::Send), Attempt::Ready(Ok(3))));
    assert!(matches!(poll_waiting::<u64>(Ok(())), Polled::Pending));
    let failed = poll_waiting::<u64>(Err(IoError::Os(9)));
    assert!(matches!(failed, Polled::Ready(Err(IoError::Os(9)))));
    assert!(matches!(completion_result_to_poll(Ok(5u64)), Polled::Ready(Ok(5))));
    let pending = completion_result_to_poll::<u64>(Err(IoError::CompletionPending));
    assert!(matches!(pending, Polled::Pending));
    let failed = completion_result_to_poll::<u64>(Err(IoError::NoAddresses));
    assert!(matches!(failed, Polled::Ready(Err(IoError::NoAddresses))));
}

#[test]
fn results_of_calls_are_told_apart() {
    assert_eq!(completion_result(12, System::Linux), Ok(12));
    assert_eq!(completion_result(-11, System::Linux), Err(IoError::Os(11)));
    assert_eq!(syscall_result(-1, 9), Err(IoError::Os(9)));
    assert_eq!(syscall_result(0, 9), Ok(0));
    assert_eq!(poll_blocking_result(Some(-4)), Ok(-4));
    assert_eq!(poll_blocking_result(None), Err(IoError::NoBlockingPool));
}

#[test]
fn submitted_operation_fetches_its_result() {
    let mut op = CompletionOp::new(OpKind::Read, System::Linux);
    assert_eq!(op.request(), CompletionRequest::Submit);
    let step = op.submitted(CompletionIoResult::Retry(6));
    assert_eq!(step, CompletionStep::Pending { set_waker: None });
    assert_eq!(op.request(), CompletionRequest::Fetch(6));
    assert_eq!(op.fetched(None), CompletionStep::Pending { set_waker: Some(6) });
    assert_eq!(op.fetched(Some(-5)), CompletionStep::Ready(Err(IoError::Os(5))));
    assert_eq!(op.request(), CompletionRequest::Submit);
    assert_eq!(op.submitted(CompletionIoResult::Done(3)), CompletionStep::Ready(Ok(3)));
    let refused = op.submitted(CompletionIoResult::SubmitErr(IoError::SubmissionQueueFull));
    assert_eq!(refused, CompletionStep::Ready(Err(IoError::SubmissionQueueFull)));
}

#[test]
fn connection_attempt_remembers_its_token() {
    let mut op = CompletionOp::new(OpKind::Connect, System::Linux);
    op.submitted(CompletionIoResult::Retry(6));
    assert_eq!(op.fetched(None), CompletionStep::Pending { set_waker: None });
    assert_eq!(op.fetched(Some(0)), CompletionStep::Ready(Ok(0)));
    assert_eq!(op.request(), CompletionRequest::Fetch(6));
    let mut op = CompletionOp::new(OpKind::Write, System::Linux);
    op.submitted(CompletionIoResult::Retry(8));
    assert_eq!(op.fetched(None), CompletionStep::Pending { set_waker: None });
    assert_eq!(op.fetched(Some(2)), CompletionStep::Ready(Ok(2)));
    assert_eq!(op.request(), CompletionRequest::Submit);
}

#[test]
fn lengths_have_to_fit_the_call() {
    let large: usize = 0x1_0000_0000;
    assert_eq!(checked_len(5, BufferRole::Read, LengthLimit::Socket), Ok(5));
    let refused = checked_len(large, BufferRole::Read, LengthLimit::Ring);
    assert_eq!(refused, Err(IoError::TooLarge(BufferRole::Read, LengthLimit::Ring)));
    assert_eq!(checked_lens(&vec![1, 0, 3], BufferRole::Writev), Ok(vec![1, 0, 3]));
    let refused = checked_lens(&vec![1, large], BufferRole::Writev);
    assert_eq!(refused, Err(IoError::TooLarge(BufferRole::Writev, LengthLimit::Socket)));
    assert_eq!(total_len(&vec![1, 2, 3]), Ok(6));
    assert_eq!(total_len(&vec![]), Ok(0));
    assert_eq!(total_len(&vec![large - 1, 1]), Err(IoError::ReadvTotalTooLarge));
    assert_eq!(total_len(&vec![usize::MAX, 1]), Err(IoError::ReadvLengthOverflow));
}

#[test]
fn overlapped_call_that_is_under_way_was_submitted() {
    assert_eq!(submit_windows(None), Ok(()));
    assert_eq!(submit_windows(Some(IO_PENDING)), Ok(()));
    assert_eq!(submit_windows(Some(6)), Err(IoError::Windows(6)));
}

#[test]
fn overlapped_calls_take_what_they_can() {
    let (socket, file) = (RawOsHandle::Socket(7), RawOsHandle::Handle(8));
    let large: usize = 0x1_0000_0000;
    let too_large = |role, limit| Err(IoError::TooLarge(role, limit));
    let on_socket = Ok(OverlappedCall::Socket { socket: 7, len: 5 });
    assert_eq!(overlapped::read(socket, 5), on_socket);
    let from_file =
        OverlappedCall::File { handle: 8, file_len: 5, offset_low: 0, offset_high: 0 };
    assert_eq!(overlapped::read(file, 5), Ok(from_file));
    let refused = too_large(BufferRole::Read, LengthLimit::Socket);
    assert_eq!(overlapped::read(socket, large), refused);
    assert_eq!(overlapped::recv(socket, large), refused);
    assert_eq!(overlapped::read(file, large), too_large(BufferRole::Read, LengthLimit::File));
    assert_eq!(overlapped::recv(socket, 5), on_socket);
    assert_eq!(overlapped::recv(file, large), Err(IoError::RecvSocketsOnly));
    assert_eq!(overlapped::recvfrom(socket, 5), on_socket);
    assert_eq!(overlapped::recvfrom(file, 5), Err(IoError::RecvfromSocketsOnly));
    assert_eq!(overlapped::send(socket, 5), on_socket);
    assert_eq!(overlapped::send(file, 5), Err(IoError::SendSocketsOnly));
    let refused = too_large(BufferRole::Write, LengthLimit::Socket);
    assert_eq!(overlapped::send(socket, large), refused);
    assert_eq!(overlapped::write_at(socket, 5, 0), Err(IoError::WriteAtSocket));
    let refused = too_large(BufferRole::Write, LengthLimit::File);
    assert_eq!(overlapped::write_at(file, large, 0), refused);
    let at = OverlappedCall::File {
        handle: 8,
        file_len: 5,
        offset_low: 0x89ab_cdef,
        offset_high: 0x0123_4567,
    };
    assert_eq!(overlapped::write_at(file, 5, 0x0123_4567_89ab_cdef), Ok(at));
    assert_eq!(poll_socket(socket, SocketCall::Recv), Ok(7));
    let refused = Err(IoError::PollSocketsOnly(SocketCall::Recv));
    assert_eq!(poll_socket(file, SocketCall::Recv), refused);
    assert_eq!(poll_readv(socket, false), Ok(7));
    assert_eq!(poll_readv(socket, true), Err(IoError::BlockingReadvUnsupported));
    assert_eq!(poll_readv(file, true), Err(IoError::BlockingReadvUnsupported));
    let refused = Err(IoError::PollSocketsOnly(SocketCall::Readv));
    assert_eq!(poll_readv(file, false), refused);
}

#[test]
fn overlapped_reads_into_several_buffers() {
    let (socket, file) = (RawOsHandle::Socket(7), RawOsHandle::Handle(8));
    match overlapped::readv(socket, &vec![1, 2]) {
        Ok(OverlappedReadv::Buffers { socket, lens }) => assert_eq!((socket, lens), (7, vec![1, 2])),
        other => panic!("unexpected: {:?}", other),
    }
    match overlapped::readv(file, &vec![1, 2]) {
        Ok(OverlappedReadv::Staged { handle, total }) => assert_eq!((handle, total), (8, 3)),
        other => panic!("unexpected: {:?}", other),
    }
    let refused = overlapped::readv(socket, &vec![1, 0x1_0000_0000]).unwrap_err();
    assert_eq!(refused, IoError::TooLarge(BufferRole::Readv, LengthLimit::Socket));
    let refused = overlapped::readv(file, &vec![1, 0xffff_ffff]).unwrap_err();
    assert_eq!(refused, IoError::ReadvTotalTooLarge);
    let refused = overlapped::readv(file, &vec![1, usize::MAX]).unwrap_err();
    assert_eq!(refused, IoError::ReadvLengthOverflow);
}

#[test]
fn staged_bytes_are_scattered_in_order() {
    let mut bufs = vec![vec![0u8; 2], vec![], vec![0u8; 3]];
    scatter(&b"abcdef".to_vec(), 4, &mut bufs);
    assert_eq!(bufs, vec![b"ab".to_vec(), vec![], b"cd\0".to_vec()]);
    let mut bufs = vec![vec![0u8; 2], vec![0u8; 4]];
    assert_eq!(finish_readv(Ok(5), Some(b"hello!".to_vec()), &mut bufs), Ok(5));
    assert_eq!(bufs, vec![b"he".to_vec(), b"llo\0".to_vec()]);
    let mut bufs = vec![vec![0u8; 2]];
    assert_eq!(finish_readv(Ok(2), None, &mut bufs), Ok(2));
    let failed = finish_readv(Err(IoError::Os(5)), Some(b"xx".to_vec()), &mut bufs);
    assert_eq!(failed, Err(IoError::Os(5)));
    assert_eq!(bufs, vec![vec![0u8; 2]]);
}

#[test]
fn errors_have_their_kind_and_text() {
    let cases = vec![
        (IoError::NotRegistered(12), ErrorKind::NotFound, "I/O token 12 is not registered with this driver"),
        (IoError::RegisteredForPoll(0), ErrorKind::Unsupported, "I/O token 0 is registered for poll mode, not completion mode"),
        (IoError::RegisteredForCompletion(105), ErrorKind::Unsupported, "I/O token 105 is registered for completion mode, not poll mode"),
        (IoError::CompletionPending, ErrorKind::WouldBlock, "An I/O completion is pending"),
        (IoError::SubmissionQueueFull, ErrorKind::Other, "io_uring submission queue is full"),
        (IoError::CompletionUnsupported, ErrorKind::Unsupported, "driver does not support completion-based I/O submission"),
        (IoError::OperationCompletionUnsupported, ErrorKind::Unsupported, "operation does not support completion-based submission"),
        (IoError::MockSubmission, ErrorKind::Unsupported, "MockDriver does not support I/O operation submission"),
        (IoError::MockRegistration, ErrorKind::Unsupported, "MockDriver does not support I/O handle registration"),
        (IoError::MockReregistration, ErrorKind::Unsupported, "MockDriver does not support I/O handle re-registration"),
        (IoError::MockDeregistration, ErrorKind::Unsupported, "MockDriver does not support I/O handle deregistration"),
        (IoError::CompletionModeOnly, ErrorKind::Unsupported, "IOCP driver currently supports completion mode only"),
        (IoError::OutsideRuntime, ErrorKind::NotConnected, "can't register I/O handle outside runtime"),
        (IoError::NoBlockingPool, ErrorKind::Other, "can't spawn blocking task for I/O"),
        (IoError::NoBlockingPoolForFile, ErrorKind::Other, "can't spawn blocking task for file I/O"),
        (IoError::FillWholeBuffer, ErrorKind::UnexpectedEof, "failed to fill whole buffer"),
        (IoError::WriteWholeBuffer, ErrorKind::WriteZero, "failed to write whole buffer"),
        (IoError::WriteWholeFile, ErrorKind::UnexpectedEof, "failed to write whole buffer"),
        (IoError::InvalidTimestamp, ErrorKind::InvalidData, "invalid statx timestamp"),
        (IoError::InvalidPath(3), ErrorKind::InvalidInput, "Invalid path: nul byte found in provided data at position: 3"),
        (IoError::ReadvNotImplemented, ErrorKind::Unsupported, "readv not implemented"),
        (IoError::NoAddresses, ErrorKind::InvalidInput, "no addresses"),
        (IoError::AccessRequired, ErrorKind::InvalidInput, "must enable read, write, or append access"),
        (IoError::WriteAccessRequired, ErrorKind::InvalidInput, "truncate/create options require write or append access"),
        (IoError::PathContainsNul, ErrorKind::InvalidInput, "path contains interior NUL byte"),
        (IoError::EmptySocketPath, ErrorKind::InvalidInput, "empty socket path"),
        (IoError::SocketPathContainsNul, ErrorKind::InvalidInput, "socket path contains interior NUL byte"),
        (IoError::SocketPathTooLong, ErrorKind::InvalidInput, "socket path is too long"),
        (IoError::UnsupportedFamily, ErrorKind::InvalidData, "unsupported socket family"),
        (IoError::MissingSource, ErrorKind::Other, "recvfrom completion missing source address"),
        (IoError::ReadvLengthOverflow, ErrorKind::InvalidInput, "readv buffer length overflow"),
        (IoError::ReadvTotalTooLarge, ErrorKind::InvalidInput, "readv total length is too large for Windows file I/O"),
        (IoError::RecvSocketsOnly, ErrorKind::InvalidInput, "WSARecv can be used only with listening sockets"),
        (IoError::RecvfromSocketsOnly, ErrorKind::InvalidInput, "WSARecvFrom can be used only with sockets"),
        (IoError::SendSocketsOnly, ErrorKind::InvalidInput, "WSASend can be used only with sockets"),
        (IoError::PollSocketsOnly(SocketCall::Recv), ErrorKind::Unsupported, "poll-based recv currently supports sockets only on Windows"),
        (IoError::PollSocketsOnly(SocketCall::Recvfrom), ErrorKind::Unsupported, "poll-based recvfrom currently supports sockets only on Windows"),
        (IoError::PollSocketsOnly(SocketCall::Readv), ErrorKind::Unsupported, "poll-based readv currently supports sockets only on Windows"),
        (IoError::PollSocketsOnly(SocketCall::Send), ErrorKind::Unsupported, "poll-based send currently supports sockets only on Windows"),
        (IoError::BlockingReadvUnsupported, ErrorKind::Unsupported, "blocking poll-based readv is unsupported on Windows"),
        (IoError::WriteAtSocket, ErrorKind::InvalidInput, "WriteAtOp expects a file handle, not a socket"),
    ];
    for (err, kind, text) in cases {
        assert_eq!(err.kind(), Some(kind));
        assert_eq!(err.message(), Some(text.to_string()));
        assert_eq!(err.is_would_block(), kind == ErrorKind::WouldBlock);
    }
}

#[test]
fn buffers_that_are_too_large_are_named() {
    let text = |role, limit| IoError::TooLarge(role, limit).message().unwrap();
    let refused = IoError::TooLarge(BufferRole::Read, LengthLimit::File);
    assert_eq!(refused.kind(), Some(ErrorKind::InvalidInput));
    let (file, ring, socket) = (LengthLimit::File, LengthLimit::Ring, LengthLimit::Socket);
    assert_eq!(text(BufferRole::Read, file), "read buffer is too large for Windows file I/O");
    assert_eq!(text(BufferRole::Write, ring), "write buffer is too large for io_uring");
    assert_eq!(text(BufferRole::Readv, socket), "readv buffer is too large for Windows socket I/O");
    assert_eq!(text(BufferRole::Writev, socket), "writev buffer is too large for Windows socket I/O");
}

#[test]
fn numbers_of_the_operating_system_have_no_text_of_their_own() {
    assert_eq!(IoError::Os(EAGAIN).kind(), None);
    assert_eq!(IoError::Os(5).message(), None);
    assert!(IoError::Os(EAGAIN).is_would_block());
    assert!(!IoError::Os(5).is_would_block());
    assert_eq!(System::Linux.error(EAGAIN), IoError::Os(EAGAIN));
    let blocked = System::Windows.error(WSAEWOULDBLOCK);
    assert_eq!(blocked, IoError::Windows(10035));
    assert_eq!((blocked.kind(), blocked.message()), (None, None));
    assert!(blocked.is_would_block());
    assert!(!IoError::Windows(EAGAIN).is_would_block());
    assert!(!IoError::Os(WSAEWOULDBLOCK).is_would_block());
}

#[test]
fn each_system_has_its_own_numbers() {
    let six = SocketAddress::V6 { ip6: 1, port: 80, flowinfo: 2, scope_id: 3 };
    let raw = addr::socket_addr_to_raw(six, System::Windows);
    assert_eq!((raw.family, raw.len, &raw.storage[..4]), (23, 28, &[23u8, 0, 0, 80][..]));
    assert_eq!(sockaddr_storage_to_socketaddr(&raw.storage, System::Windows), Ok(six));
    let unknown = sockaddr_storage_to_socketaddr(&raw.storage, System::Linux);
    assert_eq!(unknown, Err(IoError::UnsupportedFamily));
    for code in vec![10035, 10036, 10037] {
        assert_eq!(start_nonblocking_connect(System::Windows, Some(code)), Ok(()));
        let failed = start_nonblocking_connect(System::Linux, Some(code));
        assert_eq!(failed, Err(IoError::Os(code)));
    }
    let failed = start_nonblocking_connect(System::Windows, Some(EINPROGRESS));
    assert_eq!(failed, Err(IoError::Windows(EINPROGRESS)));
    let storage = addr::socket_addr_to_raw(LOCALHOST, System::Windows).storage;
    let waiting = poll_poll(Err(10035), &storage, System::Windows);
    assert!(matches!(waiting, Attempt::Wait(READABLE)));
    let failed = poll_poll(Err(EAGAIN), &storage, System::Windows);
    assert!(matches!(failed, Attempt::Ready(Err(IoError::Windows(EAGAIN)))));
    assert_eq!(poll_completion(Ok(4), Some(storage), System::Windows), Ok((4, LOCALHOST)));
    assert_eq!(completion_result(-64, System::Windows), Err(IoError::Windows(64)));
    let mut op = CompletionOp::new(OpKind::Send, System::Windows);
    op.submitted(CompletionIoResult::Retry(1));
    assert_eq!(op.fetched(Some(-64)), CompletionStep::Ready(Err(IoError::Windows(64))));
}
