use vibeio::driver::{Interest, RegistrationMode};
use vibeio::error::{ErrorKind, IoError};
use vibeio::fd_inner::{
    default_mode, effective_mode, new_with_mode, InnerRawHandle,
};
use vibeio::fs::file::{
    blocking_pool_io_error, read_to_string, wants_registration, File, FileIo, Route, WholeFile,
    READ_CHUNK,
};
use vibeio::fs::metadata::{
    statx_timestamp_to_system_time, EpochOffset, Metadata, StatxTimestamp, S_IFDIR, S_IFLNK,
    S_IFMT, S_IFREG,
};
use vibeio::fs::open_options::{
    OpenOptions, OpenPlan, CREATE_MODE, O_APPEND, O_CLOEXEC, O_CREAT, O_EXCL, O_RDONLY, O_RDWR,
    O_TRUNC, O_WRONLY,
};
use vibeio::fs::path::{
    contains_nul, hard_link, metadata, remove_dir, remove_file, rename, symlink, symlink_dir,
    symlink_file, terminated_path, PathPlan, PathRequest,
};
use vibeio::io::transfer::{ExactTransfer, Progress};

fn handle(mode: RegistrationMode) -> InnerRawHandle {
    let interest = Interest { readable: true, writable: true };
    InnerRawHandle { fd: 4, token: 2, interest, mode }
}

#[test]
fn constants_are_those_of_the_system() {
    assert_eq!(O_RDONLY, libc::O_RDONLY);
    assert_eq!(O_WRONLY, libc::O_WRONLY);
    assert_eq!(O_RDWR, libc::O_RDWR);
    assert_eq!(O_CREAT, libc::O_CREAT);
    assert_eq!(O_EXCL, libc::O_EXCL);
    assert_eq!(O_TRUNC, libc::O_TRUNC);
    assert_eq!(O_APPEND, libc::O_APPEND);
    assert_eq!(O_CLOEXEC, libc::O_CLOEXEC);
    assert_eq!(S_IFMT, libc::S_IFMT);
    assert_eq!(S_IFDIR, libc::S_IFDIR);
    assert_eq!(S_IFREG, libc::S_IFREG);
    assert_eq!(S_IFLNK, libc::S_IFLNK);
    assert_eq!(READ_CHUNK, 8192);
}

#[test]
fn options_without_access_are_refused() {
    assert_eq!(OpenOptions::new().validate(), Err(IoError::AccessRequired));
    assert_eq!(OpenOptions::default().validate(), Err(IoError::AccessRequired));
    let mut options = OpenOptions::new();
    assert_eq!(options.read(true).validate(), Ok(()));
    assert_eq!(options.truncate(true).validate(), Err(IoError::WriteAccessRequired));
    assert_eq!(options.truncate(false).create(true).validate(), Err(IoError::WriteAccessRequired));
    assert_eq!(options.create(false).create_new(true).validate(), Err(IoError::WriteAccessRequired));
    assert_eq!(options.append(true).validate(), Ok(()));
    assert_eq!(options.append(false).write(true).validate(), Ok(()));
}

#[test]
fn options_become_flags() {
    let flags = |options: &OpenOptions| options.build_open_op(&b"f".to_vec()).unwrap().flags;
    let mut options = OpenOptions::new();
    assert_eq!(flags(options.read(true)), libc::O_RDONLY | libc::O_CLOEXEC);
    assert_eq!(flags(options.write(true)), libc::O_RDWR | libc::O_CLOEXEC);
    assert_eq!(
        flags(options.read(false).create(true).truncate(true)),
        libc::O_WRONLY | libc::O_CREAT | libc::O_TRUNC | libc::O_CLOEXEC
    );
    let mut options = OpenOptions::new();
    assert_eq!(
        flags(options.append(true).create_new(true)),
        libc::O_WRONLY | libc::O_APPEND | libc::O_CREAT | libc::O_EXCL | libc::O_CLOEXEC
    );
}

#[test]
fn open_request_carries_a_terminated_path() {
    let mut options = OpenOptions::new();
    options.read(true);
    let op = options.build_open_op(&b"/tmp/x".to_vec()).unwrap();
    assert_eq!(op.path, b"/tmp/x\0");
    assert_eq!(op.mode, 0o666);
    assert_eq!(CREATE_MODE, 0o666);
    let nul = options.build_open_op(&b"a\0b".to_vec());
    assert_eq!(nul.unwrap_err(), IoError::PathContainsNul);
    let closed = OpenOptions::new().build_open_op(&b"a\0b".to_vec());
    assert_eq!(closed.unwrap_err(), IoError::AccessRequired);
}

#[test]
fn file_is_opened_as_the_runtime_allows() {
    let path = b"x".to_vec();
    let options = File::open();
    assert!(matches!(options.open(None, &path), Ok(OpenPlan::Direct)));
    assert!(matches!(options.open(Some(false), &path), Ok(OpenPlan::BlockingPool)));
    match options.open(Some(true), &path) {
        Ok(OpenPlan::Submit(op)) => assert_eq!(op.flags, libc::O_RDONLY | libc::O_CLOEXEC),
        other => panic!("unexpected: {:?}", other),
    }
    let nul = b"\0".to_vec();
    assert_eq!(options.open(Some(true), &nul).unwrap_err(), IoError::PathContainsNul);
    assert!(matches!(options.open(Some(false), &nul), Ok(OpenPlan::BlockingPool)));
    assert_eq!(OpenOptions::new().open(None, &path).unwrap_err(), IoError::AccessRequired);
    match File::create().open(Some(true), &path) {
        Ok(OpenPlan::Submit(op)) => assert_eq!(
            op.flags,
            libc::O_WRONLY | libc::O_CREAT | libc::O_TRUNC | libc::O_CLOEXEC
        ),
        other => panic!("unexpected: {:?}", other),
    }
}

#[test]
fn appending_starts_at_the_end() {
    let mut options = OpenOptions::new();
    assert_eq!(options.write(true).initial_cursor(40), 0);
    assert_eq!(options.append(true).initial_cursor(40), 40);
}

#[test]
fn file_operations_take_their_route() {
    let blocking = File::from_std_with_cursor(None, 0);
    let failed = File::from_std_with_cursor(Some(Err(IoError::Os(1))), 0);
    let registered = handle(RegistrationMode::Completion);
    let completion = File::from_std_with_cursor(Some(Ok(registered)), 0);
    assert_eq!(failed.io, FileIo::Blocking);
    assert_eq!(blocking.completion_handle(), None);
    assert_eq!(completion.completion_handle(), Some(registered));
    assert_eq!(blocking.read_at(0, true), None);
    assert_eq!(completion.write_at(0, true), None);
    assert_eq!(blocking.read_at(1, true), Some(Route::BlockingPool));
    assert_eq!(blocking.write_at(1, false), Some(Route::Direct));
    assert_eq!(completion.read_at(1, true), Some(Route::Completion));
    assert_eq!(completion.request_route(true), Route::Completion);
    assert_eq!(blocking.request_route(true), Route::BlockingPool);
    assert_eq!(blocking.request_route(false), Route::Direct);
    assert!(wants_registration(Some(true)));
    assert!(!wants_registration(Some(false)));
    assert!(!wants_registration(None));
    assert_eq!(blocking_pool_io_error(), IoError::NoBlockingPoolForFile);
}

#[test]
fn cursor_moves_over_what_was_transferred() {
    let mut file = File::from_std_with_cursor(None, 10);
    file.advance(Ok(5));
    assert_eq!(file.cursor, 15);
    file.advance(Err(IoError::Os(5)));
    assert_eq!(file.cursor, 15);
    let mut file = File::from_std_with_cursor(None, u64::MAX - 2);
    file.advance(Ok(5));
    assert_eq!(file.cursor, u64::MAX);
}

#[test]
fn whole_file_is_its_chunks_in_order() {
    let mut file = WholeFile::new();
    assert!(file.take(&b"hello ".to_vec(), 6));
    assert!(file.take(&b"world!".to_vec(), 5));
    assert!(!file.take(&b"world!".to_vec(), 0));
    assert_eq!(file.into_bytes(), b"hello world");
}

#[test]
fn paths_are_terminated() {
    assert_eq!(terminated_path(&b"ab".to_vec()), Ok(b"ab\0".to_vec()));
    assert_eq!(terminated_path(&b"ab\0c\0".to_vec()), Err(IoError::InvalidPath(2)));
    assert!(contains_nul(&b"a\0".to_vec()));
    assert!(!contains_nul(&b"".to_vec()));
}

#[test]
fn path_operations_are_submitted_where_the_driver_offers_completions() {
    let (a, b) = (b"a".to_vec(), b"b".to_vec());
    match hard_link(Some(true), &a, &b) {
        Ok(PathPlan::Submit(PathRequest::HardLink { from, to })) => {
            assert_eq!((from, to), (b"a\0".to_vec(), b"b\0".to_vec()))
        }
        other => panic!("unexpected: {:?}", other),
    }
    for plan in vec![
        symlink(Some(true), &a, &b),
        symlink_dir(Some(true), &a, &b),
        symlink_file(Some(true), &a, &b),
    ] {
        match plan {
            Ok(PathPlan::Submit(PathRequest::Symlink { from, to })) => {
                assert_eq!((from, to), (b"a\0".to_vec(), b"b\0".to_vec()))
            }
            other => panic!("unexpected: {:?}", other),
        }
    }
    match rename(Some(true), &a, &b) {
        Ok(PathPlan::Submit(PathRequest::Rename { from, to })) => {
            assert_eq!((from, to), (b"a\0".to_vec(), b"b\0".to_vec()))
        }
        other => panic!("unexpected: {:?}", other),
    }
    match remove_dir(Some(true), &a) {
        Ok(PathPlan::Submit(PathRequest::Unlink { path, dir })) => {
            assert_eq!((path, dir), (b"a\0".to_vec(), true))
        }
        other => panic!("unexpected: {:?}", other),
    }
    match remove_file(Some(true), &a) {
        Ok(PathPlan::Submit(PathRequest::Unlink { path, dir })) => {
            assert_eq!((path, dir), (b"a\0".to_vec(), false))
        }
        other => panic!("unexpected: {:?}", other),
    }
    match metadata(Some(true), &a) {
        Ok(PathPlan::Submit(PathRequest::Statx { path })) => assert_eq!(path, b"a\0".to_vec()),
        other => panic!("unexpected: {:?}", other),
    }
}

#[test]
fn path_operations_are_left_to_the_blocking_pool_otherwise() {
    let (a, b) = (b"a\0".to_vec(), b"b".to_vec());
    for current in vec![None, Some(false)] {
        for plan in vec![
            hard_link(current, &a, &b),
            symlink(current, &a, &b),
            symlink_dir(current, &a, &b),
            symlink_file(current, &a, &b),
            rename(current, &a, &b),
            remove_dir(current, &a),
            remove_file(current, &a),
            metadata(current, &a),
        ] {
            assert!(matches!(plan, Ok(PathPlan::BlockingPool)));
        }
    }
}

#[test]
fn paths_with_a_zero_are_refused_with_its_place() {
    let (good, one, two) = (b"abc".to_vec(), b"a\0".to_vec(), b"ab\0".to_vec());
    assert_eq!(hard_link(Some(true), &one, &two).unwrap_err(), IoError::InvalidPath(1));
    assert_eq!(symlink(Some(true), &good, &two).unwrap_err(), IoError::InvalidPath(2));
    assert_eq!(symlink_dir(Some(true), &good, &one).unwrap_err(), IoError::InvalidPath(1));
    assert_eq!(symlink_file(Some(true), &two, &one).unwrap_err(), IoError::InvalidPath(2));
    assert_eq!(rename(Some(true), &good, &one).unwrap_err(), IoError::InvalidPath(1));
    assert_eq!(remove_dir(Some(true), &one).unwrap_err(), IoError::InvalidPath(1));
    assert_eq!(remove_file(Some(true), &two).unwrap_err(), IoError::InvalidPath(2));
    assert_eq!(metadata(Some(true), &two).unwrap_err(), IoError::InvalidPath(2));
}

fn file_metadata(mode: u32) -> Metadata {
    Metadata {
        size: 12,
        mode,
        atime: StatxTimestamp { secs: 10, nanos: 1 },
        btime: StatxTimestamp { secs: 0, nanos: 2 },
        mtime: StatxTimestamp { secs: -3, nanos: 4 },
    }
}

#[test]
fn metadata_tells_the_kind_of_file() {
    let file = file_metadata(0o100644);
    assert_eq!(file.len(), 12);
    assert_eq!(file.permissions(), 0o100644);
    assert!(file.is_file() && !file.is_dir() && !file.is_symlink());
    let dir = file_metadata(0o040755);
    assert!(dir.is_dir() && !dir.is_file() && !dir.is_symlink());
    let link = file_metadata(0o120777).file_type();
    assert!(link.is_symlink() && !link.is_dir() && !link.is_file());
    let fifo = file_metadata(0o010644).file_type();
    assert!(!fifo.is_symlink() && !fifo.is_dir() && !fifo.is_file());
}

#[test]
fn metadata_tells_the_times() {
    let file = file_metadata(0o100644);
    assert_eq!(file.accessed(), EpochOffset { before: false, secs: 10, nanos: 1 });
    assert_eq!(file.created(), EpochOffset { before: false, secs: 0, nanos: 2 });
    assert_eq!(file.modified(), EpochOffset { before: true, secs: 2, nanos: 999_999_996 });
    let offset = |secs, nanos| statx_timestamp_to_system_time(StatxTimestamp { secs, nanos });
    let half = EpochOffset { before: true, secs: 0, nanos: 500_000_000 };
    assert_eq!(offset(-1, 500_000_000), half);
    assert_eq!(offset(-1, 0), EpochOffset { before: true, secs: 1, nanos: 0 });
    assert_eq!(offset(0, 0), EpochOffset { before: false, secs: 0, nanos: 0 });
    assert_eq!(offset(i64::MIN, 0), EpochOffset { before: true, secs: 1 << 63, nanos: 0 });
    let last = EpochOffset { before: false, secs: i64::MAX as u64, nanos: 999_999_999 };
    assert_eq!(offset(i64::MAX, 999_999_999), last);
}

#[test]
fn modes_of_handles() {
    let poll = RegistrationMode::Poll;
    let completion = RegistrationMode::Completion;
    assert_eq!(effective_mode(completion, true), completion);
    assert_eq!(effective_mode(completion, false), poll);
    assert_eq!(effective_mode(poll, true), poll);
    assert_eq!(default_mode(Some(true)), completion);
    assert_eq!(default_mode(Some(false)), poll);
    assert_eq!(default_mode(None), poll);
    assert_eq!(new_with_mode(None, poll), Err(IoError::OutsideRuntime));
    assert_eq!(new_with_mode(Some(false), completion), Ok(poll));
    assert_eq!(new_with_mode(Some(true), completion), Ok(completion));
}

#[test]
fn handle_changes_its_mode() {
    let poll = RegistrationMode::Poll;
    let completion = RegistrationMode::Completion;
    let mut changed = handle(completion);
    assert!(changed.uses_completion(true));
    assert!(!changed.uses_completion(false));
    assert_eq!(changed.rebind_target(completion, true), None);
    assert_eq!(changed.rebind_target(poll, true), Some(poll));
    assert_eq!(changed.rebind_mode(poll, Err(IoError::Os(1)), Ok(9)), Err(IoError::Os(1)));
    assert_eq!(changed, handle(completion));
    assert_eq!(changed.rebind_mode(poll, Ok(()), Err(IoError::Os(2))), Err(IoError::Os(2)));
    assert_eq!(changed, handle(completion));
    assert_eq!(changed.rebind_mode(poll, Ok(()), Ok(9)), Ok(()));
    assert_eq!((changed.token, changed.mode), (9, poll));
    assert!(!changed.uses_completion(true));
    assert_eq!(changed.rebind_target(completion, false), None);
}

#[test]
fn text_of_a_file_is_read_as_utf_8() {
    assert_eq!(read_to_string(Ok(vec![])), Ok(String::new()));
    assert_eq!(read_to_string(Ok("h\u{e9}".as_bytes().to_vec())), Ok(String::from("h\u{e9}")));
    assert_eq!(read_to_string(Err(IoError::Os(2))), Err(IoError::Os(2)));
    for bytes in vec![vec![b'a', 0xff, b'b'], vec![b'a', b'b', 0xe2, 0x82], vec![0xed, 0xa0, 0x80]] {
        let expected = String::from_utf8(bytes.clone()).unwrap_err().utf8_error();
        let err = read_to_string(Ok(bytes)).unwrap_err();
        assert_eq!(
            err,
            IoError::InvalidUtf8 {
                valid_up_to: expected.valid_up_to(),
                error_len: expected.error_len(),
            }
        );
        assert_eq!(err.kind(), Some(ErrorKind::InvalidData));
        assert_eq!(err.message(), Some(expected.to_string()));
    }
    let cut_short = read_to_string(Ok(vec![b'a', b'b', 0xe2, 0x82]));
    let expected = IoError::InvalidUtf8 { valid_up_to: 2, error_len: None };
    assert_eq!(cut_short, Err(expected));
}

/// Writes `contents` over what a file holds, in writes of at most `piece` bytes, and reads the file
/// back in reads of at most `chunk` bytes.
fn write_and_read_back(held: &[u8], contents: &[u8], piece: usize, chunk: usize) -> Vec<u8> {
    let options = File::create();
    let mut stored = if options.truncate { Vec::new() } else { held.to_vec() };
    let mut file = File::from_std_with_cursor(None, options.initial_cursor(stored.len() as u64));
    let mut transfer = ExactTransfer::write_all(contents.len());
    while let Progress::Remaining(rest) = transfer.progress() {
        let count = rest.min(piece);
        let at = file.cursor as usize;
        stored.splice(at..at, contents[transfer.done..transfer.done + count].iter().copied());
        transfer.advance(Ok(count)).unwrap();
        file.advance(Ok(count));
    }
    let mut file = File::from_std_with_cursor(None, File::open().initial_cursor(0));
    let mut whole = WholeFile::new();
    loop {
        let at = file.cursor as usize;
        let count = (stored.len() - at).min(chunk).min(READ_CHUNK);
        let mut buffer = vec![0u8; READ_CHUNK];
        buffer[..count].copy_from_slice(&stored[at..at + count]);
        file.advance(Ok(count));
        if !whole.take(&buffer, count) {
            return whole.into_bytes();
        }
    }
}

#[test]
fn file_reads_back_as_it_was_written() {
    let long: Vec<u8> = (0..20_000u32).map(|i| (i % 251) as u8).collect();
    for contents in vec![&b""[..], &b"hello"[..], &long[..8192], &long[..]] {
        for (piece, chunk) in vec![(1 << 20, 1 << 20), (7, 8192), (8192, 5)] {
            let read = write_and_read_back(b"something longer than hello", contents, piece, chunk);
            assert_eq!(read, contents);
        }
    }
}
