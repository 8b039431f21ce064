use vibeio::error::IoError;
use vibeio::io::buf::{
    IoBuf, IoBufMut, IoBufWithCursor, IoVec, IoVectoredBuf, IoVectoredBufMut,
};
use vibeio::io::splice::{SendfileExact, SendfileStep, SpliceExact};
use vibeio::io::transfer::{
    copy_bidirectional, first_buffer, vectored_unimplemented, CopyStep, CopyTransfer,
    ExactTransfer, Progress, COPY_CHUNK,
};

/// Reads at most `chunk` bytes at a time.
struct ChunkedReader {
    data: Vec<u8>,
    at: usize,
    chunk: usize,
}

impl ChunkedReader {
    fn read(&mut self, len: usize) -> Vec<u8> {
        let count = len.min(self.chunk).min(self.data.len() - self.at);
        let bytes = self.data[self.at..self.at + count].to_vec();
        self.at += count;
        bytes
    }
}

/// Takes at most `chunk` bytes at a time.
struct ChunkedWriter {
    data: Vec<u8>,
    chunk: usize,
    flushed: bool,
}

impl ChunkedWriter {
    fn write(&mut self, bytes: &[u8]) -> usize {
        let count = bytes.len().min(self.chunk);
        self.data.extend_from_slice(&bytes[..count]);
        count
    }
}

fn copy(reader: &mut ChunkedReader, writer: &mut ChunkedWriter) -> Result<u64, IoError> {
    let mut transfer = CopyTransfer::new();
    let mut chunk = Vec::new();
    loop {
        match transfer.step {
            CopyStep::Read(len) => {
                chunk = reader.read(len);
                transfer.on_read(Ok(chunk.len()))?;
            }
            CopyStep::Write { from, to } => {
                let count = writer.write(&chunk[from..to]);
                transfer.on_write(Ok(count))?;
            }
            CopyStep::Flush => {
                writer.flushed = true;
                transfer.on_flush(Ok(()))?;
            }
            CopyStep::Done(copied) => return Ok(copied),
        }
    }
}

#[test]
fn read_exact_and_write_all_work_for_partial_io() {
    let mut reader = ChunkedReader { data: b"abcdef".to_vec(), at: 0, chunk: 2 };
    let mut filled = IoBufWithCursor::new([0u8; 6]);
    let mut transfer = ExactTransfer::read_exact(filled.buf_len());
    while let Progress::Remaining(len) = transfer.progress() {
        let received = reader.read(len);
        filled.set_buf_init(0, &received);
        filled.advance(received.len());
        transfer.advance(Ok(received.len())).expect("read_exact should read full buffer");
    }
    assert_eq!(&filled.into_inner(), b"abcdef");

    let mut writer = ChunkedWriter { data: Vec::new(), chunk: 2, flushed: false };
    let mut rest = IoBufWithCursor::new(b"xyz123".to_vec());
    let mut transfer = ExactTransfer::write_all(rest.buf_len());
    while let Progress::Remaining(len) = transfer.progress() {
        assert_eq!(rest.buf_len(), len);
        let count = writer.write(rest.as_buf());
        rest.advance(count);
        transfer.advance(Ok(count)).expect("write_all should write full buffer");
    }
    assert_eq!(writer.data, b"xyz123");
}

#[test]
fn copy_copies_all_bytes_and_flushes_writer() {
    let mut reader = ChunkedReader { data: b"hello world".to_vec(), at: 0, chunk: 3 };
    let mut writer = ChunkedWriter { data: Vec::new(), chunk: 2, flushed: false };
    let copied = copy(&mut reader, &mut writer).expect("copy should succeed");
    assert_eq!(copied, 11);
    assert_eq!(writer.data, b"hello world");
    assert!(writer.flushed);
}

#[test]
fn copy_bidirectional_works() {
    let mut a = ChunkedReader { data: b"hello".to_vec(), at: 0, chunk: 5 };
    let mut b = ChunkedReader { data: b"world".to_vec(), at: 0, chunk: 5 };
    let mut to_a = ChunkedWriter { data: Vec::new(), chunk: 5, flushed: false };
    let mut to_b = ChunkedWriter { data: Vec::new(), chunk: 5, flushed: false };
    let there = copy(&mut a, &mut to_b);
    let back = copy(&mut b, &mut to_a);
    assert_eq!(copy_bidirectional(there, back), Ok((5, 5)));
    assert_eq!(to_b.data, b"hello");
    assert_eq!(to_a.data, b"world");
    let failed = copy_bidirectional(Err(IoError::Os(1)), Err(IoError::Os(2)));
    assert_eq!(failed, Err(IoError::Os(1)));
    assert_eq!(copy_bidirectional(Ok(5), Err(IoError::Os(2))), Err(IoError::Os(2)));
}

#[test]
fn transfers_that_stop_short_fail() {
    let mut transfer = ExactTransfer::read_exact(4);
    assert_eq!(transfer.advance(Ok(3)), Ok(()));
    assert_eq!(transfer.progress(), Progress::Remaining(1));
    assert_eq!(transfer.advance(Ok(0)), Err(IoError::FillWholeBuffer));
    assert_eq!(transfer.advance(Err(IoError::Os(5))), Err(IoError::Os(5)));
    assert_eq!(transfer.progress(), Progress::Remaining(1));
    assert_eq!(ExactTransfer::write_all(1).advance(Ok(0)), Err(IoError::WriteWholeBuffer));
    assert_eq!(ExactTransfer::write_exact_at(1).advance(Ok(0)), Err(IoError::WriteWholeFile));
    assert_eq!(ExactTransfer::read_exact(0).progress(), Progress::Complete);
}

#[test]
fn place_in_the_file_moves_with_the_transfer() {
    let mut transfer = ExactTransfer::read_exact(10);
    assert_eq!(transfer.offset(100), 100);
    transfer.advance(Ok(4)).unwrap();
    assert_eq!(transfer.offset(100), 104);
    assert_eq!(transfer.offset(u64::MAX - 1), u64::MAX);
}

#[test]
fn copy_ends_with_the_first_error() {
    assert_eq!(COPY_CHUNK, 8192);
    let mut transfer = CopyTransfer::new();
    assert_eq!(transfer.step, CopyStep::Read(8192));
    assert_eq!(transfer.on_read(Err(IoError::Os(5))), Err(IoError::Os(5)));
    transfer.on_read(Ok(10)).unwrap();
    assert_eq!(transfer.step, CopyStep::Write { from: 0, to: 10 });
    assert_eq!(transfer.on_write(Ok(0)), Err(IoError::WriteWholeBuffer));
    assert_eq!(transfer.on_write(Err(IoError::Os(6))), Err(IoError::Os(6)));
    transfer.on_write(Ok(4)).unwrap();
    assert_eq!(transfer.step, CopyStep::Write { from: 4, to: 10 });
    transfer.on_write(Ok(6)).unwrap();
    assert_eq!(transfer.copied, 10);
    transfer.on_read(Ok(0)).unwrap();
    assert_eq!(transfer.step, CopyStep::Flush);
    assert_eq!(transfer.on_flush(Err(IoError::Os(7))), Err(IoError::Os(7)));
    assert_eq!(transfer.on_flush(Ok(())), Ok(10));
    assert_eq!(transfer.step, CopyStep::Done(10));
}

#[test]
fn vectored_transfer_with_one_buffer_takes_the_first() {
    assert_eq!(first_buffer(0), None);
    assert_eq!(first_buffer(3), Some(0));
    assert_eq!(vectored_unimplemented(), IoError::ReadvNotImplemented);
}

/// Sends `len` bytes of a file of `file` bytes through a pipe that holds `pipe` bytes.
fn send(len: usize, file: usize, pipe: usize) -> (usize, usize) {
    let mut sending = SendfileExact::new(len);
    let mut left = file;
    let mut held = 0;
    let mut turns = 0;
    loop {
        match sending.next() {
            SendfileStep::FromFile(count) => {
                let moved = count.min(left).min(pipe - held);
                left -= moved;
                held += moved;
                sending.left_file(moved);
            }
            SendfileStep::ToSocket(count) => {
                assert!(count <= held);
                held -= count;
                sending.reached_socket(count);
                turns += 1;
            }
            SendfileStep::Done(sent) => return (sent, turns),
        }
    }
}

#[test]
fn file_is_sent_through_a_small_pipe() {
    assert_eq!(send(256, 256, 1024), (256, 1));
    assert_eq!(send(256, 256, 64), (256, 4));
    assert_eq!(send(256, 256, 100), (256, 3));
}

#[test]
fn file_that_ends_early_is_sent_as_far_as_it_goes() {
    assert_eq!(send(256, 100, 1024), (100, 1));
    assert_eq!(send(256, 0, 1024), (0, 0));
    assert_eq!(send(0, 100, 1024), (0, 0));
}

#[test]
fn socket_that_takes_no_more_ends_the_sending() {
    let mut sending = SendfileExact::new(10);
    sending.left_file(10);
    sending.reached_socket(4);
    assert_eq!(sending.next(), SendfileStep::ToSocket(6));
    sending.reached_socket(0);
    assert_eq!(sending.next(), SendfileStep::Done(4));
}

#[test]
fn splice_moves_until_all_is_moved_or_there_is_no_more() {
    let mut splice = SpliceExact::new(256);
    assert_eq!(splice.next(), Some(256));
    splice.moved(200);
    assert_eq!(splice.next(), Some(56));
    splice.moved(56);
    assert_eq!(splice.next(), None);
    assert_eq!(splice.total, 256);
    let mut splice = SpliceExact::new(256);
    splice.moved(10);
    splice.moved(0);
    assert_eq!(splice.next(), None);
    assert_eq!(splice.total, 10);
    assert_eq!(SpliceExact::new(0).next(), None);
}

#[test]
fn buffers_know_their_bytes() {
    let bytes = vec![1u8, 2, 3];
    assert_eq!((bytes.as_buf(), bytes.buf_len()), (&[1u8, 2, 3][..], 3));
    assert!(Vec::<u8>::with_capacity(10).buf_capacity() >= 10);
    let text = String::from("h\u{e9}");
    assert_eq!((text.as_buf(), text.buf_len()), ("h\u{e9}".as_bytes(), 3));
    assert!(text.buf_capacity() >= 3);
    assert!(String::with_capacity(10).buf_capacity() >= 10);
    let literal: &'static str = "abc";
    assert_eq!((IoBuf::as_buf(&literal), literal.buf_len(), literal.buf_capacity()), (&b"abc"[..], 3, 3));
    let slice: &'static [u8] = b"wxyz";
    assert_eq!((IoBuf::as_buf(&slice), slice.buf_len(), slice.buf_capacity()), (&b"wxyz"[..], 4, 4));
    let array = [7u8; 5];
    assert_eq!((IoBuf::as_buf(&array), array.buf_len(), array.buf_capacity()), (&[7u8; 5][..], 5, 5));
}

#[test]
fn buffers_take_what_is_received() {
    let mut bytes = vec![1u8, 2, 3, 4];
    bytes.set_buf_init(1, &vec![9, 8]);
    assert_eq!(bytes, vec![1, 9, 8]);
    let mut array = [1u8, 2, 3, 4];
    array.set_buf_init(1, &vec![9, 8]);
    assert_eq!(array, [1, 9, 8, 4]);
    let mut boxed: Box<[u8]> = Box::new([1u8, 2, 3, 4]);
    boxed.set_buf_init(1, &vec![9, 8]);
    assert_eq!(IoBuf::as_buf(&boxed), &[1u8, 9, 8, 4][..]);
    assert_eq!((boxed.buf_len(), boxed.buf_capacity()), (4, 4));
    let mut rest = IoBufWithCursor::new([1u8, 2, 3, 4]);
    rest.advance(2);
    rest.set_buf_init(1, &vec![7]);
    assert_eq!(rest.as_buf(), &[3, 7]);
    assert_eq!(rest.buf_capacity(), 2);
    assert_eq!(rest.into_inner(), [1, 2, 3, 7]);
    let mut rest = IoBufWithCursor::new([0u8; 4]);
    rest.set_buf_init(0, &vec![1, 2, 3]);
    rest.advance(3);
    assert_eq!((rest.buf_len(), rest.buf_capacity()), (1, 1));
    rest.set_buf_init(0, &vec![4]);
    assert_eq!(rest.into_inner(), [1, 2, 3, 4]);
}

#[test]
fn cursor_moves_add_up() {
    let mut twice = IoBufWithCursor::new(b"abcdef".to_vec());
    twice.advance(1);
    twice.advance(2);
    let mut once = IoBufWithCursor::new(b"abcdef".to_vec());
    once.advance(3);
    assert_eq!(twice.as_buf(), once.as_buf());
    assert_eq!(twice.buf_len(), 3);
    assert!(twice.buf_capacity() >= 3);
}

#[test]
fn several_buffers_are_listed_in_order() {
    let mut bufs = vec![vec![1u8, 2], vec![], vec![3]];
    let expected =
        vec![IoVec { buffer: 0, len: 2 }, IoVec { buffer: 1, len: 0 }, IoVec { buffer: 2, len: 1 }];
    assert_eq!(bufs.as_iovecs(), expected);
    assert_eq!(bufs.as_iovecs_mut(), expected);
    assert!(!IoVectoredBuf::is_empty(&bufs));
    assert!(IoVectoredBuf::is_empty(&Vec::<Vec<u8>>::new()));
    let mut boxed: Box<[Vec<u8>]> = bufs.into_boxed_slice();
    assert_eq!(boxed.as_iovecs(), expected);
    assert_eq!(boxed.as_iovecs_mut(), expected);
    assert!(!IoVectoredBuf::is_empty(&boxed));
    assert!(IoVectoredBuf::is_empty(&Vec::<Vec<u8>>::new().into_boxed_slice()));
}
