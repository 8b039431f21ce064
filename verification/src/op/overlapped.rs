//! Operations on a completion port: which call carries an operation out, and what its answer means.
//!
//! The calls take lengths of 32 bits, and most of them take sockets only.

use crate::error::{BufferRole, IoError, LengthLimit, SocketCall};
use crate::op::buffers::{checked_len, checked_lens, total_len};
use vstd::prelude::*;

verus! {

/// The error number of an operation that goes on in the background.
pub const IO_PENDING: i32 = 997;

/// A handle of the operating system.
#[derive(Clone, Copy, Debug, PartialEq, Eq, Structural)]
pub enum RawOsHandle {
    Socket(u64),
    Handle(u64),
}

/// A call that carries an operation on one buffer out.
#[derive(Clone, Copy, Debug, PartialEq, Eq, Structural)]
pub enum OverlappedCall {
    /// A socket call, with the length of the buffer.
    Socket { socket: u64, len: u32 },
    /// A file call, with the length of the buffer, and the low and the high half of the place in
    /// the file.
    File { handle: u64, file_len: u32, offset_low: u32, offset_high: u32 },
}

/// A call that carries a read into several buffers out.
#[derive(Debug)]
pub enum OverlappedReadv {
    /// A socket call, with the length of each buffer.
    Buffers { socket: u64, lens: Vec<u32> },
    /// A file call into one buffer of this length, which is spread over the others afterwards.
    Staged { handle: u64, total: u32 },
}

/// The call of an operation that takes sockets only, or what it is refused with.
pub open spec fn socket_call(
    handle: RawOsHandle,
    len: usize,
    role: BufferRole,
    refusal: IoError,
) -> Result<OverlappedCall, IoError> {
    match handle {
        RawOsHandle::Handle(_) => Err(refusal),
        RawOsHandle::Socket(socket) => if len > 0xffff_ffff {
            Err(IoError::TooLarge(role, LengthLimit::Socket))
        } else {
            Ok(OverlappedCall::Socket { socket, len: len as u32 })
        },
    }
}

/// The call of an operation that takes sockets only, or what it is refused with.
fn plan_socket_call(handle: RawOsHandle, len: usize, role: BufferRole, refusal: IoError) -> (call:
    Result<OverlappedCall, IoError>)
    ensures
        call == socket_call(handle, len, role, refusal),
{
    match handle {
        RawOsHandle::Handle(_) => Err(refusal),
        RawOsHandle::Socket(socket) => {
            match checked_len(len, role, LengthLimit::Socket) {
                Ok(len) => Ok(OverlappedCall::Socket { socket, len }),
                Err(err) => Err(err),
            }
        },
    }
}

/// The call that reads from a socket, or from where a file stands.
pub fn read(handle: RawOsHandle, len: usize) -> (call: Result<OverlappedCall, IoError>)
    ensures
        call == (match handle {
            RawOsHandle::Socket(socket) => if len > 0xffff_ffff {
                Err::<OverlappedCall, IoError>(
                    IoError::TooLarge(BufferRole::Read, LengthLimit::Socket),
                )
            } else {
                Ok(OverlappedCall::Socket { socket, len: len as u32 })
            },
            RawOsHandle::Handle(handle) => if len > 0xffff_ffff {
                Err(IoError::TooLarge(BufferRole::Read, LengthLimit::File))
            } else {
                Ok(OverlappedCall::File {
                    handle,
                    file_len: len as u32,
                    offset_low: 0,
                    offset_high: 0,
                })
            },
        }),
{
    match handle {
        RawOsHandle::Socket(socket) => {
            match checked_len(len, BufferRole::Read, LengthLimit::Socket) {
                Ok(len) => Ok(OverlappedCall::Socket { socket, len }),
                Err(err) => Err(err),
            }
        },
        RawOsHandle::Handle(handle) => {
            match checked_len(len, BufferRole::Read, LengthLimit::File) {
                Ok(file_len) => Ok(
                    OverlappedCall::File { handle, file_len, offset_low: 0, offset_high: 0 },
                ),
                Err(err) => Err(err),
            }
        },
    }
}

/// The call that receives from a connected socket.
pub fn recv(handle: RawOsHandle, len: usize) -> (call: Result<OverlappedCall, IoError>)
    ensures
        call == socket_call(handle, len, BufferRole::Read, IoError::RecvSocketsOnly),
{
    plan_socket_call(handle, len, BufferRole::Read, IoError::RecvSocketsOnly)
}

/// The call that receives a datagram with its source.
pub fn recvfrom(handle: RawOsHandle, len: usize) -> (call: Result<OverlappedCall, IoError>)
    ensures
        call == socket_call(handle, len, BufferRole::Read, IoError::RecvfromSocketsOnly),
{
    plan_socket_call(handle, len, BufferRole::Read, IoError::RecvfromSocketsOnly)
}

/// The call that sends on a connected socket.
pub fn send(handle: RawOsHandle, len: usize) -> (call: Result<OverlappedCall, IoError>)
    ensures
        call == socket_call(handle, len, BufferRole::Write, IoError::SendSocketsOnly),
{
    plan_socket_call(handle, len, BufferRole::Write, IoError::SendSocketsOnly)
}

/// The call that writes to a place in a file.
pub fn write_at(handle: RawOsHandle, len: usize, offset: u64) -> (call: Result<
    OverlappedCall,
    IoError,
>)
    ensures
        match call {
            Ok(OverlappedCall::File { handle: file, file_len, offset_low, offset_high }) => {
                &&& handle == RawOsHandle::Handle(file)
                &&& file_len == len
                &&& offset_low + offset_high * 0x1_0000_0000 == offset
            },
            Ok(_) => false,
            Err(err) => match handle {
                RawOsHandle::Socket(_) => err == IoError::WriteAtSocket,
                RawOsHandle::Handle(_) => len > 0xffff_ffff && err == IoError::TooLarge(
                    BufferRole::Write,
                    LengthLimit::File,
                ),
            },
        },
{
    match handle {
        RawOsHandle::Socket(_) => Err(IoError::WriteAtSocket),
        RawOsHandle::Handle(handle) => {
            match checked_len(len, BufferRole::Write, LengthLimit::File) {
                Ok(file_len) => {
                    let (offset_low, offset_high) = split_offset(offset);
                    Ok(OverlappedCall::File { handle, file_len, offset_low, offset_high })
                },
                Err(err) => Err(err),
            }
        },
    }
}

/// The call that reads into several buffers of these lengths. A file is read into one buffer that
/// is as long as all of them.
pub fn readv(handle: RawOsHandle, lens: &Vec<usize>) -> (call: Result<OverlappedReadv, IoError>)
    ensures
        match (handle, call) {
            (
                RawOsHandle::Socket(socket),
                Ok(OverlappedReadv::Buffers { socket: to, lens: words }),
            ) => {
                &&& to == socket
                &&& words@.len() == lens@.len()
                &&& forall|i: int| 0 <= i < lens@.len() ==> #[trigger] words@[i] == lens@[i]
            },
            (RawOsHandle::Socket(_), Err(err)) => err == IoError::TooLarge(
                BufferRole::Readv,
                LengthLimit::Socket,
            ) && exists|i: int| 0 <= i < lens@.len() && #[trigger] lens@[i] > 0xffff_ffff,
            (RawOsHandle::Handle(file), Ok(OverlappedReadv::Staged { handle: from, total })) => {
                &&& from == file
                &&& total == crate::op::buffers::total(lens@)
            },
            (RawOsHandle::Handle(_), Err(err)) => if crate::op::buffers::total(lens@) > usize::MAX {
                err == IoError::ReadvLengthOverflow
            } else {
                crate::op::buffers::total(lens@) > 0xffff_ffff && err == IoError::ReadvTotalTooLarge
            },
            _ => false,
        },
{
    match handle {
        RawOsHandle::Socket(socket) => {
            match checked_lens(lens, BufferRole::Readv) {
                Ok(words) => Ok(OverlappedReadv::Buffers { socket, lens: words }),
                Err(err) => Err(err),
            }
        },
        RawOsHandle::Handle(handle) => {
            match total_len(lens) {
                Ok(total) => Ok(OverlappedReadv::Staged { handle, total }),
                Err(err) => Err(err),
            }
        },
    }
}

/// The socket that an operation is tried on before it waits for readiness, which only sockets
/// offer here.
pub fn poll_socket(handle: RawOsHandle, call: SocketCall) -> (socket: Result<u64, IoError>)
    ensures
        socket == (match handle {
            RawOsHandle::Socket(socket) => Ok::<u64, IoError>(socket),
            RawOsHandle::Handle(_) => Err(IoError::PollSocketsOnly(call)),
        }),
{
    match handle {
        RawOsHandle::Socket(socket) => Ok(socket),
        RawOsHandle::Handle(_) => Err(IoError::PollSocketsOnly(call)),
    }
}

/// The socket that a read into several buffers is tried on before it waits for readiness. The
/// blocking pool is not offered for that here.
pub fn poll_readv(handle: RawOsHandle, blocking: bool) -> (socket: Result<u64, IoError>)
    ensures
        socket == (if blocking {
            Err::<u64, IoError>(IoError::BlockingReadvUnsupported)
        } else {
            match handle {
                RawOsHandle::Socket(socket) => Ok(socket),
                RawOsHandle::Handle(_) => Err(IoError::PollSocketsOnly(SocketCall::Readv)),
            }
        }),
{
    if blocking {
        return Err(IoError::BlockingReadvUnsupported);
    }
    poll_socket(handle, SocketCall::Readv)
}

/// What a call came to: one that goes on in the background was submitted. `failure` is the error
/// number of the call, if it failed.
pub fn submit_windows(failure: Option<i32>) -> (submitted: Result<(), IoError>)
    ensures
        submitted == (match failure {
            Some(code) if code != IO_PENDING => Err::<(), IoError>(IoError::Windows(code)),
            _ => Ok(()),
        }),
{
    match failure {
        Some(code) => {
            if code == IO_PENDING {
                Ok(())
            } else {
                Err(IoError::Windows(code))
            }
        },
        None => Ok(()),
    }
}

/// A place in a file as the calls take it: the low half and the high half.
fn split_offset(offset: u64) -> (halves: (u32, u32))
    ensures
        halves.0 + halves.1 * 0x1_0000_0000 == offset,
{
    assert(offset >> 32u64 == offset / 0x1_0000_0000) by (bit_vector);
    assert(offset as u32 == offset % 0x1_0000_0000) by (bit_vector);
    (offset as u32, (offset >> 32u64) as u32)
}

/// An operation that takes sockets only is refused on a file with an error that no length gives.
pub proof fn law_files_are_told_from_long_buffers(
    handle: RawOsHandle,
    len: usize,
    role: BufferRole,
    refusal: IoError,
)
    requires
        !(refusal is TooLarge),
    ensures
        socket_call(handle, len, role, refusal) == Err::<OverlappedCall, IoError>(refusal)
            <==> handle is Handle,
        socket_call(handle, len, role, refusal) is Ok <==> handle is Socket && len <= 0xffff_ffff,
{
}

/// A read goes to the socket, or to where the file stands, with its length; one that 32 bits cannot
/// hold is refused with an error that names the interface.
pub proof fn law_read_goes_to_its_handle(
    handle: RawOsHandle,
    len: usize,
    call: Result<OverlappedCall, IoError>,
)
    requires
        call_ensures(read, (handle, len), call),
    ensures
        call is Ok <==> len < 0x1_0000_0000,
        call matches Ok(OverlappedCall::Socket { socket, len: word }) ==> handle
            == RawOsHandle::Socket(socket) && word == len,
        call matches Ok(OverlappedCall::File { handle: file, file_len, offset_low, offset_high })
            ==> handle == RawOsHandle::Handle(file) && file_len == len && offset_low == 0
            && offset_high == 0,
        call matches Err(err) ==> err == IoError::TooLarge(
            BufferRole::Read,
            if handle is Socket {
                LengthLimit::Socket
            } else {
                LengthLimit::File
            },
        ),
{
}

/// Receiving and sending go to the socket with their length, and are refused on a file, each with
/// an error of its own; a length that 32 bits cannot hold is refused on a socket.
pub proof fn law_socket_calls_take_sockets(
    handle: RawOsHandle,
    len: usize,
    received: Result<OverlappedCall, IoError>,
    received_from: Result<OverlappedCall, IoError>,
    sent: Result<OverlappedCall, IoError>,
)
    requires
        call_ensures(recv, (handle, len), received),
        call_ensures(recvfrom, (handle, len), received_from),
        call_ensures(send, (handle, len), sent),
    ensures
        handle matches RawOsHandle::Socket(socket) ==> len < 0x1_0000_0000 ==> {
            let call = Ok::<OverlappedCall, IoError>(
                OverlappedCall::Socket { socket, len: len as u32 },
            );
            received == call && received_from == call && sent == call
        },
        handle is Socket && len >= 0x1_0000_0000 ==> {
            let short = Err::<OverlappedCall, IoError>(
                IoError::TooLarge(BufferRole::Read, LengthLimit::Socket),
            );
            received == short && received_from == short && sent == Err::<OverlappedCall, IoError>(
                IoError::TooLarge(BufferRole::Write, LengthLimit::Socket),
            )
        },
        handle is Handle ==> {
            &&& received == Err::<OverlappedCall, IoError>(IoError::RecvSocketsOnly)
            &&& received_from == Err::<OverlappedCall, IoError>(IoError::RecvfromSocketsOnly)
            &&& sent == Err::<OverlappedCall, IoError>(IoError::SendSocketsOnly)
        },
{
}

/// A positioned write goes to the file with its length and its place, in two halves; it is refused
/// on a socket, and where 32 bits cannot hold its length.
pub proof fn law_positioned_write_goes_to_its_place(
    handle: RawOsHandle,
    len: usize,
    offset: u64,
    call: Result<OverlappedCall, IoError>,
)
    requires
        call_ensures(write_at, (handle, len, offset), call),
    ensures
        call is Ok <==> handle is Handle && len < 0x1_0000_0000,
        call matches Ok(made) ==> made is File && handle == RawOsHandle::Handle(made->handle)
            && made->file_len == len && made->offset_low + made->offset_high * 0x1_0000_0000
            == offset,
        call matches Err(err) ==> err == (if handle is Socket {
            IoError::WriteAtSocket
        } else {
            IoError::TooLarge(BufferRole::Write, LengthLimit::File)
        }),
{
}

/// A read into several buffers goes to a socket buffer by buffer, and to a file as one read that is
/// as long as all of them.
pub proof fn law_vectored_read_goes_to_its_handle(
    handle: RawOsHandle,
    lens: Vec<usize>,
    call: Result<OverlappedReadv, IoError>,
)
    requires
        call_ensures(readv, (handle, &lens), call),
    ensures
        call matches Ok(OverlappedReadv::Buffers { socket, lens: words }) ==> handle
            == RawOsHandle::Socket(socket) && words@.len() == lens@.len() && forall|i: int|
            0 <= i < lens@.len() ==> #[trigger] words@[i] == lens@[i],
        call matches Ok(OverlappedReadv::Staged { handle: file, total }) ==> handle
            == RawOsHandle::Handle(file) && total == crate::op::buffers::total(lens@),
        handle is Handle ==> (call is Ok <==> crate::op::buffers::total(lens@) < 0x1_0000_0000),
        handle is Socket ==> (call is Err <==> exists|i: int|
            0 <= i < lens@.len() && #[trigger] lens@[i] > 0xffff_ffff),
        call matches Err(err) ==> err == (if handle is Socket {
            IoError::TooLarge(BufferRole::Readv, LengthLimit::Socket)
        } else if crate::op::buffers::total(lens@) > usize::MAX {
            IoError::ReadvLengthOverflow
        } else {
            IoError::ReadvTotalTooLarge
        }),
{
    if handle is Socket && call is Ok {
        let words = call->Ok_0->lens;
        assert forall|i: int| 0 <= i < lens@.len() implies #[trigger] lens@[i] <= 0xffff_ffff by {
            assert(words@[i] == lens@[i]);
        }
    }
}

/// Readiness is offered for sockets only, and for a read into several buffers not in the blocking
/// pool.
pub proof fn law_only_sockets_become_ready(
    handle: RawOsHandle,
    call: SocketCall,
    blocking: bool,
    socket: Result<u64, IoError>,
    vectored: Result<u64, IoError>,
)
    requires
        call_ensures(poll_socket, (handle, call), socket),
        call_ensures(poll_readv, (handle, blocking), vectored),
    ensures
        socket is Ok <==> handle is Socket,
        socket matches Ok(number) ==> handle == RawOsHandle::Socket(number),
        socket matches Err(err) ==> err == IoError::PollSocketsOnly(call),
        vectored is Ok <==> handle is Socket && !blocking,
        vectored matches Ok(number) ==> handle == RawOsHandle::Socket(number),
        vectored matches Err(err) ==> err == (if blocking {
            IoError::BlockingReadvUnsupported
        } else {
            IoError::PollSocketsOnly(SocketCall::Readv)
        }),
{
}

/// A call was submitted if it did not fail, or failed with 997, which says that it goes on in the
/// background; any other number is an error.
pub proof fn law_background_calls_are_submitted(
    failure: Option<i32>,
    submitted: Result<(), IoError>,
)
    requires
        call_ensures(submit_windows, (failure,), submitted),
    ensures
        submitted is Ok <==> failure is None || failure == Some(997i32),
        submitted matches Err(err) ==> failure is Some && err == IoError::Windows(failure->0),
{
}

} // verus!
