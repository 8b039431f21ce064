//! The errors that the runtime reports.
//!
//! An error is either a number that the operating system gave ([`IoError::Os`] and
//! [`IoError::Windows`]) or one of the conditions that the runtime finds itself. Each of the latter
//! has a fixed kind, and a text.

use vstd::prelude::*;
use vstd::string::*;

verus! {

/// `EAGAIN`, which Linux also uses for `EWOULDBLOCK`.
pub const EAGAIN: i32 = 11;

/// `EBUSY`.
pub const EBUSY: i32 = 16;

/// `ETIME`.
pub const ETIME: i32 = 62;

/// `ENOTCONN`.
pub const ENOTCONN: i32 = 107;

/// `EALREADY`.
pub const EALREADY: i32 = 114;

/// `EINPROGRESS`.
pub const EINPROGRESS: i32 = 115;

/// `WSAEWOULDBLOCK`.
pub const WSAEWOULDBLOCK: i32 = 10035;

/// `WSAEINPROGRESS`.
pub const WSAEINPROGRESS: i32 = 10036;

/// `WSAEALREADY`.
pub const WSAEALREADY: i32 = 10037;

/// The operating system whose numbers are meant.
#[derive(Clone, Copy, Debug, PartialEq, Eq, Structural)]
pub enum System {
    Linux,
    Windows,
}

/// The category of an error that the runtime finds itself.
#[derive(Clone, Copy, Debug, PartialEq, Eq, Structural)]
pub enum ErrorKind {
    NotFound,
    NotConnected,
    WouldBlock,
    InvalidInput,
    InvalidData,
    UnexpectedEof,
    WriteZero,
    Unsupported,
    Other,
}

/// The buffer that an error about an excessive length speaks of.
#[derive(Clone, Copy, Debug, PartialEq, Eq, Structural)]
pub enum BufferRole {
    Read,
    Write,
    Readv,
    Writev,
}

/// The interface whose 32-bit length field was too narrow.
#[derive(Clone, Copy, Debug, PartialEq, Eq, Structural)]
pub enum LengthLimit {
    Socket,
    File,
    Ring,
}

/// The operation that takes sockets only.
#[derive(Clone, Copy, Debug, PartialEq, Eq, Structural)]
pub enum SocketCall {
    Recv,
    Recvfrom,
    Readv,
    Send,
}

/// An I/O error.
#[derive(Clone, Copy, Debug, PartialEq, Eq, Structural)]
pub enum IoError {
    /// An error number of Linux.
    Os(i32),
    /// An error number of Windows.
    Windows(i32),
    /// No handle is registered under this token.
    NotRegistered(usize),
    /// The token is registered for readiness, and a completion was asked of it.
    RegisteredForPoll(usize),
    /// The token is registered for completions, and readiness was asked of it.
    RegisteredForCompletion(usize),
    /// A submitted operation has not completed yet.
    CompletionPending,
    /// The submission queue has no room even after submitting it.
    SubmissionQueueFull,
    /// The driver has no completion-based interface.
    CompletionUnsupported,
    /// The operation has no completion-based form.
    OperationCompletionUnsupported,
    /// An operation was submitted to the mock driver.
    MockSubmission,
    /// A handle was registered with the mock driver.
    MockRegistration,
    /// A handle was re-registered with the mock driver.
    MockReregistration,
    /// A handle was deregistered from the mock driver.
    MockDeregistration,
    /// The completion port driver was asked for readiness.
    CompletionModeOnly,
    /// A handle was made while no runtime was running.
    OutsideRuntime,
    /// No blocking pool took an I/O operation.
    NoBlockingPool,
    /// No blocking pool took a file operation.
    NoBlockingPoolForFile,
    /// The end of input came before the buffer was full.
    FillWholeBuffer,
    /// The writer took nothing of a buffer that was not empty.
    WriteWholeBuffer,
    /// The file took nothing of a buffer that was not empty.
    WriteWholeFile,
    /// A file time lies outside what a clock can hold.
    InvalidTimestamp,
    /// A path holds a NUL byte at this position.
    InvalidPath(usize),
    /// The reader has no vectored read.
    ReadvNotImplemented,
    /// A host name resolved to no address.
    NoAddresses,
    /// A file was opened with neither read nor write access.
    AccessRequired,
    /// A file was to be created or truncated without write access.
    WriteAccessRequired,
    /// The path of a file to open holds a NUL byte.
    PathContainsNul,
    /// A socket path was empty.
    EmptySocketPath,
    /// A socket path holds a NUL byte.
    SocketPathContainsNul,
    /// A socket path does not fit into a socket address.
    SocketPathTooLong,
    /// A socket address is neither IPv4 nor IPv6.
    UnsupportedFamily,
    /// A received datagram came without its source.
    MissingSource,
    /// A buffer is longer than the interface can express.
    TooLarge(BufferRole, LengthLimit),
    /// The lengths of a list of buffers add up to more than a machine word.
    ReadvLengthOverflow,
    /// The lengths of a list of buffers add up to more than one file read can take.
    ReadvTotalTooLarge,
    /// A positioned file write was asked of a socket.
    WriteAtSocket,
    /// Receiving was asked of a file.
    RecvSocketsOnly,
    /// Receiving with the source was asked of a file.
    RecvfromSocketsOnly,
    /// Sending was asked of a file.
    SendSocketsOnly,
    /// An operation that waits for readiness was asked of a file.
    PollSocketsOnly(SocketCall),
    /// A read into several buffers was to wait for readiness in the blocking pool.
    BlockingReadvUnsupported,
    /// Bytes that were to be a text are none from this place on. So many bytes are wrong, or the
    /// text ends in the middle of a character.
    InvalidUtf8 { valid_up_to: usize, error_len: Option<usize> },
}

/// The decimal digits of `n`, without leading zeros.
pub open spec fn decimal(n: nat) -> Seq<char>
    decreases n,
{
    if n < 10 {
        seq![(48 + n) as char]
    } else {
        decimal(n / 10).push((48 + n % 10) as char)
    }
}

impl System {
    /// The error with a number of this system.
    pub open spec fn numbered(self, code: i32) -> IoError {
        match self {
            System::Linux => IoError::Os(code),
            System::Windows => IoError::Windows(code),
        }
    }

    /// The error with a number of this system.
    pub fn error(self, code: i32) -> (err: IoError)
        ensures
            err == self.numbered(code),
    {
        match self {
            System::Linux => IoError::Os(code),
            System::Windows => IoError::Windows(code),
        }
    }
}

impl SocketCall {
    /// The name of the operation in an error's text.
    pub open spec fn text(self) -> Seq<char> {
        match self {
            SocketCall::Recv => "recv"@,
            SocketCall::Recvfrom => "recvfrom"@,
            SocketCall::Readv => "readv"@,
            SocketCall::Send => "send"@,
        }
    }

    fn as_text(self) -> (text: &'static str)
        ensures
            text@ == self.text(),
    {
        match self {
            SocketCall::Recv => "recv",
            SocketCall::Recvfrom => "recvfrom",
            SocketCall::Readv => "readv",
            SocketCall::Send => "send",
        }
    }
}

impl BufferRole {
    /// The name of the buffer in an error's text.
    pub open spec fn text(self) -> Seq<char> {
        match self {
            BufferRole::Read => "read"@,
            BufferRole::Write => "write"@,
            BufferRole::Readv => "readv"@,
            BufferRole::Writev => "writev"@,
        }
    }

    fn as_text(self) -> (text: &'static str)
        ensures
            text@ == self.text(),
    {
        match self {
            BufferRole::Read => "read",
            BufferRole::Write => "write",
            BufferRole::Readv => "readv",
            BufferRole::Writev => "writev",
        }
    }
}

impl LengthLimit {
    /// The name of the interface in an error's text.
    pub open spec fn text(self) -> Seq<char> {
        match self {
            LengthLimit::Socket => "Windows socket I/O"@,
            LengthLimit::File => "Windows file I/O"@,
            LengthLimit::Ring => "io_uring"@,
        }
    }

    fn as_text(self) -> (text: &'static str)
        ensures
            text@ == self.text(),
    {
        match self {
            LengthLimit::Socket => "Windows socket I/O",
            LengthLimit::File => "Windows file I/O",
            LengthLimit::Ring => "io_uring",
        }
    }
}

impl IoError {
    /// The kind of an error that the runtime found itself.
    pub open spec fn own_kind(self) -> Option<ErrorKind> {
        match self {
            IoError::Os(_) | IoError::Windows(_) => None,
            IoError::NotRegistered(_) => Some(ErrorKind::NotFound),
            IoError::OutsideRuntime => Some(ErrorKind::NotConnected),
            IoError::CompletionPending => Some(ErrorKind::WouldBlock),
            IoError::RegisteredForPoll(_)
            | IoError::RegisteredForCompletion(_)
            | IoError::CompletionUnsupported
            | IoError::OperationCompletionUnsupported
            | IoError::MockSubmission
            | IoError::MockRegistration
            | IoError::MockReregistration
            | IoError::MockDeregistration
            | IoError::CompletionModeOnly
            | IoError::ReadvNotImplemented
            | IoError::PollSocketsOnly(_)
            | IoError::BlockingReadvUnsupported => Some(ErrorKind::Unsupported),
            IoError::FillWholeBuffer | IoError::WriteWholeFile => Some(ErrorKind::UnexpectedEof),
            IoError::WriteWholeBuffer => Some(ErrorKind::WriteZero),
            IoError::InvalidTimestamp
            | IoError::UnsupportedFamily
            | IoError::InvalidUtf8 { .. } => Some(ErrorKind::InvalidData),
            IoError::SubmissionQueueFull
            | IoError::NoBlockingPool
            | IoError::NoBlockingPoolForFile
            | IoError::MissingSource => Some(ErrorKind::Other),
            _ => Some(ErrorKind::InvalidInput),
        }
    }

    /// Whether the error says that the operation could not be done at once.
    pub open spec fn would_block(self) -> bool {
        ||| self == IoError::Os(EAGAIN)
        ||| self == IoError::Windows(WSAEWOULDBLOCK)
        ||| self.own_kind() == Some(ErrorKind::WouldBlock)
    }

    /// The text of an error that the runtime found itself.
    pub open spec fn own_text(self) -> Option<Seq<char>> {
        match self {
            IoError::Os(_) | IoError::Windows(_) => None,
            IoError::NotRegistered(token) => Some(
                "I/O token "@ + decimal(token as nat) + " is not registered with this driver"@,
            ),
            IoError::RegisteredForPoll(token) => Some(
                "I/O token "@ + decimal(token as nat)
                    + " is registered for poll mode, not completion mode"@,
            ),
            IoError::RegisteredForCompletion(token) => Some(
                "I/O token "@ + decimal(token as nat)
                    + " is registered for completion mode, not poll mode"@,
            ),
            IoError::CompletionPending => Some("An I/O completion is pending"@),
            IoError::SubmissionQueueFull => Some("io_uring submission queue is full"@),
            IoError::CompletionUnsupported => Some(
                "driver does not support completion-based I/O submission"@,
            ),
            IoError::OperationCompletionUnsupported => Some(
                "operation does not support completion-based submission"@,
            ),
            IoError::MockSubmission => Some(
                "MockDriver does not support I/O operation submission"@,
            ),
            IoError::MockRegistration => Some(
                "MockDriver does not support I/O handle registration"@,
            ),
            IoError::MockReregistration => Some(
                "MockDriver does not support I/O handle re-registration"@,
            ),
            IoError::MockDeregistration => Some(
                "MockDriver does not support I/O handle deregistration"@,
            ),
            IoError::CompletionModeOnly => Some(
                "IOCP driver currently supports completion mode only"@,
            ),
            IoError::OutsideRuntime => Some("can't register I/O handle outside runtime"@),
            IoError::NoBlockingPool => Some("can't spawn blocking task for I/O"@),
            IoError::NoBlockingPoolForFile => Some("can't spawn blocking task for file I/O"@),
            IoError::FillWholeBuffer => Some("failed to fill whole buffer"@),
            IoError::WriteWholeBuffer => Some("failed to write whole buffer"@),
            IoError::WriteWholeFile => Some("failed to write whole buffer"@),
            IoError::InvalidTimestamp => Some("invalid statx timestamp"@),
            IoError::InvalidPath(position) => Some(
                "Invalid path: nul byte found in provided data at position: "@ + decimal(
                    position as nat,
                ),
            ),
            IoError::ReadvNotImplemented => Some("readv not implemented"@),
            IoError::NoAddresses => Some("no addresses"@),
            IoError::AccessRequired => Some("must enable read, write, or append access"@),
            IoError::WriteAccessRequired => Some(
                "truncate/create options require write or append access"@,
            ),
            IoError::PathContainsNul => Some("path contains interior NUL byte"@),
            IoError::EmptySocketPath => Some("empty socket path"@),
            IoError::SocketPathContainsNul => Some("socket path contains interior NUL byte"@),
            IoError::SocketPathTooLong => Some("socket path is too long"@),
            IoError::UnsupportedFamily => Some("unsupported socket family"@),
            IoError::MissingSource => Some("recvfrom completion missing source address"@),
            IoError::TooLarge(role, limit) => Some(
                role.text() + " buffer is too large for "@ + limit.text(),
            ),
            IoError::ReadvLengthOverflow => Some("readv buffer length overflow"@),
            IoError::ReadvTotalTooLarge => Some(
                "readv total length is too large for Windows file I/O"@,
            ),
            IoError::WriteAtSocket => Some("WriteAtOp expects a file handle, not a socket"@),
            IoError::RecvSocketsOnly => Some("WSARecv can be used only with listening sockets"@),
            IoError::RecvfromSocketsOnly => Some("WSARecvFrom can be used only with sockets"@),
            IoError::SendSocketsOnly => Some("WSASend can be used only with sockets"@),
            IoError::PollSocketsOnly(call) => Some(
                "poll-based "@ + call.text() + " currently supports sockets only on Windows"@,
            ),
            IoError::BlockingReadvUnsupported => Some(
                "blocking poll-based readv is unsupported on Windows"@,
            ),
            IoError::InvalidUtf8 { valid_up_to, error_len } => Some(
                match error_len {
                    Some(len) => "invalid utf-8 sequence of "@ + decimal(len as nat)
                        + " bytes from index "@ + decimal(valid_up_to as nat),
                    None => "incomplete utf-8 byte sequence from index "@ + decimal(
                        valid_up_to as nat,
                    ),
                },
            ),
        }
    }

    /// The kind of an error that the runtime found itself, and nothing for a number of the
    /// operating system.
    pub fn kind(&self) -> (kind: Option<ErrorKind>)
        ensures
            kind == self.own_kind(),
    {
        match *self {
            IoError::Os(_) | IoError::Windows(_) => None,
            IoError::NotRegistered(_) => Some(ErrorKind::NotFound),
            IoError::OutsideRuntime => Some(ErrorKind::NotConnected),
            IoError::CompletionPending => Some(ErrorKind::WouldBlock),
            IoError::RegisteredForPoll(_)
            | IoError::RegisteredForCompletion(_)
            | IoError::CompletionUnsupported
            | IoError::OperationCompletionUnsupported
            | IoError::MockSubmission
            | IoError::MockRegistration
            | IoError::MockReregistration
            | IoError::MockDeregistration
            | IoError::CompletionModeOnly
            | IoError::ReadvNotImplemented
            | IoError::PollSocketsOnly(_)
            | IoError::BlockingReadvUnsupported => Some(ErrorKind::Unsupported),
            IoError::FillWholeBuffer | IoError::WriteWholeFile => Some(ErrorKind::UnexpectedEof),
            IoError::WriteWholeBuffer => Some(ErrorKind::WriteZero),
            IoError::InvalidTimestamp
            | IoError::UnsupportedFamily
            | IoError::InvalidUtf8 { .. } => Some(ErrorKind::InvalidData),
            IoError::SubmissionQueueFull
            | IoError::NoBlockingPool
            | IoError::NoBlockingPoolForFile
            | IoError::MissingSource => Some(ErrorKind::Other),
            _ => Some(ErrorKind::InvalidInput),
        }
    }

    /// Whether the operation could not be done at once: `EAGAIN`, `WSAEWOULDBLOCK`, or a pending
    /// completion.
    pub fn is_would_block(&self) -> (blocks: bool)
        ensures
            blocks == self.would_block(),
    {
        match *self {
            IoError::Os(code) => code == EAGAIN,
            IoError::Windows(code) => code == WSAEWOULDBLOCK,
            IoError::CompletionPending => true,
            _ => false,
        }
    }

    /// The text of an error that the runtime found itself, and nothing for a number of the
    /// operating system.
    pub fn message(&self) -> (message: Option<String>)
        ensures
            match message {
                Some(text) => self.own_text() == Some(text@),
                None => self.own_text() is None,
            },
    {
        let text: String = match *self {
            IoError::Os(_) | IoError::Windows(_) => {
                return None;
            },
            IoError::NotRegistered(token) => {
                token_message(token, " is not registered with this driver")
            },
            IoError::RegisteredForPoll(token) => {
                token_message(token, " is registered for poll mode, not completion mode")
            },
            IoError::RegisteredForCompletion(token) => {
                token_message(token, " is registered for completion mode, not poll mode")
            },
            IoError::CompletionPending => "An I/O completion is pending".to_owned(),
            IoError::SubmissionQueueFull => "io_uring submission queue is full".to_owned(),
            IoError::CompletionUnsupported => {
                "driver does not support completion-based I/O submission".to_owned()
            },
            IoError::OperationCompletionUnsupported => {
                "operation does not support completion-based submission".to_owned()
            },
            IoError::MockSubmission => {
                "MockDriver does not support I/O operation submission".to_owned()
            },
            IoError::MockRegistration => {
                "MockDriver does not support I/O handle registration".to_owned()
            },
            IoError::MockReregistration => {
                "MockDriver does not support I/O handle re-registration".to_owned()
            },
            IoError::MockDeregistration => {
                "MockDriver does not support I/O handle deregistration".to_owned()
            },
            IoError::CompletionModeOnly => {
                "IOCP driver currently supports completion mode only".to_owned()
            },
            IoError::OutsideRuntime => "can't register I/O handle outside runtime".to_owned(),
            IoError::NoBlockingPool => "can't spawn blocking task for I/O".to_owned(),
            IoError::NoBlockingPoolForFile => "can't spawn blocking task for file I/O".to_owned(),
            IoError::FillWholeBuffer => "failed to fill whole buffer".to_owned(),
            IoError::WriteWholeBuffer => "failed to write whole buffer".to_owned(),
            IoError::WriteWholeFile => "failed to write whole buffer".to_owned(),
            IoError::InvalidTimestamp => "invalid statx timestamp".to_owned(),
            IoError::InvalidPath(position) => {
                let mut text =
                    "Invalid path: nul byte found in provided data at position: ".to_owned();
                append_decimal(&mut text, position);
                text
            },
            IoError::ReadvNotImplemented => "readv not implemented".to_owned(),
            IoError::NoAddresses => "no addresses".to_owned(),
            IoError::AccessRequired => "must enable read, write, or append access".to_owned(),
            IoError::WriteAccessRequired => {
                "truncate/create options require write or append access".to_owned()
            },
            IoError::PathContainsNul => "path contains interior NUL byte".to_owned(),
            IoError::EmptySocketPath => "empty socket path".to_owned(),
            IoError::SocketPathContainsNul => "socket path contains interior NUL byte".to_owned(),
            IoError::SocketPathTooLong => "socket path is too long".to_owned(),
            IoError::UnsupportedFamily => "unsupported socket family".to_owned(),
            IoError::MissingSource => "recvfrom completion missing source address".to_owned(),
            IoError::TooLarge(role, limit) => {
                let mut text = role.as_text().to_owned();
                text.append(" buffer is too large for ");
                text.append(limit.as_text());
                text
            },
            IoError::ReadvLengthOverflow => "readv buffer length overflow".to_owned(),
            IoError::ReadvTotalTooLarge => {
                "readv total length is too large for Windows file I/O".to_owned()
            },
            IoError::WriteAtSocket => "WriteAtOp expects a file handle, not a socket".to_owned(),
            IoError::RecvSocketsOnly => {
                "WSARecv can be used only with listening sockets".to_owned()
            },
            IoError::RecvfromSocketsOnly => "WSARecvFrom can be used only with sockets".to_owned(),
            IoError::SendSocketsOnly => "WSASend can be used only with sockets".to_owned(),
            IoError::PollSocketsOnly(call) => {
                let mut text = "poll-based ".to_owned();
                text.append(call.as_text());
                text.append(" currently supports sockets only on Windows");
                text
            },
            IoError::BlockingReadvUnsupported => {
                "blocking poll-based readv is unsupported on Windows".to_owned()
            },
            IoError::InvalidUtf8 { valid_up_to, error_len } => {
                match error_len {
                    Some(len) => {
                        let mut text = "invalid utf-8 sequence of ".to_owned();
                        append_decimal(&mut text, len);
                        text.append(" bytes from index ");
                        append_decimal(&mut text, valid_up_to);
                        text
                    },
                    None => {
                        let mut text = "incomplete utf-8 byte sequence from index ".to_owned();
                        append_decimal(&mut text, valid_up_to);
                        text
                    },
                }
            },
        };
        Some(text)
    }
}

/// The text of an error about a token: "I/O token", the token and `tail`.
fn token_message(token: usize, tail: &'static str) -> (text: String)
    ensures
        text@ == "I/O token "@ + decimal(token as nat) + tail@,
{
    let mut text = "I/O token ".to_owned();
    append_decimal(&mut text, token);
    text.append(tail);
    text
}

/// Appends the decimal digits of `n`.
fn append_decimal(text: &mut String, n: usize)
    ensures
        final(text)@ == old(text)@ + decimal(n as nat),
    decreases n,
{
    if n >= 10 {
        append_decimal(text, n / 10);
    }
    let ghost before = text@;
    text.append(digit_text(n % 10));
    assert(text@ =~= before.push((48 + n % 10) as char));
    assert(text@ =~= old(text)@ + decimal(n as nat));
}

/// The text of one decimal digit.
fn digit_text(digit: usize) -> (text: &'static str)
    requires
        digit < 10,
    ensures
        text@ == seq![(48 + digit) as char],
{
    proof {
        reveal_strlit("0");
        reveal_strlit("1");
        reveal_strlit("2");
        reveal_strlit("3");
        reveal_strlit("4");
        reveal_strlit("5");
        reveal_strlit("6");
        reveal_strlit("7");
        reveal_strlit("8");
        reveal_strlit("9");
    }
    let text = match digit {
        0 => "0",
        1 => "1",
        2 => "2",
        3 => "3",
        4 => "4",
        5 => "5",
        6 => "6",
        7 => "7",
        8 => "8",
        _ => "9",
    };
    assert(text@ =~= seq![(48 + digit) as char]);
    text
}

/// The number that decimal digits spell.
pub open spec fn spelled(digits: Seq<char>) -> int
    decreases digits.len(),
{
    if digits.len() == 0 {
        0
    } else {
        spelled(digits.drop_last()) * 10 + (digits.last() as int - '0' as int)
    }
}

/// A number is spelled in decimal digits, without a zero in front unless it is zero.
pub proof fn law_decimal_spells_the_number(n: nat)
    ensures
        spelled(decimal(n)) == n,
        decimal(n).len() > 0,
        forall|i: int|
            0 <= i < decimal(n).len() ==> '0' as int <= (#[trigger] decimal(n)[i]) as int
                <= '9' as int,
        n > 0 ==> decimal(n)[0] != '0',
    decreases n,
{
    reveal_with_fuel(spelled, 2);
    if n >= 10 {
        law_decimal_spells_the_number(n / 10);
        assert(decimal(n).drop_last() =~= decimal(n / 10));
    } else {
        assert(decimal(n).drop_last() =~= Seq::<char>::empty());
    }
}

/// An error says that an operation would block just if it is number 11 of Linux, number 10035 of
/// Windows, or that of a pending completion.
pub proof fn law_errors_that_block(err: IoError, blocks: bool)
    requires
        call_ensures(IoError::is_would_block, (&err,), blocks),
    ensures
        blocks <==> err == IoError::Os(11) || err == IoError::Windows(10035) || err
            == IoError::CompletionPending,
{
}

/// An error number is an error of the system that gave it.
pub proof fn law_numbers_are_of_their_system(system: System, code: i32, err: IoError)
    requires
        call_ensures(System::error, (system, code), err),
    ensures
        system == System::Linux ==> err == IoError::Os(code),
        system == System::Windows ==> err == IoError::Windows(code),
{
}

/// The kinds of the errors that the runtime finds itself: which errors are of a kind that callers
/// act upon. Numbers of the system have none here.
pub proof fn law_errors_have_their_kind(err: IoError, kind: Option<ErrorKind>)
    requires
        call_ensures(IoError::kind, (&err,), kind),
    ensures
        kind is None <==> err is Os || err is Windows,
        kind == Some(ErrorKind::WouldBlock) <==> err is CompletionPending,
        kind == Some(ErrorKind::NotFound) <==> err is NotRegistered,
        kind == Some(ErrorKind::NotConnected) <==> err is OutsideRuntime,
        kind == Some(ErrorKind::UnexpectedEof) <==> err is FillWholeBuffer || err is WriteWholeFile,
        kind == Some(ErrorKind::WriteZero) <==> err is WriteWholeBuffer,
        kind == Some(ErrorKind::InvalidData) <==> err is InvalidTimestamp || err is UnsupportedFamily
            || err is InvalidUtf8,
        kind == Some(ErrorKind::Other) <==> err is SubmissionQueueFull || err is NoBlockingPool
            || err is NoBlockingPoolForFile || err is MissingSource,
        kind == Some(ErrorKind::InvalidInput) <==> err is InvalidPath || err is NoAddresses
            || err is AccessRequired || err is WriteAccessRequired || err is PathContainsNul
            || err is EmptySocketPath || err is SocketPathContainsNul || err is SocketPathTooLong
            || err is TooLarge || err is ReadvLengthOverflow || err is ReadvTotalTooLarge
            || err is WriteAtSocket || err is RecvSocketsOnly || err is RecvfromSocketsOnly
            || err is SendSocketsOnly,
{
}

/// An error that the runtime finds itself has a text, and a number of the system has none here. The
/// texts about a token, a place in a path and a place in a text carry the number, in decimal
/// digits.
pub proof fn law_texts_carry_their_numbers(err: IoError, message: Option<String>)
    requires
        call_ensures(IoError::message, (&err,), message),
    ensures
        message is None <==> err is Os || err is Windows,
        err matches IoError::NotRegistered(token) ==> message->0@ == "I/O token "@ + decimal(
            token as nat,
        ) + " is not registered with this driver"@,
        err matches IoError::RegisteredForPoll(token) ==> message->0@ == "I/O token "@ + decimal(
            token as nat,
        ) + " is registered for poll mode, not completion mode"@,
        err matches IoError::RegisteredForCompletion(token) ==> message->0@ == "I/O token "@
            + decimal(token as nat) + " is registered for completion mode, not poll mode"@,
        err matches IoError::InvalidPath(position) ==> message->0@
            == "Invalid path: nul byte found in provided data at position: "@ + decimal(
            position as nat,
        ),
        err matches IoError::TooLarge(role, limit) ==> message->0@ == (match role {
            BufferRole::Read => "read"@,
            BufferRole::Write => "write"@,
            BufferRole::Readv => "readv"@,
            BufferRole::Writev => "writev"@,
        }) + " buffer is too large for "@ + (match limit {
            LengthLimit::Socket => "Windows socket I/O"@,
            LengthLimit::File => "Windows file I/O"@,
            LengthLimit::Ring => "io_uring"@,
        }),
        err matches IoError::InvalidUtf8 { valid_up_to, error_len } ==> message->0@ == (
        match error_len {
            Some(len) => "invalid utf-8 sequence of "@ + decimal(len as nat) + " bytes from index "@
                + decimal(valid_up_to as nat),
            None => "incomplete utf-8 byte sequence from index "@ + decimal(valid_up_to as nat),
        }),
{
}

} // verus!
