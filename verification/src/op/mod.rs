//! The operations: how each goes from its first attempt to its outcome.

pub mod accept;
pub mod buffers;
pub mod connect;
pub mod overlapped;
pub mod recvfrom;

use crate::driver::{CompletionIoResult, Interest};
use crate::error::{IoError, System};
use vstd::prelude::*;

verus! {

/// What looking at an operation came to.
#[derive(Debug)]
pub enum Polled<T> {
    /// The operation is over.
    Ready(Result<T, IoError>),
    /// The operation goes on.
    Pending,
}

/// What an operation that was tried has to do.
#[derive(Debug)]
pub enum Attempt<T> {
    /// The operation is over.
    Ready(Result<T, IoError>),
    /// The handle is not ready: ask the driver to wait for this.
    Wait(Interest),
}

/// The operations.
#[derive(Clone, Copy, Debug, PartialEq, Eq, Structural)]
pub enum OpKind {
    Read,
    Readv,
    Recv,
    Recvfrom,
    Accept,
    Write,
    Writev,
    WriteAt,
    Send,
    Connect,
    Statx,
}

/// What a completion-based operation asks of the driver.
#[derive(Clone, Copy, Debug, PartialEq, Eq, Structural)]
pub enum CompletionRequest {
    /// Fetch the result that waits under this token.
    Fetch(usize),
    /// Submit the operation.
    Submit,
}

/// What the driver's answer means for a completion-based operation.
#[derive(Debug, PartialEq, Eq)]
pub enum CompletionStep {
    /// The operation is over, with what the system counted.
    Ready(Result<u32, IoError>),
    /// The operation goes on; where a token is given, the driver has to be told whom to wake.
    Pending { set_waker: Option<usize> },
}

impl OpKind {
    /// What the operation waits for when its handle is not ready.
    pub open spec fn waits_for(self) -> Interest {
        match self {
            OpKind::Write
            | OpKind::Writev
            | OpKind::WriteAt
            | OpKind::Send
            | OpKind::Connect => Interest { readable: false, writable: true },
            _ => Interest { readable: true, writable: false },
        }
    }

    /// Whether each look at a submitted operation makes its latest waker the one that is woken.
    pub open spec fn renews_waker(self) -> bool {
        self != OpKind::Write && self != OpKind::Writev && self != OpKind::Connect
    }

    /// Whether the operation remembers its token after it is over.
    pub open spec fn keeps_token(self) -> bool {
        self == OpKind::Connect
    }

    /// What the operation waits for when its handle is not ready.
    pub fn interest(self) -> (interest: Interest)
        ensures
            interest == self.waits_for(),
    {
        match self {
            OpKind::Write
            | OpKind::Writev
            | OpKind::WriteAt
            | OpKind::Send
            | OpKind::Connect => Interest { readable: false, writable: true },
            _ => Interest { readable: true, writable: false },
        }
    }
}

/// What a result of the completion interface means: a count, or an error number negated.
pub open spec fn completion_outcome(result: i32, system: System) -> Result<u32, IoError> {
    if result < 0 {
        Err(system.numbered((-result) as i32))
    } else {
        Ok(result as u32)
    }
}

/// What a result of the completion interface means: a count, or an error number negated.
pub fn completion_result(result: i32, system: System) -> (outcome: Result<u32, IoError>)
    requires
        result > i32::MIN,
    ensures
        outcome == completion_outcome(result, system),
{
    if result < 0 {
        Err(system.error(-result))
    } else {
        Ok(result as u32)
    }
}

/// An operation that is carried out by completion.
#[derive(Clone, Copy, Debug, PartialEq, Eq, Structural)]
pub struct CompletionOp {
    pub kind: OpKind,
    /// The system that carries the operation out.
    pub system: System,
    /// The token under which the result comes, once the operation was submitted.
    pub completion_token: Option<usize>,
}

impl CompletionOp {
    /// What the operation asks of the driver when it is looked at.
    pub open spec fn asks(self) -> CompletionRequest {
        match self.completion_token {
            Some(token) => CompletionRequest::Fetch(token),
            None => CompletionRequest::Submit,
        }
    }

    /// The operation, and what to do, after the driver was asked for the result.
    pub open spec fn after_fetch(self, result: Option<i32>) -> (CompletionOp, CompletionStep) {
        match result {
            Some(result) => (
                CompletionOp {
                    completion_token: if self.kind.keeps_token() {
                        self.completion_token
                    } else {
                        None
                    },
                    ..self
                },
                CompletionStep::Ready(completion_outcome(result, self.system)),
            ),
            None => (
                self,
                CompletionStep::Pending {
                    set_waker: if self.kind.renews_waker() {
                        self.completion_token
                    } else {
                        None
                    },
                },
            ),
        }
    }

    /// The operation, and what to do, after the driver was given the operation.
    pub open spec fn after_submit(self, answer: CompletionIoResult) -> (
        CompletionOp,
        CompletionStep,
    ) {
        match answer {
            CompletionIoResult::Done(result) => (
                self,
                CompletionStep::Ready(completion_outcome(result, self.system)),
            ),
            CompletionIoResult::Retry(token) => (
                CompletionOp { completion_token: Some(token), ..self },
                CompletionStep::Pending { set_waker: None },
            ),
            CompletionIoResult::SubmitErr(err) => (self, CompletionStep::Ready(Err(err))),
        }
    }

    /// An operation that was not submitted yet.
    pub fn new(kind: OpKind, system: System) -> (op: CompletionOp)
        ensures
            op == (CompletionOp { kind, system, completion_token: None }),
    {
        CompletionOp { kind, system, completion_token: None }
    }

    /// What the operation asks of the driver when it is looked at.
    pub fn request(&self) -> (request: CompletionRequest)
        ensures
            request == self.asks(),
    {
        match self.completion_token {
            Some(token) => CompletionRequest::Fetch(token),
            None => CompletionRequest::Submit,
        }
    }

    /// Goes on after the driver was asked for the result.
    pub fn fetched(&mut self, result: Option<i32>) -> (step: CompletionStep)
        requires
            old(self).completion_token is Some,
            result != Some(i32::MIN),
        ensures
            (*final(self), step) == old(self).after_fetch(result),
    {
        match result {
            Some(result) => {
                match self.kind {
                    OpKind::Connect => {},
                    _ => {
                        self.completion_token = None;
                    },
                }
                CompletionStep::Ready(completion_result(result, self.system))
            },
            None => {
                match self.kind {
                    OpKind::Write | OpKind::Writev | OpKind::Connect => {
                        CompletionStep::Pending { set_waker: None }
                    },
                    _ => CompletionStep::Pending { set_waker: self.completion_token },
                }
            },
        }
    }

    /// Goes on after the driver was given the operation.
    pub fn submitted(&mut self, answer: CompletionIoResult) -> (step: CompletionStep)
        requires
            old(self).completion_token is None,
            answer != CompletionIoResult::Done(i32::MIN),
        ensures
            (*final(self), step) == old(self).after_submit(answer),
    {
        match answer {
            CompletionIoResult::Done(result) => {
                CompletionStep::Ready(completion_result(result, self.system))
            },
            CompletionIoResult::Retry(token) => {
                self.completion_token = Some(token);
                CompletionStep::Pending { set_waker: None }
            },
            CompletionIoResult::SubmitErr(err) => CompletionStep::Ready(Err(err)),
        }
    }
}

/// What a system call came to: it returns a count, or -1 and leaves an error number.
pub fn syscall_result(returned: i64, errno: i32) -> (result: Result<u64, IoError>)
    requires
        returned >= -1,
    ensures
        result == (if returned == -1 {
            Err::<u64, IoError>(IoError::Os(errno))
        } else {
            Ok(returned as u64)
        }),
{
    if returned == -1 {
        Err(IoError::Os(errno))
    } else {
        Ok(returned as u64)
    }
}

/// What an operation that was tried has to do: one that would block waits for its handle.
pub fn poll_result_or_wait<T>(result: Result<T, IoError>, kind: OpKind) -> (attempt: Attempt<T>)
    ensures
        attempt == (match result {
            Err(err) if err.would_block() => Attempt::<T>::Wait(kind.waits_for()),
            _ => Attempt::Ready(result),
        }),
{
    match result {
        Ok(value) => Attempt::Ready(Ok(value)),
        Err(err) => {
            if err.is_would_block() {
                Attempt::Wait(kind.interest())
            } else {
                Attempt::Ready(Err(err))
            }
        },
    }
}

/// What an operation comes to once the driver was asked to wait for its handle.
pub fn poll_waiting<T>(asked: Result<(), IoError>) -> (polled: Polled<T>)
    ensures
        polled == (match asked {
            Ok(_) => Polled::<T>::Pending,
            Err(err) => Polled::Ready(Err(err)),
        }),
{
    match asked {
        Ok(_) => Polled::Pending,
        Err(err) => Polled::Ready(Err(err)),
    }
}

/// What an operation comes to that was submitted and answered at once: one that would block goes
/// on.
pub fn completion_result_to_poll<T>(result: Result<T, IoError>) -> (polled: Polled<T>)
    ensures
        polled == (match result {
            Err(err) if err.would_block() => Polled::<T>::Pending,
            _ => Polled::Ready(result),
        }),
{
    match result {
        Ok(output) => Polled::Ready(Ok(output)),
        Err(err) => {
            if err.is_would_block() {
                Polled::Pending
            } else {
                Polled::Ready(Err(err))
            }
        },
    }
}

/// What work comes to that a blocking pool was given: `returned` is what it returned, if the pool
/// has carried it out.
pub fn poll_blocking_result(returned: Option<i64>) -> (result: Result<i64, IoError>)
    ensures
        result == (match returned {
            Some(value) => Ok::<i64, IoError>(value),
            None => Err(IoError::NoBlockingPool),
        }),
{
    match returned {
        Some(value) => Ok(value),
        None => Err(IoError::NoBlockingPool),
    }
}

/// A submitted operation fetches its result under the token that the driver gave it, until the
/// result is there; then it is over with that result, and looking at it again submits it anew.
/// Only a connection attempt keeps asking for the same result.
pub proof fn law_submitted_operation_ends(
    kind: OpKind,
    system: System,
    token: usize,
    result: i32,
)
    ensures
        ({
            let op = CompletionOp { kind, system, completion_token: None };
            let (waiting, submitted) = op.after_submit(CompletionIoResult::Retry(token));
            let (still, pending) = waiting.after_fetch(None);
            let (over, step) = still.after_fetch(Some(result));
            &&& op.asks() == CompletionRequest::Submit
            &&& submitted is Pending
            &&& waiting.asks() == CompletionRequest::Fetch(token)
            &&& pending is Pending
            &&& still == waiting
            &&& step == CompletionStep::Ready(completion_outcome(result, system))
            &&& over.asks() == (if kind == OpKind::Connect {
                CompletionRequest::Fetch(token)
            } else {
                CompletionRequest::Submit
            })
        }),
{
}

/// A result that is not negative is a success with that count, and a negative one the error with
/// the opposite number.
pub proof fn law_results_are_told_apart(one: i32, other: i32, system: System)
    requires
        one > i32::MIN,
        other > i32::MIN,
        completion_outcome(one, system) == completion_outcome(other, system),
    ensures
        one == other,
        completion_outcome(one, system) is Ok <==> one >= 0,
{
}

/// What moves bytes out waits until the handle can be written, and what takes bytes in until it can
/// be read; a connection is made when it can be written.
pub proof fn law_operation_waits_for_its_direction(kind: OpKind, interest: Interest)
    requires
        call_ensures(OpKind::interest, (kind,), interest),
    ensures
        interest.writable != interest.readable,
        interest.writable <==> kind == OpKind::Write || kind == OpKind::Writev || kind
            == OpKind::WriteAt || kind == OpKind::Send || kind == OpKind::Connect,
{
}

/// A result that is not negative is the count, and a negative one the error with the opposite
/// number of the system that gave it.
pub proof fn law_result_is_count_or_error(
    result: i32,
    system: System,
    outcome: Result<u32, IoError>,
)
    requires
        result > i32::MIN,
        call_ensures(completion_result, (result, system), outcome),
    ensures
        outcome is Ok <==> result >= 0,
        outcome matches Ok(count) ==> count == result,
        outcome matches Err(err) ==> match system {
            System::Linux => err matches IoError::Os(code) && code == -result,
            System::Windows => err matches IoError::Windows(code) && code == -result,
        },
{
}

/// A new operation is submitted first, and one with a token asks for the result under it.
pub proof fn law_operation_asks_under_its_token(op: CompletionOp, request: CompletionRequest)
    requires
        call_ensures(CompletionOp::request, (&op,), request),
    ensures
        op.completion_token is None ==> request == CompletionRequest::Submit,
        op.completion_token matches Some(token) ==> request == CompletionRequest::Fetch(token),
{
}

/// A new operation has no token.
pub proof fn law_new_operation_has_no_token(kind: OpKind, system: System, op: CompletionOp)
    requires
        call_ensures(CompletionOp::new, (kind, system), op),
    ensures
        op.kind == kind,
        op.system == system,
        op.completion_token is None,
{
}

/// An operation whose result was fetched is over just if there is a result, with what the result
/// means. Its token is gone then, except that of a connection attempt. Without a result it goes on
/// under its token, and has its waker renewed unless it writes or connects.
pub proof fn law_fetched_result_ends_the_operation(
    op: &mut CompletionOp,
    result: Option<i32>,
    step: CompletionStep,
)
    requires
        old(op).completion_token is Some,
        result != Some(i32::MIN),
        call_ensures(CompletionOp::fetched, (op, result), step),
    ensures
        final(op).kind == old(op).kind,
        final(op).system == old(op).system,
        result is Some <==> step is Ready,
        result matches Some(count) ==> count >= 0 ==> step == CompletionStep::Ready(
            Ok(count as u32),
        ),
        result matches Some(code) ==> code < 0 ==> step == CompletionStep::Ready(
            Err(
                if old(op).system == System::Linux {
                    IoError::Os((-code) as i32)
                } else {
                    IoError::Windows((-code) as i32)
                },
            ),
        ),
        result is Some && old(op).kind != OpKind::Connect ==> final(op).completion_token is None,
        result is None || old(op).kind == OpKind::Connect
            ==> final(op).completion_token == old(op).completion_token,
        step matches CompletionStep::Pending { set_waker } ==> set_waker == (if old(op).kind
            == OpKind::Write || old(op).kind == OpKind::Writev || old(op).kind
            == OpKind::Connect {
            None
        } else {
            old(op).completion_token
        }),
{
}

/// An operation that was submitted is over just if it is done or could not be submitted, and
/// otherwise goes on under the token that it was given.
pub proof fn law_submitted_operation_gets_its_token(
    op: &mut CompletionOp,
    answer: CompletionIoResult,
    step: CompletionStep,
)
    requires
        old(op).completion_token is None,
        answer != CompletionIoResult::Done(i32::MIN),
        call_ensures(CompletionOp::submitted, (op, answer), step),
    ensures
        final(op).kind == old(op).kind,
        final(op).system == old(op).system,
        match answer {
            CompletionIoResult::Retry(token) => final(op).completion_token == Some(token) && step
                == (CompletionStep::Pending { set_waker: None }),
            CompletionIoResult::SubmitErr(err) => final(op).completion_token is None && step
                == CompletionStep::Ready(Err(err)),
            CompletionIoResult::Done(result) => {
                &&& final(op).completion_token is None
                &&& step is Ready
                &&& result >= 0 ==> step == CompletionStep::Ready(Ok(result as u32))
                &&& result < 0 ==> step == CompletionStep::Ready(
                    Err(
                        if old(op).system == System::Linux {
                            IoError::Os((-result) as i32)
                        } else {
                            IoError::Windows((-result) as i32)
                        },
                    ),
                )
            },
        },
{
}

/// A system call fails just if it returns -1, with the number that it left.
pub proof fn law_system_call_fails_by_minus_one(
    returned: i64,
    errno: i32,
    result: Result<u64, IoError>,
)
    requires
        returned >= -1,
        call_ensures(syscall_result, (returned, errno), result),
    ensures
        result is Err <==> returned == -1,
        result matches Err(err) ==> err == IoError::Os(errno),
        result matches Ok(count) ==> count == returned,
{
}

/// An operation that was tried waits just if it would block, and else is over with its result. The
/// errors that say so are 11 on Linux, 10035 on Windows, and that of a pending completion.
pub proof fn law_only_blocked_operations_wait<T>(
    result: Result<T, IoError>,
    kind: OpKind,
    attempt: Attempt<T>,
)
    requires
        call_ensures(poll_result_or_wait::<T>, (result, kind), attempt),
    ensures
        attempt is Wait <==> (result matches Err(err) && (err == IoError::Os(11) || err
            == IoError::Windows(10035) || err == IoError::CompletionPending)),
        attempt matches Attempt::Ready(outcome) ==> outcome == result,
        attempt matches Attempt::Wait(interest) ==> interest == kind.waits_for(),
{
}

/// An operation goes on just if the driver took it, and else is over with the driver's error.
pub proof fn law_refused_wait_ends_the_operation<T>(
    asked: Result<(), IoError>,
    polled: Polled<T>,
)
    requires
        call_ensures(poll_waiting::<T>, (asked,), polled),
    ensures
        polled is Pending <==> asked is Ok,
        polled matches Polled::Ready(outcome) ==> outcome is Err && asked == Err::<(), IoError>(
            outcome->Err_0,
        ),
{
}

/// An operation that was answered at once goes on just if it would block, and else is over with its
/// result.
pub proof fn law_only_blocked_operations_go_on<T>(
    result: Result<T, IoError>,
    polled: Polled<T>,
)
    requires
        call_ensures(completion_result_to_poll::<T>, (result,), polled),
    ensures
        polled is Pending <==> (result matches Err(err) && (err == IoError::Os(11) || err
            == IoError::Windows(10035) || err == IoError::CompletionPending)),
        polled matches Polled::Ready(outcome) ==> outcome == result,
{
}

/// Work that the pool carried out gives what it returned, and other work an error.
pub proof fn law_blocking_work_gives_its_value(
    returned: Option<i64>,
    result: Result<i64, IoError>,
)
    requires
        call_ensures(poll_blocking_result, (returned,), result),
    ensures
        result is Ok <==> returned is Some,
        result matches Ok(value) ==> returned == Some(value),
        result matches Err(err) ==> err == IoError::NoBlockingPool,
{
}

} // verus!
