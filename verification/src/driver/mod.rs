//! The I/O drivers: what they register, what they wake, and what they refuse.

pub mod iocp;
pub mod mio;
pub mod mock;
pub mod uring;
pub mod uring_calls;
pub mod uring_laws;

use crate::error::IoError;
use vstd::prelude::*;

verus! {

/// How a handle's operations are carried out.
#[derive(Clone, Copy, Debug, PartialEq, Eq, Structural)]
pub enum RegistrationMode {
    /// The operation is tried, and tried again once the handle is ready.
    Poll,
    /// The operation is handed to the system, which reports its result.
    Completion,
}

/// The readiness that a handle waits for.
#[derive(Clone, Copy, Debug, PartialEq, Eq, Structural)]
pub struct Interest {
    pub readable: bool,
    pub writable: bool,
}

/// What a driver answers to the submission of a completion-based operation.
#[derive(Clone, Copy, Debug, PartialEq, Eq, Structural)]
pub enum CompletionIoResult {
    /// The operation is done; here is its result.
    Done(i32),
    /// The operation is under way; its result comes under this token.
    Retry(usize),
    /// The operation could not be submitted.
    SubmitErr(IoError),
}

/// What wakes a driver that waits.
pub trait Interruptor {
    /// Wakes the driver.
    fn interrupt(&self);
}

/// The error of a driver that has no completion-based interface.
pub fn unsupported_completion_error() -> (err: IoError)
    ensures
        err == IoError::CompletionUnsupported,
{
    IoError::CompletionUnsupported
}

/// Makes `waker` the one that is woken. One that would wake the same task stays as it is.
pub fn update_waiter(waiter: &mut Option<u64>, waker: u64)
    ensures
        *final(waiter) == Some(waker),
{
    let same = match *waiter {
        Some(current) => current == waker,
        None => false,
    };
    if !same {
        *waiter = Some(waker);
    }
}

/// The waiters after `waker` joined them: one that would wake the same task as the last is not
/// added again.
pub open spec fn with_waiter(waiters: Seq<u64>, waker: u64) -> Seq<u64> {
    if waiters.len() > 0 && waiters.last() == waker {
        waiters
    } else {
        waiters.push(waker)
    }
}

/// Adds `waker` to those that are woken.
pub fn push_waiter(waiters: &mut Vec<u64>, waker: u64)
    ensures
        final(waiters)@ == with_waiter(old(waiters)@, waker),
{
    let same = waiters.len() > 0 && waiters[waiters.len() - 1] == waker;
    if !same {
        waiters.push(waker);
    }
}

/// The waker that was given last is the one that is woken.
pub proof fn law_last_waker_waits(waiter: &mut Option<u64>, waker: u64)
    requires
        call_ensures(update_waiter, (waiter, waker), ()),
    ensures
        *final(waiter) == Some(waker),
{
}

/// A waker that joins others waits behind them, and all of them still wait. One that was the last
/// already does not wait twice.
pub proof fn law_waiters_are_kept(waiters: &mut Vec<u64>, waker: u64)
    requires
        call_ensures(push_waiter, (waiters, waker), ()),
    ensures
        final(waiters)@.len() > 0,
        final(waiters)@.last() == waker,
        final(waiters)@.take(old(waiters)@.len() as int) == old(waiters)@,
        old(waiters)@.len() > 0 && old(waiters)@.last() == waker
            ==> final(waiters)@ == old(waiters)@,
        !(old(waiters)@.len() > 0 && old(waiters)@.last() == waker) ==> final(waiters)@.len()
            == old(waiters)@.len() + 1,
{
    assert(final(waiters)@.take(old(waiters)@.len() as int) =~= old(waiters)@);
}

/// A driver without completions says so.
pub proof fn law_missing_completions_are_an_error(err: IoError)
    requires
        call_ensures(unsupported_completion_error, (), err),
    ensures
        err == IoError::CompletionUnsupported,
{
}

} // verus!
