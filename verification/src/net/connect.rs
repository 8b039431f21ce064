//! Connecting to the first of several addresses that answers.

use crate::error::{
    IoError, System, EAGAIN, EALREADY, EINPROGRESS, WSAEALREADY, WSAEINPROGRESS, WSAEWOULDBLOCK,
};
use vstd::prelude::*;

verus! {

/// The attempts to connect so far, all of which failed.
#[derive(Clone, Copy, Debug, PartialEq, Eq, Structural)]
pub struct ConnectAttempts {
    /// What the last attempt failed with.
    pub last_error: Option<IoError>,
}

/// What is reported after attempts that failed like this, in this order.
pub open spec fn reported(errors: Seq<IoError>) -> IoError {
    if errors.len() == 0 {
        IoError::NoAddresses
    } else {
        errors.last()
    }
}

impl ConnectAttempts {
    /// Whether these are the attempts that failed like this, in this order.
    pub open spec fn after(self, errors: Seq<IoError>) -> bool {
        self.last_error == (if errors.len() == 0 {
            None
        } else {
            Some(errors.last())
        })
    }

    /// No attempt yet.
    pub fn new() -> (attempts: ConnectAttempts)
        ensures
            attempts.last_error is None,
            attempts.after(Seq::empty()),
    {
        ConnectAttempts { last_error: None }
    }

    /// Notes an attempt that failed.
    pub fn failed(&mut self, err: IoError)
        ensures
            final(self).last_error == Some(err),
            forall|errors: Seq<IoError>| old(self).after(errors) ==> #[trigger] final(self).after(
                errors.push(err),
            ),
    {
        self.last_error = Some(err);
    }

    /// What to report when no address is left.
    pub fn exhausted(&self) -> (err: IoError)
        ensures
            err == (match self.last_error {
                Some(err) => err,
                None => IoError::NoAddresses,
            }),
            forall|errors: Seq<IoError>| #[trigger] self.after(errors) ==> err == reported(errors),
    {
        match self.last_error {
            Some(err) => err,
            None => IoError::NoAddresses,
        }
    }
}

/// Whether an error number of a system says that a connection is under way.
pub open spec fn in_progress(system: System, code: i32) -> bool {
    match system {
        System::Linux => code == EINPROGRESS || code == EALREADY || code == EAGAIN,
        System::Windows => code == WSAEINPROGRESS || code == WSAEALREADY || code == WSAEWOULDBLOCK,
    }
}

/// Whether an error number of a system says that a connection is under way.
pub fn is_in_progress(system: System, code: i32) -> (progressing: bool)
    ensures
        progressing == in_progress(system, code),
{
    match system {
        System::Linux => code == EINPROGRESS || code == EALREADY || code == EAGAIN,
        System::Windows => code == WSAEINPROGRESS || code == WSAEALREADY || code == WSAEWOULDBLOCK,
    }
}

/// What starting a connection came to: one that is under way has started. `failure` is the error
/// number of the call, if it failed.
pub fn start_nonblocking_connect(system: System, failure: Option<i32>) -> (started: Result<
    (),
    IoError,
>)
    ensures
        started == (match failure {
            Some(code) if !in_progress(system, code) => Err::<(), IoError>(system.numbered(code)),
            _ => Ok(()),
        }),
{
    match failure {
        Some(code) => {
            if is_in_progress(system, code) {
                Ok(())
            } else {
                Err(system.error(code))
            }
        },
        None => Ok(()),
    }
}

/// The numbers that say that a connection is under way: 11, 114 and 115 on Linux, and 10035, 10036
/// and 10037 on Windows.
pub proof fn law_connections_under_way(system: System, code: i32, progressing: bool)
    requires
        call_ensures(is_in_progress, (system, code), progressing),
    ensures
        system == System::Linux ==> (progressing <==> code == 11 || code == 114 || code == 115),
        system == System::Windows ==> (progressing <==> 10035 <= code <= 10037),
{
}

/// A connection has started unless the call failed with a number that does not say that it is under
/// way; then that number is the error.
pub proof fn law_connection_starts(
    system: System,
    failure: Option<i32>,
    progressing: bool,
    started: Result<(), IoError>,
)
    requires
        failure matches Some(code) ==> call_ensures(is_in_progress, (system, code), progressing),
        call_ensures(start_nonblocking_connect, (system, failure), started),
    ensures
        started is Ok <==> failure is None || progressing,
        started matches Err(err) ==> err == (if system == System::Linux {
            IoError::Os(failure->0)
        } else {
            IoError::Windows(failure->0)
        }),
{
}

/// After attempts that failed, the last one's error is reported, and without attempts that there
/// were no addresses.
pub proof fn law_last_failure_is_reported(
    fresh: ConnectAttempts,
    nothing: IoError,
    attempts: &mut ConnectAttempts,
    err: IoError,
    reported_err: IoError,
)
    requires
        call_ensures(ConnectAttempts::new, (), fresh),
        call_ensures(ConnectAttempts::exhausted, (&fresh,), nothing),
        call_ensures(ConnectAttempts::failed, (attempts, err), ()),
        call_ensures(ConnectAttempts::exhausted, (&*final(attempts),), reported_err),
    ensures
        nothing == IoError::NoAddresses,
        reported_err == err,
{
}

} // verus!
