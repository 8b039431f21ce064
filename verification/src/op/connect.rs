//! Finding out whether a connection that was started has been made.

use crate::driver::Interest;
use crate::error::{IoError, System, EAGAIN, ENOTCONN};
use crate::net::connect::is_in_progress;
use crate::op::{Attempt, OpKind};
use vstd::prelude::*;

verus! {

/// What the error that is pending on the socket says of the connection.
#[derive(Debug)]
pub enum ConnectCheck {
    /// Nothing: ask for the peer's address.
    AskPeer,
    /// The attempt is over, or has to wait.
    Attempt(Attempt<()>),
}

/// What the error pending on the socket says, where `asked` is that error, or the error number of
/// the call that asks for it.
pub open spec fn check_pending_error(asked: Result<i32, i32>) -> ConnectCheck {
    match asked {
        Err(code) => if code == EAGAIN {
            ConnectCheck::Attempt(Attempt::Wait(OpKind::Connect.waits_for()))
        } else {
            ConnectCheck::Attempt(Attempt::Ready(Err(IoError::Os(code))))
        },
        Ok(pending) => if pending == 0 {
            ConnectCheck::AskPeer
        } else if crate::net::connect::in_progress(System::Linux, pending) {
            ConnectCheck::Attempt(Attempt::Wait(OpKind::Connect.waits_for()))
        } else {
            ConnectCheck::Attempt(Attempt::Ready(Err(IoError::Os(pending))))
        },
    }
}

/// What asking for the peer's address says, where `failure` is the error number of the call, if it
/// failed: a socket without a peer is not connected yet.
pub open spec fn check_peer(failure: Option<i32>) -> Attempt<()> {
    match failure {
        None => Attempt::Ready(Ok(())),
        Some(code) => if crate::net::connect::in_progress(System::Linux, code) || code == ENOTCONN {
            Attempt::Wait(OpKind::Connect.waits_for())
        } else {
            Attempt::Ready(Err(IoError::Os(code)))
        },
    }
}

/// Goes on after the socket was asked for the error that is pending on it.
pub fn pending_error(asked: Result<i32, i32>) -> (check: ConnectCheck)
    ensures
        check == check_pending_error(asked),
{
    match asked {
        Err(code) => {
            if code == EAGAIN {
                ConnectCheck::Attempt(Attempt::Wait(OpKind::Connect.interest()))
            } else {
                ConnectCheck::Attempt(Attempt::Ready(Err(IoError::Os(code))))
            }
        },
        Ok(pending) => {
            if pending == 0 {
                ConnectCheck::AskPeer
            } else if is_in_progress(System::Linux, pending) {
                ConnectCheck::Attempt(Attempt::Wait(OpKind::Connect.interest()))
            } else {
                ConnectCheck::Attempt(Attempt::Ready(Err(IoError::Os(pending))))
            }
        },
    }
}

/// Goes on after the socket was asked for its peer's address.
pub fn peer(failure: Option<i32>) -> (attempt: Attempt<()>)
    ensures
        attempt == check_peer(failure),
{
    match failure {
        None => {
            let done: Attempt<()> = Attempt::Ready(Ok(()));
            done
        },
        Some(code) => {
            if is_in_progress(System::Linux, code) || code == ENOTCONN {
                Attempt::Wait(OpKind::Connect.interest())
            } else {
                Attempt::Ready(Err(IoError::Os(code)))
            }
        },
    }
}

/// A connection counts as made only when no error is pending and the socket has a peer, and counts
/// as failed only with an error number that does not say that it is under way.
pub proof fn law_connected_means_peer(asked: Result<i32, i32>, failure: Option<i32>)
    ensures
        check_pending_error(asked) is AskPeer <==> asked == Ok::<i32, i32>(0),
        (check_peer(failure) matches Attempt::Ready(Ok(_))) <==> failure is None,
        check_pending_error(asked) matches ConnectCheck::Attempt(Attempt::Ready(result)) ==> {
            &&& result is Err
            &&& asked is Err || !crate::net::connect::in_progress(
                System::Linux,
                result->Err_0->Os_0,
            )
        },
{
}

/// Asking for the pending error: none means that the peer is asked for next. The numbers that say
/// that the connection is under way, 11, 114 and 115, make it wait until the socket can be written,
/// as does a call that would block. Any other number is the outcome.
pub proof fn law_pending_error_decides(asked: Result<i32, i32>, check: ConnectCheck)
    requires
        call_ensures(pending_error, (asked,), check),
    ensures
        check is AskPeer <==> asked == Ok::<i32, i32>(0),
        check is Attempt ==> {
            let code = match asked {
                Ok(pending) => pending,
                Err(code) => code,
            };
            let waits = if asked is Ok {
                code == 11 || code == 114 || code == 115
            } else {
                code == 11
            };
            check->Attempt_0 == (if waits {
                Attempt::<()>::Wait(Interest { readable: false, writable: true })
            } else {
                Attempt::Ready(Err(IoError::Os(code)))
            })
        },
{
}

/// Asking for the peer: an answer means that the connection is made. The numbers that say that it is
/// under way, 11, 114 and 115, and that there is no peer yet, 107, make it wait until the socket can
/// be written. Any other number is the outcome.
pub proof fn law_peer_decides(failure: Option<i32>, attempt: Attempt<()>)
    requires
        call_ensures(peer, (failure,), attempt),
    ensures
        failure is None ==> attempt == Attempt::<()>::Ready(Ok(())),
        failure matches Some(code) ==> attempt == (if code == 11 || code == 114 || code == 115
            || code == 107 {
            Attempt::<()>::Wait(Interest { readable: false, writable: true })
        } else {
            Attempt::Ready(Err(IoError::Os(code)))
        }),
{
}

} // verus!
