//! Accepting a connection.

use crate::error::{IoError, System, EAGAIN};
use crate::net::addr::{sockaddr_storage_to_socketaddr, SocketAddress};
use crate::op::{Attempt, OpKind};
use vstd::prelude::*;

verus! {

/// The flag that closes a file descriptor when another program is started.
pub const FD_CLOEXEC: i32 = 1;

/// What a call that accepts a connection came to.
#[derive(Debug)]
pub enum Accepted {
    /// Here is the connection's file descriptor.
    Connection(i32),
    /// The attempt is over, or has to wait.
    Attempt(Attempt<(i32, SocketAddress)>),
}

/// Goes on after a connection was to be accepted, where `called` is its file descriptor or the
/// error number of the call.
pub fn accepted(called: Result<i32, i32>) -> (outcome: Accepted)
    ensures
        outcome == (match called {
            Ok(fd) => Accepted::Connection(fd),
            Err(code) => if code == EAGAIN {
                Accepted::Attempt(Attempt::Wait(OpKind::Accept.waits_for()))
            } else {
                Accepted::Attempt(Attempt::Ready(Err(IoError::Os(code))))
            },
        }),
{
    match called {
        Ok(fd) => Accepted::Connection(fd),
        Err(code) => {
            if code == EAGAIN {
                Accepted::Attempt(Attempt::Wait(OpKind::Accept.interest()))
            } else {
                Accepted::Attempt(Attempt::Ready(Err(IoError::Os(code))))
            }
        },
    }
}

/// The flags that a file descriptor has to be given so that it is closed when another program is
/// started, unless it has them already.
pub fn set_cloexec(flags: i32) -> (update: Option<i32>)
    ensures
        update == (if flags & FD_CLOEXEC == 0 {
            Some(flags | FD_CLOEXEC)
        } else {
            None
        }),
        update matches Some(new_flags) ==> new_flags & FD_CLOEXEC != 0,
        update is None ==> flags & FD_CLOEXEC != 0,
{
    if flags & FD_CLOEXEC == 0 {
        assert((flags | 1i32) & 1i32 == 1i32) by (bit_vector);
        Some(flags | FD_CLOEXEC)
    } else {
        None
    }
}

/// What asking an accepted connection for its peer came to. `peer` is the peer's address as the
/// system stores it, or the error number of the call. Where the connection was accepted after
/// waiting for readiness, an answer that would block waits again.
pub open spec fn accepted_from(fd: i32, peer: Result<Seq<u8>, i32>, by_readiness: bool) -> Attempt<
    (i32, SocketAddress),
> {
    match peer {
        Err(code) => if by_readiness && code == EAGAIN {
            Attempt::Wait(OpKind::Accept.waits_for())
        } else {
            Attempt::Ready(Err(IoError::Os(code)))
        },
        Ok(storage) => Attempt::Ready(
            match crate::net::addr::stored_address(storage, System::Linux) {
                Ok(address) => Ok((fd, address)),
                Err(err) => Err(err),
            },
        ),
    }
}

/// Goes on after an accepted connection was asked for its peer.
pub fn peer(fd: i32, asked: Result<Vec<u8>, i32>, by_readiness: bool) -> (attempt: Attempt<
    (i32, SocketAddress),
>)
    requires
        asked matches Ok(storage) ==> storage@.len() == crate::net::addr::STORAGE_LEN,
    ensures
        attempt == accepted_from(
            fd,
            match asked {
                Ok(storage) => Ok(storage@),
                Err(code) => Err(code),
            },
            by_readiness,
        ),
{
    match asked {
        Err(code) => {
            if by_readiness && code == EAGAIN {
                Attempt::Wait(OpKind::Accept.interest())
            } else {
                Attempt::Ready(Err(IoError::Os(code)))
            }
        },
        Ok(storage) => {
            match sockaddr_storage_to_socketaddr(&storage, System::Linux) {
                Ok(address) => Attempt::Ready(Ok((fd, address))),
                Err(err) => Attempt::Ready(Err(err)),
            }
        },
    }
}

/// Whoever connects from an address is reported under that address.
pub proof fn law_peer_is_reported(fd: i32, address: SocketAddress, by_readiness: bool)
    ensures
        accepted_from(fd, Ok(address.storage(System::Linux)), by_readiness) == Attempt::Ready(
            Ok::<(i32, SocketAddress), IoError>((fd, address)),
        ),
{
    crate::net::addr::law_address_round_trip(address, System::Linux);
}

/// A call that accepts gives the connection, waits until the socket can be read if it would block,
/// or fails with its number.
pub proof fn law_accepting_waits_or_fails(called: Result<i32, i32>, outcome: Accepted)
    requires
        call_ensures(accepted, (called,), outcome),
    ensures
        called matches Ok(fd) ==> outcome == Accepted::Connection(fd),
        called matches Err(code) ==> outcome == Accepted::Attempt(
            if code == 11 {
                Attempt::Wait(crate::driver::Interest { readable: true, writable: false })
            } else {
                Attempt::Ready(Err(IoError::Os(code)))
            },
        ),
{
}

/// A descriptor ends up with the flag 1, and keeps all others: one that has it stays as it is, and
/// another is given its own flags and this one.
pub proof fn law_close_on_exec_is_added(flags: i32, update: Option<i32>)
    requires
        call_ensures(set_cloexec, (flags,), update),
    ensures
        update is None <==> flags & 1 != 0,
        update matches Some(new_flags) ==> new_flags == flags | 1,
{
}

/// An accepted connection is reported with its own descriptor, and with the address that its peer's
/// bytes stand for; bytes that stand for none fail. Where asking failed, the number is the outcome,
/// unless it says that the call would block and the connection was accepted by readiness.
pub proof fn law_peer_is_asked_for(
    fd: i32,
    asked: Result<Vec<u8>, i32>,
    by_readiness: bool,
    attempt: Attempt<(i32, SocketAddress)>,
    address: Result<SocketAddress, IoError>,
)
    requires
        call_ensures(peer, (fd, asked, by_readiness), attempt),
        asked matches Ok(storage) ==> call_ensures(
            sockaddr_storage_to_socketaddr,
            (&storage, System::Linux),
            address,
        ),
    ensures
        asked is Ok ==> match address {
            Ok(address) => attempt == Attempt::Ready(
                Ok::<(i32, SocketAddress), IoError>((fd, address)),
            ),
            Err(err) => attempt == Attempt::<(i32, SocketAddress)>::Ready(Err(err)),
        },
        asked matches Err(code) ==> attempt == (if by_readiness && code == 11 {
            Attempt::<(i32, SocketAddress)>::Wait(
                crate::driver::Interest { readable: true, writable: false },
            )
        } else {
            Attempt::Ready(Err(IoError::Os(code)))
        }),
{
}

} // verus!
