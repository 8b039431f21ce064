//! Receiving a datagram with its source.

use crate::error::{IoError, System};
use crate::net::addr::{sockaddr_storage_to_socketaddr, SocketAddress};
use crate::op::{poll_result_or_wait, Attempt, OpKind};
use vstd::prelude::*;

verus! {

/// The flag that leaves what was received in the socket.
pub const MSG_PEEK: i32 = 2;

/// The flags of a call that receives.
pub fn recv_flags(peek: bool) -> (flags: i32)
    ensures
        flags == (if peek {
            MSG_PEEK
        } else {
            0
        }),
{
    if peek {
        MSG_PEEK
    } else {
        0
    }
}

/// What a datagram of `len` bytes came to, whose source is stored like this.
pub open spec fn received(len: u64, storage: Seq<u8>, system: System) -> Result<
    (u64, SocketAddress),
    IoError,
> {
    match crate::net::addr::stored_address(storage, system) {
        Ok(address) => Ok((len, address)),
        Err(err) => Err(err),
    }
}

/// Goes on after a datagram was to be received, where `len` is its length or the error number of
/// the call, and `storage` its source as the system stores it.
pub fn poll_poll(len: Result<u64, i32>, storage: &Vec<u8>, system: System) -> (attempt: Attempt<
    (u64, SocketAddress),
>)
    requires
        storage@.len() == crate::net::addr::STORAGE_LEN,
    ensures
        attempt == (match len {
            Ok(len) => Attempt::Ready(received(len, storage@, system)),
            Err(code) => if system.numbered(code).would_block() {
                Attempt::Wait(OpKind::Recvfrom.waits_for())
            } else {
                Attempt::Ready(Err(system.numbered(code)))
            },
        }),
{
    match len {
        Err(code) => poll_result_or_wait(Err(system.error(code)), OpKind::Recvfrom),
        Ok(len) => {
            match sockaddr_storage_to_socketaddr(storage, system) {
                Ok(address) => Attempt::Ready(Ok((len, address))),
                Err(err) => Attempt::Ready(Err(err)),
            }
        },
    }
}

/// What a datagram comes to that was received by completion. `counted` is what the completion came
/// to, and `storage` the source that was kept for it, if one was.
pub fn poll_completion(
    counted: Result<u32, IoError>,
    storage: Option<Vec<u8>>,
    system: System,
) -> (result: Result<(u64, SocketAddress), IoError>)
    requires
        storage matches Some(bytes) ==> bytes@.len() == crate::net::addr::STORAGE_LEN,
    ensures
        result == (match (counted, storage) {
            (Err(err), _) => Err(err),
            (Ok(_), None) => Err(IoError::MissingSource),
            (Ok(len), Some(bytes)) => received(len as u64, bytes@, system),
        }),
{
    match counted {
        Err(err) => Err(err),
        Ok(len) => {
            match storage {
                None => Err(IoError::MissingSource),
                Some(bytes) => {
                    match sockaddr_storage_to_socketaddr(&bytes, system) {
                        Ok(address) => Ok((len as u64, address)),
                        Err(err) => Err(err),
                    }
                },
            }
        },
    }
}

/// A datagram is reported with the address that it came from, and with its length.
pub proof fn law_source_is_reported(len: u64, address: SocketAddress, system: System)
    ensures
        received(len, address.storage(system), system) == Ok::<(u64, SocketAddress), IoError>(
            (len, address),
        ),
{
    crate::net::addr::law_address_round_trip(address, system);
}

/// Looking at what comes sets the flag 2, and taking it sets none.
pub proof fn law_peeking_sets_its_flag(peek: bool, flags: i32)
    requires
        call_ensures(recv_flags, (peek,), flags),
    ensures
        peek ==> flags == 2,
        !peek ==> flags == 0,
{
}

/// A datagram is reported with its own length and with the address that its source's bytes stand
/// for; bytes that stand for none fail. A call that would block waits until the socket can be read,
/// and another failure is the outcome.
pub proof fn law_datagram_is_tried(
    len: Result<u64, i32>,
    storage: Vec<u8>,
    system: System,
    attempt: Attempt<(u64, SocketAddress)>,
    address: Result<SocketAddress, IoError>,
)
    requires
        call_ensures(poll_poll, (len, &storage, system), attempt),
        call_ensures(sockaddr_storage_to_socketaddr, (&storage, system), address),
    ensures
        len matches Ok(len) ==> attempt == Attempt::Ready(
            match address {
                Ok(address) => Ok::<(u64, SocketAddress), IoError>((len, address)),
                Err(err) => Err(err),
            },
        ),
        len matches Err(code) ==> {
            let blocks = if system == System::Linux {
                code == 11
            } else {
                code == 10035
            };
            &&& blocks ==> attempt == Attempt::<(u64, SocketAddress)>::Wait(
                crate::driver::Interest { readable: true, writable: false },
            )
            &&& !blocks ==> attempt == Attempt::<(u64, SocketAddress)>::Ready(
                Err(
                    if system == System::Linux {
                        IoError::Os(code)
                    } else {
                        IoError::Windows(code)
                    },
                ),
            )
        },
{
}

/// A datagram that came by completion is reported with its own length and with the address that
/// its source's bytes stand for. A failure is passed on, and a datagram without its source fails.
pub proof fn law_datagram_is_completed(
    counted: Result<u32, IoError>,
    storage: Option<Vec<u8>>,
    system: System,
    result: Result<(u64, SocketAddress), IoError>,
    address: Result<SocketAddress, IoError>,
)
    requires
        call_ensures(poll_completion, (counted, storage, system), result),
        storage matches Some(bytes) ==> call_ensures(
            sockaddr_storage_to_socketaddr,
            (&bytes, system),
            address,
        ),
    ensures
        counted matches Err(err) ==> result == Err::<(u64, SocketAddress), IoError>(err),
        counted is Ok && storage is None ==> result == Err::<(u64, SocketAddress), IoError>(
            IoError::MissingSource,
        ),
        counted matches Ok(len) ==> storage is Some ==> match address {
            Ok(address) => result == Ok::<(u64, SocketAddress), IoError>((len as u64, address)),
            Err(err) => result == Err::<(u64, SocketAddress), IoError>(err),
        },
{
}

} // verus!
