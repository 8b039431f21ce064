//! Socket addresses that are paths.

use crate::error::IoError;
use crate::fs::path::contains_nul;
use crate::net::addr;
use vstd::prelude::*;

verus! {

/// The family of path addresses.
pub const AF_UNIX: i32 = 1;

/// How many bytes the system sets aside for the path.
pub const PATH_LEN: usize = 108;

/// A path address as the system takes it.
#[derive(Debug)]
pub struct RawPathAddress {
    /// The family and the path, filled up with zeros.
    pub storage: Vec<u8>,
    /// How many of the bytes count: the family, the path, and the zero that ends it.
    pub len: u32,
}

/// What a path is refused with, if it is.
pub open spec fn path_refusal(path: Seq<u8>) -> Option<IoError> {
    if path.len() == 0 {
        Some(IoError::EmptySocketPath)
    } else if path.contains(0) {
        Some(IoError::SocketPathContainsNul)
    } else if path.len() >= PATH_LEN {
        Some(IoError::SocketPathTooLong)
    } else {
        None
    }
}

/// All bytes of a path address.
pub open spec fn path_storage(path: Seq<u8>) -> Seq<u8> {
    seq![1u8, 0u8] + path + addr::zeros(PATH_LEN - path.len())
}

/// The bytes of a path address, as the system takes them.
pub fn socket_addr_to_raw(path: &Vec<u8>) -> (raw: Result<RawPathAddress, IoError>)
    ensures
        match raw {
            Ok(raw) => path_refusal(path@) is None && raw.storage@ == path_storage(path@)
                && raw.len == 2 + path@.len() + 1,
            Err(err) => path_refusal(path@) == Some(err),
        },
{
    if path.len() == 0 {
        return Err(IoError::EmptySocketPath);
    }
    if contains_nul(path) {
        return Err(IoError::SocketPathContainsNul);
    }
    if path.len() >= PATH_LEN {
        return Err(IoError::SocketPathTooLong);
    }
    let mut storage: Vec<u8> = Vec::with_capacity(2 + PATH_LEN);
    storage.push(1);
    storage.push(0);
    let mut index: usize = 0;
    while index < PATH_LEN
        invariant
            index <= PATH_LEN,
            path@.len() < PATH_LEN,
            storage@.len() == 2 + index,
            forall|i: int| 0 <= i < 2 + index ==> storage@[i] == path_storage(path@)[i],
        decreases PATH_LEN - index,
    {
        if index < path.len() {
            storage.push(path[index]);
        } else {
            storage.push(0);
        }
        index = index + 1;
    }
    assert(storage@ =~= path_storage(path@));
    let len: u32 = 2 + path.len() as u32 + 1;
    Ok(RawPathAddress { storage, len })
}

/// A path can be read back from its bytes: it ends at the first zero after the family.
pub proof fn law_path_round_trip(path: Seq<u8>)
    requires
        path_refusal(path) is None,
    ensures
        path_storage(path).len() == 2 + PATH_LEN,
        path_storage(path).subrange(2, 2 + path.len() as int) == path,
        path_storage(path)[2 + path.len() as int] == 0,
        forall|i: int| 2 <= i < 2 + path.len() ==> #[trigger] path_storage(path)[i] != 0,
{
    let storage = path_storage(path);
    assert(storage.subrange(2, 2 + path.len() as int) =~= path);
    assert forall|i: int| 2 <= i < 2 + path.len() implies #[trigger] storage[i] != 0 by {
        assert(storage[i] == path[i - 2]);
        assert(path.contains(path[i - 2]));
    }
}

/// A path is taken just if it is not empty, holds no zero, and is shorter than 108 bytes; what is
/// wrong first is what is reported, in this order.
pub proof fn law_paths_that_fit_are_taken(
    path: Vec<u8>,
    raw: Result<RawPathAddress, IoError>,
)
    requires
        call_ensures(socket_addr_to_raw, (&path,), raw),
    ensures
        raw is Ok <==> 0 < path@.len() < 108 && !path@.contains(0),
        raw matches Err(err) ==> err == (if path@.len() == 0 {
            IoError::EmptySocketPath
        } else if path@.contains(0) {
            IoError::SocketPathContainsNul
        } else {
            IoError::SocketPathTooLong
        }),
{
}

/// Where each byte of a path address stands: the family 1 in two bytes, low byte first, then the
/// path, and zeros up to the end. What counts are the family, the path, and the zero behind it.
pub proof fn law_path_layout(path: Vec<u8>, raw: Result<RawPathAddress, IoError>)
    requires
        call_ensures(socket_addr_to_raw, (&path,), raw),
        raw is Ok,
    ensures
        raw->Ok_0.storage@.len() == 110,
        raw->Ok_0.storage@[0] == 1,
        raw->Ok_0.storage@[1] == 0,
        forall|i: int|
            0 <= i < path@.len() ==> #[trigger] raw->Ok_0.storage@[2 + i] == path@[i],
        forall|i: int| 2 + path@.len() <= i < 110 ==> #[trigger] raw->Ok_0.storage@[i] == 0,
        raw->Ok_0.len == path@.len() + 3,
{
}

} // verus!
