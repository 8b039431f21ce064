//! Internet socket addresses, and the bytes that the system calls exchange.
//!
//! Ports and addresses stand in these bytes with the high byte first. The family, the flow label
//! and the scope stand in the order of the machine, which has the low byte first.

use crate::error::{IoError, System};
use vstd::arithmetic::power::pow;
use vstd::prelude::*;

verus! {

/// The family of IPv4 addresses.
pub const AF_INET: i32 = 2;

/// The family of IPv6 addresses on Linux.
pub const AF_INET6: i32 = 10;

/// The family of IPv6 addresses on Windows.
pub const WINDOWS_AF_INET6: i32 = 23;

/// How many bytes the system sets aside for an address of any family.
pub const STORAGE_LEN: usize = 128;

/// How many bytes an IPv4 address takes.
pub const INET_LEN: u32 = 16;

/// How many bytes an IPv6 address takes.
pub const INET6_LEN: u32 = 28;

/// An Internet socket address. The high byte of `ip4` or `ip6` is the first of the
/// address.
#[derive(Clone, Copy, Debug, PartialEq, Eq, Structural)]
pub enum SocketAddress {
    V4 { ip4: u32, port: u16 },
    V6 { ip6: u128, port: u16, flowinfo: u32, scope_id: u32 },
}

/// A socket address as the system takes it.
#[derive(Debug)]
pub struct RawAddress {
    /// The family.
    pub family: i32,
    /// The bytes, filled up with zeros.
    pub storage: Vec<u8>,
    /// How many of the bytes count.
    pub len: u32,
}

/// The lowest `len` bytes of a number, high byte first.
pub open spec fn be_bytes(value: nat, len: nat) -> Seq<u8>
    decreases len,
{
    if len == 0 {
        Seq::empty()
    } else {
        be_bytes(value / 256, (len - 1) as nat).push((value % 256) as u8)
    }
}

/// The number that bytes spell, high byte first.
pub open spec fn be_value(bytes: Seq<u8>) -> nat
    decreases bytes.len(),
{
    if bytes.len() == 0 {
        0
    } else {
        be_value(bytes.drop_last()) * 256 + bytes.last() as nat
    }
}

/// The lowest `len` bytes of a number, low byte first.
pub open spec fn le_bytes(value: nat, len: nat) -> Seq<u8> {
    be_bytes(value, len).reverse()
}

/// The number that bytes spell, low byte first.
pub open spec fn le_value(bytes: Seq<u8>) -> nat {
    be_value(bytes.reverse())
}

/// So many zeros.
pub open spec fn zeros(len: int) -> Seq<u8> {
    Seq::new(len as nat, |i: int| 0u8)
}

/// The family of IPv6 addresses on a system.
pub open spec fn inet6_family(system: System) -> i32 {
    match system {
        System::Linux => AF_INET6,
        System::Windows => WINDOWS_AF_INET6,
    }
}

/// The family of IPv6 addresses on a system.
fn inet6_family_of(system: System) -> (family: i32)
    ensures
        family == inet6_family(system),
{
    match system {
        System::Linux => AF_INET6,
        System::Windows => WINDOWS_AF_INET6,
    }
}

impl SocketAddress {
    /// The family of the address.
    pub open spec fn family(self, system: System) -> i32 {
        match self {
            SocketAddress::V4 { .. } => AF_INET,
            SocketAddress::V6 { .. } => inet6_family(system),
        }
    }

    /// The bytes of the address that count.
    pub open spec fn bytes(self, system: System) -> Seq<u8> {
        match self {
            SocketAddress::V4 { ip4, port } => le_bytes(2, 2) + be_bytes(port as nat, 2) + be_bytes(
                ip4 as nat,
                4,
            ) + zeros(8),
            SocketAddress::V6 { ip6, port, flowinfo, scope_id } => le_bytes(
                inet6_family(system) as nat,
                2,
            ) + be_bytes(
                port as nat,
                2,
            ) + le_bytes(flowinfo as nat, 4) + be_bytes(ip6 as nat, 16) + le_bytes(
                scope_id as nat,
                4,
            ),
        }
    }

    /// All bytes of the address.
    pub open spec fn storage(self, system: System) -> Seq<u8> {
        self.bytes(system) + zeros(STORAGE_LEN - self.bytes(system).len())
    }
}

/// The address that the system's bytes stand for.
pub open spec fn stored_address(storage: Seq<u8>, system: System) -> Result<
    SocketAddress,
    IoError,
> {
    let family = le_value(storage.subrange(0, 2));
    if family == 2 {
        Ok(
            SocketAddress::V4 {
                port: be_value(storage.subrange(2, 4)) as u16,
                ip4: be_value(storage.subrange(4, 8)) as u32,
            },
        )
    } else if family == inet6_family(system) {
        Ok(
            SocketAddress::V6 {
                port: be_value(storage.subrange(2, 4)) as u16,
                flowinfo: le_value(storage.subrange(4, 8)) as u32,
                ip6: be_value(storage.subrange(8, 24)) as u128,
                scope_id: le_value(storage.subrange(24, 28)) as u32,
            },
        )
    } else {
        Err(IoError::UnsupportedFamily)
    }
}

/// The bytes of an address, as the system takes them.
pub fn socket_addr_to_raw(address: SocketAddress, system: System) -> (raw: RawAddress)
    ensures
        raw.family == address.family(system),
        raw.storage@ == address.storage(system),
        raw.storage@.len() == STORAGE_LEN,
        raw.len == address.bytes(system).len(),
        raw.len == (match address {
            SocketAddress::V4 { .. } => INET_LEN,
            SocketAddress::V6 { .. } => INET6_LEN,
        }),
{
    let mut storage: Vec<u8> = Vec::with_capacity(STORAGE_LEN);
    proof {
        lemma_bytes_len(address, system);
    }
    match address {
        SocketAddress::V4 { ip4, port } => {
            append_le(&mut storage, 2, 2);
            append_be(&mut storage, port as u128, 2);
            append_be(&mut storage, ip4 as u128, 4);
            append_zeros(&mut storage, 8);
            assert(storage@ =~= address.bytes(system));
            append_zeros(&mut storage, 112);
            assert(storage@ =~= address.storage(system));
            RawAddress { family: AF_INET, storage, len: INET_LEN }
        },
        SocketAddress::V6 { ip6, port, flowinfo, scope_id } => {
            let family = inet6_family_of(system);
            append_le(&mut storage, family as u128, 2);
            append_be(&mut storage, port as u128, 2);
            append_le(&mut storage, flowinfo as u128, 4);
            append_be(&mut storage, ip6, 16);
            append_le(&mut storage, scope_id as u128, 4);
            assert(storage@ =~= address.bytes(system));
            append_zeros(&mut storage, 100);
            assert(storage@ =~= address.storage(system));
            RawAddress { family, storage, len: INET6_LEN }
        },
    }
}

/// The address that the system's bytes stand for.
pub fn sockaddr_storage_to_socketaddr(storage: &Vec<u8>, system: System) -> (address: Result<
    SocketAddress,
    IoError,
>)
    requires
        storage@.len() == STORAGE_LEN,
    ensures
        address == stored_address(storage@, system),
{
    let family = read_le(storage, 0, 2);
    if family == 2 {
        let port = read_be(storage, 2, 2) as u16;
        let ip4 = read_be(storage, 4, 4) as u32;
        Ok(SocketAddress::V4 { ip4, port })
    } else if family == inet6_family_of(system) as u128 {
        let port = read_be(storage, 2, 2) as u16;
        let flowinfo = read_le(storage, 4, 4) as u32;
        let ip6 = read_be(storage, 8, 16);
        let scope_id = read_le(storage, 24, 4) as u32;
        Ok(SocketAddress::V6 { ip6, port, flowinfo, scope_id })
    } else {
        Err(IoError::UnsupportedFamily)
    }
}

/// Appends the lowest `len` bytes of a number, high byte first.
fn append_be(bytes: &mut Vec<u8>, value: u128, len: usize)
    ensures
        final(bytes)@ == old(bytes)@ + be_bytes(value as nat, len as nat),
    decreases len,
{
    if len > 0 {
        append_be(bytes, value / 256, len - 1);
        bytes.push((value % 256) as u8);
    }
    assert(bytes@ =~= old(bytes)@ + be_bytes(value as nat, len as nat));
}

/// Appends the lowest `len` bytes of a number, low byte first.
fn append_le(bytes: &mut Vec<u8>, value: u128, len: usize)
    ensures
        final(bytes)@ == old(bytes)@ + le_bytes(value as nat, len as nat),
    decreases len,
{
    proof {
        lemma_be_bytes_len(value as nat, len as nat);
        if len > 0 {
            lemma_be_bytes_len((value / 256) as nat, (len - 1) as nat);
        }
    }
    if len > 0 {
        bytes.push((value % 256) as u8);
        append_le(bytes, value / 256, len - 1);
    }
    assert(bytes@ =~= old(bytes)@ + le_bytes(value as nat, len as nat));
}

/// Appends so many zeros.
fn append_zeros(bytes: &mut Vec<u8>, len: usize)
    ensures
        final(bytes)@ == old(bytes)@ + zeros(len as int),
    decreases len,
{
    if len > 0 {
        append_zeros(bytes, len - 1);
        bytes.push(0);
    }
    assert(bytes@ =~= old(bytes)@ + zeros(len as int));
}

/// The number that `len` bytes from `from` on spell, high byte first.
fn read_be(bytes: &Vec<u8>, from: usize, len: usize) -> (value: u128)
    requires
        from + len <= bytes.len(),
        len <= 16,
    ensures
        value == be_value(bytes@.subrange(from as int, from + len)),
        value < power(len as nat),
    decreases len,
{
    if len == 0 {
        return 0;
    }
    let high = read_be(bytes, from, len - 1);
    let low = bytes[from + len - 1];
    let ghost all = bytes@.subrange(from as int, from + len);
    assert(all.drop_last() =~= bytes@.subrange(from as int, from + len - 1));
    assert(all.last() == low);
    proof {
        lemma_power_mono(len as nat, 16);
        lemma_power_16();
    }
    high * 256 + low as u128
}

/// The number that `len` bytes from `from` on spell, low byte first.
fn read_le(bytes: &Vec<u8>, from: usize, len: usize) -> (value: u128)
    requires
        from + len <= bytes.len(),
        len <= 16,
    ensures
        value == le_value(bytes@.subrange(from as int, from + len)),
        value < power(len as nat),
    decreases len,
{
    let ghost all = bytes@.subrange(from as int, from + len);
    if len == 0 {
        assert(all.reverse() =~= Seq::<u8>::empty());
        return 0;
    }
    let high = read_le(bytes, from + 1, len - 1);
    let low = bytes[from];
    assert(all.reverse().drop_last() =~= bytes@.subrange(from + 1, from + len).reverse());
    assert(all.reverse().last() == low);
    proof {
        lemma_power_mono(len as nat, 16);
        lemma_power_16();
    }
    high * 256 + low as u128
}

/// How many numbers so many bytes can spell.
pub open spec fn power(len: nat) -> nat
    decreases len,
{
    if len == 0 {
        1
    } else {
        256 * power((len - 1) as nat)
    }
}

proof fn lemma_power_mono(len: nat, more: nat)
    requires
        len <= more,
    ensures
        0 < power(len) <= power(more),
    decreases more,
{
    if len < more {
        lemma_power_mono(len, (more - 1) as nat);
    } else if len > 0 {
        lemma_power_mono((len - 1) as nat, (len - 1) as nat);
    }
}

proof fn lemma_power_16()
    ensures
        power(16) == 0x1_0000_0000_0000_0000_0000_0000_0000_0000,
        power(4) == 0x1_0000_0000,
        power(2) == 0x1_0000,
{
    reveal_with_fuel(power, 17);
}

proof fn lemma_be_bytes_len(value: nat, len: nat)
    ensures
        be_bytes(value, len).len() == len,
    decreases len,
{
    if len > 0 {
        lemma_be_bytes_len(value / 256, (len - 1) as nat);
    }
}

/// Reading what was written gives back the number.
proof fn lemma_be_round_trip(value: nat, len: nat)
    requires
        value < power(len),
    ensures
        be_bytes(value, len).len() == len,
        be_value(be_bytes(value, len)) == value,
    decreases len,
{
    if len > 0 {
        lemma_be_round_trip(value / 256, (len - 1) as nat);
        let bytes = be_bytes(value, len);
        assert(bytes.drop_last() =~= be_bytes(value / 256, (len - 1) as nat));
    }
}

/// Reading what was written gives back the number.
proof fn lemma_le_round_trip(value: nat, len: nat)
    requires
        value < power(len),
    ensures
        le_bytes(value, len).len() == len,
        le_value(le_bytes(value, len)) == value,
{
    lemma_be_round_trip(value, len);
    assert(le_bytes(value, len).reverse() =~= be_bytes(value, len));
}

proof fn lemma_bytes_len(address: SocketAddress, system: System)
    ensures
        address.bytes(system).len() == (match address {
            SocketAddress::V4 { .. } => INET_LEN,
            SocketAddress::V6 { .. } => INET6_LEN,
        }),
{
    lemma_be_bytes_len(2, 2);
    lemma_be_bytes_len(inet6_family(system) as nat, 2);
    match address {
        SocketAddress::V4 { ip4, port } => {
            lemma_be_bytes_len(port as nat, 2);
            lemma_be_bytes_len(ip4 as nat, 4);
        },
        SocketAddress::V6 { ip6, port, flowinfo, scope_id } => {
            lemma_be_bytes_len(port as nat, 2);
            lemma_be_bytes_len(flowinfo as nat, 4);
            lemma_be_bytes_len(ip6 as nat, 16);
            lemma_be_bytes_len(scope_id as nat, 4);
        },
    }
}

/// The system's bytes of an address stand for that address.
pub proof fn law_address_round_trip(address: SocketAddress, system: System)
    ensures
        stored_address(address.storage(system), system) == Ok::<SocketAddress, IoError>(address),
        address.storage(system).len() == STORAGE_LEN,
{
    lemma_power_16();
    lemma_bytes_len(address, system);
    lemma_le_round_trip(2, 2);
    lemma_le_round_trip(inet6_family(system) as nat, 2);
    let storage = address.storage(system);
    match address {
        SocketAddress::V4 { ip4, port } => {
            lemma_be_round_trip(port as nat, 2);
            lemma_be_round_trip(ip4 as nat, 4);
            assert(storage.subrange(0, 2) =~= le_bytes(2, 2));
            assert(storage.subrange(2, 4) =~= be_bytes(port as nat, 2));
            assert(storage.subrange(4, 8) =~= be_bytes(ip4 as nat, 4));
        },
        SocketAddress::V6 { ip6, port, flowinfo, scope_id } => {
            lemma_be_round_trip(port as nat, 2);
            lemma_le_round_trip(flowinfo as nat, 4);
            lemma_be_round_trip(ip6 as nat, 16);
            lemma_le_round_trip(scope_id as nat, 4);
            assert(storage.subrange(0, 2) =~= le_bytes(inet6_family(system) as nat, 2));
            assert(storage.subrange(2, 4) =~= be_bytes(port as nat, 2));
            assert(storage.subrange(4, 8) =~= le_bytes(flowinfo as nat, 4));
            assert(storage.subrange(8, 24) =~= be_bytes(ip6 as nat, 16));
            assert(storage.subrange(24, 28) =~= le_bytes(scope_id as nat, 4));
        },
    }
}

/// Different addresses have different bytes.
pub proof fn law_addresses_are_told_apart(
    one: SocketAddress,
    other: SocketAddress,
    system: System,
)
    requires
        one.storage(system) == other.storage(system),
    ensures
        one == other,
{
    law_address_round_trip(one, system);
    law_address_round_trip(other, system);
}

/// The byte of a number that stands so many bytes above the lowest.
spec fn byte_of(value: int, above: int) -> int {
    (value / pow(256, above as nat)) % 256
}

/// Dropping the lowest byte moves the others down.
proof fn lemma_byte_above(value: int, above: int)
    requires
        value >= 0,
        above > 0,
    ensures
        byte_of(value, above) == byte_of(value / 256, above - 1),
        byte_of(value, 0) == value % 256,
{
    reveal(pow);
    let rest = pow(256, (above - 1) as nat);
    vstd::arithmetic::power::lemma_pow_positive(256, (above - 1) as nat);
    vstd::arithmetic::div_mod::lemma_div_denominator(value, 256, rest);
    assert(pow(256, above as nat) == 256 * rest);
    assert(pow(256, 0) == 1);
}

/// Each byte that is written is the byte of the number at its place.
proof fn lemma_be_bytes_are_bytes(value: nat, len: nat)
    ensures
        be_bytes(value, len).len() == len,
        forall|i: int|
            0 <= i < len ==> #[trigger] be_bytes(value, len)[i] == byte_of(
                value as int,
                len - 1 - i,
            ),
    decreases len,
{
    if len > 0 {
        lemma_be_bytes_are_bytes(value / 256, (len - 1) as nat);
        assert forall|i: int| 0 <= i < len implies #[trigger] be_bytes(value, len)[i] == byte_of(
            value as int,
            len - 1 - i,
        ) by {
            lemma_byte_above(value as int, 1);
            if i < len - 1 {
                lemma_byte_above(value as int, len - 1 - i);
                assert(be_bytes(value, len)[i] == be_bytes(value / 256, (len - 1) as nat)[i]);
            }
        }
    }
}

/// Each byte that is written is the byte of the number at its place, low byte first.
proof fn lemma_le_bytes_are_bytes(value: nat, len: nat)
    ensures
        le_bytes(value, len).len() == len,
        forall|i: int|
            0 <= i < len ==> #[trigger] le_bytes(value, len)[i] == byte_of(value as int, i),
{
    lemma_be_bytes_are_bytes(value, len);
    assert forall|i: int| 0 <= i < len implies #[trigger] le_bytes(value, len)[i] == byte_of(
        value as int,
        i,
    ) by {
        assert(be_bytes(value, len)[len - 1 - i] == byte_of(value as int, i));
    }
}

/// Each byte of the number that is read is the byte at its place.
proof fn lemma_be_value_has_bytes(bytes: Seq<u8>)
    ensures
        be_value(bytes) < power(bytes.len()),
        forall|i: int|
            0 <= i < bytes.len() ==> byte_of(be_value(bytes) as int, bytes.len() - 1 - i)
                == #[trigger] bytes[i],
    decreases bytes.len(),
{
    if bytes.len() > 0 {
        let higher = bytes.drop_last();
        lemma_be_value_has_bytes(higher);
        let value = be_value(bytes) as int;
        assert(value / 256 == be_value(higher));
        assert forall|i: int| 0 <= i < bytes.len() implies byte_of(value, bytes.len() - 1 - i)
            == #[trigger] bytes[i] by {
            lemma_byte_above(value, 1);
            if i < bytes.len() - 1 {
                lemma_byte_above(value, bytes.len() - 1 - i);
                assert(higher[i] == bytes[i]);
            }
        }
    }
}

/// Each byte of the number that is read is the byte at its place, low byte first.
proof fn lemma_le_value_has_bytes(bytes: Seq<u8>)
    ensures
        le_value(bytes) < power(bytes.len()),
        forall|i: int|
            0 <= i < bytes.len() ==> byte_of(le_value(bytes) as int, i) == #[trigger] bytes[i],
{
    let reversed = bytes.reverse();
    lemma_be_value_has_bytes(reversed);
    assert forall|i: int| 0 <= i < bytes.len() implies byte_of(le_value(bytes) as int, i)
        == #[trigger] bytes[i] by {
        assert(reversed[bytes.len() - 1 - i] == bytes[i]);
    }
}

/// Where each byte of an address stands: the family in the first two bytes, low byte first, and
/// the port in the next two, high byte first. An IPv4 address follows at once, high byte first.
/// Before an IPv6 address, high byte first, stands the flow label, and behind it the scope, both
/// low byte first. All other bytes are zero.
pub proof fn law_address_layout(address: SocketAddress, system: System, raw: RawAddress)
    requires
        call_ensures(socket_addr_to_raw, (address, system), raw),
    ensures
        raw.storage@.len() == 128,
        match address {
            SocketAddress::V4 { ip4, port } => {
                &&& raw.family == 2
                &&& raw.len == 16
                &&& raw.storage@[0] == 2 && raw.storage@[1] == 0
                &&& raw.storage@[2] == port as int / 256 && raw.storage@[3] == port % 256
                &&& forall|i: int|
                    0 <= i < 4
                        ==> #[trigger] raw.storage@[4 + i]
                        == (ip4 as int / pow(256, (3 - i) as nat)) % 256
                &&& forall|i: int| 8 <= i < 128 ==> #[trigger] raw.storage@[i] == 0
            },
            SocketAddress::V6 { ip6, port, flowinfo, scope_id } => {
                &&& raw.family == (if system == System::Linux {
                    10i32
                } else {
                    23i32
                })
                &&& raw.len == 28
                &&& raw.storage@[0] == raw.family && raw.storage@[1] == 0
                &&& raw.storage@[2] == port as int / 256 && raw.storage@[3] == port % 256
                &&& forall|i: int|
                    0 <= i < 4
                        ==> #[trigger] raw.storage@[4 + i]
                        == (flowinfo as int / pow(256, (i) as nat)) % 256
                &&& forall|i: int|
                    0 <= i < 16
                        ==> #[trigger] raw.storage@[8 + i]
                        == (ip6 as int / pow(256, (15 - i) as nat)) % 256
                &&& forall|i: int|
                    0 <= i < 4
                        ==> #[trigger] raw.storage@[24 + i]
                        == (scope_id as int / pow(256, (i) as nat)) % 256
                &&& forall|i: int| 28 <= i < 128 ==> #[trigger] raw.storage@[i] == 0
            },
        },
{
    let storage = raw.storage@;
    let family = raw.family as nat;
    lemma_bytes_len(address, system);
    lemma_le_bytes_are_bytes(family, 2);
    lemma_byte_above(family as int, 1);
    lemma_byte_above(family as int / 256, 1);
    assert(storage[0] == le_bytes(family, 2)[0]);
    assert(storage[1] == le_bytes(family, 2)[1]);
    match address {
        SocketAddress::V4 { ip4, port } => {
            lemma_port_layout(port);
            lemma_be_bytes_are_bytes(ip4 as nat, 4);
            assert(storage[2] == be_bytes(port as nat, 2)[0]);
            assert(storage[3] == be_bytes(port as nat, 2)[1]);
            assert forall|i: int| 0 <= i < 4 implies #[trigger] storage[4 + i] == byte_of(
                ip4 as int,
                3 - i,
            ) by {
                assert(storage[4 + i] == be_bytes(ip4 as nat, 4)[i]);
            }
        },
        SocketAddress::V6 { ip6, port, flowinfo, scope_id } => {
            lemma_port_layout(port);
            lemma_le_bytes_are_bytes(flowinfo as nat, 4);
            lemma_be_bytes_are_bytes(ip6 as nat, 16);
            lemma_le_bytes_are_bytes(scope_id as nat, 4);
            assert(storage[2] == be_bytes(port as nat, 2)[0]);
            assert(storage[3] == be_bytes(port as nat, 2)[1]);
            assert forall|i: int| 0 <= i < 4 implies #[trigger] storage[4 + i] == byte_of(
                flowinfo as int,
                i,
            ) by {
                assert(storage[4 + i] == le_bytes(flowinfo as nat, 4)[i]);
            }
            assert forall|i: int| 0 <= i < 16 implies #[trigger] storage[8 + i] == byte_of(
                ip6 as int,
                15 - i,
            ) by {
                assert(storage[8 + i] == be_bytes(ip6 as nat, 16)[i]);
            }
            assert forall|i: int| 0 <= i < 4 implies #[trigger] storage[24 + i] == byte_of(
                scope_id as int,
                i,
            ) by {
                assert(storage[24 + i] == le_bytes(scope_id as nat, 4)[i]);
            }
        },
    }
}

/// The two bytes of a port.
proof fn lemma_port_layout(port: u16)
    ensures
        be_bytes(port as nat, 2).len() == 2,
        be_bytes(port as nat, 2)[0] == port as int / 256,
        be_bytes(port as nat, 2)[1] == port % 256,
{
    lemma_be_bytes_are_bytes(port as nat, 2);
    lemma_byte_above(port as int, 1);
    lemma_byte_above(port as int / 256, 1);
}

/// What the system's bytes stand for, byte by byte: the family decides, a port is read high byte
/// first, an address too, and the flow label and the scope low byte first. Any other family is
/// refused.
pub proof fn law_stored_bytes_are_read(
    storage: Vec<u8>,
    system: System,
    address: Result<SocketAddress, IoError>,
)
    requires
        storage@.len() == 128,
        call_ensures(sockaddr_storage_to_socketaddr, (&storage, system), address),
    ensures
        ({
            let family = storage@[0] + 256 * storage@[1];
            let v6 = if system == System::Linux {
                10int
            } else {
                23int
            };
            &&& address is Err <==> family != 2 && family != v6
            &&& address matches Err(err) ==> err == IoError::UnsupportedFamily
            &&& address matches Ok(SocketAddress::V4 { ip4, port }) ==> {
                &&& family == 2
                &&& port == 256 * storage@[2] + storage@[3]
                &&& forall|i: int|
                    0 <= i < 4
                        ==> (ip4 as int / pow(256, (3 - i) as nat)) % 256
                        == #[trigger] storage@[4 + i]
            }
            &&& address matches Ok(SocketAddress::V6 { ip6, port, flowinfo, scope_id }) ==> {
                &&& family == v6
                &&& port == 256 * storage@[2] + storage@[3]
                &&& forall|i: int|
                    0 <= i < 4
                        ==> (flowinfo as int / pow(256, (i) as nat)) % 256
                        == #[trigger] storage@[4 + i]
                &&& forall|i: int|
                    0 <= i < 16
                        ==> (ip6 as int / pow(256, (15 - i) as nat)) % 256
                        == #[trigger] storage@[8 + i]
                &&& forall|i: int|
                    0 <= i < 4
                        ==> (scope_id as int / pow(256, (i) as nat)) % 256
                        == #[trigger] storage@[24 + i]
            }
        }),
{
    lemma_power_16();
    let bytes = storage@;
    reveal_with_fuel(be_value, 3);
    let first = bytes.subrange(0, 2).reverse();
    assert(first.drop_last().drop_last() =~= Seq::<u8>::empty());
    assert(first.last() == bytes[0] && first.drop_last().last() == bytes[1]);
    assert(le_value(bytes.subrange(0, 2)) == bytes[0] + 256 * bytes[1]);
    let second = bytes.subrange(2, 4);
    assert(second.drop_last().drop_last() =~= Seq::<u8>::empty());
    assert(second.last() == bytes[3] && second.drop_last().last() == bytes[2]);
    lemma_be_value_has_bytes(bytes.subrange(4, 8));
    lemma_le_value_has_bytes(bytes.subrange(4, 8));
    lemma_be_value_has_bytes(bytes.subrange(8, 24));
    lemma_le_value_has_bytes(bytes.subrange(24, 28));
    assert forall|i: int| 0 <= i < 4 implies #[trigger] bytes[4 + i] == bytes.subrange(4, 8)[i] by {
    }
    assert forall|i: int| 0 <= i < 16 implies #[trigger] bytes[8 + i] == bytes.subrange(
        8,
        24,
    )[i] by {}
    assert forall|i: int| 0 <= i < 4 implies #[trigger] bytes[24 + i] == bytes.subrange(
        24,
        28,
    )[i] by {}
}

} // verus!
