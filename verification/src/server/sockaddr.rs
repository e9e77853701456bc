//! Addresses as the system takes and gives them, laid out as little-endian Linux
//! does: family, port, address, and for IPv6 flow and scope.

use vstd::prelude::*;
use crate::net::{IpAddress, SocketAddress};
use crate::wire::{
    be16, be32, be_bytes, be_value, le32_bytes, le_value, push_le32, push_u128, push_u16, push_u32,
    read_le32, read_u128, read_u16, read_u32,
};

verus! {

pub const IPV4_FAMILY: u8 = 2;
pub const IPV6_FAMILY: u8 = 10;
pub const IPV4_LENGTH: usize = 16;
pub const IPV6_LENGTH: usize = 28;

/// The bytes of an address.
pub open spec fn storage_spec(address: SocketAddress) -> Seq<u8> {
    match address.ip {
        IpAddress::V4(ip) => seq![IPV4_FAMILY, 0u8] + be_bytes(address.port as nat, 2) + be_bytes(
            ip as nat,
            4,
        ) + seq![0u8, 0, 0, 0, 0, 0, 0, 0],
        IpAddress::V6(ip) => seq![IPV6_FAMILY, 0u8] + be_bytes(address.port as nat, 2)
            + le32_bytes(address.flowinfo) + be_bytes(ip as nat, 16) + le32_bytes(
            address.scope_id,
        ),
    }
}

pub fn socket_addr_to_storage(address: SocketAddress) -> (r: Vec<u8>)
    ensures
        r@ == storage_spec(address),
{
    let mut out: Vec<u8> = Vec::new();
    match address.ip {
        IpAddress::V4(ip) => {
            out.push(IPV4_FAMILY);
            out.push(0);
            push_u16(&mut out, address.port);
            push_u32(&mut out, ip);
            let ghost head = out@;
            let mut i: usize = 0;
            while i < 8
                invariant
                    i <= 8,
                    out@ == head + Seq::new(i as nat, |k: int| 0u8),
                decreases 8 - i,
            {
                out.push(0);
                assert(out@ =~= head + Seq::new((i + 1) as nat, |k: int| 0u8));
                i = i + 1;
            }
        },
        IpAddress::V6(ip) => {
            out.push(IPV6_FAMILY);
            out.push(0);
            push_u16(&mut out, address.port);
            push_le32(&mut out, address.flowinfo);
            push_u128(&mut out, ip);
            push_le32(&mut out, address.scope_id);
        },
    }
    assert(out@ =~= storage_spec(address));
    out
}

/// The address that bytes stand for, if as many count as one of its family has.
pub open spec fn address_spec(storage: Seq<u8>, length: nat) -> Option<SocketAddress> {
    if storage[1] != 0 {
        None
    } else if storage[0] == IPV4_FAMILY && length >= IPV4_LENGTH {
        Some(SocketAddress::plain(IpAddress::V4(be32(storage, 4) as u32), be16(storage, 2) as u16))
    } else if storage[0] == IPV6_FAMILY && length >= IPV6_LENGTH {
        Some(
            SocketAddress {
                ip: IpAddress::V6(be_value(storage.subrange(8, 24)) as u128),
                port: be16(storage, 2) as u16,
                flowinfo: le_value(storage.subrange(4, 8)) as u32,
                scope_id: le_value(storage.subrange(24, 28)) as u32,
            },
        )
    } else {
        None
    }
}

/// Reads an address from the room that the system writes addresses to.
pub fn storage_to_socket_addr(storage: &[u8], length: usize) -> (r: Option<SocketAddress>)
    requires
        storage@.len() >= IPV6_LENGTH,
    ensures
        r == address_spec(storage@, length as nat),
{
    if storage[1] != 0 {
        return None;
    }
    if storage[0] == IPV4_FAMILY && length >= IPV4_LENGTH {
        let ip: u32 = read_u32(storage, 4);
        let port: u16 = read_u16(storage, 2);
        return Some(SocketAddress::new(IpAddress::V4(ip), port));
    }
    if storage[0] == IPV6_FAMILY && length >= IPV6_LENGTH {
        let ip: u128 = read_u128(storage, 8);
        let port: u16 = read_u16(storage, 2);
        let flowinfo: u32 = read_le32(storage, 4);
        let scope_id: u32 = read_le32(storage, 24);
        return Some(SocketAddress { ip: IpAddress::V6(ip), port, flowinfo, scope_id });
    }
    None
}

/// An address that was handed to the system and given back is the same.
pub proof fn law_storage_round_trip(address: SocketAddress, rest: Seq<u8>)
    requires
        rest.len() >= IPV6_LENGTH,
        address.ip is V4 ==> address.flowinfo == 0 && address.scope_id == 0,
    ensures
        address_spec(storage_spec(address) + rest, storage_spec(address).len()) == Some(address),
{
    let storage = storage_spec(address) + rest;
    crate::wire::lemma_range_values();
    crate::wire::law_be_round_trip(address.port as nat, 2);
    match address.ip {
        IpAddress::V4(ip) => {
            crate::wire::law_be_round_trip(ip as nat, 4);
            assert(storage.subrange(2, 4) =~= be_bytes(address.port as nat, 2));
            assert(storage.subrange(4, 8) =~= be_bytes(ip as nat, 4));
        },
        IpAddress::V6(ip) => {
            crate::wire::law_be_round_trip(ip as nat, 16);
            crate::wire::law_le_round_trip(address.flowinfo);
            crate::wire::law_le_round_trip(address.scope_id);
            assert(storage.subrange(2, 4) =~= be_bytes(address.port as nat, 2));
            assert(storage.subrange(4, 8) =~= le32_bytes(address.flowinfo));
            assert(storage.subrange(8, 24) =~= be_bytes(ip as nat, 16));
            assert(storage.subrange(24, 28) =~= le32_bytes(address.scope_id));
        },
    }
}

} // verus!
