//! The classes that packets are scheduled in.

use vstd::prelude::*;
use crate::shared::flow_frame::{law_frame_round_trip, payload, payload_spec, FrameHeader};
use crate::shared::internet::{
    header_chain, ipv4_header_len, ipv6_transport, ipv6_transport_spec, is_extension, is_ipv4,
    is_ipv6, law_extension_headers_are_passed_over, lemma_chain_to,
};
use crate::wire::{be16, law_network_order, read_u16};

verus! {

pub const SMALL_PACKET_MAX: usize = 164;
pub const MEDIUM_PACKET_MAX: usize = 999;
pub const SMALL_STREAM_STRIPE_PACKET_CHUNK: usize = 4;
pub const MEDIUM_STREAM_STRIPE_PACKET_CHUNK: usize = 16;
pub const BULK_STREAM_STRIPE_PACKET_CHUNK: usize = 32;
pub const SMALL_DATAGRAM_BATCH: usize = 16;
pub const MEDIUM_DATAGRAM_BATCH: usize = 64;
pub const BULK_DATAGRAM_BATCH: usize = 128;

#[derive(Clone, Copy, Debug, PartialEq, Eq, Structural)]
pub enum PacketClass {
    Small,
    Medium,
    Bulk,
}

impl PacketClass {
    pub fn index(self) -> (r: usize)
        ensures
            r == match self {
                PacketClass::Small => 0usize,
                PacketClass::Medium => 1,
                PacketClass::Bulk => 2,
            },
    {
        match self {
            PacketClass::Small => 0,
            PacketClass::Medium => 1,
            PacketClass::Bulk => 2,
        }
    }

    pub fn stream_chunk(self) -> (r: usize)
        ensures
            r == match self {
                PacketClass::Small => SMALL_STREAM_STRIPE_PACKET_CHUNK,
                PacketClass::Medium => MEDIUM_STREAM_STRIPE_PACKET_CHUNK,
                PacketClass::Bulk => BULK_STREAM_STRIPE_PACKET_CHUNK,
            },
    {
        match self {
            PacketClass::Small => SMALL_STREAM_STRIPE_PACKET_CHUNK,
            PacketClass::Medium => MEDIUM_STREAM_STRIPE_PACKET_CHUNK,
            PacketClass::Bulk => BULK_STREAM_STRIPE_PACKET_CHUNK,
        }
    }

    pub open spec fn batch_spec(self) -> usize {
        match self {
            PacketClass::Small => SMALL_DATAGRAM_BATCH,
            PacketClass::Medium => MEDIUM_DATAGRAM_BATCH,
            PacketClass::Bulk => BULK_DATAGRAM_BATCH,
        }
    }

    pub fn datagram_batch(self) -> (r: usize)
        ensures
            r == self.batch_spec(),
    {
        match self {
            PacketClass::Small => SMALL_DATAGRAM_BATCH,
            PacketClass::Medium => MEDIUM_DATAGRAM_BATCH,
            PacketClass::Bulk => BULK_DATAGRAM_BATCH,
        }
    }
}

#[derive(Clone, Copy, Debug, PartialEq, Eq, Structural)]
pub struct DispatchTicket {
    pub start_slot: usize,
    pub class: PacketClass,
}

pub open spec fn size_class_spec(length: int) -> PacketClass {
    if length <= SMALL_PACKET_MAX {
        PacketClass::Small
    } else if length <= MEDIUM_PACKET_MAX {
        PacketClass::Medium
    } else {
        PacketClass::Bulk
    }
}

fn size_class(length: usize) -> (r: PacketClass)
    ensures
        r == size_class_spec(length as int),
{
    if length <= SMALL_PACKET_MAX {
        PacketClass::Small
    } else if length <= MEDIUM_PACKET_MAX {
        PacketClass::Medium
    } else {
        PacketClass::Bulk
    }
}

/// The transport protocol of an internet packet and where its header begins.
pub open spec fn internet_transport_spec(packet: Seq<u8>) -> Option<(u8, int)> {
    if is_ipv4(packet) {
        Some((packet[9], ipv4_header_len(packet)))
    } else if is_ipv6(packet) {
        ipv6_transport_spec(packet)
    } else {
        None
    }
}

fn internet_transport(packet: &[u8]) -> (r: Option<(u8, usize)>)
    ensures
        match r {
            Some((protocol, offset)) => internet_transport_spec(packet@) == Some(
                (protocol, offset as int),
            ) && offset <= packet.len(),
            None => internet_transport_spec(packet@) is None,
        },
{
    if packet.len() == 0 {
        return None;
    }
    let version: u8 = packet[0] / 16;
    if version == 4 {
        let header_len: usize = (packet[0] % 16) as usize * 4;
        if header_len >= 20 && packet.len() >= header_len {
            Some((packet[9], header_len))
        } else {
            None
        }
    } else if version == 6 && packet.len() >= 40 {
        ipv6_transport(packet)
    } else {
        None
    }
}

/// One of the ports of a TCP or UDP header is that of DNS.
pub open spec fn dns_spec(packet: Seq<u8>, transport: u8, offset: int) -> bool {
    &&& transport == 6 || transport == 17
    &&& offset + 4 <= packet.len()
    &&& be16(packet, offset) == 53 || be16(packet, offset + 2) == 53
}

fn is_dns(packet: &[u8], transport: u8, offset: usize) -> (r: bool)
    requires
        offset <= packet.len(),
    ensures
        r == dns_spec(packet@, transport, offset as int),
{
    if transport != 6 && transport != 17 {
        return false;
    }
    if packet.len() - offset < 4 {
        return false;
    }
    read_u16(packet, offset) == 53 || read_u16(packet, offset + 2) == 53
}

/// A TCP segment that opens or ends a connection, or only acknowledges.
pub open spec fn tcp_control_spec(packet: Seq<u8>, offset: int) -> bool {
    &&& offset + 14 <= packet.len()
    &&& {
        let flags = packet[offset + 13];
        let header_len = packet[offset + 12] / 16 * 4;
        ||| flags % 8 != 0
        ||| flags / 16 % 2 == 1 && header_len >= 20 && packet.len() <= offset + header_len
    }
}

fn is_tcp_control(packet: &[u8], offset: usize) -> (r: bool)
    requires
        offset <= packet.len(),
    ensures
        r == tcp_control_spec(packet@, offset as int),
{
    if packet.len() - offset < 14 {
        return false;
    }
    let flags: u8 = packet[offset + 13];
    if flags % 8 != 0 {
        return true;
    }
    if flags / 16 % 2 == 0 {
        return false;
    }
    let header_len: usize = (packet[offset + 12] / 16) as usize * 4;
    header_len >= 20 && packet.len() - offset <= header_len
}

/// The class of a packet: ICMP, DNS and TCP control are small whatever their
/// size, all else goes by size.
pub open spec fn packet_class_spec(packet: Seq<u8>) -> PacketClass {
    let inner = payload_spec(packet);
    match internet_transport_spec(inner) {
        None => size_class_spec(inner.len() as int),
        Some((transport, offset)) => if transport == 1 || transport == 58 || dns_spec(
            inner,
            transport,
            offset,
        ) || (transport == 6 && tcp_control_spec(inner, offset)) {
            PacketClass::Small
        } else {
            size_class_spec(inner.len() as int)
        },
    }
}

pub fn packet_class(packet: &[u8]) -> (r: PacketClass)
    ensures
        r == packet_class_spec(packet@),
{
    let packet = payload(packet);
    match internet_transport(packet) {
        None => size_class(packet.len()),
        Some((transport, offset)) => {
            if transport == 1 || transport == 58 || is_dns(packet, transport, offset) {
                return PacketClass::Small;
            }
            if transport == 6 && is_tcp_control(packet, offset) {
                return PacketClass::Small;
            }
            size_class(packet.len())
        },
    }
}

// ---------------------------------------------------------------------------
// What the classes are for
// ---------------------------------------------------------------------------

/// An IPv4 packet, or an IPv6 packet with so many headers before it, carries a
/// transport that begins at an offset.
pub open spec fn carries(packet: Seq<u8>, chain: Seq<(u8, int)>, protocol: u8, at: int) -> bool {
    ||| {
        &&& packet.len() > 0
        &&& packet[0] / 16 == 4
        &&& at == packet[0] % 16 * 4
        &&& 20 <= at <= packet.len()
        &&& packet[9] == protocol
    }
    ||| {
        &&& packet.len() >= 40
        &&& packet[0] / 16 == 6
        &&& header_chain(packet, chain)
        &&& chain.len() <= 9
        &&& chain.last() == (protocol, at)
        &&& !is_extension(protocol)
    }
}

/// Up to 164 bytes are small and up to 999 are medium.
pub open spec fn goes_by_length(packet: Seq<u8>, class: PacketClass) -> bool {
    &&& (class == PacketClass::Small) == (packet.len() <= 164)
    &&& (class == PacketClass::Medium) == (164 < packet.len() <= 999)
    &&& (class == PacketClass::Bulk) == (packet.len() > 999)
}

/// The ports of a transport are not those of DNS.
pub open spec fn no_dns_port(packet: Seq<u8>, at: int) -> bool {
    &&& packet[at] * 256 + packet[at + 1] != 53
    &&& packet[at + 2] * 256 + packet[at + 3] != 53
}

pub proof fn lemma_carried(packet: Seq<u8>, chain: Seq<(u8, int)>, protocol: u8, at: int)
    requires
        carries(packet, chain, protocol, at),
    ensures
        payload_spec(packet) == packet,
        internet_transport_spec(packet) == Some((protocol, at)),
        20 <= at <= packet.len(),
{
    if packet.len() >= 2 {
        law_network_order(packet, 0);
    }
    if packet[0] / 16 == 6 {
        law_extension_headers_are_passed_over(packet, chain);
        lemma_chain_to(packet, chain, chain.len() - 1);
    }
}

/// A TCP segment that carries data, and neither opens nor ends a connection, is
/// as urgent as its packet is short: only its length counts.
pub proof fn law_tcp_data_goes_by_length(packet: Seq<u8>, chain: Seq<(u8, int)>, at: int)
    requires
        carries(packet, chain, 6, at),
        at + 14 <= packet.len(),
        no_dns_port(packet, at),
        packet[at + 13] % 8 == 0,
        packet.len() > at + packet[at + 12] / 16 * 4,
    ensures
        goes_by_length(packet, packet_class_spec(packet)),
{
    lemma_carried(packet, chain, 6, at);
    law_network_order(packet, at);
    law_network_order(packet, at + 2);
}

/// A TCP segment that opens or ends a connection is small, and so is one that
/// acknowledges and carries nothing.
pub proof fn law_tcp_control_is_small(packet: Seq<u8>, chain: Seq<(u8, int)>, at: int)
    requires
        carries(packet, chain, 6, at),
        at + 14 <= packet.len(),
        packet[at + 13] % 8 != 0 || (packet[at + 13] / 16 % 2 == 1 && packet[at + 12] / 16 >= 5
            && packet.len() == at + packet[at + 12] / 16 * 4),
    ensures
        packet_class_spec(packet) == PacketClass::Small,
{
    lemma_carried(packet, chain, 6, at);
}

/// Neither an acknowledgement flag nor data: a segment without any of the flags
/// of control goes by its length.
pub proof fn law_tcp_without_flags_goes_by_length(
    packet: Seq<u8>,
    chain: Seq<(u8, int)>,
    at: int,
)
    requires
        carries(packet, chain, 6, at),
        at + 14 <= packet.len(),
        no_dns_port(packet, at),
        packet[at + 13] % 8 == 0,
        packet[at + 13] / 16 % 2 == 0,
    ensures
        goes_by_length(packet, packet_class_spec(packet)),
{
    lemma_carried(packet, chain, 6, at);
    law_network_order(packet, at);
    law_network_order(packet, at + 2);
}

/// Questions and answers of DNS are small, whichever of the ports is theirs, and
/// so are the messages of ICMP in either version.
pub proof fn law_dns_and_icmp_are_small(
    packet: Seq<u8>,
    chain: Seq<(u8, int)>,
    protocol: u8,
    at: int,
)
    requires
        carries(packet, chain, protocol, at),
        protocol == 1 || protocol == 58 || ((protocol == 6 || protocol == 17) && at + 4
            <= packet.len() && !no_dns_port(packet, at)),
    ensures
        packet_class_spec(packet) == PacketClass::Small,
{
    lemma_carried(packet, chain, protocol, at);
    if at + 4 <= packet.len() {
        law_network_order(packet, at);
        law_network_order(packet, at + 2);
    }
}

/// Datagrams that are not of DNS, and transports that are none of TCP, UDP and
/// ICMP, go by their length.
pub proof fn law_other_transports_go_by_length(
    packet: Seq<u8>,
    chain: Seq<(u8, int)>,
    protocol: u8,
    at: int,
)
    requires
        carries(packet, chain, protocol, at),
        protocol != 1 && protocol != 58 && protocol != 6,
        protocol == 17 && at + 4 <= packet.len() ==> no_dns_port(packet, at),
    ensures
        goes_by_length(packet, packet_class_spec(packet)),
{
    lemma_carried(packet, chain, protocol, at);
    if at + 4 <= packet.len() {
        law_network_order(packet, at);
        law_network_order(packet, at + 2);
    }
}

/// What is no internet packet goes by its length, and so does an IPv6 packet
/// whose transport is hidden.
pub proof fn law_unknown_packets_go_by_length(packet: Seq<u8>)
    requires
        packet.len() < 2 || packet[0] != 0xc5 || packet[1] != 0x46,
        packet.len() == 0 || ({
            ||| packet[0] / 16 != 4 && packet[0] / 16 != 6
            ||| packet[0] / 16 == 4 && (packet[0] % 16 < 5 || packet.len() < packet[0] % 16 * 4)
            ||| packet[0] / 16 == 6 && (packet.len() < 40 || ipv6_transport_spec(packet) is None)
        }),
    ensures
        goes_by_length(packet, packet_class_spec(packet)),
{
    if packet.len() >= 2 {
        law_network_order(packet, 0);
    }
}

/// A frame does not change the class of the packet in it.
pub proof fn law_frame_keeps_the_class(header: FrameHeader, packet: Seq<u8>)
    requires
        packet.len() < 2 || packet[0] != 0xc5 || packet[1] != 0x46,
    ensures
        packet_class_spec(header.bytes() + packet) == packet_class_spec(packet),
{
    law_frame_round_trip(header, packet);
    if packet.len() >= 2 {
        law_network_order(packet, 0);
    }
}

} // verus!
