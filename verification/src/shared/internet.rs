//! Where the transport header of an internet packet begins.

use vstd::prelude::*;
use crate::wire::{be16, law_network_order, read_u16};

verus! {

/// The extension headers of an IPv6 packet, followed from an offset for at most
/// a number of steps: the transport protocol and where its header begins. None
/// where a header is cut short, or the packet is not the first fragment.
pub open spec fn walk_extensions(packet: Seq<u8>, protocol: u8, offset: int, steps: nat) -> Option<
    (u8, int),
>
    decreases steps,
{
    if steps == 0 {
        Some((protocol, offset))
    } else if protocol == 0 || protocol == 43 || protocol == 60 {
        if offset + 2 > packet.len() {
            None
        } else {
            let next = offset + (packet[offset + 1] + 1) * 8;
            if next > packet.len() {
                None
            } else {
                walk_extensions(packet, packet[offset], next, (steps - 1) as nat)
            }
        }
    } else if protocol == 44 {
        if offset + 8 > packet.len() || be16(packet, offset + 2) >= 8 {
            None
        } else {
            walk_extensions(packet, packet[offset], offset + 8, (steps - 1) as nat)
        }
    } else if protocol == 51 {
        if offset + 2 > packet.len() {
            None
        } else {
            let next = offset + (packet[offset + 1] + 2) * 4;
            if next > packet.len() {
                None
            } else {
                walk_extensions(packet, packet[offset], next, (steps - 1) as nat)
            }
        }
    } else {
        Some((protocol, offset))
    }
}

/// The transport of an IPv6 packet of at least forty bytes.
pub open spec fn ipv6_transport_spec(packet: Seq<u8>) -> Option<(u8, int)> {
    walk_extensions(packet, packet[6], 40, 8)
}

/// The transport of an IPv6 packet.
pub fn ipv6_transport(packet: &[u8]) -> (r: Option<(u8, usize)>)
    requires
        packet.len() >= 40,
    ensures
        match r {
            Some((protocol, offset)) => ipv6_transport_spec(packet@) == Some(
                (protocol, offset as int),
            ) && offset <= packet.len(),
            None => ipv6_transport_spec(packet@) is None,
        },
{
    let mut protocol: u8 = packet[6];
    let mut offset: usize = 40;
    let mut left: usize = 8;
    while left > 0
        invariant
            offset <= packet.len(),
            walk_extensions(packet@, protocol, offset as int, left as nat) == ipv6_transport_spec(
                packet@,
            ),
        decreases left,
    {
        let room: usize = packet.len() - offset;
        if protocol == 0 || protocol == 43 || protocol == 60 {
            if room < 2 {
                return None;
            }
            let step: usize = (packet[offset + 1] as usize + 1) * 8;
            if step > room {
                return None;
            }
            protocol = packet[offset];
            offset = offset + step;
        } else if protocol == 44 {
            if room < 8 {
                return None;
            }
            if read_u16(packet, offset + 2) >= 8 {
                return None;
            }
            protocol = packet[offset];
            offset = offset + 8;
        } else if protocol == 51 {
            if room < 2 {
                return None;
            }
            let step: usize = (packet[offset + 1] as usize + 2) * 4;
            if step > room {
                return None;
            }
            protocol = packet[offset];
            offset = offset + step;
        } else {
            return Some((protocol, offset));
        }
        left = left - 1;
    }
    Some((protocol, offset))
}

/// The header length that an IPv4 packet gives.
pub open spec fn ipv4_header_len(packet: Seq<u8>) -> int {
    packet[0] % 16 * 4
}

/// The version nibble is that of IPv4 and the header is whole.
pub open spec fn is_ipv4(packet: Seq<u8>) -> bool {
    packet.len() > 0 && packet[0] / 16 == 4 && 20 <= ipv4_header_len(packet) <= packet.len()
}

pub open spec fn is_ipv6(packet: Seq<u8>) -> bool {
    packet.len() >= 40 && packet[0] / 16 == 6
}

/// One extension header of an IPv6 packet and what follows it. Options and
/// routing count their length in eight bytes after the first eight, a fragment
/// header has eight bytes and belongs to a first fragment, and authentication
/// counts four bytes after the first eight.
pub open spec fn header_then(packet: Seq<u8>, header: (u8, int), next: (u8, int)) -> bool {
    let (kind, at) = header;
    &&& next.1 <= packet.len()
    &&& at + 2 <= packet.len()
    &&& next.0 == packet[at]
    &&& if kind == 44 {
        next.1 == at + 8 && packet[at + 2] == 0 && packet[at + 3] < 8
    } else if kind == 51 {
        next.1 == at + 8 + 4 * packet[at + 1]
    } else {
        (kind == 0 || kind == 43 || kind == 60) && next.1 == at + 8 + 8 * packet[at + 1]
    }
}

/// The headers of an IPv6 packet one after another, the first of them at the
/// fortieth byte.
pub open spec fn header_chain(packet: Seq<u8>, chain: Seq<(u8, int)>) -> bool {
    &&& packet.len() >= 40
    &&& chain.len() > 0
    &&& chain[0] == (packet[6], 40int)
    &&& forall|i: int|
        0 <= i < chain.len() - 1 ==> header_then(packet, #[trigger] chain[i], chain[i + 1])
}

/// The kinds of headers that stand before the transport.
pub open spec fn is_extension(kind: u8) -> bool {
    kind == 0 || kind == 43 || kind == 44 || kind == 51 || kind == 60
}

pub proof fn lemma_chain_to(packet: Seq<u8>, chain: Seq<(u8, int)>, i: int)
    requires
        header_chain(packet, chain),
        0 <= i < chain.len(),
        i <= 8,
    ensures
        40 <= chain[i].1 <= packet.len(),
        ipv6_transport_spec(packet) == walk_extensions(
            packet,
            chain[i].0,
            chain[i].1,
            (8 - i) as nat,
        ),
    decreases i,
{
    if i > 0 {
        lemma_chain_to(packet, chain, i - 1);
        let (kind, at) = chain[i - 1];
        assert(header_then(packet, chain[i - 1], chain[i]));
        if kind == 44 {
            law_network_order(packet, at + 2);
        }
    }
}

/// As many as eight extension headers are passed over, each by its own length,
/// and the transport is found behind them.
pub proof fn law_extension_headers_are_passed_over(packet: Seq<u8>, chain: Seq<(u8, int)>)
    requires
        header_chain(packet, chain),
        chain.len() <= 9,
        !is_extension(chain.last().0),
    ensures
        ipv6_transport_spec(packet) == Some(chain.last()),
{
    lemma_chain_to(packet, chain, chain.len() - 1);
}

/// A header that is cut short, or that belongs to a later fragment, hides the
/// transport.
pub proof fn law_cut_header_hides_the_transport(packet: Seq<u8>, chain: Seq<(u8, int)>)
    requires
        header_chain(packet, chain),
        chain.len() <= 8,
        ({
            let (kind, at) = chain.last();
            if kind == 44 {
                packet.len() < at + 8 || packet[at + 2] > 0 || packet[at + 3] >= 8
            } else if kind == 51 {
                packet.len() < at + 2 || packet.len() < at + 8 + 4 * packet[at + 1]
            } else {
                (kind == 0 || kind == 43 || kind == 60) && (packet.len() < at + 2 || packet.len()
                    < at + 8 + 8 * packet[at + 1])
            }
        }),
    ensures
        ipv6_transport_spec(packet) is None,
{
    lemma_chain_to(packet, chain, chain.len() - 1);
    let (kind, at) = chain.last();
    if kind == 44 && packet.len() >= at + 8 {
        law_network_order(packet, at + 2);
    }
}

} // verus!
