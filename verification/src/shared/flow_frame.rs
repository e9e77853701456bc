//! The frame that carries a tunnelled packet: who sent it, in which flow and at
//! which place.

use vstd::prelude::*;
use crate::wire::{
    be16, be32, be_bytes, be_value, law_be_round_trip, lemma_be_len, lemma_range_values, read_u16,
    read_u32,
};

verus! {

/// The bytes before the payload.
pub const FRAME_LEN: usize = 16;
/// The first two bytes of a frame. No internet packet and no control text begins
/// with them.
pub const FRAME_MARK: u16 = 0xc546;

#[derive(Clone, Copy, Debug, PartialEq, Eq, Structural)]
pub struct FrameHeader {
    pub sender_id: u16,
    pub flow_id: u32,
    pub sequence: u64,
}

impl FrameHeader {
    /// The header on the wire.
    pub open spec fn bytes(self) -> Seq<u8> {
        be_bytes(FRAME_MARK as nat, 2) + be_bytes(self.sender_id as nat, 2) + be_bytes(
            self.flow_id as nat,
            4,
        ) + be_bytes(self.sequence as nat, 8)
    }
}

/// The header at the start of a packet, if it is framed.
pub open spec fn header_spec(packet: Seq<u8>) -> Option<FrameHeader> {
    if packet.len() >= FRAME_LEN && be16(packet, 0) == FRAME_MARK {
        Some(
            FrameHeader {
                sender_id: be16(packet, 2) as u16,
                flow_id: be32(packet, 4) as u32,
                sequence: be_value(packet.subrange(8, 16)) as u64,
            },
        )
    } else {
        None
    }
}

/// What a packet carries: the bytes after its header, or all of them.
pub open spec fn payload_spec(packet: Seq<u8>) -> Seq<u8> {
    if header_spec(packet) is Some {
        packet.skip(FRAME_LEN as int)
    } else {
        packet
    }
}

fn put_number(output: &mut [u8], at: usize, n: u64, len: usize)
    requires
        at + len <= old(output).len(),
    ensures
        final(output)@ == old(output)@.take(at as int) + be_bytes(n as nat, len as nat) + old(
            output,
        )@.skip(at + len),
    decreases len,
{
    let ghost before = output@;
    proof {
        lemma_be_len(n as nat, len as nat);
    }
    if len == 0 {
        assert(output@ =~= before.take(at as int) + be_bytes(n as nat, 0) + before.skip(at as int));
        return;
    }
    put_number(output, at, n / 256, len - 1);
    let ghost mid = output@;
    proof {
        lemma_be_len((n / 256) as nat, (len - 1) as nat);
    }
    output[at + len - 1] = (n % 256) as u8;
    assert(output@ =~= before.take(at as int) + be_bytes(n as nat, len as nat) + before.skip(
        at + len,
    ));
}

fn get_number(s: &[u8], at: usize) -> (r: u64)
    requires
        at + 8 <= s.len(),
    ensures
        r == be_value(s@.subrange(at as int, at + 8)),
{
    let high: u64 = read_u32(s, at) as u64;
    let low: u64 = read_u32(s, at + 4) as u64;
    proof {
        lemma_join(s@.subrange(at as int, at + 8));
        assert(s@.subrange(at as int, at + 8).take(4) =~= s@.subrange(at as int, at + 4));
        assert(s@.subrange(at as int, at + 8).skip(4) =~= s@.subrange(at + 4, at + 8));
    }
    high * 0x1_0000_0000 + low
}

proof fn lemma_join(s: Seq<u8>)
    requires
        s.len() == 8,
    ensures
        be_value(s) == be_value(s.take(4)) * 0x1_0000_0000 + be_value(s.skip(4)),
{
    reveal_with_fuel(be_value, 9);
    assert(s.take(4).drop_last() =~= s.take(3));
    assert(s.drop_last().drop_last().drop_last().drop_last() =~= s.take(4));
    assert(s.skip(4).drop_last() =~= s.drop_last().skip(4));
}

impl FrameHeader {
    pub proof fn lemma_len(self)
        ensures
            self.bytes().len() == FRAME_LEN,
    {
        lemma_be_len(FRAME_MARK as nat, 2);
        lemma_be_len(self.sender_id as nat, 2);
        lemma_be_len(self.flow_id as nat, 4);
        lemma_be_len(self.sequence as nat, 8);
    }

    /// Writes the header into exactly as many bytes as it has.
    pub fn encode(&self, output: &mut [u8]) -> (r: bool)
        ensures
            r == (old(output)@.len() == FRAME_LEN),
            r ==> final(output)@ == self.bytes(),
            !r ==> final(output)@ == old(output)@,
    {
        if output.len() != FRAME_LEN {
            return false;
        }
        proof {
            lemma_be_len(FRAME_MARK as nat, 2);
            lemma_be_len(self.sender_id as nat, 2);
            lemma_be_len(self.flow_id as nat, 4);
            lemma_be_len(self.sequence as nat, 8);
        }
        put_number(output, 0, FRAME_MARK as u64, 2);
        put_number(output, 2, self.sender_id as u64, 2);
        put_number(output, 4, self.flow_id as u64, 4);
        put_number(output, 8, self.sequence, 8);
        assert(output@ =~= self.bytes());
        true
    }

    /// The header and what follows it.
    pub fn decode<'a>(packet: &'a [u8]) -> (r: Option<(FrameHeader, &'a [u8])>)
        ensures
            match r {
                Some((header, payload)) => header_spec(packet@) == Some(header) && payload@
                    == packet@.skip(FRAME_LEN as int),
                None => header_spec(packet@) is None,
            },
    {
        if packet.len() < FRAME_LEN || read_u16(packet, 0) != FRAME_MARK {
            return None;
        }
        let header = FrameHeader {
            sender_id: read_u16(packet, 2),
            flow_id: read_u32(packet, 4),
            sequence: get_number(packet, 8),
        };
        let payload = vstd::slice::slice_subrange(packet, FRAME_LEN, packet.len());
        assert(payload@ =~= packet@.skip(FRAME_LEN as int));
        Some((header, payload))
    }
}

/// What a packet carries.
pub fn payload<'a>(packet: &'a [u8]) -> (r: &'a [u8])
    ensures
        r@ == payload_spec(packet@),
{
    match FrameHeader::decode(packet) {
        Some((_, payload)) => payload,
        None => packet,
    }
}

/// A framed packet decodes to its header and its payload.
pub proof fn law_frame_round_trip(header: FrameHeader, payload: Seq<u8>)
    ensures
        header_spec(header.bytes() + payload) == Some(header),
        payload_spec(header.bytes() + payload) == payload,
        header.bytes().len() == FRAME_LEN,
{
    let packet = header.bytes() + payload;
    lemma_range_values();
    law_be_round_trip(FRAME_MARK as nat, 2);
    law_be_round_trip(header.sender_id as nat, 2);
    law_be_round_trip(header.flow_id as nat, 4);
    law_be_round_trip(header.sequence as nat, 8);
    assert(packet.subrange(0, 2) =~= be_bytes(FRAME_MARK as nat, 2));
    assert(packet.subrange(2, 4) =~= be_bytes(header.sender_id as nat, 2));
    assert(packet.subrange(4, 8) =~= be_bytes(header.flow_id as nat, 4));
    assert(packet.subrange(8, 16) =~= be_bytes(header.sequence as nat, 8));
    assert(packet.skip(FRAME_LEN as int) =~= payload);
}

/// A framed packet begins with the mark, byte by byte; behind it stand the sender in
/// two bytes, the flow in four and the sequence in eight.
pub proof fn law_frame_is_read_by_bytes(packet: Seq<u8>)
    requires
        packet.len() >= 16,
    ensures
        packet[0] == 0xc5 && packet[1] == 0x46 ==> {
            &&& header_spec(packet) matches Some(header)
            &&& header.sender_id == packet[2] * 0x100 + packet[3]
            &&& header.flow_id == packet[4] * 0x100_0000 + packet[5] * 0x1_0000 + packet[6] * 0x100
                + packet[7]
            &&& header.sequence == (packet[8] * 0x100_0000 + packet[9] * 0x1_0000 + packet[10]
                * 0x100 + packet[11]) * 0x1_0000_0000 + packet[12] * 0x100_0000 + packet[13]
                * 0x1_0000 + packet[14] * 0x100 + packet[15]
            &&& payload_spec(packet) == packet.subrange(16, packet.len() as int)
        },
        packet[0] != 0xc5 || packet[1] != 0x46 ==> header_spec(packet) is None && payload_spec(
            packet,
        ) == packet,
{
    crate::wire::law_network_order(packet, 0);
    crate::wire::law_network_order(packet, 2);
    crate::wire::law_network_order(packet, 4);
    let last = packet.subrange(8, 16);
    reveal_with_fuel(be_value, 9);
    let a = last.drop_last();
    let b = a.drop_last();
    let c = b.drop_last();
    let d = c.drop_last();
    let e = d.drop_last();
    let f = e.drop_last();
    let g = f.drop_last();
    assert(g.drop_last().len() == 0);
    assert(be_value(f) == packet[8] * 0x100 + packet[9]);
    assert(be_value(d) == packet[8] * 0x100_0000 + packet[9] * 0x1_0000 + packet[10] * 0x100
        + packet[11]);
}

/// A packet too short for a header is not framed.
pub proof fn law_short_packets_are_not_framed(packet: Seq<u8>)
    requires
        packet.len() < 16,
    ensures
        header_spec(packet) is None,
        payload_spec(packet) == packet,
{
}

} // verus!
