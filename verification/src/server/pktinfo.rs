//! The control data that tells on which address a datagram came in, and from
//! which one an answer leaves, as 64-bit little-endian Linux lays it out: a
//! header of length, level and type, then interface, local address and
//! destination.

use vstd::prelude::*;
use crate::wire::{be32, be_bytes, le_value, push_u32, read_u32};

verus! {

pub const CONTROL_HEADER: usize = 16;
pub const PKTINFO_LENGTH: usize = 28;
pub const PKTINFO_SPACE: usize = 32;

/// The length that a header gives.
pub open spec fn header_length(control: Seq<u8>) -> nat {
    le_value(control.take(8))
}

/// Whether a header announces addresses: level 0, type 8.
pub open spec fn is_pktinfo(control: Seq<u8>) -> bool {
    control.subrange(8, 16) == seq![0u8, 0, 0, 0, 8, 0, 0, 0]
}

/// The address of one entry: the local one, or else the destination.
pub open spec fn entry_address(control: Seq<u8>) -> Option<u32> {
    if !is_pktinfo(control) || header_length(control) < PKTINFO_LENGTH {
        None
    } else if be32(control, 20) != 0 {
        Some(be32(control, 20) as u32)
    } else if be32(control, 24) != 0 {
        Some(be32(control, 24) as u32)
    } else {
        None
    }
}

/// Where the next entry starts: lengths are rounded up to 8.
pub open spec fn next_entry(control: Seq<u8>) -> nat {
    let rounded = (header_length(control) + 7) / 8 * 8;
    if rounded < control.len() {
        rounded
    } else {
        control.len()
    }
}

/// The first address that the entries tell.
pub open spec fn destination_spec(control: Seq<u8>) -> Option<u32>
    decreases control.len(),
{
    if control.len() < CONTROL_HEADER || header_length(control) < CONTROL_HEADER || header_length(
        control,
    ) > control.len() {
        None
    } else if entry_address(control) is Some {
        entry_address(control)
    } else {
        destination_spec(control.skip(next_entry(control) as int))
    }
}

/// The length that a header gives, if it is at most the given one.
fn read_length(control: &[u8], at: usize, most: usize) -> (r: Option<usize>)
    requires
        at + CONTROL_HEADER <= control@.len(),
    ensures
        match r {
            Some(n) => n == header_length(control@.skip(at as int)) && n <= most,
            None => header_length(control@.skip(at as int)) > most,
        },
{
    let size: usize = control.len();
    let mut value: u64 = 0;
    let mut left: usize = 8;
    let ghost bytes = control@.skip(at as int).take(8);
    while left > 0
        invariant
            left <= 8,
            size == control@.len(),
            at + CONTROL_HEADER <= size,
            bytes == control@.skip(at as int).take(8),
            value == le_value(bytes.skip(left as int)),
            value < crate::wire::byte_range((8 - left) as nat),
        decreases left,
    {
        left = left - 1;
        let ghost rest = bytes.skip(left as int);
        assert(rest[0] == control@[at + left]);
        assert(rest.skip(1) =~= bytes.skip(left + 1));
        assert(crate::wire::byte_range((8 - left) as nat) == 256 * crate::wire::byte_range(
            (7 - left) as nat,
        ));
        proof {
            lemma_range(left as int);
        }
        value = control[at + left] as u64 + 256 * value;
    }
    assert(bytes.skip(0) =~= bytes);
    if value > most as u64 {
        return None;
    }
    Some(value as usize)
}

proof fn lemma_range(left: int)
    requires
        0 <= left < 8,
    ensures
        256 * crate::wire::byte_range((7 - left) as nat) <= 0x1_0000_0000_0000_0000,
{
    reveal_with_fuel(crate::wire::byte_range, 9);
}

fn pktinfo_header(control: &[u8], at: usize) -> (r: bool)
    requires
        at + CONTROL_HEADER <= control@.len(),
    ensures
        r == is_pktinfo(control@.skip(at as int)),
{
    let size: usize = control.len();
    assert(at + CONTROL_HEADER <= size);
    let ghost entry = control@.skip(at as int).subrange(8, 16);
    let ghost wanted = seq![0u8, 0, 0, 0, 8, 0, 0, 0];
    let r = control[at + 8] == 0 && control[at + 9] == 0 && control[at + 10] == 0 && control[at
        + 11] == 0 && control[at + 12] == 8 && control[at + 13] == 0 && control[at + 14] == 0
        && control[at + 15] == 0;
    proof {
        assert(entry[0] == control@[at + 8]);
        assert(entry[1] == control@[at + 9]);
        assert(entry[2] == control@[at + 10]);
        assert(entry[3] == control@[at + 11]);
        assert(entry[4] == control@[at + 12]);
        assert(entry[5] == control@[at + 13]);
        assert(entry[6] == control@[at + 14]);
        assert(entry[7] == control@[at + 15]);
        if r {
            assert(entry =~= wanted);
        }
    }
    r
}

/// The address on which a datagram came in, if its control data tells.
pub fn parse_ipv4_pktinfo_destination(control: &[u8]) -> (r: Option<u32>)
    ensures
        r == destination_spec(control@),
{
    let mut at: usize = 0;
    assert(control@.skip(0) =~= control@);
    while control.len() - at >= CONTROL_HEADER
        invariant
            at <= control@.len(),
            destination_spec(control@) == destination_spec(control@.skip(at as int)),
        decreases control@.len() - at,
    {
        let ghost rest = control@.skip(at as int);
        let remaining: usize = control.len() - at;
        let length: usize = match read_length(control, at, remaining) {
            Some(length) => length,
            None => {
                return None;
            },
        };
        if length < CONTROL_HEADER {
            return None;
        }
        if pktinfo_header(control, at) && length >= PKTINFO_LENGTH {
            assert(control@.subrange(at + 20, at + 24) =~= rest.subrange(20, 24));
            assert(control@.subrange(at + 24, at + 28) =~= rest.subrange(24, 28));
            let local: u32 = read_u32(control, at + 20);
            if local != 0 {
                return Some(local);
            }
            let destination: u32 = read_u32(control, at + 24);
            if destination != 0 {
                return Some(destination);
            }
        }
        let padding: usize = (8 - length % 8) % 8;
        let next: usize = if padding < remaining - length {
            at + length + padding
        } else {
            control.len()
        };
        assert(next == at + next_entry(rest));
        assert(control@.skip(next as int) =~= rest.skip(next_entry(rest) as int));
        at = next;
    }
    None
}

/// The control data that has a datagram leave from the given address.
pub open spec fn control_spec(source: u32) -> Seq<u8> {
    if source == 0 {
        Seq::empty()
    } else {
        seq![28u8, 0, 0, 0, 0, 0, 0, 0, 0, 0, 0, 0, 8, 0, 0, 0, 0, 0, 0, 0] + be_bytes(
            source as nat,
            4,
        ) + seq![0u8, 0, 0, 0, 0, 0, 0, 0]
    }
}

/// The control data that has a datagram leave from the given address; none for
/// the unspecified one.
pub fn write_ipv4_pktinfo_control(source: u32) -> (r: Vec<u8>)
    ensures
        r@ == control_spec(source),
{
    if source == 0 {
        return Vec::new();
    }
    let mut out: Vec<u8> = vec![28u8, 0, 0, 0, 0, 0, 0, 0, 0, 0, 0, 0, 8, 0, 0, 0, 0, 0, 0, 0];
    push_u32(&mut out, source);
    let mut i: usize = 0;
    let ghost head = out@;
    while i < 8
        invariant
            i <= 8,
            out@ == head + Seq::new(i as nat, |k: int| 0u8),
        decreases 8 - i,
    {
        out.push(0);
        assert(out@ =~= head + Seq::new((i + 1) as nat, |k: int| 0u8));
        i = i + 1;
    }
    assert(out@ =~= control_spec(source));
    out
}

/// The control data that was written for an address is read as that address.
pub proof fn law_control_reads_back(source: u32)
    requires
        source != 0,
    ensures
        destination_spec(control_spec(source)) == Some(source),
        control_spec(source).len() == PKTINFO_SPACE,
{
    let control = control_spec(source);
    crate::wire::law_be_round_trip(source as nat, 4);
    reveal_with_fuel(le_value, 9);
    reveal_with_fuel(crate::wire::byte_range, 5);
    let lead = control.take(8);
    assert(lead =~= seq![28u8, 0, 0, 0, 0, 0, 0, 0]);
    assert(lead.skip(1) =~= seq![0u8, 0, 0, 0, 0, 0, 0]);
    assert(lead.skip(1).skip(1) =~= seq![0u8, 0, 0, 0, 0, 0]);
    assert(le_value(lead.skip(1)) == 0) by {
        lemma_zeros(lead.skip(1));
    }
    assert(header_length(control) == 28);
    assert(control.subrange(8, 16) =~= seq![0u8, 0, 0, 0, 8, 0, 0, 0]);
    assert(control.subrange(20, 24) =~= be_bytes(source as nat, 4));
}

proof fn lemma_zeros(s: Seq<u8>)
    requires
        forall|i: int| 0 <= i < s.len() ==> #[trigger] s[i] == 0,
    ensures
        le_value(s) == 0,
    decreases s.len(),
{
    if s.len() > 0 {
        lemma_zeros(s.skip(1));
    }
}

/// An entry of some length: its length, its kind, and what it holds.
pub open spec fn entry_of(length: u8, kind: Seq<u8>, body: Seq<u8>) -> Seq<u8> {
    seq![length, 0u8, 0, 0, 0, 0, 0, 0] + kind + body
}

proof fn lemma_entry_length(length: u8, kind: Seq<u8>, body: Seq<u8>)
    ensures
        header_length(entry_of(length, kind, body)) == length,
{
    let lead = entry_of(length, kind, body).take(8);
    assert(lead =~= seq![length, 0u8, 0, 0, 0, 0, 0, 0]);
    reveal_with_fuel(le_value, 9);
    assert(lead.skip(1) =~= seq![0u8, 0, 0, 0, 0, 0, 0]);
    assert(lead.skip(1).skip(1) =~= seq![0u8, 0, 0, 0, 0, 0]);
    assert(lead.skip(1).skip(1).skip(1) =~= seq![0u8, 0, 0, 0, 0]);
    assert(lead.skip(1).skip(1).skip(1).skip(1) =~= seq![0u8, 0, 0, 0]);
    assert(lead.skip(1).skip(1).skip(1).skip(1).skip(1) =~= seq![0u8, 0, 0]);
    assert(lead.skip(1).skip(1).skip(1).skip(1).skip(1).skip(1) =~= seq![0u8, 0]);
    assert(lead.skip(1).skip(1).skip(1).skip(1).skip(1).skip(1).skip(1) =~= seq![0u8]);
    assert(lead.skip(1).skip(1).skip(1).skip(1).skip(1).skip(1).skip(1).skip(1)
        =~= Seq::<u8>::empty());
}

/// The address that a datagram came to is the local one of the entry, behind the
/// number of the interface, and the one of the header only where that is missing.
pub proof fn law_local_address_comes_first(index: Seq<u8>, local: Seq<u8>, to: Seq<u8>, rest: Seq<u8>)
    requires
        index.len() == 4,
        local.len() == 4,
        to.len() == 4,
    ensures
        ({
            let control = entry_of(
                28,
                seq![0u8, 0, 0, 0, 8, 0, 0, 0],
                index + local + to + rest,
            );
            let first = local[0] * 0x100_0000 + local[1] * 0x1_0000 + local[2] * 0x100 + local[3];
            let second = to[0] * 0x100_0000 + to[1] * 0x1_0000 + to[2] * 0x100 + to[3];
            &&& first != 0 ==> destination_spec(control) == Some(first as u32)
            &&& first == 0 && second != 0 ==> destination_spec(control) == Some(second as u32)
        }),
{
    let kind = seq![0u8, 0, 0, 0, 8, 0, 0, 0];
    let body = index + local + to + rest;
    let control = entry_of(28, kind, body);
    lemma_entry_length(28, kind, body);
    assert(control.subrange(8, 16) =~= kind);
    crate::wire::law_network_order(control, 20);
    crate::wire::law_network_order(control, 24);
    assert(control[20] == local[0] && control[21] == local[1] && control[22] == local[2]
        && control[23] == local[3]);
    assert(control[24] == to[0] && control[25] == to[1] && control[26] == to[2] && control[27]
        == to[3]);
}

/// An entry of another kind is passed over, with what fills it up to a multiple of
/// eight.
pub proof fn law_other_entries_are_passed_over(
    length: u8,
    kind: Seq<u8>,
    body: Seq<u8>,
    rest: Seq<u8>,
)
    requires
        kind.len() == 8,
        kind != seq![0u8, 0, 0, 0, 8, 0, 0, 0],
        16 <= length <= 240,
        body.len() == (length + 7) / 8 * 8 - 16,
    ensures
        destination_spec(entry_of(length, kind, body + rest)) == destination_spec(rest),
{
    let control = entry_of(length, kind, body + rest);
    lemma_entry_length(length, kind, body + rest);
    assert(control.subrange(8, 16) =~= kind);
    let at = next_entry(control) as int;
    assert(control.skip(at) =~= rest);
}

} // verus!
