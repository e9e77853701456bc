//! Unsigned integers in network byte order, and in that of the machine.

use vstd::prelude::*;

verus! {

/// The low `len` bytes of `n`, most significant first.
pub open spec fn be_bytes(n: nat, len: nat) -> Seq<u8>
    decreases len,
{
    if len == 0 {
        Seq::empty()
    } else {
        be_bytes(n / 256, (len - 1) as nat).push((n % 256) as u8)
    }
}

/// The number that bytes stand for, most significant first.
pub open spec fn be_value(s: Seq<u8>) -> nat
    decreases s.len(),
{
    if s.len() == 0 {
        0
    } else {
        be_value(s.drop_last()) * 256 + s.last() as nat
    }
}

/// The number of values that `len` bytes can hold.
pub open spec fn byte_range(len: nat) -> nat
    decreases len,
{
    if len == 0 {
        1
    } else {
        byte_range((len - 1) as nat) * 256
    }
}

pub proof fn lemma_be_len(n: nat, len: nat)
    ensures
        be_bytes(n, len).len() == len,
    decreases len,
{
    if len > 0 {
        lemma_be_len(n / 256, (len - 1) as nat);
    }
}

pub proof fn lemma_be_bound(s: Seq<u8>)
    ensures
        be_value(s) < byte_range(s.len()),
    decreases s.len(),
{
    if s.len() > 0 {
        lemma_be_bound(s.drop_last());
    }
}

/// Bytes that were written for a number that fits read back as that number.
pub proof fn law_be_round_trip(n: nat, len: nat)
    requires
        n < byte_range(len),
    ensures
        be_value(be_bytes(n, len)) == n,
        be_bytes(n, len).len() == len,
    decreases len,
{
    if len > 0 {
        assert(n / 256 < byte_range((len - 1) as nat));
        law_be_round_trip(n / 256, (len - 1) as nat);
        assert(be_bytes(n, len).drop_last() =~= be_bytes(n / 256, (len - 1) as nat));
    }
}

/// The bytes of a number that was read are the bytes that it was read from.
pub proof fn law_be_read_back(s: Seq<u8>)
    ensures
        be_bytes(be_value(s), s.len()) == s,
    decreases s.len(),
{
    if s.len() > 0 {
        law_be_read_back(s.drop_last());
        assert(be_value(s) / 256 == be_value(s.drop_last()));
        assert(s.drop_last().push(s.last()) =~= s);
    }
}

pub proof fn lemma_range_values()
    ensures
        byte_range(1) == 0x100,
        byte_range(2) == 0x1_0000,
        byte_range(4) == 0x1_0000_0000,
        byte_range(8) == 0x1_0000_0000_0000_0000,
        byte_range(16) == 0x1_0000_0000_0000_0000_0000_0000_0000_0000,
{
    reveal_with_fuel(byte_range, 17);
}

pub open spec fn be16(s: Seq<u8>, at: int) -> nat {
    be_value(s.subrange(at, at + 2))
}

pub open spec fn be32(s: Seq<u8>, at: int) -> nat {
    be_value(s.subrange(at, at + 4))
}

proof fn lemma_value_two(s: Seq<u8>)
    requires
        s.len() == 2,
    ensures
        be_value(s) == s[0] * 256 + s[1],
{
    reveal_with_fuel(be_value, 3);
}

proof fn lemma_value_four(s: Seq<u8>)
    requires
        s.len() == 4,
    ensures
        be_value(s) == s[0] * 0x100_0000 + s[1] * 0x1_0000 + s[2] * 0x100 + s[3],
{
    reveal_with_fuel(be_value, 5);
}

/// The first byte of a number weighs most.
pub proof fn law_network_order(s: Seq<u8>, at: int)
    requires
        0 <= at,
        at + 2 <= s.len(),
    ensures
        be16(s, at) == s[at] * 256 + s[at + 1],
        at + 4 <= s.len() ==> be32(s, at) == s[at] * 0x100_0000 + s[at + 1] * 0x1_0000 + s[at + 2]
            * 0x100 + s[at + 3],
        at + 4 <= s.len() ==> be32(s, at) == be16(s, at) * 0x1_0000 + be16(s, at + 2),
{
    lemma_value_two(s.subrange(at, at + 2));
    if at + 4 <= s.len() {
        lemma_value_four(s.subrange(at, at + 4));
        lemma_value_two(s.subrange(at + 2, at + 4));
    }
}

/// Two bytes in network order, at an index.
pub fn read_u16(s: &[u8], at: usize) -> (r: u16)
    requires
        at + 2 <= s.len(),
    ensures
        r == be16(s@, at as int),
{
    proof {
        lemma_value_two(s@.subrange(at as int, at + 2));
    }
    s[at] as u16 * 256 + s[at + 1] as u16
}

/// Four bytes in network order, at an index.
pub fn read_u32(s: &[u8], at: usize) -> (r: u32)
    requires
        at + 4 <= s.len(),
    ensures
        r == be32(s@, at as int),
{
    proof {
        lemma_value_four(s@.subrange(at as int, at + 4));
    }
    s[at] as u32 * 0x100_0000 + s[at + 1] as u32 * 0x1_0000 + s[at + 2] as u32 * 0x100 + s[at
        + 3] as u32
}

/// Sixteen bytes in network order, at an index.
pub fn read_u128(s: &[u8], at: usize) -> (r: u128)
    requires
        at + 16 <= s.len(),
    ensures
        r == be_value(s@.subrange(at as int, at + 16)),
{
    let mut r: u128 = 0;
    let mut k: usize = 0;
    proof {
        lemma_range_values();
    }
    while k < 16
        invariant
            k <= 16,
            at + 16 <= s.len(),
            r == be_value(s@.subrange(at as int, at + k)),
        decreases 16 - k,
    {
        let ghost next = s@.subrange(at as int, at + k + 1);
        assert(next.drop_last() =~= s@.subrange(at as int, at + k));
        proof {
            lemma_be_bound(next);
            lemma_range_grows((k + 1) as nat, 16);
            lemma_range_values();
        }
        assert(be_value(next) == r * 256 + s@[at + k] as nat);
        r = r * 256 + s[at + k] as u128;
        k = k + 1;
    }
    r
}

pub proof fn lemma_range_grows(a: nat, b: nat)
    requires
        a <= b,
    ensures
        byte_range(a) <= byte_range(b),
    decreases b,
{
    if a < b {
        lemma_range_grows(a, (b - 1) as nat);
    }
}

/// Appends a number in two bytes, network order.
pub fn push_u16(out: &mut Vec<u8>, n: u16)
    ensures
        final(out)@ == old(out)@ + be_bytes(n as nat, 2),
{
    let ghost before = out@;
    out.push((n / 256) as u8);
    out.push((n % 256) as u8);
    proof {
        reveal_with_fuel(be_bytes, 3);
    }
    assert(out@ =~= before + be_bytes(n as nat, 2));
}

/// Appends a number in four bytes, network order.
pub fn push_u32(out: &mut Vec<u8>, n: u32)
    ensures
        final(out)@ == old(out)@ + be_bytes(n as nat, 4),
{
    let ghost before = out@;
    out.push((n / 0x100_0000) as u8);
    out.push((n / 0x1_0000 % 256) as u8);
    out.push((n / 0x100 % 256) as u8);
    out.push((n % 256) as u8);
    proof {
        reveal_with_fuel(be_bytes, 5);
    }
    assert(out@ =~= before + be_bytes(n as nat, 4));
}

/// Appends a number in sixteen bytes, network order.
pub fn push_u128(out: &mut Vec<u8>, n: u128)
    ensures
        final(out)@ == old(out)@ + be_bytes(n as nat, 16),
{
    push_be(out, n, 16);
}

fn push_be(out: &mut Vec<u8>, n: u128, len: usize)
    ensures
        final(out)@ == old(out)@ + be_bytes(n as nat, len as nat),
    decreases len,
{
    let ghost before = out@;
    if len > 0 {
        push_be(out, n / 256, len - 1);
        out.push((n % 256) as u8);
    }
    assert(out@ =~= before + be_bytes(n as nat, len as nat));
}

/// Appends every byte of a slice.
pub fn push_all(out: &mut Vec<u8>, s: &[u8])
    ensures
        final(out)@ == old(out)@ + s@,
{
    let ghost before = out@;
    let mut i: usize = 0;
    while i < s.len()
        invariant
            i <= s.len(),
            out@ == before + s@.take(i as int),
        decreases s.len() - i,
    {
        out.push(s[i]);
        assert(before + s@.take(i + 1) =~= (before + s@.take(i as int)).push(s@[i as int]));
        i = i + 1;
    }
    assert(s@.take(i as int) =~= s@);
}

/// Whether two byte slices are equal.
pub fn same_bytes(a: &[u8], b: &[u8]) -> (r: bool)
    ensures
        r == (a@ == b@),
{
    if a.len() != b.len() {
        return false;
    }
    let mut i: usize = 0;
    while i < a.len()
        invariant
            i <= a.len(),
            a.len() == b.len(),
            forall|k: int| 0 <= k < i ==> a@[k] == b@[k],
        decreases a.len() - i,
    {
        if a[i] != b[i] {
            assert(a@[i as int] != b@[i as int]);
            return false;
        }
        i = i + 1;
    }
    assert(a@ =~= b@);
    true
}

/// Writes bytes into a slice, from a place in it on.
pub fn put_bytes(output: &mut [u8], at: usize, data: &[u8])
    requires
        at + data@.len() <= old(output)@.len(),
    ensures
        final(output)@ == old(output)@.take(at as int) + data@ + old(output)@.skip(
            at + data@.len(),
        ),
{
    let ghost before = output@;
    let size: usize = output.len();
    let mut i: usize = 0;
    while i < data.len()
        invariant
            i <= data@.len(),
            at + data@.len() <= before.len(),
            output@.len() == before.len() == size,
            output@ == before.take(at as int) + data@.take(i as int) + before.skip(at + i),
        decreases data@.len() - i,
    {
        output[at + i] = data[i];
        i = i + 1;
        assert(output@ =~= before.take(at as int) + data@.take(i as int) + before.skip(at + i));
    }
    assert(data@.take(i as int) =~= data@);
}

/// A copy of a byte slice.
pub fn copy_bytes(s: &[u8]) -> (r: Vec<u8>)
    ensures
        r@ == s@,
{
    vstd::slice::slice_to_vec(s)
}

/// A number whose first byte weighs least.
pub open spec fn le_value(s: Seq<u8>) -> nat
    decreases s.len(),
{
    if s.len() == 0 {
        0
    } else {
        s[0] as nat + 256 * le_value(s.skip(1))
    }
}


/// Four bytes of a number, the first of which weighs least.
pub open spec fn le32_bytes(n: u32) -> Seq<u8> {
    seq![
        (n % 256) as u8,
        (n / 256 % 256) as u8,
        (n / 0x1_0000 % 256) as u8,
        (n / 0x100_0000) as u8,
    ]
}

pub fn push_le32(out: &mut Vec<u8>, n: u32)
    ensures
        final(out)@ == old(out)@ + le32_bytes(n),
{
    let ghost before = out@;
    out.push((n % 256) as u8);
    out.push((n / 256 % 256) as u8);
    out.push((n / 0x1_0000 % 256) as u8);
    out.push((n / 0x100_0000) as u8);
    assert(out@ =~= before + le32_bytes(n));
}

proof fn lemma_le_four(s: Seq<u8>)
    requires
        s.len() == 4,
    ensures
        le_value(s) == s[0] + s[1] * 0x100 + s[2] * 0x1_0000 + s[3] * 0x100_0000,
{
    reveal_with_fuel(le_value, 5);
    assert(s.skip(1)[0] == s[1]);
    assert(s.skip(1).skip(1)[0] == s[2]);
    assert(s.skip(1).skip(1).skip(1)[0] == s[3]);
}

/// Four bytes at an index, the first of which weighs least.
pub fn read_le32(s: &[u8], at: usize) -> (r: u32)
    requires
        at + 4 <= s.len(),
    ensures
        r == le_value(s@.subrange(at as int, at + 4)),
{
    proof {
        lemma_le_four(s@.subrange(at as int, at + 4));
    }
    let size: usize = s.len();
    assert(at + 4 <= size);
    s[at] as u32 + s[at + 1] as u32 * 0x100 + s[at + 2] as u32 * 0x1_0000 + s[at + 3] as u32
        * 0x100_0000
}

/// Bytes that were written in the order of the machine read back as the number.
pub proof fn law_le_round_trip(n: u32)
    ensures
        le_value(le32_bytes(n)) == n,
        le32_bytes(n).len() == 4,
{
    lemma_le_four(le32_bytes(n));
}

} // verus!
