//! Building STUN messages, and reading the attributes that TURN uses.

use vstd::prelude::*;
use crate::client::stun::{
    attribute_spec, class_spec, crc32, crc32_of, decode_spec, fingerprint_at, fingerprint_spec,
    first_of, hmac_sha1, hmac_sha1_of, hmac_sha1_verify, padded, spans_from, transaction_spec,
    value_spec, AttributeSpan, Class, DecodeError, Message, ATTR_ERROR_CODE, ATTR_FINGERPRINT,
    ATTR_MESSAGE_INTEGRITY, FINGERPRINT_XOR, MAGIC_COOKIE,
};
use crate::net::{IpAddress, SocketAddress};
use crate::wire::{
    be16, be32, be_bytes, be_value, copy_bytes, law_be_round_trip, lemma_be_bound, lemma_be_len,
    lemma_range_values, push_all, push_u128, push_u16, push_u32, read_u128, read_u16, read_u32,
};

verus! {

/// A message does not fit the sixteen-bit length field of its header.
#[derive(Clone, Copy, Debug, PartialEq, Eq, Structural)]
pub struct MessageTooLarge;

pub open spec fn zeros(n: int) -> Seq<u8> {
    Seq::new(n as nat, |i: int| 0u8)
}

/// One attribute on the wire: type, length, value, padding to four bytes.
pub open spec fn attr_bytes(kind: u16, value: Seq<u8>) -> Seq<u8> {
    be_bytes(kind as nat, 2) + be_bytes(value.len() % 0x1_0000, 2) + value + zeros(
        padded(value.len() as int) - value.len(),
    )
}

/// A message with no attribute: type, length zero, cookie, transaction.
pub open spec fn start_spec(kind: u16, transaction: Seq<u8>) -> Seq<u8> {
    be_bytes(kind as nat, 2) + be_bytes(0, 2) + be_bytes(MAGIC_COOKIE as nat, 4) + transaction
}

/// The length field when `trailing` more bytes follow.
pub open spec fn length_with(bytes: Seq<u8>, trailing: int) -> int {
    bytes.len() - 20 + trailing
}

/// The bytes with a new value in the length field.
pub open spec fn with_length(bytes: Seq<u8>, length: int) -> Seq<u8> {
    bytes.take(2) + be_bytes(length as nat, 2) + bytes.skip(4)
}

/// A message closed with its fingerprint.
pub open spec fn finish_spec(bytes: Seq<u8>) -> Option<Seq<u8>> {
    if length_with(bytes, 8) > 0xffff {
        None
    } else {
        let b = with_length(bytes, length_with(bytes, 8));
        Some(b + attr_bytes(ATTR_FINGERPRINT, fingerprint_at(b, b.len() as int)))
    }
}

/// A message closed with its integrity tag under a key and its fingerprint.
pub open spec fn finish_authenticated_spec(bytes: Seq<u8>, key: Seq<u8>) -> Option<Seq<u8>> {
    if length_with(bytes, 24) > 0xffff {
        None
    } else {
        let b = with_length(bytes, length_with(bytes, 24));
        finish_spec(b + attr_bytes(ATTR_MESSAGE_INTEGRITY, hmac_sha1_of(key, b)))
    }
}

/// The value of an XOR address attribute.
pub open spec fn xor_address_spec(address: SocketAddress, transaction: Seq<u8>) -> Seq<u8> {
    match address.ip {
        IpAddress::V4(ip) => seq![0u8, 1u8] + be_bytes((address.port ^ 0x2112u16) as nat, 2)
            + be_bytes((ip ^ MAGIC_COOKIE) as nat, 4),
        IpAddress::V6(ip) => seq![0u8, 2u8] + be_bytes((address.port ^ 0x2112u16) as nat, 2)
            + be_bytes((ip ^ xor_mask(transaction)) as nat, 16),
    }
}

/// The mask of an IPv6 address: the cookie, then the transaction.
pub open spec fn xor_mask(transaction: Seq<u8>) -> u128 {
    be_value(be_bytes(MAGIC_COOKIE as nat, 4) + transaction) as u128
}

/// Why an XOR address attribute holds no address.
#[derive(Clone, Copy, Debug, PartialEq, Eq, Structural)]
pub enum XorAddressError {
    Malformed,
    Family,
}

/// The address in an XOR address attribute.
pub open spec fn decode_xor_spec(value: Seq<u8>, transaction: Seq<u8>) -> Result<
    SocketAddress,
    XorAddressError,
> {
    if value.len() < 4 || value[0] != 0 {
        Err(XorAddressError::Malformed)
    } else {
        let port = be16(value, 2) as u16 ^ 0x2112u16;
        if value[1] == 1 && value.len() == 8 {
            Ok(SocketAddress::plain(IpAddress::V4(be32(value, 4) as u32 ^ MAGIC_COOKIE), port))
        } else if value[1] == 2 && value.len() == 20 {
            Ok(
                SocketAddress::plain(
                    IpAddress::V6(
                        be_value(value.subrange(4, 20)) as u128 ^ xor_mask(transaction),
                    ),
                    port,
                ),
            )
        } else {
            Err(XorAddressError::Family)
        }
    }
}

fn mask_of(transaction: &[u8; 12]) -> (r: u128)
    ensures
        r == xor_mask(transaction@),
        be_value(be_bytes(MAGIC_COOKIE as nat, 4) + transaction@) <= u128::MAX,
{
    let mut mask: Vec<u8> = Vec::new();
    push_u32(&mut mask, MAGIC_COOKIE);
    push_all(&mut mask, transaction.as_slice());
    assert(mask@ =~= be_bytes(MAGIC_COOKIE as nat, 4) + transaction@);
    proof {
        lemma_be_len(MAGIC_COOKIE as nat, 4);
        lemma_be_bound(mask@);
        lemma_range_values();
    }
    assert(mask@.subrange(0, 16) =~= mask@);
    read_u128(mask.as_slice(), 0)
}

pub fn encode_xor_address(address: SocketAddress, transaction: &[u8; 12]) -> (r: Vec<u8>)
    ensures
        r@ == xor_address_spec(address, transaction@),
        r.len() <= 20,
{
    let mut value: Vec<u8> = Vec::new();
    value.push(0);
    let mask: u128 = mask_of(transaction);
    proof {
        lemma_be_len((address.port ^ 0x2112u16) as nat, 2);
    }
    match address.ip {
        IpAddress::V4(ip) => {
            value.push(1);
            push_u16(&mut value, address.port ^ 0x2112);
            push_u32(&mut value, ip ^ MAGIC_COOKIE);
            proof {
                lemma_be_len((ip ^ MAGIC_COOKIE) as nat, 4);
            }
        },
        IpAddress::V6(ip) => {
            value.push(2);
            push_u16(&mut value, address.port ^ 0x2112);
            push_u128(&mut value, ip ^ mask);
            proof {
                lemma_be_len((ip ^ mask) as nat, 16);
            }
        },
    }
    assert(value@ =~= xor_address_spec(address, transaction@));
    value
}

pub fn decode_xor_address(value: &[u8], transaction: &[u8; 12]) -> (r: Result<
    SocketAddress,
    XorAddressError,
>)
    ensures
        r == decode_xor_spec(value@, transaction@),
{
    if value.len() < 4 || value[0] != 0 {
        return Err(XorAddressError::Malformed);
    }
    let port: u16 = read_u16(value, 2) ^ 0x2112;
    if value[1] == 1 && value.len() == 8 {
        let encoded: u32 = read_u32(value, 4);
        Ok(SocketAddress::new(IpAddress::V4(encoded ^ MAGIC_COOKIE), port))
    } else if value[1] == 2 && value.len() == 20 {
        let encoded: u128 = read_u128(value, 4);
        let mask: u128 = mask_of(transaction);
        Ok(SocketAddress::new(IpAddress::V6(encoded ^ mask), port))
    } else {
        Err(XorAddressError::Family)
    }
}

/// An address that was encoded for a transaction decodes, for the same
/// transaction, to itself; flow and scope are not sent.
pub proof fn law_xor_address_round_trip(address: SocketAddress, transaction: Seq<u8>)
    requires
        transaction.len() == 12,
    ensures
        decode_xor_spec(xor_address_spec(address, transaction), transaction) == Ok::<
            SocketAddress,
            XorAddressError,
        >(SocketAddress::plain(address.ip, address.port)),
{
    let value = xor_address_spec(address, transaction);
    let port = address.port;
    lemma_range_values();
    law_be_round_trip((port ^ 0x2112u16) as nat, 2);
    assert(port ^ 0x2112u16 ^ 0x2112u16 == port) by (bit_vector);
    match address.ip {
        IpAddress::V4(ip) => {
            law_be_round_trip((ip ^ MAGIC_COOKIE) as nat, 4);
            assert(ip ^ MAGIC_COOKIE ^ MAGIC_COOKIE == ip) by (bit_vector);
            assert(value.subrange(2, 4) =~= be_bytes((port ^ 0x2112u16) as nat, 2));
            assert(value.subrange(4, 8) =~= be_bytes((ip ^ MAGIC_COOKIE) as nat, 4));
        },
        IpAddress::V6(ip) => {
            let mask = xor_mask(transaction);
            law_be_round_trip((ip ^ mask) as nat, 16);
            assert(ip ^ mask ^ mask == ip) by (bit_vector);
            assert(value.subrange(2, 4) =~= be_bytes((port ^ 0x2112u16) as nat, 2));
            assert(value.subrange(4, 20) =~= be_bytes((ip ^ mask) as nat, 16));
        },
    }
}

/// A message under construction.
pub struct MessageBuilder {
    pub bytes: Vec<u8>,
    pub transaction: [u8; 12],
}

impl MessageBuilder {
    /// The bytes so far are a header and whole attributes.
    pub open spec fn wf(&self) -> bool {
        self.bytes@.len() >= 20 && self.bytes@.len() % 4 == 0
    }

    pub fn with_transaction(kind: u16, transaction: [u8; 12]) -> (r: MessageBuilder)
        ensures
            r.wf(),
            r.bytes@ == start_spec(kind, transaction@),
            r.transaction@ == transaction@,
    {
        let mut bytes: Vec<u8> = Vec::new();
        push_u16(&mut bytes, kind);
        push_u16(&mut bytes, 0);
        push_u32(&mut bytes, MAGIC_COOKIE);
        push_all(&mut bytes, transaction.as_slice());
        proof {
            lemma_be_len(kind as nat, 2);
            lemma_be_len(0, 2);
            lemma_be_len(MAGIC_COOKIE as nat, 4);
        }
        assert(bytes@ =~= start_spec(kind, transaction@));
        MessageBuilder { bytes, transaction }
    }

    pub fn attribute(self, kind: u16, value: &[u8]) -> (r: MessageBuilder)
        requires
            self.wf(),
        ensures
            r.wf(),
            r.bytes@ == self.bytes@ + attr_bytes(kind, value@),
            r.transaction@ == self.transaction@,
    {
        let MessageBuilder { mut bytes, transaction } = self;
        let ghost before = bytes@;
        push_u16(&mut bytes, kind);
        push_u16(&mut bytes, (value.len() % 0x1_0000) as u16);
        push_all(&mut bytes, value);
        proof {
            lemma_be_len(kind as nat, 2);
            lemma_be_len(value@.len() % 0x1_0000, 2);
        }
        let ghost plain = bytes@;
        let ghost goal = padded(value@.len() as int) - value@.len();
        while bytes.len() % 4 != 0
            invariant
                plain.len() <= bytes@.len() <= plain.len() + goal,
                (plain.len() + goal) % 4 == 0,
                goal < 4,
                bytes@ == plain + zeros(bytes@.len() - plain.len()),
            decreases plain.len() + goal - bytes@.len(),
        {
            let ghost n = bytes@.len() - plain.len();
            bytes.push(0);
            assert(bytes@ =~= plain + zeros(n + 1));
        }
        assert(bytes@.len() == plain.len() + goal);
        assert(bytes@ =~= before + attr_bytes(kind, value@));
        MessageBuilder { bytes, transaction }
    }

    pub fn xor_address(self, kind: u16, address: SocketAddress) -> (r: MessageBuilder)
        requires
            self.wf(),
        ensures
            r.wf(),
            r.bytes@ == self.bytes@ + attr_bytes(
                kind,
                xor_address_spec(address, self.transaction@),
            ),
            r.transaction@ == self.transaction@,
    {
        let value = encode_xor_address(address, &self.transaction);
        self.attribute(kind, value.as_slice())
    }

    pub fn finish(self) -> (r: Result<Vec<u8>, MessageTooLarge>)
        requires
            self.wf(),
        ensures
            match r {
                Ok(packet) => finish_spec(self.bytes@) == Some(packet@),
                Err(_) => finish_spec(self.bytes@) is None,
            },
    {
        let MessageBuilder { mut bytes, transaction } = self;
        if bytes.len() > 0xffff + 20 {
            return Err(MessageTooLarge);
        }
        match set_message_length(&mut bytes, 8) {
            Ok(()) => {},
            Err(e) => {
                return Err(e);
            },
        }
        let fingerprint: u32 = crc32(bytes.as_slice()) ^ FINGERPRINT_XOR;
        let mut value: Vec<u8> = Vec::new();
        push_u32(&mut value, fingerprint);
        assert(bytes@.take(bytes@.len() as int) =~= bytes@);
        assert(value@ =~= fingerprint_at(bytes@, bytes@.len() as int));
        let done = (MessageBuilder { bytes, transaction }).attribute(
            ATTR_FINGERPRINT,
            value.as_slice(),
        );
        Ok(done.bytes)
    }

    pub fn finish_authenticated(self, key: &[u8; 16]) -> (r: Result<Vec<u8>, MessageTooLarge>)
        requires
            self.wf(),
        ensures
            match r {
                Ok(packet) => finish_authenticated_spec(self.bytes@, key@) == Some(packet@),
                Err(_) => finish_authenticated_spec(self.bytes@, key@) is None,
            },
    {
        let MessageBuilder { mut bytes, transaction } = self;
        if bytes.len() > 0xffff + 20 {
            return Err(MessageTooLarge);
        }
        match set_message_length(&mut bytes, 24) {
            Ok(()) => {},
            Err(e) => {
                return Err(e);
            },
        }
        let integrity = hmac_sha1(key, bytes.as_slice());
        let signed = (MessageBuilder { bytes, transaction }).attribute(
            ATTR_MESSAGE_INTEGRITY,
            integrity.as_slice(),
        );
        signed.finish()
    }
}

fn set_message_length(bytes: &mut Vec<u8>, trailing: usize) -> (r: Result<(), MessageTooLarge>)
    requires
        old(bytes)@.len() >= 20,
        old(bytes)@.len() - 20 + trailing <= usize::MAX,
    ensures
        match r {
            Ok(()) => length_with(old(bytes)@, trailing as int) <= 0xffff && final(bytes)@
                == with_length(old(bytes)@, length_with(old(bytes)@, trailing as int)),
            Err(_) => length_with(old(bytes)@, trailing as int) > 0xffff && final(bytes)@ == old(
                bytes,
            )@,
        },
        final(bytes)@.len() == old(bytes)@.len(),
{
    let length: usize = bytes.len() - 20 + trailing;
    if length > 0xffff {
        return Err(MessageTooLarge);
    }
    let ghost before = bytes@;
    bytes.set(2, (length / 256) as u8);
    bytes.set(3, (length % 256) as u8);
    proof {
        reveal_with_fuel(be_bytes, 3);
        lemma_be_len(length as nat, 2);
    }
    assert(bytes@ =~= with_length(before, length as int));
    Ok(())
}

// ---------------------------------------------------------------------------
// Attributes of TURN
// ---------------------------------------------------------------------------

/// The message that an integrity tag at an index covers: all before it, with
/// the length field that ends at the tag.
pub open spec fn signed_part(packet: Seq<u8>, at: int) -> Seq<u8> {
    with_length(packet.take(at), at + 4)
}

/// Whether a message carries the right integrity tag for a key.
pub open spec fn integrity_spec(
    packet: Seq<u8>,
    spans: Seq<AttributeSpan>,
    key: Option<Seq<u8>>,
) -> bool {
    match (key, attribute_spec(spans, ATTR_MESSAGE_INTEGRITY)) {
        (Some(key), Some(span)) => {
            &&& span.len == 20
            &&& span.header_start >= 20
            &&& span.header_start + 4 <= 0xffff
            &&& hmac_sha1_of(key, signed_part(packet, span.header_start as int)) == span.value(
                packet,
            )
        },
        _ => false,
    }
}

/// The view of a key, if there is one.
pub open spec fn key_view(key: Option<[u8; 16]>) -> Option<Seq<u8>> {
    match key {
        Some(k) => Some(k@),
        None => None,
    }
}

pub fn verify_integrity(message: &Message, key: &Option<[u8; 16]>) -> (r: bool)
    requires
        message.wf(),
    ensures
        r == integrity_spec(message.packet@, message.spans@, key_view(*key)),
{
    let key = match key {
        Some(key) => key,
        None => {
            return false;
        },
    };
    let span = match message.span(ATTR_MESSAGE_INTEGRITY) {
        Some(span) => span,
        None => {
            return false;
        },
    };
    let value = match message.attribute(ATTR_MESSAGE_INTEGRITY) {
        Some(value) => value,
        None => {
            return false;
        },
    };
    if span.len != 20 || span.header_start < 20 {
        return false;
    }
    if span.header_start > 0xffff - 4 {
        return false;
    }
    let size: usize = message.packet.len();
    proof {
        assert(size == message.packet@.len());
        crate::client::stun::lemma_attribute_bounds(message, ATTR_MESSAGE_INTEGRITY);
    }
    let mut signed = copy_bytes(vstd::slice::slice_subrange(message.packet, 0, span.header_start));
    let length: usize = span.header_start + 4;
    let ghost before = signed@;
    signed.set(2, (length / 256) as u8);
    signed.set(3, (length % 256) as u8);
    proof {
        reveal_with_fuel(be_bytes, 3);
        lemma_be_len(length as nat, 2);
    }
    assert(before =~= message.packet@.take(span.header_start as int));
    assert(signed@ =~= signed_part(message.packet@, span.header_start as int));
    hmac_sha1_verify(key, signed.as_slice(), value)
}

/// The code of an error response: class and number of its ERROR-CODE attribute.
pub open spec fn error_code_spec(packet: Seq<u8>, spans: Seq<AttributeSpan>) -> Option<u16> {
    match value_spec(packet, spans, ATTR_ERROR_CODE) {
        Some(v) => if v.len() < 4 || v[2] > 6 || v[3] > 99 {
            None
        } else {
            Some((v[2] * 100 + v[3]) as u16)
        },
        None => None,
    }
}

pub fn error_code(message: &Message) -> (r: Option<u16>)
    requires
        message.wf(),
    ensures
        r == error_code_spec(message.packet@, message.spans@),
{
    match message.attribute(ATTR_ERROR_CODE) {
        Some(v) => {
            if v.len() < 4 || v[2] > 6 || v[3] > 99 {
                None
            } else {
                Some(v[2] as u16 * 100 + v[3] as u16)
            }
        },
        None => None,
    }
}

/// Responses whose sender must prove that it knows the key.
pub open spec fn requires_integrity_spec(packet: Seq<u8>, spans: Seq<AttributeSpan>) -> bool {
    match class_spec(packet) {
        Class::Success => true,
        Class::Error => match error_code_spec(packet, spans) {
            Some(code) => code != 400 && code != 401 && code != 420 && code != 438,
            None => true,
        },
        _ => false,
    }
}

pub fn response_requires_integrity(message: &Message) -> (r: bool)
    requires
        message.wf(),
    ensures
        r == requires_integrity_spec(message.packet@, message.spans@),
{
    match message.class() {
        Class::Success => true,
        Class::Error => match error_code(message) {
            Some(code) => code != 400 && code != 401 && code != 420 && code != 438,
            None => true,
        },
        _ => false,
    }
}

/// An allocation mismatch that at least its fingerprint vouches for.
pub open spec fn fingerprinted_mismatch_spec(packet: Seq<u8>, spans: Seq<AttributeSpan>) -> bool {
    &&& class_spec(packet) == Class::Error
    &&& error_code_spec(packet, spans) == Some(437u16)
    &&& fingerprint_spec(packet, spans) == Some(true)
}

pub fn is_fingerprinted_allocation_mismatch(message: &Message) -> (r: bool)
    requires
        message.wf(),
    ensures
        r == fingerprinted_mismatch_spec(message.packet@, message.spans@),
{
    let class = message.class();
    let code = error_code(message);
    let fingerprint = message.fingerprint_valid();
    class == Class::Error && (match code {
        Some(code) => code == 437,
        None => false,
    }) && (match fingerprint {
        Some(valid) => valid,
        None => false,
    })
}

/// A four-byte attribute as a number.
pub open spec fn attribute_u32_spec(
    packet: Seq<u8>,
    spans: Seq<AttributeSpan>,
    kind: u16,
) -> Option<u32> {
    match value_spec(packet, spans, kind) {
        Some(v) => if v.len() == 4 {
            Some(be32(v, 0) as u32)
        } else {
            None
        },
        None => None,
    }
}

pub fn attribute_u32(message: &Message, kind: u16) -> (r: Option<u32>)
    requires
        message.wf(),
    ensures
        r == attribute_u32_spec(message.packet@, message.spans@, kind),
{
    match message.attribute(kind) {
        Some(v) => {
            if v.len() == 4 {
                Some(read_u32(v, 0))
            } else {
                None
            }
        },
        None => None,
    }
}

// ---------------------------------------------------------------------------
// What was built reads back
// ---------------------------------------------------------------------------

/// Attributes on the wire, in order.
pub open spec fn attrs_bytes(list: Seq<(u16, Seq<u8>)>) -> Seq<u8>
    decreases list.len(),
{
    if list.len() == 0 {
        Seq::empty()
    } else {
        attr_bytes(list[0].0, list[0].1) + attrs_bytes(list.skip(1))
    }
}

/// Every value fits the length field of an attribute.
pub open spec fn values_fit(list: Seq<(u16, Seq<u8>)>) -> bool {
    forall|i: int| 0 <= i < list.len() ==> (#[trigger] list[i]).1.len() <= 0xffff
}

/// The spans are those of the listed attributes.
pub open spec fn spans_match(
    packet: Seq<u8>,
    spans: Seq<AttributeSpan>,
    list: Seq<(u16, Seq<u8>)>,
) -> bool {
    &&& spans.len() == list.len()
    &&& forall|i: int|
        0 <= i < list.len() ==> (#[trigger] spans[i]).kind == list[i].0 && spans[i].value(packet)
            == list[i].1
}

proof fn lemma_attr_len(kind: u16, value: Seq<u8>)
    ensures
        attr_bytes(kind, value).len() == 4 + padded(value.len() as int),
        attr_bytes(kind, value).len() % 4 == 0,
{
    lemma_be_len(kind as nat, 2);
    lemma_be_len(value.len() % 0x1_0000, 2);
}

/// Appending an attribute appends its bytes.
pub proof fn lemma_attrs_push(list: Seq<(u16, Seq<u8>)>, last: (u16, Seq<u8>))
    ensures
        attrs_bytes(list.push(last)) == attrs_bytes(list) + attr_bytes(last.0, last.1),
    decreases list.len(),
{
    reveal_with_fuel(attrs_bytes, 2);
    if list.len() == 0 {
        assert(list.push(last).skip(1) =~= Seq::empty());
        assert(attrs_bytes(list.push(last)) =~= attrs_bytes(list) + attr_bytes(last.0, last.1));
    } else {
        assert(list.push(last).skip(1) =~= list.skip(1).push(last));
        lemma_attrs_push(list.skip(1), last);
        assert(attrs_bytes(list.push(last)) =~= attrs_bytes(list) + attr_bytes(last.0, last.1));
    }
}

#[verifier::spinoff_prover]
#[verifier::rlimit(40)]
proof fn lemma_spans_of(head: Seq<u8>, list: Seq<(u16, Seq<u8>)>)
    requires
        values_fit(list),
        (head + attrs_bytes(list)).len() <= 0x1_0013,
    ensures
        ({
            let packet = head + attrs_bytes(list);
            &&& spans_from(packet, head.len() as int) is Some
            &&& spans_match(packet, spans_from(packet, head.len() as int)->0, list)
            &&& list.len() > 0 ==> spans_from(packet, head.len() as int)->0.last().header_start + 4
                + padded(list.last().1.len() as int) == packet.len()
        }),
    decreases list.len(),
{
    let packet = head + attrs_bytes(list);
    let at = head.len() as int;
    if list.len() == 0 {
        assert(packet =~= head);
    } else {
        let (kind, value) = list[0];
        let one = attr_bytes(kind, value);
        let rest = list.skip(1);
        lemma_attr_len(kind, value);
        lemma_range_values();
        law_be_round_trip(kind as nat, 2);
        law_be_round_trip(value.len(), 2);
        assert(list[0].1.len() <= 0xffff);
        assert(packet =~= (head + one) + attrs_bytes(rest));
        assert(packet.subrange(at, at + 2) =~= be_bytes(kind as nat, 2));
        assert(packet.subrange(at + 2, at + 4) =~= be_bytes(value.len() % 0x1_0000, 2));
        assert(packet.subrange(at + 4, at + 4 + value.len()) =~= value);
        assert forall|i: int| 0 <= i < rest.len() implies (#[trigger] rest[i]).1.len()
            <= 0xffff by {
            assert(list[i + 1].1.len() <= 0xffff);
        }
        lemma_spans_of(head + one, rest);
        let tail = spans_from(packet, at + 4 + padded(value.len() as int))->0;
        let all = spans_from(packet, at)->0;
        assert(spans_match(packet, tail, rest));
        assert forall|i: int| 0 <= i < list.len() implies (#[trigger] all[i]).kind == list[i].0
            && all[i].value(packet) == list[i].1 by {
            if i > 0 {
                assert(all[i] == tail[i - 1]);
                assert(rest[i - 1] == list[i]);
            }
        }
        if rest.len() > 0 {
            assert(all.last() == tail.last());
            assert(rest.last() == list.last());
        }
    }
}

proof fn lemma_first_where(spans: Seq<AttributeSpan>, kind: u16, i: int)
    requires
        0 <= i < spans.len(),
        spans[i].kind == kind,
        forall|k: int| 0 <= k < i ==> (#[trigger] spans[k]).kind != kind,
    ensures
        attribute_spec(spans, kind) == Some(spans[i]),
    decreases i,
{
    if i > 0 {
        assert(spans[0].kind != kind);
        assert forall|k: int| 0 <= k < i - 1 implies (#[trigger] spans.skip(1)[k]).kind != kind by {
            assert(spans[k + 1].kind != kind);
        }
        lemma_first_where(spans.skip(1), kind, i - 1);
        lemma_first_bound(spans.skip(1), kind);
    }
}

proof fn lemma_first_bound(spans: Seq<AttributeSpan>, kind: u16)
    ensures
        0 <= first_of(spans, kind) <= spans.len(),
        first_of(spans, kind) < spans.len() ==> spans[first_of(spans, kind)].kind == kind,
        forall|k: int| 0 <= k < first_of(spans, kind) ==> (#[trigger] spans[k]).kind != kind,
    decreases spans.len(),
{
    if spans.len() > 0 && spans[0].kind != kind {
        lemma_first_bound(spans.skip(1), kind);
        assert forall|k: int| 0 <= k < first_of(spans, kind) implies (#[trigger] spans[k]).kind
            != kind by {
            if k > 0 {
                assert(spans[k] == spans.skip(1)[k - 1]);
            }
        }
    }
}

/// A message of a type below 0x4000 that was closed with a fingerprint decodes
/// to the transaction and the attributes that it was built of, in order, with
/// the fingerprint last. Its fingerprint is valid.
pub proof fn law_built_message_decodes(
    kind: u16,
    transaction: Seq<u8>,
    list: Seq<(u16, Seq<u8>)>,
    packet: Seq<u8>,
)
    requires
        kind < 0x4000,
        transaction.len() == 12,
        values_fit(list),
        forall|i: int| 0 <= i < list.len() ==> (#[trigger] list[i]).0 != ATTR_FINGERPRINT,
        finish_spec(start_spec(kind, transaction) + attrs_bytes(list)) == Some(packet),
    ensures
        ({
            let spans = decode_spec(packet)->Ok_0;
            let value = spans.last().value(packet);
            &&& decode_spec(packet) is Ok
            &&& transaction_spec(packet) == transaction
            &&& be16(packet, 0) == kind
            &&& spans_match(packet, spans, list.push((ATTR_FINGERPRINT, value)))
            &&& fingerprint_spec(packet, spans) == Some(true)
        }),
{
    lemma_open_parts(kind, transaction, list);
    lemma_closed_decodes(
        kind,
        transaction,
        list,
        start_spec(kind, transaction) + attrs_bytes(list),
        packet,
    );
}

/// The parts of a message before it is closed.
proof fn lemma_open_parts(kind: u16, transaction: Seq<u8>, list: Seq<(u16, Seq<u8>)>)
    requires
        transaction.len() == 12,
    ensures
        ({
            let bytes = start_spec(kind, transaction) + attrs_bytes(list);
            &&& bytes.len() == 20 + attrs_bytes(list).len()
            &&& bytes.take(2) == be_bytes(kind as nat, 2)
            &&& bytes.subrange(4, 8) == be_bytes(MAGIC_COOKIE as nat, 4)
            &&& bytes.subrange(8, 20) == transaction
            &&& bytes.skip(20) == attrs_bytes(list)
        }),
{
    let bytes = start_spec(kind, transaction) + attrs_bytes(list);
    lemma_be_len(kind as nat, 2);
    lemma_be_len(0, 2);
    lemma_be_len(MAGIC_COOKIE as nat, 4);
    assert(bytes.take(2) =~= be_bytes(kind as nat, 2));
    assert(bytes.subrange(4, 8) =~= be_bytes(MAGIC_COOKIE as nat, 4));
    assert(bytes.subrange(8, 20) =~= transaction);
    assert(bytes.skip(20) =~= attrs_bytes(list));
}

/// The parts of a message that its integrity tag has been added to.
proof fn lemma_signed_parts(bytes: Seq<u8>, length: int, list: Seq<(u16, Seq<u8>)>, tag: Seq<u8>)
    requires
        bytes.len() >= 20,
        bytes.skip(20) == attrs_bytes(list),
    ensures
        ({
            let b = with_length(bytes, length);
            let signed = b + attr_bytes(ATTR_MESSAGE_INTEGRITY, tag);
            let full = list.push((ATTR_MESSAGE_INTEGRITY, tag));
            &&& b.len() == bytes.len()
            &&& signed.take(2) == bytes.take(2)
            &&& signed.subrange(4, 8) == bytes.subrange(4, 8)
            &&& signed.subrange(8, 20) == bytes.subrange(8, 20)
            &&& signed.skip(20) == attrs_bytes(full)
            &&& signed.len() == 20 + attrs_bytes(full).len()
            &&& signed.len() == bytes.len() + 4 + padded(tag.len() as int)
        }),
{
    let b = with_length(bytes, length);
    let signed = b + attr_bytes(ATTR_MESSAGE_INTEGRITY, tag);
    let full = list.push((ATTR_MESSAGE_INTEGRITY, tag));
    lemma_be_len(length as nat, 2);
    lemma_attrs_push(list, (ATTR_MESSAGE_INTEGRITY, tag));
    lemma_attr_len(ATTR_MESSAGE_INTEGRITY, tag);
    assert(signed.take(2) =~= bytes.take(2));
    assert(signed.subrange(4, 8) =~= bytes.subrange(4, 8));
    assert(signed.subrange(8, 20) =~= bytes.subrange(8, 20));
    assert(b.skip(20) =~= bytes.skip(20));
    assert(signed.skip(20) =~= b.skip(20) + attr_bytes(ATTR_MESSAGE_INTEGRITY, tag));
}

proof fn lemma_closed_decodes(
    kind: u16,
    transaction: Seq<u8>,
    list: Seq<(u16, Seq<u8>)>,
    bytes: Seq<u8>,
    packet: Seq<u8>,
)
    requires
        kind < 0x4000,
        transaction.len() == 12,
        values_fit(list),
        forall|i: int| 0 <= i < list.len() ==> (#[trigger] list[i]).0 != ATTR_FINGERPRINT,
        bytes.len() == 20 + attrs_bytes(list).len(),
        bytes.take(2) == be_bytes(kind as nat, 2),
        bytes.subrange(4, 8) == be_bytes(MAGIC_COOKIE as nat, 4),
        bytes.subrange(8, 20) == transaction,
        bytes.skip(20) == attrs_bytes(list),
        finish_spec(bytes) == Some(packet),
    ensures
        ({
            let spans = decode_spec(packet)->Ok_0;
            let value = spans.last().value(packet);
            &&& decode_spec(packet) is Ok
            &&& transaction_spec(packet) == transaction
            &&& be16(packet, 0) == kind
            &&& spans_match(packet, spans, list.push((ATTR_FINGERPRINT, value)))
            &&& fingerprint_spec(packet, spans) == Some(true)
            &&& spans.last().header_start == bytes.len()
        }),
{
    let length = length_with(bytes, 8);
    let b = with_length(bytes, length);
    let value = fingerprint_at(b, b.len() as int);
    let full = list.push((ATTR_FINGERPRINT, value));
    let head = packet.take(20);
    lemma_range_values();
    lemma_be_len((crc32_of(b.take(b.len() as int)) ^ FINGERPRINT_XOR) as nat, 4);
    lemma_be_len(length as nat, 2);
    law_be_round_trip(kind as nat, 2);
    law_be_round_trip(length as nat, 2);
    law_be_round_trip(MAGIC_COOKIE as nat, 4);
    lemma_attr_len(ATTR_FINGERPRINT, value);
    lemma_attrs_push(list, (ATTR_FINGERPRINT, value));
    lemma_attrs_mod(list);
    assert(b.len() == bytes.len());
    assert(packet.len() == bytes.len() + 8);
    assert(packet.subrange(0, 2) =~= be_bytes(kind as nat, 2)) by {
        assert(bytes.take(2).len() == 2);
    }
    assert(packet.subrange(2, 4) =~= be_bytes(length as nat, 2));
    assert(packet.subrange(4, 8) =~= bytes.subrange(4, 8));
    assert(packet.subrange(8, 20) =~= bytes.subrange(8, 20));
    assert(packet =~= head + attrs_bytes(full)) by {
        assert(b.skip(20) =~= bytes.skip(20));
    }
    assert forall|i: int| 0 <= i < full.len() implies (#[trigger] full[i]).1.len() <= 0xffff by {
        if i < list.len() {
            assert(full[i] == list[i]);
        }
    }
    lemma_spans_of(head, full);
    let spans = spans_from(packet, 20)->0;
    assert(packet[0] < 64) by {
        reveal_with_fuel(be_bytes, 3);
        assert(packet[0] == packet.subrange(0, 2)[0]);
    }
    assert(decode_spec(packet) == Ok::<Seq<AttributeSpan>, DecodeError>(spans));
    assert(spans.last().kind == full.last().0);
    assert(spans.last().value(packet) == value);
    assert(spans.last().header_start == bytes.len());
    assert forall|k: int| 0 <= k < spans.len() - 1 implies (#[trigger] spans[k]).kind
        != ATTR_FINGERPRINT by {
        assert(full[k] == list[k]);
    }
    lemma_first_where(spans, ATTR_FINGERPRINT, spans.len() - 1);
    assert(packet.take(b.len() as int) =~= b.take(b.len() as int));
}

proof fn lemma_attrs_mod(list: Seq<(u16, Seq<u8>)>)
    ensures
        attrs_bytes(list).len() % 4 == 0,
    decreases list.len(),
{
    if list.len() > 0 {
        lemma_attr_len(list[0].0, list[0].1);
        lemma_attrs_mod(list.skip(1));
    }
}

/// A message that was closed with an integrity tag under a key passes the
/// integrity check for that key, and its fingerprint is valid, as every tag has
/// twenty bytes.
pub proof fn law_signed_message_verifies(
    kind: u16,
    transaction: Seq<u8>,
    list: Seq<(u16, Seq<u8>)>,
    key: Seq<u8>,
    packet: Seq<u8>,
)
    requires
        kind < 0x4000,
        transaction.len() == 12,
        values_fit(list),
        forall|i: int|
            0 <= i < list.len() ==> (#[trigger] list[i]).0 != ATTR_FINGERPRINT && list[i].0
                != ATTR_MESSAGE_INTEGRITY,
    ensures
        ({
            let bytes = start_spec(kind, transaction) + attrs_bytes(list);
            let tag = hmac_sha1_of(key, with_length(bytes, length_with(bytes, 24)));
            finish_authenticated_spec(bytes, key) == Some(packet) && tag.len() == 20 ==> {
                &&& decode_spec(packet) is Ok
                &&& transaction_spec(packet) == transaction
                &&& integrity_spec(packet, decode_spec(packet)->Ok_0, Some(key))
                &&& fingerprint_spec(packet, decode_spec(packet)->Ok_0) == Some(true)
            }
        }),
{
    let bytes = start_spec(kind, transaction) + attrs_bytes(list);
    let b = with_length(bytes, length_with(bytes, 24));
    let tag = hmac_sha1_of(key, b);
    if finish_authenticated_spec(bytes, key) == Some(packet) && tag.len() == 20 {
        lemma_open_parts(kind, transaction, list);
        lemma_signed_decodes(kind, transaction, list, bytes, tag, packet);
        let spans = decode_spec(packet)->Ok_0;
        let at = list.len() as int;
        lemma_first_where(spans, ATTR_MESSAGE_INTEGRITY, at);
        lemma_signed_prefix(bytes, tag, packet);
    }
}

/// A signed message says what was written into it: it is of its type, and each
/// attribute is found under its number, the first of those that share one.
pub proof fn law_signed_message_says(
    kind: u16,
    transaction: Seq<u8>,
    list: Seq<(u16, Seq<u8>)>,
    key: Seq<u8>,
    packet: Seq<u8>,
)
    requires
        kind < 0x4000,
        transaction.len() == 12,
        values_fit(list),
        forall|i: int|
            0 <= i < list.len() ==> (#[trigger] list[i]).0 != ATTR_FINGERPRINT && list[i].0
                != ATTR_MESSAGE_INTEGRITY,
        ({
            let bytes = start_spec(kind, transaction) + attrs_bytes(list);
            let tag = hmac_sha1_of(key, with_length(bytes, length_with(bytes, 24)));
            finish_authenticated_spec(bytes, key) == Some(packet) && tag.len() == 20
        }),
    ensures
        packet.len() >= 20,
        be16(packet, 0) == kind,
        packet.subrange(8, 20) == transaction,
        decode_spec(packet) is Ok,
        forall|i: int|
            #![trigger list[i]]
            0 <= i < list.len() && (forall|k: int| 0 <= k < i ==> (#[trigger] list[k]).0 != list[i].0)
                ==> value_spec(packet, decode_spec(packet)->Ok_0, list[i].0) == Some(list[i].1),
{
    let bytes = start_spec(kind, transaction) + attrs_bytes(list);
    let tag = hmac_sha1_of(key, with_length(bytes, length_with(bytes, 24)));
    lemma_open_parts(kind, transaction, list);
    lemma_signed_decodes(kind, transaction, list, bytes, tag, packet);
    let spans = decode_spec(packet)->Ok_0;
    assert forall|i: int|
        #![trigger list[i]]
        0 <= i < list.len() && (forall|k: int| 0 <= k < i ==> (#[trigger] list[k]).0 != list[i].0)
            implies value_spec(packet, spans, list[i].0) == Some(list[i].1) by {
        assert(spans[i].kind == list[i].0);
        assert forall|k: int| 0 <= k < i implies (#[trigger] spans[k]).kind != list[i].0 by {
            assert(list[k].0 != list[i].0);
        }
        lemma_first_where(spans, list[i].0, i);
    }
}

/// Undoing the closing of a message in the part that its tag covers.
proof fn lemma_signed_prefix(bytes: Seq<u8>, tag: Seq<u8>, packet: Seq<u8>)
    requires
        bytes.len() >= 20,
        tag.len() == 20,
        finish_spec(
            with_length(bytes, length_with(bytes, 24)) + attr_bytes(ATTR_MESSAGE_INTEGRITY, tag),
        ) == Some(packet),
    ensures
        signed_part(packet, bytes.len() as int) == with_length(bytes, length_with(bytes, 24)),
        bytes.len() + 4 <= 0xffff,
{
    let b = with_length(bytes, length_with(bytes, 24));
    let signed = b + attr_bytes(ATTR_MESSAGE_INTEGRITY, tag);
    let last = length_with(signed, 8);
    lemma_attr_len(ATTR_MESSAGE_INTEGRITY, tag);
    lemma_be_len(length_with(bytes, 24) as nat, 2);
    lemma_be_len(last as nat, 2);
    lemma_be_len((bytes.len() + 4) as nat, 2);
    assert(b.len() == bytes.len());
    let c = with_length(signed, last);
    assert(c.len() == signed.len());
    assert(packet.take(bytes.len() as int) =~= c.take(bytes.len() as int));
    assert(signed_part(packet, bytes.len() as int) =~= b);
}

/// A signed and closed message decodes, and its tag stands right after what
/// it covers.
proof fn lemma_signed_decodes(
    kind: u16,
    transaction: Seq<u8>,
    list: Seq<(u16, Seq<u8>)>,
    bytes: Seq<u8>,
    tag: Seq<u8>,
    packet: Seq<u8>,
)
    requires
        kind < 0x4000,
        transaction.len() == 12,
        values_fit(list),
        tag.len() == 20,
        forall|i: int|
            0 <= i < list.len() ==> (#[trigger] list[i]).0 != ATTR_FINGERPRINT && list[i].0
                != ATTR_MESSAGE_INTEGRITY,
        bytes.len() == 20 + attrs_bytes(list).len(),
        bytes.take(2) == be_bytes(kind as nat, 2),
        bytes.subrange(4, 8) == be_bytes(MAGIC_COOKIE as nat, 4),
        bytes.subrange(8, 20) == transaction,
        bytes.skip(20) == attrs_bytes(list),
        finish_spec(
            with_length(bytes, length_with(bytes, 24)) + attr_bytes(ATTR_MESSAGE_INTEGRITY, tag),
        ) == Some(packet),
    ensures
        decode_spec(packet) is Ok,
        transaction_spec(packet) == transaction,
        fingerprint_spec(packet, decode_spec(packet)->Ok_0) == Some(true),
        decode_spec(packet)->Ok_0.len() > list.len(),
        ({
            let spans = decode_spec(packet)->Ok_0;
            let span = spans[list.len() as int];
            &&& span.kind == ATTR_MESSAGE_INTEGRITY
            &&& span.value(packet) == tag
            &&& span.len == 20
            &&& span.header_start == bytes.len()
            &&& forall|k: int|
                0 <= k < list.len() ==> (#[trigger] spans[k]).kind != ATTR_MESSAGE_INTEGRITY
            &&& forall|k: int|
                0 <= k < list.len() ==> (#[trigger] spans[k]).kind == list[k].0
                    && spans[k].value(packet) == list[k].1
        }),
        be16(packet, 0) == kind,
        packet.len() >= 20,
{
    let b = with_length(bytes, length_with(bytes, 24));
    let signed = b + attr_bytes(ATTR_MESSAGE_INTEGRITY, tag);
    let full = list.push((ATTR_MESSAGE_INTEGRITY, tag));
    lemma_signed_parts(bytes, length_with(bytes, 24), list, tag);
    assert forall|i: int| 0 <= i < full.len() implies (#[trigger] full[i]).1.len() <= 0xffff
        && full[i].0 != ATTR_FINGERPRINT by {
        if i < list.len() {
            assert(full[i] == list[i]);
        }
    }
    lemma_closed_decodes(kind, transaction, full, signed, packet);
    let spans = decode_spec(packet)->Ok_0;
    let closed = full.push((ATTR_FINGERPRINT, spans.last().value(packet)));
    let at = list.len() as int;
    assert(spans[at].kind == closed[at].0);
    assert(closed[at] == full[at]);
    assert forall|k: int| 0 <= k < at implies (#[trigger] spans[k]).kind
        != ATTR_MESSAGE_INTEGRITY && spans[k].kind == list[k].0 && spans[k].value(packet)
        == list[k].1 by {
        assert(closed[k] == list[k]);
    }
    let span = spans[at];
    assert(spans.last() == spans[at + 1]);
    lemma_be_bound(packet.subrange(2, 4));
    lemma_range_values();
    crate::client::stun::lemma_decoded_bounds(packet);
    lemma_consecutive(packet, 20, spans, at);
    assert(span.value(packet).len() == 20);
    assert(span.header_start + 4 + padded(span.len as int) == spans[at + 1].header_start);
}

/// Consecutive attributes touch: one ends where the next begins.
proof fn lemma_consecutive(packet: Seq<u8>, at: int, spans: Seq<AttributeSpan>, i: int)
    requires
        0 <= at <= packet.len() <= 0x1_0013,
        spans_from(packet, at) == Some(spans),
        0 <= i < spans.len() - 1,
    ensures
        spans[i].header_start + 4 + padded(spans[i].len as int) == spans[i + 1].header_start,
    decreases i,
{
    let len = be16(packet, at + 2) as int;
    let next = at + 4 + padded(len);
    let rest = spans_from(packet, next)->0;
    lemma_be_bound(packet.subrange(at + 2, at + 4));
    lemma_range_values();
    assert(spans[i + 1] == rest[i]);
    if i > 0 {
        assert(spans[i] == rest[i - 1]);
        lemma_consecutive(packet, next, rest, i - 1);
    } else {
        assert(rest[0].header_start == next);
    }
}

/// An error is its hundreds in the third byte of its attribute and the rest in the
/// fourth, and nothing else is one.
pub proof fn law_error_code_is_read(packet: Seq<u8>, spans: Seq<AttributeSpan>, value: Seq<u8>)
    requires
        value_spec(packet, spans, 0x0009) == Some(value),
    ensures
        value.len() >= 4 && value[2] <= 6 && value[3] <= 99 ==> error_code_spec(packet, spans)
            == Some((value[2] * 100 + value[3]) as u16),
        value.len() < 4 || value[2] > 6 || value[3] > 99 ==> error_code_spec(packet, spans) is None,
{
}

/// An answer that says that something succeeded, or that fails for good, must be
/// signed; one that only asks for credentials or finds fault with the question need
/// not be.
pub proof fn law_weighty_answers_are_signed(packet: Seq<u8>, spans: Seq<AttributeSpan>, code: u16)
    requires
        error_code_spec(packet, spans) == Some(code),
    ensures
        class_spec(packet) == Class::Success ==> requires_integrity_spec(packet, spans),
        class_spec(packet) == Class::Error && (code == 400 || code == 401 || code == 420 || code
            == 438) ==> !requires_integrity_spec(packet, spans),
        class_spec(packet) == Class::Error && (code == 437 || code == 441 || code == 486 || code
            == 403 || code == 500) ==> requires_integrity_spec(packet, spans),
{
}

/// An address of the older kind is its port and its four bytes, each under its part
/// of the cookie.
pub proof fn law_masked_address_is_read(value: Seq<u8>, transaction: Seq<u8>)
    requires
        value.len() == 8,
        value[0] == 0,
        value[1] == 1,
    ensures
        ({
            let port = (value[2] * 0x100 + value[3]) as u16;
            let ip = (value[4] * 0x100_0000 + value[5] * 0x1_0000 + value[6] * 0x100
                + value[7]) as u32;
            decode_xor_spec(value, transaction) == Ok::<SocketAddress, XorAddressError>(
                SocketAddress::plain(IpAddress::V4(ip ^ 0x2112_a442u32), port ^ 0x2112u16),
            )
        }),
{
    crate::wire::law_network_order(value, 2);
    crate::wire::law_network_order(value, 4);
}

/// A tag is right where it is the tag of all that stands before it, with the length
/// that the message had when it ended with the tag; without a key none is.
pub proof fn law_tag_covers_what_stands_before(
    packet: Seq<u8>,
    spans: Seq<AttributeSpan>,
    span: AttributeSpan,
    key: Seq<u8>,
)
    requires
        attribute_spec(spans, 0x0008) == Some(span),
        span.len == 20,
        20 <= span.header_start <= 0xfff0,
        packet.len() >= span.header_start + 24,
    ensures
        integrity_spec(packet, spans, Some(key)) <==> hmac_sha1_of(
            key,
            packet.take(2) + be_bytes((span.header_start + 4) as nat, 2) + packet.subrange(
                4,
                span.header_start as int,
            ),
        ) == packet.subrange(span.header_start + 4, span.header_start + 24),
        !integrity_spec(packet, spans, None),
{
    let at = span.header_start as int;
    assert(packet.take(at).take(2) =~= packet.take(2));
    assert(packet.take(at).skip(4) =~= packet.subrange(4, at));
}

} // verus!
