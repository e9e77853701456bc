//! The STUN message format: decoding, building, fingerprint and integrity.

use vstd::prelude::*;
use hmac::Mac;
use md5::Digest;
use crate::wire::{
    be16, be32, be_bytes, lemma_be_bound, lemma_range_values, push_u32, read_u16, read_u32,
    same_bytes,
};

verus! {

pub const ATTR_USERNAME: u16 = 0x0006;
pub const ATTR_MESSAGE_INTEGRITY: u16 = 0x0008;
pub const ATTR_ERROR_CODE: u16 = 0x0009;
pub const ATTR_CHANNEL_NUMBER: u16 = 0x000c;
pub const ATTR_LIFETIME: u16 = 0x000d;
pub const ATTR_XOR_PEER_ADDRESS: u16 = 0x0012;
pub const ATTR_REALM: u16 = 0x0014;
pub const ATTR_NONCE: u16 = 0x0015;
pub const ATTR_XOR_RELAYED_ADDRESS: u16 = 0x0016;
pub const ATTR_REQUESTED_ADDRESS_FAMILY: u16 = 0x0017;
pub const ATTR_REQUESTED_TRANSPORT: u16 = 0x0019;
pub const ATTR_FINGERPRINT: u16 = 0x8028;
pub const MAGIC_COOKIE: u32 = 0x2112_a442;
pub const FINGERPRINT_XOR: u32 = 0x5354_554e;

// ---------------------------------------------------------------------------
// Digests
// ---------------------------------------------------------------------------

/// The MD5 digest of a byte string, as `md5::Md5::digest` computes it.
pub uninterp spec fn md5_of(data: Seq<u8>) -> Seq<u8>;

/// The HMAC-SHA1 tag of a byte string under a key, as `hmac::Hmac<sha1::Sha1>`
/// computes it.
pub uninterp spec fn hmac_sha1_of(key: Seq<u8>, data: Seq<u8>) -> Seq<u8>;

/// The CRC-32 checksum of a byte string, as `crc32fast::hash` computes it.
pub uninterp spec fn crc32_of(data: Seq<u8>) -> u32;

/// Calls `md5::Md5::digest`; the result is its digest of the whole slice.
#[verifier::external_body]
pub(crate) fn md5_digest(data: &[u8]) -> (r: [u8; 16])
    ensures
        r@ == md5_of(data@),
{
    md5::Md5::digest(data).into()
}

/// Calls `hmac::Hmac<sha1::Sha1>`: keyed, fed the whole slice, finalized. Every
/// key of sixteen bytes is accepted. The tag has twenty bytes.
#[verifier::external_body]
pub(crate) fn hmac_sha1(key: &[u8; 16], data: &[u8]) -> (r: [u8; 20])
    ensures
        r@ == hmac_sha1_of(key@, data@),
{
    let mut mac = hmac::Hmac::<sha1::Sha1>::new_from_slice(key).expect("a key of any length");
    mac.update(data);
    mac.finalize().into_bytes().into()
}

/// Calls `Mac::verify_slice` of `hmac::Hmac<sha1::Sha1>`: true exactly when the
/// given tag is the whole tag of the data.
#[verifier::external_body]
pub(crate) fn hmac_sha1_verify(key: &[u8; 16], data: &[u8], tag: &[u8]) -> (r: bool)
    ensures
        r == (hmac_sha1_of(key@, data@) == tag@),
{
    let mut mac = hmac::Hmac::<sha1::Sha1>::new_from_slice(key).expect("a key of any length");
    mac.update(data);
    mac.verify_slice(tag).is_ok()
}

/// Calls `crc32fast::hash`; the result is its checksum of the whole slice.
#[verifier::external_body]
pub(crate) fn crc32(data: &[u8]) -> (r: u32)
    ensures
        r == crc32_of(data@),
{
    crc32fast::hash(data)
}

// ---------------------------------------------------------------------------
// Decoding
// ---------------------------------------------------------------------------

/// The class of a message: the two class bits of its type.
#[derive(Clone, Copy, Debug, PartialEq, Eq, Structural)]
pub enum Class {
    Request,
    Indication,
    Success,
    Error,
}

/// Where one attribute stands in a packet: the index of its header, its type
/// and the length of its value.
#[derive(Clone, Copy, Debug, PartialEq, Eq, Structural)]
pub struct AttributeSpan {
    pub kind: u16,
    pub header_start: usize,
    pub len: usize,
}

impl AttributeSpan {
    /// The bytes of the value in the packet.
    pub open spec fn value(self, packet: Seq<u8>) -> Seq<u8> {
        packet.subrange(self.header_start + 4, self.header_start + 4 + self.len)
    }
}

/// Why a packet is not a STUN message.
#[derive(Clone, Copy, Debug, PartialEq, Eq, Structural)]
pub enum DecodeError {
    /// Shorter than a header, or not of the length that the header gives.
    Length,
    /// The two most significant bits or the magic cookie are not those of STUN.
    NotStun,
    /// An attribute runs past the end.
    Attribute,
}

/// The length of a value with its padding.
pub open spec fn padded(len: int) -> int {
    (len + 3) / 4 * 4
}

/// The attributes from an index on, if they end exactly at the end.
pub open spec fn spans_from(packet: Seq<u8>, at: int) -> Option<Seq<AttributeSpan>>
    decreases packet.len() - at,
{
    if at == packet.len() {
        Some(Seq::empty())
    } else if at < 0 || at + 4 > packet.len() {
        None
    } else {
        let len = be16(packet, at + 2) as int;
        if at + 4 + padded(len) > packet.len() {
            None
        } else {
            match spans_from(packet, at + 4 + padded(len)) {
                Some(rest) => Some(
                    seq![
                        AttributeSpan {
                            kind: be16(packet, at) as u16,
                            header_start: at as usize,
                            len: len as usize,
                        },
                    ] + rest,
                ),
                None => None,
            }
        }
    }
}

/// What decoding a packet gives: its attributes, or why it is no message.
pub open spec fn decode_spec(packet: Seq<u8>) -> Result<Seq<AttributeSpan>, DecodeError> {
    if packet.len() < 20 {
        Err(DecodeError::Length)
    } else if packet[0] >= 64 || be32(packet, 4) != MAGIC_COOKIE {
        Err(DecodeError::NotStun)
    } else if packet.len() != 20 + be16(packet, 2) || packet.len() % 4 != 0 {
        Err(DecodeError::Length)
    } else {
        match spans_from(packet, 20) {
            Some(spans) => Ok(spans),
            None => Err(DecodeError::Attribute),
        }
    }
}

/// The class of a packet's message type.
pub open spec fn class_spec(packet: Seq<u8>) -> Class {
    match (packet[0] % 2, packet[1] / 16 % 2) {
        (0u8, 0u8) => Class::Request,
        (0u8, _) => Class::Indication,
        (_, 0u8) => Class::Success,
        (_, _) => Class::Error,
    }
}

/// The method of a packet's message type: the type without its class bits.
pub open spec fn method_spec(packet: Seq<u8>) -> nat {
    (packet[0] as nat / 2) * 128 + (packet[1] as nat / 32) * 16 + packet[1] as nat % 16
}

pub open spec fn transaction_spec(packet: Seq<u8>) -> Seq<u8> {
    packet.subrange(8, 20)
}

/// The index of the first attribute of a type, or the number of attributes.
pub open spec fn first_of(spans: Seq<AttributeSpan>, kind: u16) -> int
    decreases spans.len(),
{
    if spans.len() == 0 || spans[0].kind == kind {
        0
    } else {
        1 + first_of(spans.skip(1), kind)
    }
}

/// The first attribute of a type.
pub open spec fn attribute_spec(spans: Seq<AttributeSpan>, kind: u16) -> Option<AttributeSpan> {
    let i = first_of(spans, kind);
    if 0 <= i < spans.len() {
        Some(spans[i])
    } else {
        None
    }
}

/// The value of the first attribute of a type.
pub open spec fn value_spec(packet: Seq<u8>, spans: Seq<AttributeSpan>, kind: u16) -> Option<
    Seq<u8>,
> {
    match attribute_spec(spans, kind) {
        Some(span) => Some(span.value(packet)),
        None => None,
    }
}

/// The fingerprint that belongs at an index of a packet.
pub open spec fn fingerprint_at(packet: Seq<u8>, at: int) -> Seq<u8> {
    be_bytes((crc32_of(packet.take(at)) ^ FINGERPRINT_XOR) as nat, 4)
}

/// Whether the fingerprint is right, where there is one.
pub open spec fn fingerprint_spec(packet: Seq<u8>, spans: Seq<AttributeSpan>) -> Option<bool> {
    match attribute_spec(spans, ATTR_FINGERPRINT) {
        Some(span) => Some(
            span.header_start + 8 == packet.len() && span.value(packet) == fingerprint_at(
                packet,
                span.header_start as int,
            ),
        ),
        None => None,
    }
}

/// A decoded message: the packet and the places of its attributes.
pub struct Message<'a> {
    pub packet: &'a [u8],
    pub spans: Vec<AttributeSpan>,
}

proof fn lemma_spans_bounds(packet: Seq<u8>, at: int)
    requires
        0 <= at <= packet.len() <= usize::MAX,
        spans_from(packet, at) is Some,
    ensures
        forall|i: int|
            0 <= i < spans_from(packet, at)->0.len() ==> {
                let span = #[trigger] spans_from(packet, at)->0[i];
                &&& at <= span.header_start
                &&& span.header_start + 4 + span.len <= packet.len()
                &&& span.len <= 0xffff
                &&& span.kind as nat == be16(packet, span.header_start as int)
                &&& span.len as nat == be16(packet, span.header_start + 2)
            },
    decreases packet.len() - at,
{
    if at < packet.len() {
        let len = be16(packet, at + 2) as int;
        let rest = spans_from(packet, at + 4 + padded(len));
        lemma_range_values();
        lemma_be_bound(packet.subrange(at, at + 2));
        lemma_be_bound(packet.subrange(at + 2, at + 4));
        lemma_spans_bounds(packet, at + 4 + padded(len));
        assert forall|i: int| 0 <= i < spans_from(packet, at)->0.len() implies ({
            let span = #[trigger] spans_from(packet, at)->0[i];
            &&& at <= span.header_start
            &&& span.header_start + 4 + span.len <= packet.len()
            &&& span.len <= 0xffff
            &&& span.kind as nat == be16(packet, span.header_start as int)
            &&& span.len as nat == be16(packet, span.header_start + 2)
        }) by {
            if i > 0 {
                assert(spans_from(packet, at)->0[i] == rest->0[i - 1]);
            }
        }
    }
}

proof fn lemma_first_of(spans: Seq<AttributeSpan>, kind: u16)
    ensures
        0 <= first_of(spans, kind) <= spans.len(),
        first_of(spans, kind) < spans.len() ==> spans[first_of(spans, kind)].kind == kind,
        forall|k: int| 0 <= k < first_of(spans, kind) ==> (#[trigger] spans[k]).kind != kind,
    decreases spans.len(),
{
    if spans.len() > 0 && spans[0].kind != kind {
        lemma_first_of(spans.skip(1), kind);
        assert forall|k: int| 0 <= k < first_of(spans, kind) implies (#[trigger] spans[k]).kind
            != kind by {
            if k > 0 {
                assert(spans[k] == spans.skip(1)[k - 1]);
            }
        }
    }
}

/// The attribute that a message shows lies inside its packet.
pub proof fn lemma_attribute_bounds(message: &Message, kind: u16)
    requires
        message.wf(),
        message.packet@.len() <= usize::MAX,
    ensures
        attribute_spec(message.spans@, kind) matches Some(span) ==> span.header_start + 4 + span.len
            <= message.packet@.len() && span.len <= 0xffff,
{
    lemma_spans_bounds(message.packet@, 20);
    lemma_first_of(message.spans@, kind);
}

/// The attributes of a packet lie inside it.
pub proof fn lemma_decoded_bounds(packet: Seq<u8>)
    requires
        decode_spec(packet) is Ok,
        packet.len() <= usize::MAX,
    ensures
        forall|i: int|
            0 <= i < decode_spec(packet)->Ok_0.len() ==> (#[trigger] decode_spec(
                packet,
            )->Ok_0[i]).header_start + 4 + decode_spec(packet)->Ok_0[i].len <= packet.len(),
{
    lemma_spans_bounds(packet, 20);
}

impl<'a> Message<'a> {
    /// The message is what its packet decodes to.
    pub open spec fn wf(&self) -> bool {
        decode_spec(self.packet@) == Ok::<Seq<AttributeSpan>, DecodeError>(self.spans@)
    }

    pub fn decode(packet: &'a [u8]) -> (r: Result<Message<'a>, DecodeError>)
        ensures
            match r {
                Ok(m) => m.wf() && m.packet@ == packet@,
                Err(e) => decode_spec(packet@) == Err::<Seq<AttributeSpan>, DecodeError>(e),
            },
    {
        if packet.len() < 20 {
            return Err(DecodeError::Length);
        }
        if packet[0] >= 64 || read_u32(packet, 4) != MAGIC_COOKIE {
            return Err(DecodeError::NotStun);
        }
        if packet.len() != 20 + read_u16(packet, 2) as usize || packet.len() % 4 != 0 {
            return Err(DecodeError::Length);
        }
        let mut spans: Vec<AttributeSpan> = Vec::new();
        let mut at: usize = 20;
        while at < packet.len()
            invariant
                20 <= at <= packet.len(),
                packet.len() <= 0x1_0013,
                decode_spec(packet@) == match spans_from(packet@, 20) {
                    Some(all) => Ok::<Seq<AttributeSpan>, DecodeError>(all),
                    None => Err(DecodeError::Attribute),
                },
                match (spans_from(packet@, 20), spans_from(packet@, at as int)) {
                    (Some(all), Some(rest)) => all == spans@ + rest,
                    (None, None) => true,
                    _ => false,
                },
            decreases packet.len() - at,
        {
            if packet.len() - at < 4 {
                return Err(DecodeError::Attribute);
            }
            let kind: u16 = read_u16(packet, at);
            let len: usize = read_u16(packet, at + 2) as usize;
            let whole: usize = (len + 3) / 4 * 4;
            if packet.len() - at - 4 < whole {
                return Err(DecodeError::Attribute);
            }
            let span = AttributeSpan { kind, header_start: at, len };
            let ghost before = spans@;
            let ghost rest = spans_from(packet@, at + 4 + whole);
            spans.push(span);
            proof {
                if rest is Some {
                    assert(before + (seq![span] + rest->0) =~= spans@ + rest->0);
                }
            }
            at = at + 4 + whole;
        }
        assert(spans@ + Seq::<AttributeSpan>::empty() =~= spans@);
        Ok(Message { packet, spans })
    }

    pub fn class(&self) -> (r: Class)
        requires
            self.wf(),
        ensures
            r == class_spec(self.packet@),
    {
        let a: u8 = self.packet[0] % 2;
        let b: u8 = self.packet[1] / 16 % 2;
        if a == 0 {
            if b == 0 {
                Class::Request
            } else {
                Class::Indication
            }
        } else if b == 0 {
            Class::Success
        } else {
            Class::Error
        }
    }

    pub fn method(&self) -> (r: u16)
        requires
            self.wf(),
        ensures
            r == method_spec(self.packet@),
    {
        let a: u16 = self.packet[0] as u16;
        let b: u16 = self.packet[1] as u16;
        a / 2 * 128 + b / 32 * 16 + b % 16
    }

    pub fn transaction(&self) -> (r: [u8; 12])
        requires
            self.wf(),
        ensures
            r@ == transaction_spec(self.packet@),
    {
        let mut r: [u8; 12] = [0; 12];
        let mut i: usize = 0;
        while i < 12
            invariant
                i <= 12,
                self.packet.len() >= 20,
                forall|k: int| 0 <= k < i ==> r@[k] == self.packet@[8 + k],
            decreases 12 - i,
        {
            r[i] = self.packet[8 + i];
            i = i + 1;
        }
        assert(r@ =~= transaction_spec(self.packet@));
        r
    }

    /// The place of the first attribute of a type.
    pub fn span(&self, kind: u16) -> (r: Option<AttributeSpan>)
        ensures
            r == attribute_spec(self.spans@, kind),
    {
        let mut i: usize = 0;
        proof {
            lemma_first_of(self.spans@, kind);
        }
        while i < self.spans.len()
            invariant
                i <= self.spans.len(),
                forall|k: int| 0 <= k < i ==> (#[trigger] self.spans@[k]).kind != kind,
                0 <= first_of(self.spans@, kind) <= self.spans.len(),
                first_of(self.spans@, kind) < self.spans.len() ==> self.spans@[first_of(
                    self.spans@,
                    kind,
                )].kind == kind,
                forall|k: int|
                    0 <= k < first_of(self.spans@, kind) ==> (#[trigger] self.spans@[k]).kind
                        != kind,
            decreases self.spans.len() - i,
        {
            if self.spans[i].kind == kind {
                return Some(self.spans[i]);
            }
            i = i + 1;
        }
        None
    }

    /// The value of the first attribute of a type.
    pub fn attribute(&self, kind: u16) -> (r: Option<&'a [u8]>)
        requires
            self.wf(),
        ensures
            match r {
                Some(v) => value_spec(self.packet@, self.spans@, kind) == Some(v@),
                None => value_spec(self.packet@, self.spans@, kind) is None,
            },
    {
        let size: usize = self.packet.len();
        proof {
            assert(size == self.packet@.len());
            lemma_spans_bounds(self.packet@, 20);
            lemma_first_of(self.spans@, kind);
        }
        match self.span(kind) {
            Some(span) => Some(
                vstd::slice::slice_subrange(
                    self.packet,
                    span.header_start + 4,
                    span.header_start + 4 + span.len,
                ),
            ),
            None => None,
        }
    }

    pub fn fingerprint_valid(&self) -> (r: Option<bool>)
        requires
            self.wf(),
        ensures
            r == fingerprint_spec(self.packet@, self.spans@),
    {
        let size: usize = self.packet.len();
        proof {
            assert(size == self.packet@.len());
            lemma_spans_bounds(self.packet@, 20);
            lemma_first_of(self.spans@, ATTR_FINGERPRINT);
        }
        match self.span(ATTR_FINGERPRINT) {
            Some(span) => {
                if self.packet.len() - span.header_start != 8 {
                    return Some(false);
                }
                let head = vstd::slice::slice_subrange(self.packet, 0, span.header_start);
                assert(head@ =~= self.packet@.take(span.header_start as int));
                let mut expected: Vec<u8> = Vec::new();
                push_u32(&mut expected, crc32(head) ^ FINGERPRINT_XOR);
                assert(expected@ =~= fingerprint_at(self.packet@, span.header_start as int));
                let value = vstd::slice::slice_subrange(
                    self.packet,
                    span.header_start + 4,
                    span.header_start + 4 + span.len,
                );
                Some(same_bytes(value, expected.as_slice()))
            },
            None => None,
        }
    }
}

/// The type of a message holds the class in two bits of it and the method in the
/// twelve others, in order.
pub proof fn law_type_holds_method_and_class(packet: Seq<u8>, method: u16, class: Class)
    requires
        packet.len() >= 2,
        method < 4096,
        packet[0] == method / 128 * 2 + if class is Success || class is Error {
            1int
        } else {
            0
        },
        packet[1] == method / 16 % 8 * 32 + method % 16 + if class is Indication || class is Error {
            16int
        } else {
            0
        },
    ensures
        class_spec(packet) == class,
        method_spec(packet) == method,
        packet[0] < 64,
{
    let high = (method / 128) as int;
    let middle = (method / 16 % 8) as int;
    let low = (method % 16) as int;
    assert(method == high * 128 + middle * 16 + low);
    assert(packet[0] / 2 == high);
    assert(packet[1] / 32 == middle);
    assert(packet[1] % 16 == low);
}

/// An attribute is its type and its length in two bytes each, its value, and zeros
/// up to the next multiple of four; the next one follows at once.
pub proof fn law_attributes_follow_each_other(packet: Seq<u8>, at: int)
    requires
        0 <= at,
        at + 4 <= packet.len() <= usize::MAX,
    ensures
        ({
            let kind = packet[at] * 256 + packet[at + 1];
            let len = packet[at + 2] * 256 + packet[at + 3];
            let gap = if len % 4 == 0 {
                0
            } else {
                4 - len % 4
            };
            let next = at + 4 + len + gap;
            match spans_from(packet, at) {
                Some(spans) => {
                    &&& next <= packet.len()
                    &&& spans.len() > 0
                    &&& spans[0].kind == kind
                    &&& spans[0].header_start == at
                    &&& spans[0].len == len
                    &&& spans[0].value(packet) == packet.subrange(at + 4, at + 4 + len)
                    &&& spans_from(packet, next) == Some(spans.skip(1))
                },
                None => next > packet.len() || spans_from(packet, next) is None,
            }
        }),
        spans_from(packet, packet.len() as int) == Some(Seq::<AttributeSpan>::empty()),
{
    crate::wire::law_network_order(packet, at);
    crate::wire::law_network_order(packet, at + 2);
    if let Some(spans) = spans_from(packet, at) {
        let next = at + 4 + padded(be16(packet, at + 2) as int);
        let rest = spans_from(packet, next)->0;
        assert(spans.skip(1) =~= rest);
    }
}

/// The first attribute of a type counts, and attributes of other types do not.
pub proof fn law_first_attribute_counts(
    spans: Seq<AttributeSpan>,
    span: AttributeSpan,
    kind: u16,
)
    ensures
        span.kind == kind ==> attribute_spec(seq![span] + spans, kind) == Some(span),
        span.kind != kind ==> attribute_spec(seq![span] + spans, kind) == attribute_spec(
            spans,
            kind,
        ),
        attribute_spec(Seq::empty(), kind) is None,
{
    let all = seq![span] + spans;
    assert(all[0] == span);
    assert(all.skip(1) =~= spans);
    if span.kind != kind {
        let i = first_of(spans, kind);
        if 0 <= i < spans.len() {
            assert(all[i + 1] == spans[i]);
        }
        lemma_first_of_bounds(spans, kind);
    }
}

proof fn lemma_first_of_bounds(spans: Seq<AttributeSpan>, kind: u16)
    ensures
        0 <= first_of(spans, kind) <= spans.len(),
    decreases spans.len(),
{
    if spans.len() > 0 && spans[0].kind != kind {
        lemma_first_of_bounds(spans.skip(1), kind);
    }
}

/// Nothing is a message of STUN that does not carry the cookie behind its length,
/// and that is not exactly as long as it says.
pub proof fn law_foreign_packets_are_refused(packet: Seq<u8>)
    requires
        packet.len() >= 8,
    ensures
        decode_spec(packet) is Ok ==> {
            &&& packet.len() >= 20
            &&& packet[0] < 64
            &&& packet.subrange(4, 8) == seq![0x21u8, 0x12, 0xa4, 0x42]
            &&& packet.len() == 20 + packet[2] * 256 + packet[3]
            &&& packet.len() % 4 == 0
        },
{
    crate::wire::law_network_order(packet, 2);
    crate::wire::law_network_order(packet, 4);
    assert(packet.subrange(4, 8).len() == 4);
    if decode_spec(packet) is Ok {
        assert(packet.subrange(4, 8) =~= seq![0x21u8, 0x12, 0xa4, 0x42]);
    }
}

} // verus!
