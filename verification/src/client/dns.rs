//! Names of hosts: the questions that a client asks, and the answers it reads.

use vstd::prelude::*;
use vstd::utf8::encode_utf8;
use crate::net::{
    ip_spec, parse_ip, parse_socket, socket_spec, IpAddress, SocketAddress,
};
use crate::shared::selective_fec::ascii;
use crate::text::{
    chars_of, copy_text, decimal, decimal_u64, join_texts, joined, pieces, quoted, quoted_of,
    split, split_spec, string_of, string_of_vec, trim_end, trim_end_spec, views, CharClass,
};
use crate::wire::{
    be16, be32, be_bytes, be_value, lemma_be_len, push_u16, read_u128, read_u16, read_u32,
};

verus! {

pub const DNS_A_RECORD: u16 = 1;
pub const DNS_AAAA_RECORD: u16 = 28;
/// How long an answer is waited for, in milliseconds.
pub const DNS_TIMEOUT_MS: u64 = 5_000;
/// The servers that are asked, both at once.
pub const DNS_PRIMARY: u32 = 0x4d58_0808;
pub const DNS_SECONDARY: u32 = 0x4d58_0801;
pub const DNS_PORT: u16 = 53;

/// Why a question cannot be asked, or an answer not be read.
#[derive(Clone, Copy, Debug, PartialEq, Eq, Structural)]
pub enum DnsError {
    InvalidName,
    /// The label of that place is none.
    InvalidLabel(usize),
    TooShort,
    ForeignId,
    NoResponse,
    NeedsTcp,
    Status(u16),
    Question,
    Header,
    Record,
    Name,
    Pointer,
    NameKind,
    CutName,
}

/// A name without the dots at its end.
pub open spec fn bare_name(host: Seq<char>) -> Seq<char> {
    trim_end_spec(host, CharClass::Is('.'))
}

pub open spec fn labels_of(host: Seq<char>) -> Seq<Seq<char>> {
    split_spec(bare_name(host), CharClass::Is('.'))
}

impl DnsError {
    /// What is said of an error in the question for a host, or in its answer.
    pub open spec fn text_spec(self, host: Seq<char>) -> Seq<char> {
        match self {
            DnsError::InvalidName => joined(
                seq!["некорректное DNS-имя "@, quoted_of(bare_name(host))],
            ),
            DnsError::InvalidLabel(i) => joined(
                seq!["некорректная DNS-метка "@, quoted_of(labels_of(host)[i as int])],
            ),
            DnsError::TooShort => "слишком короткий DNS-ответ"@,
            DnsError::ForeignId => "DNS-ответ с чужим идентификатором"@,
            DnsError::NoResponse => "DNS-ответ без флага response"@,
            DnsError::NeedsTcp => "DNS-ответ требует TCP-повторения"@,
            DnsError::Status(status) => joined(
                seq!["DNS-ответ с кодом "@, decimal(status as nat)],
            ),
            DnsError::Question => "повреждён DNS-вопрос"@,
            DnsError::Header => "обрезанный DNS-заголовок"@,
            DnsError::Record => "повреждён DNS resource record"@,
            DnsError::Name => "повреждён DNS name"@,
            DnsError::Pointer => "повреждён DNS compression pointer"@,
            DnsError::NameKind => "некорректный DNS name"@,
            DnsError::CutName => "обрезанный DNS name"@,
        }
    }

    /// What is said of an error in the question for a host, or in its answer.
    pub fn text(self, host: &str) -> (r: String)
        requires
            self matches DnsError::InvalidLabel(i) ==> i < labels_of(host@).len(),
        ensures
            r@ == self.text_spec(host@),
    {
        let text = match self {
            DnsError::InvalidName => {
                let all = chars_of(host);
                let shown = quoted(
                    string_of(trim_end(all.as_slice(), CharClass::Is('.'))).as_str(),
                );
                return two_texts("некорректное DNS-имя ", shown.as_str());
            },
            DnsError::InvalidLabel(i) => {
                let all = chars_of(host);
                let labels = split(
                    trim_end(all.as_slice(), CharClass::Is('.')),
                    CharClass::Is('.'),
                );
                assert(pieces(labels@)[i as int] == labels@[i as int]@);
                let shown = quoted(string_of_vec(&labels[i]).as_str());
                return two_texts("некорректная DNS-метка ", shown.as_str());
            },
            DnsError::TooShort => "слишком короткий DNS-ответ",
            DnsError::ForeignId => "DNS-ответ с чужим идентификатором",
            DnsError::NoResponse => "DNS-ответ без флага response",
            DnsError::NeedsTcp => "DNS-ответ требует TCP-повторения",
            DnsError::Status(status) => {
                let number = string_of_vec(&decimal_u64(status as u64));
                return two_texts("DNS-ответ с кодом ", number.as_str());
            },
            DnsError::Question => "повреждён DNS-вопрос",
            DnsError::Header => "обрезанный DNS-заголовок",
            DnsError::Record => "повреждён DNS resource record",
            DnsError::Name => "повреждён DNS name",
            DnsError::Pointer => "повреждён DNS compression pointer",
            DnsError::NameKind => "некорректный DNS name",
            DnsError::CutName => "обрезанный DNS name",
        };
        copy_text(text)
    }
}

fn two_texts(a: &str, b: &str) -> (r: String)
    ensures
        r@ == joined(seq![a@, b@]),
{
    let parts: [&str; 2] = [a, b];
    assert(views(parts@) =~= seq![a@, b@]);
    join_texts(parts.as_slice())
}

// ---------------------------------------------------------------------------
// Questions
// ---------------------------------------------------------------------------

pub open spec fn is_ascii_text(s: Seq<char>) -> bool {
    forall|i: int| 0 <= i < s.len() ==> (#[trigger] s[i] as u32) < 128
}

/// A label that a name can have.
pub open spec fn label_valid(label: Seq<char>) -> bool {
    1 <= label.len() <= 63 && is_ascii_text(label)
}

/// A label on the wire: its length and its characters.
pub open spec fn label_bytes(label: Seq<char>) -> Seq<u8> {
    seq![label.len() as u8] + ascii(label)
}

pub open spec fn labels_bytes(labels: Seq<Seq<char>>) -> Seq<u8>
    decreases labels.len(),
{
    if labels.len() == 0 {
        Seq::empty()
    } else {
        labels_bytes(labels.drop_last()) + label_bytes(labels.last())
    }
}

pub open spec fn all_valid(labels: Seq<Seq<char>>) -> bool {
    forall|i: int| 0 <= i < labels.len() ==> label_valid(#[trigger] labels[i])
}

/// The first label from a place on that is none; their number where all are.
pub open spec fn first_invalid(labels: Seq<Seq<char>>, from: int) -> int
    decreases labels.len() - from,
{
    if from < 0 || from >= labels.len() {
        labels.len() as int
    } else if label_valid(labels[from]) {
        first_invalid(labels, from + 1)
    } else {
        from
    }
}

proof fn lemma_all_valid(labels: Seq<Seq<char>>, from: int)
    requires
        0 <= from <= labels.len(),
        first_invalid(labels, from) >= labels.len(),
    ensures
        forall|i: int| from <= i < labels.len() ==> label_valid(#[trigger] labels[i]),
    decreases labels.len() - from,
{
    if from < labels.len() {
        lemma_all_valid(labels, from + 1);
    }
}

pub open spec fn question_header(query_id: u16) -> Seq<u8> {
    be_bytes(query_id as nat, 2) + be_bytes(0x0100, 2) + be_bytes(1, 2) + be_bytes(0, 2)
        + be_bytes(0, 2) + be_bytes(0, 2)
}

/// The question for the records of a type under a name.
pub open spec fn query_spec(host: Seq<char>, query_id: u16, record_type: u16) -> Result<
    Seq<u8>,
    DnsError,
> {
    let name = bare_name(host);
    let labels = labels_of(host);
    let wrong = first_invalid(labels, 0);
    if name.len() == 0 || encode_utf8(name).len() > 253 {
        Err(DnsError::InvalidName)
    } else if wrong < labels.len() {
        Err(DnsError::InvalidLabel(wrong as usize))
    } else {
        Ok(
            question_header(query_id) + labels_bytes(labels) + seq![0u8] + be_bytes(
                record_type as nat,
                2,
            ) + be_bytes(1, 2),
        )
    }
}

fn label_ok(label: &[char]) -> (r: bool)
    ensures
        r == label_valid(label@),
{
    if label.len() < 1 || label.len() > 63 {
        return false;
    }
    let mut i: usize = 0;
    while i < label.len()
        invariant
            i <= label@.len(),
            forall|k: int| 0 <= k < i ==> (#[trigger] label@[k] as u32) < 128,
        decreases label@.len() - i,
    {
        if label[i] as u32 >= 128 {
            return false;
        }
        i = i + 1;
    }
    true
}

fn push_label(out: &mut Vec<u8>, label: &[char])
    requires
        label_valid(label@),
    ensures
        final(out)@ == old(out)@ + label_bytes(label@),
{
    let ghost before = out@;
    out.push(label.len() as u8);
    let mut i: usize = 0;
    while i < label.len()
        invariant
            i <= label@.len(),
            label_valid(label@),
            out@ == before + seq![label@.len() as u8] + ascii(label@).take(i as int),
        decreases label@.len() - i,
    {
        assert((label@[i as int] as u32) < 128);
        out.push(label[i] as u8);
        i = i + 1;
        assert(out@ =~= before + seq![label@.len() as u8] + ascii(label@).take(i as int));
    }
    assert(out@ =~= before + label_bytes(label@));
}

pub fn build_query(host: &str, query_id: u16, record_type: u16) -> (r: Result<Vec<u8>, DnsError>)
    ensures
        match r {
            Ok(query) => query_spec(host@, query_id, record_type) == Ok::<Seq<u8>, DnsError>(
                query@,
            ),
            Err(e) => {
                &&& query_spec(host@, query_id, record_type) == Err::<Seq<u8>, DnsError>(e)
                &&& e matches DnsError::InvalidLabel(i) ==> i < labels_of(host@).len()
            },
        },
{
    let all = chars_of(host);
    let name = trim_end(all.as_slice(), CharClass::Is('.'));
    if name.len() == 0 || string_of(name).as_str().as_bytes().len() > 253 {
        return Err(DnsError::InvalidName);
    }
    let mut query: Vec<u8> = Vec::new();
    push_u16(&mut query, query_id);
    push_u16(&mut query, 0x0100);
    push_u16(&mut query, 1);
    push_u16(&mut query, 0);
    push_u16(&mut query, 0);
    push_u16(&mut query, 0);
    assert(query@ =~= question_header(query_id));
    let labels = split(name, CharClass::Is('.'));
    let ghost parts = pieces(labels@);
    let mut i: usize = 0;
    assert(query@ =~= question_header(query_id) + labels_bytes(parts.take(0)));
    while i < labels.len()
        invariant
            i <= labels@.len(),
            parts == pieces(labels@),
            parts == split_spec(name@, CharClass::Is('.')),
            name@ == trim_end_spec(host@, CharClass::Is('.')),
            name@.len() > 0,
            encode_utf8(name@).len() <= 253,
            first_invalid(parts, 0) == first_invalid(parts, i as int),
            query@ == question_header(query_id) + labels_bytes(parts.take(i as int)),
        decreases labels@.len() - i,
    {
        assert(parts[i as int] == labels@[i as int]@);
        assert(parts.take(i + 1).drop_last() =~= parts.take(i as int));
        if !label_ok(labels[i].as_slice()) {
            return Err(DnsError::InvalidLabel(i));
        }
        push_label(&mut query, labels[i].as_slice());
        i = i + 1;
        assert(query@ =~= question_header(query_id) + labels_bytes(parts.take(i as int)));
    }
    assert(parts.take(i as int) =~= parts);
    query.push(0);
    push_u16(&mut query, record_type);
    push_u16(&mut query, 1);
    assert(query@ =~= question_header(query_id) + labels_bytes(parts) + seq![0u8] + be_bytes(
        record_type as nat,
        2,
    ) + be_bytes(1, 2));
    Ok(query)
}

// ---------------------------------------------------------------------------
// Answers
// ---------------------------------------------------------------------------

/// Where a name that begins at an offset ends.
pub open spec fn skip_spec(message: Seq<u8>, offset: int) -> Result<int, DnsError>
    decreases message.len() - offset,
{
    if offset < 0 || offset >= message.len() {
        Err(DnsError::Name)
    } else {
        let length = message[offset] as int;
        if length >= 192 {
            if offset + 2 <= message.len() {
                Ok(offset + 2)
            } else {
                Err(DnsError::Pointer)
            }
        } else if length >= 64 {
            Err(DnsError::NameKind)
        } else if length == 0 {
            Ok(offset + 1)
        } else if offset + 1 + length <= message.len() {
            skip_spec(message, offset + 1 + length)
        } else {
            Err(DnsError::CutName)
        }
    }
}

pub fn skip_name(message: &[u8], offset: usize) -> (r: Result<usize, DnsError>)
    ensures
        match r {
            Ok(end) => skip_spec(message@, offset as int) == Ok::<int, DnsError>(end as int) && end
                <= message@.len(),
            Err(e) => skip_spec(message@, offset as int) == Err::<int, DnsError>(e),
        },
{
    let size: usize = message.len();
    let mut at: usize = offset;
    loop
        invariant
            size == message@.len(),
            skip_spec(message@, at as int) == skip_spec(message@, offset as int),
            at > size ==> at == offset,
        decreases size - at + if at > size { at - size } else { 0 },
    {
        if at >= size {
            return Err(DnsError::Name);
        }
        let length: u8 = message[at];
        if length >= 192 {
            return if size - at >= 2 {
                Ok(at + 2)
            } else {
                Err(DnsError::Pointer)
            };
        }
        if length >= 64 {
            return Err(DnsError::NameKind);
        }
        if length == 0 {
            return Ok(at + 1);
        }
        if length as usize > size - at - 1 {
            return Err(DnsError::CutName);
        }
        at = at + 1 + length as usize;
    }
}

pub open spec fn skip_questions(message: Seq<u8>, offset: int, count: nat) -> Result<int, DnsError>
    decreases count,
{
    if count == 0 {
        Ok(offset)
    } else {
        match skip_spec(message, offset) {
            Err(e) => Err(e),
            Ok(end) => if end + 4 <= message.len() {
                skip_questions(message, end + 4, (count - 1) as nat)
            } else {
                Err(DnsError::Question)
            },
        }
    }
}

/// The address that a record holds, if it is one.
pub open spec fn record_address(message: Seq<u8>, at: int) -> Option<IpAddress> {
    let kind = be16(message, at);
    let class = be16(message, at + 2);
    let length = be16(message, at + 8);
    if class == 1 && kind == DNS_A_RECORD && length == 4 {
        Some(IpAddress::V4(be32(message, at + 10) as u32))
    } else if class == 1 && kind == DNS_AAAA_RECORD && length == 16 {
        Some(IpAddress::V6(be_value(message.subrange(at + 10, at + 26)) as u128))
    } else {
        None
    }
}

/// An address joins a list that does not hold it yet.
pub open spec fn joins(list: Seq<IpAddress>, address: Option<IpAddress>) -> Seq<IpAddress> {
    match address {
        Some(address) => if list.contains(address) {
            list
        } else {
            list.push(address)
        },
        None => list,
    }
}

pub open spec fn read_answers(
    message: Seq<u8>,
    offset: int,
    count: nat,
    so_far: Seq<IpAddress>,
) -> Result<Seq<IpAddress>, DnsError>
    decreases count,
{
    if count == 0 {
        Ok(so_far)
    } else {
        match skip_spec(message, offset) {
            Err(e) => Err(e),
            Ok(at) => if at + 10 > message.len() {
                Err(DnsError::Header)
            } else if at + 10 + be16(message, at + 8) > message.len() {
                Err(DnsError::Record)
            } else {
                read_answers(
                    message,
                    at + 10 + be16(message, at + 8),
                    (count - 1) as nat,
                    joins(so_far, record_address(message, at)),
                )
            },
        }
    }
}

/// The addresses that an answer to a question holds, each once.
pub open spec fn response_spec(message: Seq<u8>, query_id: u16) -> Result<
    Seq<IpAddress>,
    DnsError,
> {
    let flags = be16(message, 2);
    if message.len() < 12 {
        Err(DnsError::TooShort)
    } else if be16(message, 0) != query_id {
        Err(DnsError::ForeignId)
    } else if flags < 0x8000 {
        Err(DnsError::NoResponse)
    } else if flags / 0x200 % 2 == 1 {
        Err(DnsError::NeedsTcp)
    } else if flags % 16 != 0 {
        Err(DnsError::Status((flags % 16) as u16))
    } else {
        match skip_questions(message, 12, be16(message, 4) as nat) {
            Err(e) => Err(e),
            Ok(offset) => read_answers(message, offset, be16(message, 6) as nat, Seq::empty()),
        }
    }
}

fn contains_address(list: &Vec<IpAddress>, address: IpAddress) -> (r: bool)
    ensures
        r == list@.contains(address),
{
    let mut i: usize = 0;
    while i < list.len()
        invariant
            i <= list@.len(),
            forall|k: int| 0 <= k < i ==> #[trigger] list@[k] != address,
        decreases list@.len() - i,
    {
        if list[i] == address {
            return true;
        }
        i = i + 1;
    }
    false
}

fn join_address(list: &mut Vec<IpAddress>, address: Option<IpAddress>)
    ensures
        final(list)@ == joins(old(list)@, address),
{
    if let Some(address) = address {
        if !contains_address(list, address) {
            list.push(address);
        }
    }
}

fn address_at(message: &[u8], at: usize) -> (r: Option<IpAddress>)
    requires
        at + 10 <= message@.len(),
        at + 10 + be16(message@, at + 8) <= message@.len(),
    ensures
        r == record_address(message@, at as int),
{
    let size: usize = message.len();
    let kind: u16 = read_u16(message, at);
    let class: u16 = read_u16(message, at + 2);
    let length: u16 = read_u16(message, at + 8);
    if class == 1 && kind == DNS_A_RECORD && length == 4 {
        return Some(IpAddress::V4(read_u32(message, at + 10)));
    }
    if class == 1 && kind == DNS_AAAA_RECORD && length == 16 {
        return Some(IpAddress::V6(read_u128(message, at + 10)));
    }
    None
}

pub fn parse_response(response: &[u8], query_id: u16) -> (r: Result<Vec<IpAddress>, DnsError>)
    ensures
        match r {
            Ok(list) => response_spec(response@, query_id) == Ok::<Seq<IpAddress>, DnsError>(
                list@,
            ),
            Err(e) => response_spec(response@, query_id) == Err::<Seq<IpAddress>, DnsError>(e),
        },
{
    let size: usize = response.len();
    if size < 12 {
        return Err(DnsError::TooShort);
    }
    if read_u16(response, 0) != query_id {
        return Err(DnsError::ForeignId);
    }
    let flags: u16 = read_u16(response, 2);
    if flags < 0x8000 {
        return Err(DnsError::NoResponse);
    }
    if flags / 0x200 % 2 == 1 {
        return Err(DnsError::NeedsTcp);
    }
    let status: u16 = flags % 16;
    if status != 0 {
        return Err(DnsError::Status(status));
    }
    let questions: u16 = read_u16(response, 4);
    let answers: u16 = read_u16(response, 6);
    let ghost asked = skip_questions(response@, 12, questions as nat);
    let mut offset: usize = 12;
    let mut i: u16 = 0;
    while i < questions
        invariant
            i <= questions,
            size == response@.len(),
            offset <= size,
            skip_questions(response@, offset as int, (questions - i) as nat) == asked,
            response_spec(response@, query_id) == match asked {
                Err(e) => Err::<Seq<IpAddress>, DnsError>(e),
                Ok(end) => read_answers(response@, end, answers as nat, Seq::empty()),
            },
        decreases questions - i,
    {
        let end: usize = match skip_name(response, offset) {
            Ok(end) => end,
            Err(e) => {
                return Err(e);
            },
        };
        if size - end < 4 {
            return Err(DnsError::Question);
        }
        offset = end + 4;
        i = i + 1;
    }
    let ghost wanted = read_answers(response@, offset as int, answers as nat, Seq::empty());
    let mut addresses: Vec<IpAddress> = Vec::new();
    let mut k: u16 = 0;
    assert(addresses@ =~= Seq::empty());
    while k < answers
        invariant
            k <= answers,
            size == response@.len(),
            offset <= size,
            response_spec(response@, query_id) == wanted,
            read_answers(response@, offset as int, (answers - k) as nat, addresses@) == wanted,
        decreases answers - k,
    {
        let at: usize = match skip_name(response, offset) {
            Ok(end) => end,
            Err(e) => {
                return Err(e);
            },
        };
        if size - at < 10 {
            return Err(DnsError::Header);
        }
        let length: usize = read_u16(response, at + 8) as usize;
        if size - at - 10 < length {
            return Err(DnsError::Record);
        }
        join_address(&mut addresses, address_at(response, at));
        offset = at + 10 + length;
        k = k + 1;
    }
    Ok(addresses)
}

/// No address is listed twice.
pub proof fn law_addresses_are_distinct(
    message: Seq<u8>,
    offset: int,
    count: nat,
    so_far: Seq<IpAddress>,
)
    requires
        so_far.no_duplicates(),
    ensures
        match read_answers(message, offset, count, so_far) {
            Ok(list) => list.no_duplicates(),
            Err(_) => true,
        },
    decreases count,
{
    if count > 0 {
        if let Ok(at) = skip_spec(message, offset) {
            let address = record_address(message, at);
            let next = joins(so_far, address);
            assert(next.no_duplicates()) by {
                if let Some(a) = address {
                    if !so_far.contains(a) {
                        assert forall|i: int, j: int|
                            0 <= i < next.len() && 0 <= j < next.len() && i != j implies next[i]
                            != next[j] by {
                            if i < so_far.len() && j < so_far.len() {
                            } else if i < so_far.len() {
                                assert(so_far.contains(next[i]));
                            } else {
                                assert(so_far.contains(next[j]));
                            }
                        }
                    }
                }
            }
            if at + 10 <= message.len() && at + 10 + be16(message, at + 8) <= message.len() {
                law_addresses_are_distinct(
                    message,
                    at + 10 + be16(message, at + 8),
                    (count - 1) as nat,
                    next,
                );
            }
        }
    }
}

proof fn lemma_skip_labels(prefix: Seq<u8>, labels: Seq<Seq<char>>, rest: Seq<u8>)
    requires
        all_valid(labels),
        rest.len() > 0,
        rest[0] == 0,
    ensures
        skip_spec(prefix + labels_bytes(labels) + rest, prefix.len() as int) == Ok::<
            int,
            DnsError,
        >((prefix + labels_bytes(labels)).len() + 1int),
    decreases labels.len(),
{
    let message = prefix + labels_bytes(labels) + rest;
    if labels.len() == 0 {
        assert(message =~= prefix + rest);
    } else {
        let first = label_bytes(labels[0]);
        let others = labels.skip(1);
        lemma_labels_front(labels);
        assert(all_valid(others));
        lemma_skip_labels(prefix + first, others, rest);
        assert(prefix + first + labels_bytes(others) + rest =~= message);
        assert(message[prefix.len() as int] == first[0]);
        assert(label_valid(labels[0]));
    }
}

pub proof fn lemma_labels_front(labels: Seq<Seq<char>>)
    requires
        labels.len() > 0,
    ensures
        labels_bytes(labels) == label_bytes(labels[0]) + labels_bytes(labels.skip(1)),
    decreases labels.len(),
{
    if labels.len() == 1 {
        assert(labels.drop_last() =~= Seq::<Seq<char>>::empty());
        assert(labels.skip(1) =~= Seq::<Seq<char>>::empty());
        assert(labels_bytes(labels) =~= label_bytes(labels[0]) + labels_bytes(labels.skip(1)));
    } else {
        lemma_labels_front(labels.drop_last());
        assert(labels.drop_last().skip(1) =~= labels.skip(1).drop_last());
        assert(labels_bytes(labels) =~= label_bytes(labels[0]) + labels_bytes(labels.skip(1)));
    }
}

/// A question holds exactly one name, which is read to its end, and after it the
/// type and the class that are asked for.
pub proof fn law_question_reads_back(host: Seq<char>, query_id: u16, record_type: u16)
    ensures
        match query_spec(host, query_id, record_type) {
            Ok(query) => {
                &&& query.len() > 16
                &&& skip_spec(query, 12) == Ok::<int, DnsError>(query.len() - 4)
                &&& query.subrange(query.len() - 4, query.len() - 2) == be_bytes(
                    record_type as nat,
                    2,
                )
                &&& query.take(2) == be_bytes(query_id as nat, 2)
            },
            Err(_) => true,
        },
{
    if let Ok(query) = query_spec(host, query_id, record_type) {
        let labels = labels_of(host);
        let header = question_header(query_id);
        lemma_all_valid(labels, 0);
        lemma_be_len(query_id as nat, 2);
        lemma_be_len(0x0100, 2);
        lemma_be_len(1, 2);
        lemma_be_len(0, 2);
        lemma_be_len(record_type as nat, 2);
        let rest = seq![0u8] + be_bytes(record_type as nat, 2) + be_bytes(1, 2);
        lemma_skip_labels(header, labels, rest);
        assert(query =~= header + labels_bytes(labels) + rest);
        assert(query.subrange(query.len() - 4, query.len() - 2) =~= be_bytes(
            record_type as nat,
            2,
        ));
        assert(query.take(2) =~= be_bytes(query_id as nat, 2));
    }
}

// ---------------------------------------------------------------------------
// Which way a name is resolved
// ---------------------------------------------------------------------------

/// What came of asking the servers.
pub enum Asked {
    Addresses(Vec<IpAddress>),
    TimedOut,
    Failed(String),
}

/// What follows.
pub enum LookupStep {
    Use(Vec<IpAddress>),
    /// Ask the system, which is allowed as long as the tunnel does not carry the
    /// question itself.
    AskSystem,
    Empty,
    TimedOut,
    Failed(String),
}

pub struct DnsResolver {
    tunnel_active: bool,
}

impl View for DnsResolver {
    type V = bool;

    closed spec fn view(&self) -> bool {
        self.tunnel_active
    }
}

impl DnsResolver {
    pub fn new() -> (r: DnsResolver)
        ensures
            !r@,
    {
        DnsResolver { tunnel_active: false }
    }

    pub fn mark_tunnel_active(&mut self)
        ensures
            final(self)@,
    {
        self.tunnel_active = true;
    }

    pub fn tunnel_active(&self) -> (r: bool)
        ensures
            r == self@,
    {
        self.tunnel_active
    }

    /// The address that a host is itself, if it is one.
    pub fn literal(&self, host: &str) -> (r: Option<IpAddress>)
        ensures
            r == ip_spec(host@),
    {
        parse_ip(chars_of(host).as_slice())
    }

    /// What follows from what came of asking.
    pub fn after_asking(&self, asked: Asked) -> (r: LookupStep)
        ensures
            match asked {
                Asked::Addresses(list) => if list@.len() > 0 {
                    r == LookupStep::Use(list)
                } else {
                    r is Empty
                },
                Asked::TimedOut => if self@ {
                    r is TimedOut
                } else {
                    r is AskSystem
                },
                Asked::Failed(error) => r == LookupStep::Failed(error),
            },
    {
        match asked {
            Asked::Addresses(list) => if list.len() > 0 {
                LookupStep::Use(list)
            } else {
                LookupStep::Empty
            },
            Asked::TimedOut => if self.tunnel_active {
                LookupStep::TimedOut
            } else {
                LookupStep::AskSystem
            },
            Asked::Failed(error) => LookupStep::Failed(error),
        }
    }
}

/// Whether IPv6 addresses are asked for after IPv4 addresses were, and under
/// which number.
pub fn second_query(first: &Vec<IpAddress>, query_id: u16) -> (r: Option<u16>)
    ensures
        r == if first@.len() > 0 {
            None
        } else if query_id == 0xffff {
            Some(0u16)
        } else {
            Some((query_id + 1) as u16)
        },
{
    if first.len() > 0 {
        None
    } else {
        Some(query_id.wrapping_add(1))
    }
}

/// What a server answered, or that both took too long.
pub enum ServerReply {
    Addresses(Vec<IpAddress>),
    Failed(String),
    TimedOut,
}

/// What is done next.
pub enum AskStep {
    /// Wait for the other server.
    AwaitOther,
    /// Ask both for IPv6 addresses, under that number.
    AskIpv6 { query_id: u16 },
    Done(Asked),
}

/// A name that both servers are asked for, first for IPv4 addresses.
pub struct Asking {
    pub query_id: u16,
    pub ipv6: bool,
    /// What the server that answered first refused with.
    pub refusal: Option<String>,
}

impl Asking {
    pub fn start(query_id: u16) -> (r: Asking)
        ensures
            r.query_id == query_id,
            !r.ipv6,
            r.refusal is None,
    {
        Asking { query_id, ipv6: false, refusal: None }
    }

    /// What follows a reply: one server that knows is enough, and both have to
    /// refuse for a refusal.
    pub fn step(&mut self, reply: ServerReply) -> (r: AskStep)
        ensures
            match reply {
                ServerReply::TimedOut => r == AskStep::Done(Asked::TimedOut) && *final(self)
                    == *old(self),
                ServerReply::Addresses(list) => if !old(self).ipv6 && list@.len() == 0 {
                    let query_id = if old(self).query_id == 0xffff {
                        0u16
                    } else {
                        (old(self).query_id + 1) as u16
                    };
                    &&& r == (AskStep::AskIpv6 { query_id })
                    &&& *final(self) == (Asking { query_id, ipv6: true, refusal: None })
                } else {
                    r == AskStep::Done(Asked::Addresses(list)) && *final(self) == *old(self)
                },
                ServerReply::Failed(error) => match old(self).refusal {
                    None => r is AwaitOther && *final(self) == (Asking {
                        refusal: Some(error),
                        ..*old(self)
                    }),
                    Some(first) => {
                        &&& r matches AskStep::Done(Asked::Failed(text))
                        &&& text@ == joined(
                            seq![
                                "оба сервера Yandex DNS отклонили запрос: "@,
                                first@,
                                "; "@,
                                error@,
                            ],
                        )
                        &&& *final(self) == *old(self)
                    },
                },
            },
    {
        match reply {
            ServerReply::TimedOut => AskStep::Done(Asked::TimedOut),
            ServerReply::Addresses(list) => {
                if self.ipv6 {
                    return AskStep::Done(Asked::Addresses(list));
                }
                match second_query(&list, self.query_id) {
                    None => AskStep::Done(Asked::Addresses(list)),
                    Some(query_id) => {
                        self.query_id = query_id;
                        self.ipv6 = true;
                        self.refusal = None;
                        AskStep::AskIpv6 { query_id }
                    },
                }
            },
            ServerReply::Failed(error) => {
                if let Some(first) = &self.refusal {
                    let parts: [&str; 4] = [
                        "оба сервера Yandex DNS отклонили запрос: ",
                        first.as_str(),
                        "; ",
                        error.as_str(),
                    ];
                    assert(views(parts@) =~= seq![
                        "оба сервера Yandex DNS отклонили запрос: "@,
                        first@,
                        "; "@,
                        error@,
                    ]);
                    return AskStep::Done(Asked::Failed(join_texts(parts.as_slice())));
                }
                self.refusal = Some(error);
                AskStep::AwaitOther
            },
        }
    }
}

/// Addresses, each once, in the order in which they first stand.
pub open spec fn distinct(list: Seq<IpAddress>) -> Seq<IpAddress>
    decreases list.len(),
{
    if list.len() == 0 {
        Seq::empty()
    } else {
        joins(distinct(list.drop_last()), Some(list.last()))
    }
}

pub fn distinct_addresses(list: &Vec<IpAddress>) -> (r: Vec<IpAddress>)
    ensures
        r@ == distinct(list@),
{
    let mut r: Vec<IpAddress> = Vec::new();
    let mut i: usize = 0;
    assert(r@ =~= distinct(list@.take(0)));
    while i < list.len()
        invariant
            i <= list@.len(),
            r@ == distinct(list@.take(i as int)),
        decreases list@.len() - i,
    {
        assert(list@.take(i + 1).drop_last() =~= list@.take(i as int));
        join_address(&mut r, Some(list[i]));
        i = i + 1;
    }
    assert(list@.take(i as int) =~= list@);
    r
}

/// The host and the port of a text that reads as an address of the web; nothing
/// where it does not.
pub uninterp spec fn url_parts(text: Seq<char>) -> Option<(Option<Seq<char>>, Option<u16>)>;

/// Calls `url::Url::parse`, and `host_str` and `port` of what it gives: the parts
/// are a function of the text alone.
#[verifier::external_body]
fn parse_url(text: &str) -> (r: Option<(Option<String>, Option<u16>)>)
    ensures
        match r {
            Some((host, port)) => url_parts(text@) == Some((owned_text(host), port)),
            None => url_parts(text@) is None,
        },
{
    url::Url::parse(text).ok().map(|url| (url.host_str().map(str::to_owned), url.port()))
}

pub open spec fn owned_text(value: Option<String>) -> Option<Seq<char>> {
    match value {
        Some(text) => Some(text@),
        None => None,
    }
}

/// Where a text with a host and a port leads.
pub enum SocketTarget {
    Literal(SocketAddress),
    /// The host has to be looked up.
    Host { host: String, port: u16 },
    Unreadable,
    NoHost,
    NoPort,
}

/// What the parts of an address lead to.
pub fn target_of(parts: Option<(Option<String>, Option<u16>)>) -> (r: SocketTarget)
    ensures
        match parts {
            None => r is Unreadable,
            Some((None, _)) => r is NoHost,
            Some((Some(_), None)) => r is NoPort,
            Some((Some(host), Some(port))) => r == (SocketTarget::Host { host, port }),
        },
{
    match parts {
        None => SocketTarget::Unreadable,
        Some((None, _)) => SocketTarget::NoHost,
        Some((Some(_), None)) => SocketTarget::NoPort,
        Some((Some(host), Some(port))) => SocketTarget::Host { host, port },
    }
}

/// Where a text with a host and a port leads: an address with a port needs no
/// looking up.
pub fn socket_target(address: &str) -> (r: SocketTarget)
    ensures
        match socket_spec(address@) {
            Some(socket) => r == SocketTarget::Literal(socket),
            None => match url_parts(joined(seq!["udp://"@, address@])) {
                None => r is Unreadable,
                Some((None, _)) => r is NoHost,
                Some((Some(_), None)) => r is NoPort,
                Some((Some(host), Some(port))) => {
                    &&& r is Host
                    &&& r->host@ == host
                    &&& r->port == port
                },
            },
        },
{
    if let Some(socket) = parse_socket(chars_of(address).as_slice()) {
        return SocketTarget::Literal(socket);
    }
    let parts: [&str; 2] = ["udp://", address];
    assert(views(parts@) =~= seq!["udp://"@, address@]);
    let text = join_texts(parts.as_slice());
    target_of(parse_url(text.as_str()))
}

} // verus!
