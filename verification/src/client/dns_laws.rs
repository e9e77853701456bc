//! What the messages of name servers say, byte by byte.

use vstd::prelude::*;
use vstd::utf8::encode_utf8;
use crate::client::dns::{
    all_valid, bare_name, first_invalid, joins, label_bytes, label_valid, labels_bytes, labels_of,
    lemma_labels_front, query_spec, read_answers, record_address, response_spec, skip_questions,
    skip_spec, DnsError,
};
use crate::net::IpAddress;
use crate::shared::selective_fec::ascii;
use crate::text::{lemma_split_joined, lemma_trim_end_of, split_spec, CharClass};
use crate::wire::{
    be16, be_bytes, be_value, law_be_round_trip, law_network_order, lemma_be_len,
    lemma_range_values,
};

verus! {

/// A name on the wire: its labels, each behind its length, and at its end either
/// nothing or the place at which the name goes on.
#[verifier::ext_equal]
pub struct WireName {
    pub labels: Seq<Seq<u8>>,
    pub pointer: Option<(u8, u8)>,
}

/// Labels one after another, each behind its length.
pub open spec fn label_run(labels: Seq<Seq<u8>>) -> Seq<u8>
    decreases labels.len(),
{
    if labels.len() == 0 {
        Seq::empty()
    } else {
        seq![labels[0].len() as u8] + labels[0] + label_run(labels.skip(1))
    }
}

impl WireName {
    pub open spec fn wf(self) -> bool {
        &&& forall|i: int|
            0 <= i < self.labels.len() ==> 1 <= (#[trigger] self.labels[i]).len() <= 63
        &&& self.pointer matches Some((high, _)) ==> high >= 192
    }

    pub open spec fn bytes(self) -> Seq<u8> {
        label_run(self.labels) + match self.pointer {
            Some((high, low)) => seq![high, low],
            None => seq![0u8],
        }
    }
}

/// A record of an answer.
#[verifier::ext_equal]
pub struct WireRecord {
    pub name: WireName,
    pub kind: u16,
    pub class: u16,
    pub ttl: Seq<u8>,
    pub data: Seq<u8>,
}

impl WireRecord {
    pub open spec fn wf(self) -> bool {
        &&& self.name.wf()
        &&& self.ttl.len() == 4
        &&& self.data.len() <= 0xffff
    }

    pub open spec fn bytes(self) -> Seq<u8> {
        self.name.bytes() + be_bytes(self.kind as nat, 2) + be_bytes(self.class as nat, 2)
            + self.ttl + be_bytes(self.data.len(), 2) + self.data
    }

    /// The address that a record tells: one of the internet that has the length
    /// of its version.
    pub open spec fn told(self) -> Option<IpAddress> {
        if self.class == 1 && self.kind == 1 && self.data.len() == 4 {
            Some(
                IpAddress::V4(
                    (self.data[0] * 0x100_0000 + self.data[1] * 0x1_0000 + self.data[2] * 0x100
                        + self.data[3]) as u32,
                ),
            )
        } else if self.class == 1 && self.kind == 28 && self.data.len() == 16 {
            Some(IpAddress::V6(be_value(self.data) as u128))
        } else {
            None
        }
    }
}

pub open spec fn record_run(records: Seq<WireRecord>) -> Seq<u8>
    decreases records.len(),
{
    if records.len() == 0 {
        Seq::empty()
    } else {
        records[0].bytes() + record_run(records.skip(1))
    }
}

/// Questions: names, each with four more bytes.
pub open spec fn question_run(questions: Seq<(WireName, Seq<u8>)>) -> Seq<u8>
    decreases questions.len(),
{
    if questions.len() == 0 {
        Seq::empty()
    } else {
        questions[0].0.bytes() + questions[0].1 + question_run(questions.skip(1))
    }
}

pub open spec fn questions_wf(questions: Seq<(WireName, Seq<u8>)>) -> bool {
    forall|i: int|
        0 <= i < questions.len() ==> (#[trigger] questions[i]).0.wf() && questions[i].1.len() == 4
}

pub open spec fn records_wf(records: Seq<WireRecord>) -> bool {
    forall|i: int| 0 <= i < records.len() ==> (#[trigger] records[i]).wf()
}

/// The twelve bytes before the questions.
pub open spec fn head(id: u16, flags: u16, questions: nat, answers: nat, others: Seq<u8>) -> Seq<
    u8,
> {
    be_bytes(id as nat, 2) + be_bytes(flags as nat, 2) + be_bytes(questions, 2) + be_bytes(
        answers,
        2,
    ) + others
}

/// A whole message.
pub open spec fn message(
    id: u16,
    flags: u16,
    others: Seq<u8>,
    questions: Seq<(WireName, Seq<u8>)>,
    records: Seq<WireRecord>,
) -> Seq<u8> {
    head(id, flags, questions.len(), records.len(), others) + question_run(questions) + record_run(
        records,
    )
}

/// The flags of an answer that is whole and without an error.
pub open spec fn is_good_answer(flags: u16) -> bool {
    flags >= 0x8000 && flags / 0x200 % 2 == 0 && flags % 16 == 0
}

/// A name is passed over whatever stands before and behind it; one that is cut is
/// not read.
proof fn lemma_skip_name(before: Seq<u8>, name: WireName, rest: Seq<u8>)
    requires
        name.wf(),
    ensures
        skip_spec(before + name.bytes() + rest, before.len() as int) == Ok::<int, DnsError>(
            (before.len() + name.bytes().len()) as int,
        ),
    decreases name.labels.len(),
{
    let all = before + name.bytes() + rest;
    if name.labels.len() > 0 {
        let first = seq![name.labels[0].len() as u8] + name.labels[0];
        let other = WireName { labels: name.labels.skip(1), ..name };
        assert(name.bytes() =~= first + other.bytes());
        assert forall|i: int| 0 <= i < other.labels.len() implies 1 <= (
        #[trigger] other.labels[i]).len() <= 63 by {
            assert(other.labels[i] == name.labels[i + 1]);
        }
        lemma_skip_name(before + first, other, rest);
        assert((before + first) + other.bytes() + rest =~= all);
        assert(all[before.len() as int] == name.labels[0].len() as u8);
        assert(1 <= name.labels[0].len() <= 63);
    } else {
        assert(label_run(name.labels) =~= Seq::<u8>::empty());
        match name.pointer {
            Some((high, low)) => {
                assert(all[before.len() as int] == high);
            },
            None => {
                assert(all[before.len() as int] == 0);
            },
        }
    }
}

proof fn lemma_skip_cut_name(before: Seq<u8>, name: WireName, n: int)
    requires
        name.wf(),
        before.len() <= n < before.len() + name.bytes().len(),
    ensures
        skip_spec((before + name.bytes()).take(n), before.len() as int) is Err,
    decreases name.labels.len(),
{
    let all = before + name.bytes();
    let cut = all.take(n);
    if n == before.len() {
    } else if name.labels.len() > 0 {
        let first = seq![name.labels[0].len() as u8] + name.labels[0];
        let other = WireName { labels: name.labels.skip(1), ..name };
        assert(name.bytes() =~= first + other.bytes());
        assert forall|i: int| 0 <= i < other.labels.len() implies 1 <= (
        #[trigger] other.labels[i]).len() <= 63 by {
            assert(other.labels[i] == name.labels[i + 1]);
        }
        assert(cut[before.len() as int] == name.labels[0].len() as u8);
        assert(1 <= name.labels[0].len() <= 63);
        if n >= before.len() + first.len() {
            lemma_skip_cut_name(before + first, other, n);
            assert((before + first) + other.bytes() =~= all);
        }
    } else {
        assert(label_run(name.labels) =~= Seq::<u8>::empty());
        match name.pointer {
            Some((high, low)) => {
                assert(cut[before.len() as int] == high);
            },
            None => {},
        }
    }
}

proof fn lemma_questions(before: Seq<u8>, questions: Seq<(WireName, Seq<u8>)>, rest: Seq<u8>)
    requires
        questions_wf(questions),
    ensures
        skip_questions(
            before + question_run(questions) + rest,
            before.len() as int,
            questions.len(),
        ) == Ok::<int, DnsError>((before.len() + question_run(questions).len()) as int),
    decreases questions.len(),
{
    let all = before + question_run(questions) + rest;
    if questions.len() > 0 {
        let (name, kind) = questions[0];
        let others = questions.skip(1);
        let first = name.bytes() + kind;
        assert forall|i: int| 0 <= i < others.len() implies (#[trigger] others[i]).0.wf()
            && others[i].1.len() == 4 by {
            assert(others[i] == questions[i + 1]);
        }
        assert(questions[0].0.wf());
        lemma_skip_name(before, name, kind + question_run(others) + rest);
        assert(before + name.bytes() + (kind + question_run(others) + rest) =~= all);
        lemma_questions(before + first, others, rest);
        assert((before + first) + question_run(others) + rest =~= all);
    } else {
        assert(question_run(questions) =~= Seq::<u8>::empty());
    }
}

/// What a record says at the place where its name ends.
proof fn lemma_record(before: Seq<u8>, record: WireRecord, rest: Seq<u8>)
    requires
        record.wf(),
    ensures
        ({
            let all = before + record.bytes() + rest;
            let at = (before.len() + record.name.bytes().len()) as int;
            &&& skip_spec(all, before.len() as int) == Ok::<int, DnsError>(at)
            &&& at + 10 <= all.len()
            &&& be16(all, at + 8) == record.data.len()
            &&& at + 10 + record.data.len() == before.len() + record.bytes().len()
            &&& record_address(all, at) == record.told()
        }),
{
    let all = before + record.bytes() + rest;
    let name = record.name.bytes();
    let at = (before.len() + name.len()) as int;
    lemma_range_values();
    law_be_round_trip(record.kind as nat, 2);
    law_be_round_trip(record.class as nat, 2);
    law_be_round_trip(record.data.len(), 2);
    let tail = be_bytes(record.kind as nat, 2) + be_bytes(record.class as nat, 2) + record.ttl
        + be_bytes(record.data.len(), 2) + record.data + rest;
    assert(all =~= before + name + tail);
    lemma_skip_name(before, record.name, tail);
    assert(all.subrange(at, at + 2) =~= be_bytes(record.kind as nat, 2));
    assert(all.subrange(at + 2, at + 4) =~= be_bytes(record.class as nat, 2));
    assert(all.subrange(at + 8, at + 10) =~= be_bytes(record.data.len(), 2));
    if record.data.len() == 4 {
        law_network_order(all, at + 10);
        assert(all.subrange(at + 10, at + 14) =~= record.data);
        law_network_order(record.data, 0);
        assert(record.data.subrange(0, 4) =~= record.data);
    } else if record.data.len() == 16 {
        assert(all.subrange(at + 10, at + 26) =~= record.data);
    }
}

/// The addresses that records add to a list.
spec fn gathered(so_far: Seq<IpAddress>, records: Seq<WireRecord>) -> Seq<IpAddress>
    decreases records.len(),
{
    if records.len() == 0 {
        so_far
    } else {
        gathered(
            match records[0].told() {
                Some(a) => if so_far.contains(a) {
                    so_far
                } else {
                    so_far.push(a)
                },
                None => so_far,
            },
            records.skip(1),
        )
    }
}

proof fn lemma_records(
    before: Seq<u8>,
    records: Seq<WireRecord>,
    rest: Seq<u8>,
    so_far: Seq<IpAddress>,
)
    requires
        records_wf(records),
    ensures
        read_answers(
            before + record_run(records) + rest,
            before.len() as int,
            records.len(),
            so_far,
        ) == Ok::<Seq<IpAddress>, DnsError>(gathered(so_far, records)),
    decreases records.len(),
{
    let all = before + record_run(records) + rest;
    if records.len() > 0 {
        let record = records[0];
        let others = records.skip(1);
        assert forall|i: int| 0 <= i < others.len() implies (#[trigger] others[i]).wf() by {
            assert(others[i] == records[i + 1]);
        }
        assert(records[0].wf());
        lemma_record(before, record, record_run(others) + rest);
        assert(before + record.bytes() + (record_run(others) + rest) =~= all);
        let next = joins(so_far, record.told());
        lemma_records(before + record.bytes(), others, rest, next);
        assert((before + record.bytes()) + record_run(others) + rest =~= all);
    } else {
        assert(record_run(records) =~= Seq::<u8>::empty());
    }
}

proof fn lemma_gathered(so_far: Seq<IpAddress>, records: Seq<WireRecord>)
    requires
        so_far.no_duplicates(),
    ensures
        gathered(so_far, records).no_duplicates(),
        so_far.len() <= gathered(so_far, records).len(),
        gathered(so_far, records).take(so_far.len() as int) == so_far,
        forall|a: IpAddress|
            #[trigger] gathered(so_far, records).contains(a) <==> so_far.contains(a) || exists|
                i: int,
            |
                0 <= i < records.len() && (#[trigger] records[i]).told() == Some(a),
    decreases records.len(),
{
    let list = gathered(so_far, records);
    if records.len() == 0 {
        assert(so_far.take(so_far.len() as int) =~= so_far);
    } else {
        let others = records.skip(1);
        let told = records[0].told();
        let next = match told {
            Some(a) => if so_far.contains(a) {
                so_far
            } else {
                so_far.push(a)
            },
            None => so_far,
        };
        assert(next.no_duplicates()) by {
            assert forall|i: int, j: int|
                0 <= i < next.len() && 0 <= j < next.len() && i != j implies next[i] != next[j] by {
                if i < so_far.len() {
                    assert(so_far.contains(so_far[i]));
                }
                if j < so_far.len() {
                    assert(so_far.contains(so_far[j]));
                }
            }
        }
        lemma_gathered(next, others);
        assert(list.take(so_far.len() as int) =~= next.take(so_far.len() as int));
        assert(next.take(so_far.len() as int) =~= so_far);
        assert forall|a: IpAddress| next.contains(a) <==> so_far.contains(a) || told == Some(a) by {
            if so_far.contains(a) {
                let k = choose|k: int| 0 <= k < so_far.len() && so_far[k] == a;
                assert(next[k] == a);
            }
            if told == Some(a) && !so_far.contains(a) {
                assert(next[so_far.len() as int] == a);
            }
            if next.contains(a) && told != Some(a) {
                let k = choose|k: int| 0 <= k < next.len() && next[k] == a;
                assert(so_far[k] == a);
            }
        }
        assert forall|a: IpAddress|
            #[trigger] list.contains(a) <==> so_far.contains(a) || exists|i: int|
                0 <= i < records.len() && (#[trigger] records[i]).told() == Some(a) by {
            if exists|i: int| 0 <= i < records.len() && (#[trigger] records[i]).told() == Some(a) {
                let i = choose|i: int|
                    0 <= i < records.len() && (#[trigger] records[i]).told() == Some(a);
                if i > 0 {
                    assert(others[i - 1] == records[i]);
                }
            }
            if exists|i: int| 0 <= i < others.len() && (#[trigger] others[i]).told() == Some(a) {
                let i = choose|i: int|
                    0 <= i < others.len() && (#[trigger] others[i]).told() == Some(a);
                assert(records[i + 1] == others[i]);
            }
            if told == Some(a) {
                assert(records[0].told() == Some(a));
            }
        }
    }
}

proof fn lemma_head(id: u16, flags: u16, questions: nat, answers: nat, others: Seq<u8>, rest: Seq<u8>)
    requires
        questions <= 0xffff,
        answers <= 0xffff,
        others.len() == 4,
    ensures
        ({
            let all = head(id, flags, questions, answers, others) + rest;
            &&& head(id, flags, questions, answers, others).len() == 12
            &&& be16(all, 0) == id
            &&& be16(all, 2) == flags
            &&& be16(all, 4) == questions
            &&& be16(all, 6) == answers
        }),
{
    let all = head(id, flags, questions, answers, others) + rest;
    lemma_range_values();
    law_be_round_trip(id as nat, 2);
    law_be_round_trip(flags as nat, 2);
    law_be_round_trip(questions, 2);
    law_be_round_trip(answers, 2);
    assert(all.subrange(0, 2) =~= be_bytes(id as nat, 2));
    assert(all.subrange(2, 4) =~= be_bytes(flags as nat, 2));
    assert(all.subrange(4, 6) =~= be_bytes(questions, 2));
    assert(all.subrange(6, 8) =~= be_bytes(answers, 2));
}

proof fn lemma_response(
    id: u16,
    flags: u16,
    others: Seq<u8>,
    questions: Seq<(WireName, Seq<u8>)>,
    records: Seq<WireRecord>,
    rest: Seq<u8>,
)
    requires
        is_good_answer(flags),
        others.len() == 4,
        questions.len() <= 0xffff,
        records.len() <= 0xffff,
        questions_wf(questions),
        records_wf(records),
    ensures
        response_spec(message(id, flags, others, questions, records) + rest, id) == Ok::<
            Seq<IpAddress>,
            DnsError,
        >(gathered(Seq::empty(), records)),
{
    let start = head(id, flags, questions.len(), records.len(), others);
    let asked = question_run(questions);
    let told = record_run(records);
    let all = message(id, flags, others, questions, records) + rest;
    lemma_head(id, flags, questions.len(), records.len(), others, asked + told + rest);
    assert(all =~= start + (asked + told + rest));
    lemma_questions(start, questions, told + rest);
    assert(all =~= start + asked + (told + rest));
    lemma_records(start + asked, records, rest, Seq::empty());
    assert(all =~= (start + asked) + told + rest);
}

/// An answer gives every address that any of its records tells, wherever the
/// record stands, and no other; each once.
pub proof fn law_every_address_is_told(
    id: u16,
    flags: u16,
    others: Seq<u8>,
    questions: Seq<(WireName, Seq<u8>)>,
    records: Seq<WireRecord>,
    rest: Seq<u8>,
)
    requires
        is_good_answer(flags),
        others.len() == 4,
        questions.len() <= 0xffff,
        records.len() <= 0xffff,
        questions_wf(questions),
        records_wf(records),
    ensures
        response_spec(message(id, flags, others, questions, records) + rest, id) matches Ok(list)
            && list.no_duplicates() && forall|a: IpAddress|
            #[trigger] list.contains(a) <==> exists|i: int|
                0 <= i < records.len() && (#[trigger] records[i]).told() == Some(a),
{
    lemma_response(id, flags, others, questions, records, rest);
    lemma_gathered(Seq::empty(), records);
}

proof fn lemma_gathered_without(
    so_far: Seq<IpAddress>,
    before: Seq<WireRecord>,
    record: WireRecord,
    after: Seq<WireRecord>,
)
    requires
        record.told() is None,
    ensures
        gathered(so_far, before + seq![record] + after) == gathered(so_far, before + after),
    decreases before.len(),
{
    let all = before + seq![record] + after;
    if before.len() == 0 {
        assert(all[0] == record);
        assert(all.skip(1) =~= after);
        assert(before + after =~= after);
    } else {
        assert(all[0] == before[0]);
        assert((before + after)[0] == before[0]);
        assert(all.skip(1) =~= before.skip(1) + seq![record] + after);
        assert((before + after).skip(1) =~= before.skip(1) + after);
        let next = match before[0].told() {
            Some(a) => if so_far.contains(a) {
                so_far
            } else {
                so_far.push(a)
            },
            None => so_far,
        };
        lemma_gathered_without(next, before.skip(1), record, after);
    }
}

/// A record that tells no address changes nothing, wherever it stands, and one
/// that does is listed behind those that stand before it.
pub proof fn law_other_records_are_passed_over(
    id: u16,
    flags: u16,
    others: Seq<u8>,
    questions: Seq<(WireName, Seq<u8>)>,
    before: Seq<WireRecord>,
    record: WireRecord,
    after: Seq<WireRecord>,
)
    requires
        is_good_answer(flags),
        others.len() == 4,
        questions.len() <= 0xffff,
        before.len() + after.len() < 0xffff,
        questions_wf(questions),
        records_wf(before),
        records_wf(after),
        record.wf(),
    ensures
        record.told() is None ==> response_spec(
            message(id, flags, others, questions, before + seq![record] + after),
            id,
        ) == response_spec(message(id, flags, others, questions, before + after), id),
        record.told() matches Some(a) ==> {
            let list = response_spec(message(id, flags, others, questions, before), id)->Ok_0;
            response_spec(message(id, flags, others, questions, before.push(record)), id) == Ok::<
                Seq<IpAddress>,
                DnsError,
            >(
                if list.contains(a) {
                    list
                } else {
                    list.push(a)
                },
            )
        },
{
    let none = Seq::<u8>::empty();
    let whole = before + seq![record] + after;
    let short = before + after;
    assert forall|i: int| 0 <= i < whole.len() implies (#[trigger] whole[i]).wf() by {
        if i < before.len() {
            assert(whole[i] == before[i]);
        } else if i > before.len() {
            assert(whole[i] == after[i - before.len() - 1]);
        }
    }
    assert forall|i: int| 0 <= i < short.len() implies (#[trigger] short[i]).wf() by {
        if i < before.len() {
            assert(short[i] == before[i]);
        } else {
            assert(short[i] == after[i - before.len()]);
        }
    }
    let longer = before.push(record);
    assert forall|i: int| 0 <= i < longer.len() implies (#[trigger] longer[i]).wf() by {
        if i < before.len() {
            assert(longer[i] == before[i]);
        }
    }
    lemma_response(id, flags, others, questions, whole, none);
    lemma_response(id, flags, others, questions, short, none);
    lemma_response(id, flags, others, questions, before, none);
    lemma_response(id, flags, others, questions, longer, none);
    assert(message(id, flags, others, questions, whole) + none =~= message(
        id,
        flags,
        others,
        questions,
        whole,
    ));
    assert(message(id, flags, others, questions, short) + none =~= message(
        id,
        flags,
        others,
        questions,
        short,
    ));
    assert(message(id, flags, others, questions, before) + none =~= message(
        id,
        flags,
        others,
        questions,
        before,
    ));
    assert(message(id, flags, others, questions, longer) + none =~= message(
        id,
        flags,
        others,
        questions,
        longer,
    ));
    if record.told() is None {
        lemma_gathered_without(Seq::empty(), before, record, after);
    } else {
        lemma_gathered_push(Seq::empty(), before, record);
    }
}

proof fn lemma_gathered_push(so_far: Seq<IpAddress>, before: Seq<WireRecord>, record: WireRecord)
    ensures
        gathered(so_far, before.push(record)) == joins(gathered(so_far, before), record.told()),
    decreases before.len(),
{
    let longer = before.push(record);
    if before.len() == 0 {
        assert(longer[0] == record);
        assert(longer.skip(1) =~= Seq::<WireRecord>::empty());
        reveal_with_fuel(gathered, 2);
    } else {
        assert(longer[0] == before[0]);
        assert(longer.skip(1) =~= before.skip(1).push(record));
        let next = joins(so_far, before[0].told());
        lemma_gathered_push(next, before.skip(1), record);
    }
}

proof fn lemma_cut_records(
    before: Seq<u8>,
    records: Seq<WireRecord>,
    n: int,
    so_far: Seq<IpAddress>,
)
    requires
        records_wf(records),
        before.len() <= n < before.len() + record_run(records).len(),
    ensures
        read_answers(
            (before + record_run(records)).take(n),
            before.len() as int,
            records.len(),
            so_far,
        ) is Err,
    decreases records.len(),
{
    let all = before + record_run(records);
    let cut = all.take(n);
    if records.len() > 0 {
        let record = records[0];
        let others = records.skip(1);
        assert forall|i: int| 0 <= i < others.len() implies (#[trigger] others[i]).wf() by {
            assert(others[i] == records[i + 1]);
        }
        assert(records[0].wf());
        let name = record.name.bytes();
        let at = (before.len() + name.len()) as int;
        lemma_be_len(record.kind as nat, 2);
        lemma_be_len(record.class as nat, 2);
        lemma_be_len(record.data.len(), 2);
        let tail = be_bytes(record.kind as nat, 2) + be_bytes(record.class as nat, 2) + record.ttl
            + be_bytes(record.data.len(), 2) + record.data + record_run(others);
        assert(all =~= before + name + tail);
        if n < at {
            lemma_skip_cut_name(before, record.name, n);
            assert((before + name).take(n) =~= cut);
        } else {
            lemma_skip_name(before, record.name, cut.skip(at));
            assert(cut =~= before + name + cut.skip(at));
            if n >= at + 10 {
                lemma_record(before, record, record_run(others));
                assert(before + record.bytes() + record_run(others) =~= all);
                assert(cut.subrange(at + 8, at + 10) =~= all.subrange(at + 8, at + 10));
                let end = (before.len() + record.bytes().len()) as int;
                if n >= end {
                    let next = joins(so_far, record_address(cut, at));
                    lemma_cut_records(before + record.bytes(), others, n, next);
                    assert((before + record.bytes()) + record_run(others) =~= all);
                }
            }
        }
    }
}

/// A message that is cut anywhere among its answers is refused, not read in part.
pub proof fn law_cut_answers_are_refused(
    id: u16,
    flags: u16,
    others: Seq<u8>,
    questions: Seq<(WireName, Seq<u8>)>,
    records: Seq<WireRecord>,
    n: int,
)
    requires
        is_good_answer(flags),
        others.len() == 4,
        questions.len() <= 0xffff,
        records.len() <= 0xffff,
        questions_wf(questions),
        records_wf(records),
        12 + question_run(questions).len() <= n,
        n < message(id, flags, others, questions, records).len(),
    ensures
        response_spec(message(id, flags, others, questions, records).take(n), id) is Err,
{
    let start = head(id, flags, questions.len(), records.len(), others);
    let asked = question_run(questions);
    let all = message(id, flags, others, questions, records);
    let cut = all.take(n);
    lemma_head(id, flags, questions.len(), records.len(), others, cut.skip(12));
    assert(cut =~= start + cut.skip(12));
    lemma_questions(start, questions, cut.skip((start + asked).len() as int));
    assert(cut =~= start + asked + cut.skip((start + asked).len() as int));
    lemma_cut_records(start + asked, records, n, Seq::empty());
}

/// Only a whole answer to the question that was asked is read: the number is
/// that of the question, the message is a response, it is not cut, and its status
/// is zero. Any other status is told.
pub proof fn law_only_good_answers_are_read(packet: Seq<u8>, id: u16)
    ensures
        response_spec(packet, id) is Ok ==> {
            &&& packet.len() >= 12
            &&& packet[0] * 256 + packet[1] == id
            &&& packet[2] >= 128
            &&& packet[2] / 2 % 2 == 0
            &&& packet[3] % 16 == 0
        },
        packet.len() >= 12 && packet[0] * 256 + packet[1] == id && packet[2] >= 128 && packet[2] / 2
            % 2 == 0 && packet[3] % 16 != 0 ==> response_spec(packet, id) == Err::<
            Seq<IpAddress>,
            DnsError,
        >(DnsError::Status((packet[3] % 16) as u16)),
        packet.len() >= 12 && packet[0] * 256 + packet[1] != id ==> response_spec(packet, id)
            == Err::<Seq<IpAddress>, DnsError>(DnsError::ForeignId),
        packet.len() >= 12 && packet[0] * 256 + packet[1] == id && packet[2] >= 128 && packet[2] / 2
            % 2 == 1 ==> response_spec(packet, id) == Err::<Seq<IpAddress>, DnsError>(
            DnsError::NeedsTcp,
        ),
{
    if packet.len() >= 12 {
        law_network_order(packet, 0);
        law_network_order(packet, 2);
        let a = packet[2] as int;
        let b = packet[3] as int;
        assert((a * 256 + b) % 16 == b % 16) by (nonlinear_arith)
            requires
                0 <= b,
                0 <= a,
        ;
        assert((a * 256 + b) / 0x200 == a / 2) by (nonlinear_arith)
            requires
                0 <= b < 256,
                0 <= a < 256,
        ;
    }
}

// ---------------------------------------------------------------------------
// Questions
// ---------------------------------------------------------------------------

/// Labels with dots between them.
pub open spec fn dotted(labels: Seq<Seq<char>>) -> Seq<char>
    decreases labels.len(),
{
    if labels.len() == 0 {
        Seq::empty()
    } else if labels.len() == 1 {
        labels[0]
    } else {
        labels[0].push('.') + dotted(labels.skip(1))
    }
}

proof fn lemma_dotted(labels: Seq<Seq<char>>)
    requires
        labels.len() > 0,
        forall|i: int|
            0 <= i < labels.len() ==> (#[trigger] labels[i]).len() > 0 && !labels[i].contains('.'),
    ensures
        split_spec(dotted(labels), CharClass::Is('.')) == labels,
        dotted(labels).len() > 0,
        dotted(labels).last() != '.',
    decreases labels.len(),
{
    let class = CharClass::Is('.');
    let first = labels[0];
    assert forall|k: int| 0 <= k < first.len() implies !class.holds(first[k]) by {
        assert(first.contains(first[k]));
    }
    crate::text::lemma_first_in_is(first, class, first.len() as int);
    assert(split_spec(first, class) =~= seq![first]);
    if labels.len() == 1 {
        assert(labels =~= seq![first]);
    } else {
        let others = labels.skip(1);
        assert forall|i: int| 0 <= i < others.len() implies (#[trigger] others[i]).len() > 0
            && !others[i].contains('.') by {
            assert(others[i] == labels[i + 1]);
        }
        lemma_dotted(others);
        lemma_split_joined(first, '.', dotted(others), class);
        assert(seq![first] + others =~= labels);
        assert(dotted(labels).last() == dotted(others).last());
    }
}

proof fn lemma_label_run(labels: Seq<Seq<char>>)
    ensures
        labels_bytes(labels) == label_run(Seq::new(labels.len(), |i: int| ascii(labels[i]))),
    decreases labels.len(),
{
    let raw = Seq::new(labels.len(), |i: int| ascii(labels[i]));
    if labels.len() > 0 {
        lemma_labels_front(labels);
        lemma_label_run(labels.skip(1));
        assert(raw.skip(1) =~= Seq::new(labels.skip(1).len(), |i: int| ascii(labels.skip(1)[i])));
        assert(label_bytes(labels[0]) =~= seq![raw[0].len() as u8] + raw[0]);
    } else {
        assert(raw =~= Seq::<Seq<u8>>::empty());
    }
}

proof fn lemma_no_invalid(labels: Seq<Seq<char>>, from: int)
    requires
        0 <= from <= labels.len(),
        all_valid(labels),
    ensures
        first_invalid(labels, from) == labels.len(),
    decreases labels.len() - from,
{
    if from < labels.len() {
        lemma_no_invalid(labels, from + 1);
    }
}

/// A question is these bytes: its number, that it asks for recursion, that it is
/// one question, every label of the name behind its length, the type, and the
/// class of the internet. Dots at the end of the name do not matter.
pub proof fn law_question_is_written_so(
    labels: Seq<Seq<char>>,
    dots: Seq<char>,
    query_id: u16,
    record_type: u16,
)
    requires
        labels.len() > 0,
        forall|i: int|
            0 <= i < labels.len() ==> 1 <= (#[trigger] labels[i]).len() <= 63
                && !labels[i].contains('.'),
        forall|i: int, k: int|
            0 <= i < labels.len() && 0 <= k < labels[i].len() ==> (#[trigger] labels[i][k] as u32)
                < 128,
        forall|k: int| 0 <= k < dots.len() ==> #[trigger] dots[k] == '.',
        encode_utf8(dotted(labels)).len() <= 253,
    ensures
        query_spec(dotted(labels) + dots, query_id, record_type) == Ok::<Seq<u8>, DnsError>(
            seq![
                (query_id / 256) as u8,
                (query_id % 256) as u8,
                1u8,
                0u8,
                0u8,
                1u8,
                0u8,
                0u8,
                0u8,
                0u8,
                0u8,
                0u8,
            ] + label_run(Seq::new(labels.len(), |i: int| ascii(labels[i]))) + seq![
                0u8,
                (record_type / 256) as u8,
                (record_type % 256) as u8,
                0u8,
                1u8,
            ],
        ),
{
    let host = dotted(labels) + dots;
    lemma_dotted(labels);
    lemma_trim_end_of(dotted(labels), dots, CharClass::Is('.'));
    assert(bare_name(host) == dotted(labels));
    assert(labels_of(host) == labels);
    assert(all_valid(labels)) by {
        assert forall|i: int| 0 <= i < labels.len() implies label_valid(#[trigger] labels[i]) by {
            assert forall|k: int| 0 <= k < labels[i].len() implies (#[trigger] labels[i][k] as u32)
                < 128 by {}
        }
    }
    lemma_no_invalid(labels, 0);
    lemma_label_run(labels);
    reveal_with_fuel(be_bytes, 3);
    let written = seq![
        (query_id / 256) as u8,
        (query_id % 256) as u8,
        1u8,
        0u8,
        0u8,
        1u8,
        0u8,
        0u8,
        0u8,
        0u8,
        0u8,
        0u8,
    ];
    assert(crate::client::dns::question_header(query_id) =~= written);
    assert(be_bytes(1, 2) =~= seq![0u8, 1u8]);
    assert(be_bytes(record_type as nat, 2) =~= seq![
        (record_type / 256) as u8,
        (record_type % 256) as u8,
    ]);
    let name = labels_bytes(labels);
    assert(query_spec(host, query_id, record_type)->Ok_0 =~= written + name + seq![
        0u8,
        (record_type / 256) as u8,
        (record_type % 256) as u8,
        0u8,
        1u8,
    ]);
}

} // verus!
