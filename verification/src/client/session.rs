//! A session over one relayed path: what it says, which relay it takes, in which
//! order it sends, and what it makes of what comes in.

use vstd::prelude::*;
use std::collections::VecDeque;
use vstd::utf8::encode_utf8;
use crate::client::cause::{Cause, ChainModel, ErrorChain};
use crate::client::packet::{PacketBuf, PACKET_CAPACITY, PACKET_HEADROOM};
use crate::client::shutdown::{ShutdownCoordinator, ShutdownModel};
use crate::client::turn_endpoint::{
    authority_text, endpoint_spec, optional, resolve_turn_endpoints, EndpointError,
    TurnTransportMode,
};
use crate::net::SocketAddress;
use crate::shared::selective_fec::{
    begins, begins_with, refill_spec, should_duplicate, should_duplicate_spec, Budget,
    REFILL_INTERVAL,
};
use crate::shared::striped_scheduler::{
    PacketClass, BULK_DATAGRAM_BATCH, MEDIUM_DATAGRAM_BATCH, SMALL_DATAGRAM_BATCH,
};
use crate::text::{decimal, decimal_u64, push_chars, push_text, string_of_vec, utf8_of};
use crate::wire::put_bytes;

verus! {

/// The attempts to be configured.
pub const CONFIG_RESPONSE_ATTEMPTS: usize = 3;
pub const WORKER_LATENCY_CAPACITY: usize = SMALL_DATAGRAM_BATCH;
pub const WORKER_PRIORITY_CAPACITY: usize = MEDIUM_DATAGRAM_BATCH;
pub const WORKER_BULK_CAPACITY: usize = BULK_DATAGRAM_BATCH;
pub const WRITER_COMMAND_CAPACITY: usize = 16;
pub const WRITER_LATENCY_BATCH_LIMIT: usize = SMALL_DATAGRAM_BATCH;
pub const WRITER_PRIORITY_BATCH_LIMIT: usize = MEDIUM_DATAGRAM_BATCH;
pub const WRITER_BULK_BATCH_LIMIT: usize = BULK_DATAGRAM_BATCH;
pub const DEALLOCATE_TIMEOUT_MS: u64 = 700;
pub const CONNECT_CANCEL_GRACE_MS: u64 = 1_000;
pub const SESSION_SHUTDOWN_GRACE_MS: u64 = 2_000;

/// A relay refused an allocation, or could not be asked for one.
pub struct TurnAllocateError(pub ErrorChain);

impl TurnAllocateError {
    /// The code that the relay gave, if it gave one.
    pub fn stun_code(&self) -> (r: Option<i32>)
        ensures
            r == self.0.stun_code_spec(),
    {
        self.0.stun_code()
    }

    /// What is said of it.
    pub fn text(&self) -> (r: String)
        ensures
            r@ == allocate_text(self.0.full@),
    {
        three_texts("TURN Allocate: ", "", self.0.full.as_str())
    }

    /// The error with its causes, of which it is itself the first.
    pub fn into_chain(self) -> (r: ErrorChain)
        ensures
            r@ == allocate_chain(self.0@),
    {
        let message = self.text();
        let beneath = self.0;
        let mut causes: Vec<Cause> = beneath.causes;
        causes.insert(0, Cause::TurnAllocate);
        let full = three_texts(message.as_str(), ": ", beneath.full.as_str());
        let r = ErrorChain { causes, message, full };
        assert(r@ =~= allocate_chain(beneath@));
        r
    }
}

/// What is said of a refused allocation.
pub open spec fn allocate_text(beneath: Seq<char>) -> Seq<char> {
    "TURN Allocate: "@ + beneath
}

/// A refused allocation, with all that is said of the error beneath it.
pub open spec fn allocate_chain(beneath: ChainModel) -> ChainModel {
    let text = allocate_text(beneath.full);
    ChainModel {
        causes: seq![Cause::TurnAllocate] + beneath.causes,
        message: text,
        full: text + ": "@ + beneath.full,
    }
}

pub(crate) fn three_texts(a: &str, b: &str, c: &str) -> (r: String)
    ensures
        r@ == a@ + b@ + c@,
        b@ == ""@ ==> r@ == a@ + c@,
{
    let mut out: Vec<char> = Vec::new();
    push_text(&mut out, a);
    push_text(&mut out, b);
    push_text(&mut out, c);
    proof {
        reveal_strlit("");
    }
    assert(out@ =~= a@ + b@ + c@);
    assert(b@ == ""@ ==> out@ =~= a@ + c@);
    string_of_vec(&out)
}

#[derive(Clone, Copy, Debug, PartialEq, Eq, Structural)]
pub enum ObfsMode {
    Audio,
    Video,
}

pub struct SessionConfig {
    pub id: usize,
    pub peer: SocketAddress,
    pub turn_host: Option<String>,
    pub turn_port: Option<String>,
    pub turn_transport: TurnTransportMode,
    pub local_port: String,
    pub device_id: String,
    pub password: String,
    pub generation: u64,
    pub turn_endpoint_cursor: usize,
    pub salt: String,
    pub mode: ObfsMode,
    pub wrap_key: [u8; 32],
    pub get_config: bool,
    pub desired_count: usize,
    pub server_stream_repair: bool,
}

/// What a session registers with.
pub open spec fn registration_text(config: SessionConfig) -> Seq<char> {
    "GETCONF:"@ + config.local_port@ + "|"@ + config.device_id@ + "|"@ + config.password@ + "|"@
        + decimal(config.generation as nat) + "|"@ + config.salt@ + "|"@ + decimal(
        config.id as nat,
    ) + "|"@ + decimal(config.desired_count as nat) + "|CSQTT-WIRE-3"@
}

pub fn build_registration_payload(config: &SessionConfig) -> (r: Vec<u8>)
    ensures
        r@ == encode_utf8(registration_text(*config)),
{
    let mut out: Vec<char> = Vec::new();
    push_text(&mut out, "GETCONF:");
    push_text(&mut out, config.local_port.as_str());
    push_text(&mut out, "|");
    push_text(&mut out, config.device_id.as_str());
    push_text(&mut out, "|");
    push_text(&mut out, config.password.as_str());
    push_text(&mut out, "|");
    push_chars(&mut out, decimal_u64(config.generation).as_slice());
    push_text(&mut out, "|");
    push_text(&mut out, config.salt.as_str());
    push_text(&mut out, "|");
    push_chars(&mut out, decimal_u64(config.id as u64).as_slice());
    push_text(&mut out, "|");
    push_chars(&mut out, decimal_u64(config.desired_count as u64).as_slice());
    push_text(&mut out, "|CSQTT-WIRE-3");
    assert(out@ =~= registration_text(*config));
    utf8_of(&out)
}

/// Whether a configuration was delivered, and whether one is being fetched.
#[derive(Clone, Copy, Debug, PartialEq, Eq, Structural)]
pub struct ConfigDeliveryState {
    pub sent: bool,
    pub in_flight: bool,
}

impl ConfigDeliveryState {
    /// The fetching is over; what was delivered once stays so.
    pub fn complete(&mut self, delivered: bool)
        ensures
            *final(self) == (ConfigDeliveryState {
                sent: old(self).sent || delivered,
                in_flight: false,
            }),
    {
        if delivered {
            self.sent = true;
        }
        self.in_flight = false;
    }
}

// ---------------------------------------------------------------------------
// The relay of a session
// ---------------------------------------------------------------------------

pub open spec fn endpoint_index(id: int, cursor: int, count: int) -> int {
    (id % count + cursor % count) % count
}

/// Where a session's search for a relay begins.
pub fn turn_endpoint_index(id: usize, cursor: usize, endpoint_count: usize) -> (r: usize)
    requires
        0 < endpoint_count,
    ensures
        r == endpoint_index(id as int, cursor as int, endpoint_count as int),
        r < endpoint_count,
{
    let a: usize = id % endpoint_count;
    let b: usize = cursor % endpoint_count;
    if a < endpoint_count - b {
        proof {
            vstd::arithmetic::div_mod::lemma_small_mod((a + b) as nat, endpoint_count as nat);
        }
        a + b
    } else {
        proof {
            vstd::arithmetic::div_mod::lemma_small_mod(
                (a + b - endpoint_count) as nat,
                endpoint_count as nat,
            );
            vstd::arithmetic::div_mod::lemma_mod_sub_multiples_vanish(
                a + b,
                endpoint_count as int,
            );
        }
        a - (endpoint_count - b)
    }
}

/// The relay can be used as the session wants it.
pub open spec fn usable(address: Seq<char>, config: SessionConfig) -> bool {
    endpoint_spec(
        address,
        owned(config.turn_host),
        owned(config.turn_port),
        config.turn_transport,
    ) is Ok
}

/// The view of an optional text.
pub open spec fn owned(value: Option<String>) -> Option<Seq<char>> {
    match value {
        Some(text) => Some(text@),
        None => None,
    }
}

fn borrowed(value: &Option<String>) -> (r: Option<&str>)
    ensures
        optional(r) == owned(*value),
{
    match value {
        Some(text) => Some(text.as_str()),
        None => None,
    }
}

/// The relay that is tried after so many others.
pub open spec fn candidate(count: int, config: SessionConfig, offset: int) -> int {
    (endpoint_index(config.id as int, config.turn_endpoint_cursor as int, count) + offset) % count
}

/// Why a session cannot begin.
#[derive(Clone, Copy, Debug, PartialEq, Eq, Structural)]
pub enum RelayError {
    NoAddresses,
    NoEndpoint,
}

impl RelayError {
    pub open spec fn text_spec(self) -> Seq<char> {
        match self {
            RelayError::NoAddresses => "нет TURN URL в учётных данных"@,
            RelayError::NoEndpoint => "Нет TURN endpoint для выбранного транспорта"@,
        }
    }

    pub fn text(self) -> (r: &'static str)
        ensures
            r@ == self.text_spec(),
    {
        match self {
            RelayError::NoAddresses => "нет TURN URL в учётных данных",
            RelayError::NoEndpoint => "Нет TURN endpoint для выбранного транспорта",
        }
    }
}

/// The index of the relay that a session takes: the first usable one from where
/// its search begins.
pub fn select_turn_address(addresses: &Vec<String>, config: &SessionConfig) -> (r: Result<
    usize,
    RelayError,
>)
    ensures
        match r {
            Ok(index) => exists|offset: int|
                {
                    &&& 0 <= offset < addresses@.len()
                    &&& index == #[trigger] candidate(addresses@.len() as int, *config, offset)
                    &&& index < addresses@.len()
                    &&& usable(addresses@[index as int]@, *config)
                    &&& forall|earlier: int|
                        0 <= earlier < offset ==> !usable(
                            addresses@[#[trigger] candidate(
                                addresses@.len() as int,
                                *config,
                                earlier,
                            )]@,
                            *config,
                        )
                },
            Err(RelayError::NoAddresses) => addresses@.len() == 0,
            Err(RelayError::NoEndpoint) => addresses@.len() > 0 && forall|i: int|
                0 <= i < addresses@.len() ==> !usable(
                    addresses@[#[trigger] candidate(addresses@.len() as int, *config, i)]@,
                    *config,
                ),
        },
{
    let count: usize = addresses.len();
    if count == 0 {
        return Err(RelayError::NoAddresses);
    }
    let start: usize = turn_endpoint_index(config.id, config.turn_endpoint_cursor, count);
    let mut index: usize = start;
    let mut offset: usize = 0;
    proof {
        vstd::arithmetic::div_mod::lemma_small_mod(start as nat, count as nat);
    }
    while offset < count
        invariant
            0 < count == addresses@.len(),
            offset <= count,
            index < count,
            offset < count ==> index == candidate(count as int, *config, offset as int),
            start == endpoint_index(
                config.id as int,
                config.turn_endpoint_cursor as int,
                count as int,
            ),
            start < count,
            forall|earlier: int|
                0 <= earlier < offset ==> !usable(
                    addresses@[#[trigger] candidate(count as int, *config, earlier)]@,
                    *config,
                ),
        decreases count - offset,
    {
        let found = resolve_turn_endpoints(
            addresses[index].as_str(),
            borrowed(&config.turn_host),
            borrowed(&config.turn_port),
            config.turn_transport,
        );
        if found.is_ok() {
            assert(index == candidate(count as int, *config, offset as int));
            return Ok(index);
        }
        let ghost before = index;
        index = if index + 1 == count {
            0
        } else {
            index + 1
        };
        offset = offset + 1;
        proof {
            lemma_next_index(start as int, before as int, offset - 1, count as int);
        }
    }
    Err(RelayError::NoEndpoint)
}

proof fn lemma_next_index(start: int, index: int, offset: int, count: int)
    requires
        0 <= start < count,
        0 <= offset < count,
        index == (start + offset) % count,
    ensures
        (start + offset + 1) % count == if index + 1 == count {
            0
        } else {
            index + 1
        },
{
    assert(start + offset < 2 * count);
    if start + offset < count {
        vstd::arithmetic::div_mod::lemma_small_mod((start + offset) as nat, count as nat);
        if start + offset + 1 < count {
            vstd::arithmetic::div_mod::lemma_small_mod((start + offset + 1) as nat, count as nat);
        } else {
            vstd::arithmetic::div_mod::lemma_mod_self_0(count);
        }
    } else {
        vstd::arithmetic::div_mod::lemma_small_mod((start + offset - count) as nat, count as nat);
        vstd::arithmetic::div_mod::lemma_mod_sub_multiples_vanish(start + offset, count);
        vstd::arithmetic::div_mod::lemma_mod_sub_multiples_vanish(start + offset + 1, count);
        if start + offset + 1 - count < count {
            vstd::arithmetic::div_mod::lemma_small_mod(
                (start + offset + 1 - count) as nat,
                count as nat,
            );
        }
    }
}

/// The name under which a path to a relay is known.
pub fn turn_path_key(address: &str, config: &SessionConfig) -> (r: Result<String, EndpointError>)
    ensures
        match (
            r,
            endpoint_spec(
                address@,
                owned(config.turn_host),
                owned(config.turn_port),
                config.turn_transport,
            ),
        ) {
            (Ok(key), Ok((host, port, transport))) => key@ == authority_text(host, port),
            (Err(e), Err(expected)) => e == expected,
            _ => false,
        },
{
    match resolve_turn_endpoints(
        address,
        borrowed(&config.turn_host),
        borrowed(&config.turn_port),
        config.turn_transport,
    ) {
        Ok(list) => Ok(list[0].socket_authority()),
        Err(e) => Err(e),
    }
}

// ---------------------------------------------------------------------------
// Sending
// ---------------------------------------------------------------------------

/// Whether a batch of a class may grow while packets of a more urgent class
/// wait.
pub fn writer_batch_can_extend(
    class: PacketClass,
    latency_pending: bool,
    priority_pending: bool,
) -> (r: bool)
    ensures
        r == can_extend(class, latency_pending, priority_pending),
{
    match class {
        PacketClass::Small => true,
        PacketClass::Medium => !latency_pending,
        PacketClass::Bulk => !latency_pending && !priority_pending,
    }
}

pub open spec fn can_extend(
    class: PacketClass,
    latency_pending: bool,
    priority_pending: bool,
) -> bool {
    match class {
        PacketClass::Small => true,
        PacketClass::Medium => !latency_pending,
        PacketClass::Bulk => !latency_pending && !priority_pending,
    }
}

pub struct WriterPacket {
    pub packet: PacketBuf,
    pub class: PacketClass,
}

/// The packets that a session's writer has before it, the oldest of each class
/// first.
pub struct WriterLanes {
    pub latency: VecDeque<PacketBuf>,
    pub priority: VecDeque<PacketBuf>,
    pub bulk: VecDeque<PacketBuf>,
}

#[verifier::ext_equal]
pub struct LanesModel {
    pub latency: Seq<PacketBuf>,
    pub priority: Seq<PacketBuf>,
    pub bulk: Seq<PacketBuf>,
}

impl LanesModel {
    pub open spec fn lane(self, class: PacketClass) -> Seq<PacketBuf> {
        match class {
            PacketClass::Small => self.latency,
            PacketClass::Medium => self.priority,
            PacketClass::Bulk => self.bulk,
        }
    }

    /// The lanes without the first packets of one of them.
    pub open spec fn drained(self, class: PacketClass, count: int) -> LanesModel {
        match class {
            PacketClass::Small => LanesModel { latency: self.latency.skip(count), ..self },
            PacketClass::Medium => LanesModel { priority: self.priority.skip(count), ..self },
            PacketClass::Bulk => LanesModel { bulk: self.bulk.skip(count), ..self },
        }
    }

    /// The most urgent class of which a packet waits.
    pub open spec fn urgent(self) -> Option<PacketClass> {
        if self.latency.len() > 0 {
            Some(PacketClass::Small)
        } else if self.priority.len() > 0 {
            Some(PacketClass::Medium)
        } else if self.bulk.len() > 0 {
            Some(PacketClass::Bulk)
        } else {
            None
        }
    }

    /// How many packets join a first one of the class in a batch.
    pub open spec fn joining(self, class: PacketClass) -> int {
        let limit = batch_limit(class) - 1;
        if !can_extend(class, self.latency.len() > 0, self.priority.len() > 0) {
            0
        } else if self.lane(class).len() < limit {
            self.lane(class).len() as int
        } else {
            limit
        }
    }
}

pub open spec fn batch_limit(class: PacketClass) -> int {
    match class {
        PacketClass::Small => WRITER_LATENCY_BATCH_LIMIT as int,
        PacketClass::Medium => WRITER_PRIORITY_BATCH_LIMIT as int,
        PacketClass::Bulk => WRITER_BULK_BATCH_LIMIT as int,
    }
}

impl View for WriterLanes {
    type V = LanesModel;

    open spec fn view(&self) -> LanesModel {
        LanesModel { latency: self.latency@, priority: self.priority@, bulk: self.bulk@ }
    }
}

impl WriterLanes {
    pub fn new() -> (r: WriterLanes)
        ensures
            r@.latency.len() == 0,
            r@.priority.len() == 0,
            r@.bulk.len() == 0,
    {
        WriterLanes {
            latency: VecDeque::new(),
            priority: VecDeque::new(),
            bulk: VecDeque::new(),
        }
    }

    fn pop(&mut self, class: PacketClass) -> (r: Option<PacketBuf>)
        ensures
            match r {
                Some(packet) => {
                    &&& old(self)@.lane(class).len() > 0
                    &&& packet == old(self)@.lane(class)[0]
                    &&& final(self)@ == old(self)@.drained(class, 1)
                },
                None => old(self)@.lane(class).len() == 0 && final(self)@ == old(self)@,
            },
    {
        let ghost before = self@;
        let r = match class {
            PacketClass::Small => self.latency.pop_front(),
            PacketClass::Medium => self.priority.pop_front(),
            PacketClass::Bulk => self.bulk.pop_front(),
        };
        assert(r is Some ==> self@ =~= before.drained(class, 1));
        r
    }

    /// The packet to send next: the oldest one of the most urgent class.
    pub fn next_writer_packet(&mut self) -> (r: Option<WriterPacket>)
        ensures
            match r {
                Some(next) => {
                    &&& old(self)@.urgent() == Some(next.class)
                    &&& next.packet == old(self)@.lane(next.class)[0]
                    &&& final(self)@ == old(self)@.drained(next.class, 1)
                },
                None => old(self)@.urgent() is None && final(self)@ == old(self)@,
            },
    {
        if let Some(packet) = self.pop(PacketClass::Small) {
            return Some(WriterPacket { packet, class: PacketClass::Small });
        }
        if let Some(packet) = self.pop(PacketClass::Medium) {
            return Some(WriterPacket { packet, class: PacketClass::Medium });
        }
        match self.pop(PacketClass::Bulk) {
            Some(packet) => Some(WriterPacket { packet, class: PacketClass::Bulk }),
            None => None,
        }
    }

    /// A batch that begins with a packet: others of its class join it, as far
    /// as its limit allows and nothing more urgent waits.
    pub fn writer_batch(&mut self, first: WriterPacket) -> (r: Vec<PacketBuf>)
        ensures
            r@ == seq![first.packet] + old(self)@.lane(first.class).take(
                old(self)@.joining(first.class),
            ),
            final(self)@ == old(self)@.drained(first.class, old(self)@.joining(first.class)),
    {
        let class = first.class;
        let limit: usize = match class {
            PacketClass::Small => WRITER_LATENCY_BATCH_LIMIT,
            PacketClass::Medium => WRITER_PRIORITY_BATCH_LIMIT,
            PacketClass::Bulk => WRITER_BULK_BATCH_LIMIT,
        };
        let ghost before = self@;
        let ghost lane = before.lane(class);
        let mut batch: Vec<PacketBuf> = Vec::new();
        batch.push(first.packet);
        assert(batch@ =~= seq![first.packet] + lane.take(0));
        assert(self@ =~= before.drained(class, 0));
        while batch.len() < limit
            invariant_except_break
                1 <= batch@.len() <= limit,
                batch@.len() - 1 <= before.joining(class),
            invariant
                limit == batch_limit(class),
                class == first.class,
                lane == before.lane(class),
                batch@.len() >= 1,
                batch@.len() - 1 <= lane.len(),
                batch@ == seq![first.packet] + lane.take(batch@.len() - 1),
                self@ == before.drained(class, batch@.len() - 1),
            ensures
                batch@.len() - 1 == before.joining(class),
            decreases limit - batch@.len(),
        {
            if !writer_batch_can_extend(class, self.latency.len() > 0, self.priority.len() > 0) {
                break;
            }
            match self.pop(class) {
                Some(packet) => {
                    let ghost taken = batch@.len() - 1;
                    batch.push(packet);
                    assert(batch@ =~= seq![first.packet] + lane.take(taken + 1));
                    assert(self@ =~= before.drained(class, taken + 1));
                },
                None => {
                    break;
                },
            }
        }
        batch
    }
}

/// What a batch becomes on the wire.
#[derive(Clone, Copy, Debug, PartialEq, Eq, Structural)]
pub enum FlushStep {
    /// One packet, twice where it is worth it.
    Packet { index: usize, duplicate: bool },
    /// The packets from one index to another in one go.
    Batch { from: usize, to: usize },
}

/// The steps for the packets from `next` on, where those since `from` still wait
/// to go out together.
pub open spec fn flush_from(duplicates: Seq<bool>, from: int, next: int) -> Seq<FlushStep>
    decreases duplicates.len() - next,
{
    if next >= duplicates.len() {
        if from < next {
            seq![FlushStep::Batch { from: from as usize, to: next as usize }]
        } else {
            Seq::empty()
        }
    } else if duplicates[next] {
        let waiting = if from < next {
            seq![FlushStep::Batch { from: from as usize, to: next as usize }]
        } else {
            Seq::empty()
        };
        waiting + seq![FlushStep::Packet { index: next as usize, duplicate: true }] + flush_from(
            duplicates,
            next + 1,
            next + 1,
        )
    } else if next + 1 - from == WRITER_BULK_BATCH_LIMIT {
        seq![FlushStep::Batch { from: from as usize, to: (next + 1) as usize }] + flush_from(
            duplicates,
            next + 1,
            next + 1,
        )
    } else {
        flush_from(duplicates, from, next + 1)
    }
}

/// The steps in which queued packets go out.
pub open spec fn flush_spec(duplicates: Seq<bool>) -> Seq<FlushStep> {
    if duplicates.len() == 1 {
        seq![FlushStep::Packet { index: 0, duplicate: duplicates[0] }]
    } else {
        flush_from(duplicates, 0, 0)
    }
}

pub fn flush_plan(duplicates: &Vec<bool>) -> (r: Vec<FlushStep>)
    ensures
        r@ == flush_spec(duplicates@),
{
    let mut steps: Vec<FlushStep> = Vec::new();
    if duplicates.len() == 1 {
        steps.push(FlushStep::Packet { index: 0, duplicate: duplicates[0] });
        assert(steps@ =~= flush_spec(duplicates@));
        return steps;
    }
    let mut from: usize = 0;
    let mut next: usize = 0;
    assert(steps@ + flush_from(duplicates@, 0, 0) =~= flush_spec(duplicates@));
    while next < duplicates.len()
        invariant
            from <= next <= duplicates@.len(),
            steps@ + flush_from(duplicates@, from as int, next as int) == flush_spec(duplicates@),
        decreases duplicates@.len() - next,
    {
        let ghost before = steps@;
        let ghost rest = flush_from(duplicates@, from as int, next as int);
        if duplicates[next] {
            if from < next {
                steps.push(FlushStep::Batch { from, to: next });
            }
            steps.push(FlushStep::Packet { index: next, duplicate: true });
            from = next + 1;
        } else if next + 1 - from == WRITER_BULK_BATCH_LIMIT {
            steps.push(FlushStep::Batch { from, to: next + 1 });
            from = next + 1;
        }
        next = next + 1;
        assert(steps@ + flush_from(duplicates@, from as int, next as int) =~= before + rest);
    }
    let ghost before = steps@;
    let ghost rest = flush_from(duplicates@, from as int, next as int);
    if from < next {
        steps.push(FlushStep::Batch { from, to: next });
    }
    assert(steps@ =~= before + rest);
    steps
}

/// The packets that a step sends, in order.
pub open spec fn step_packets(step: FlushStep) -> Seq<int> {
    match step {
        FlushStep::Packet { index, .. } => seq![index as int],
        FlushStep::Batch { from, to } => Seq::new((to - from) as nat, |i: int| from + i),
    }
}

pub open spec fn plan_packets(steps: Seq<FlushStep>) -> Seq<int>
    decreases steps.len(),
{
    if steps.len() == 0 {
        Seq::empty()
    } else {
        step_packets(steps[0]) + plan_packets(steps.skip(1))
    }
}

/// A step sends what it should: a packet that is worth it twice and alone, the
/// others at most a batch at a time.
pub open spec fn step_sound(step: FlushStep, duplicates: Seq<bool>) -> bool {
    match step {
        FlushStep::Packet { index, duplicate } => index < duplicates.len() && duplicate
            == duplicates[index as int],
        FlushStep::Batch { from, to } => {
            &&& from < to <= duplicates.len()
            &&& to - from <= WRITER_BULK_BATCH_LIMIT
            &&& forall|i: int| from <= i < to ==> !#[trigger] duplicates[i]
        },
    }
}

proof fn lemma_plan_add(a: Seq<FlushStep>, b: Seq<FlushStep>)
    ensures
        plan_packets(a + b) == plan_packets(a) + plan_packets(b),
    decreases a.len(),
{
    if a.len() == 0 {
        assert(a + b =~= b);
        assert(plan_packets(a) + plan_packets(b) =~= plan_packets(b));
    } else {
        lemma_plan_add(a.skip(1), b);
        assert((a + b).skip(1) =~= a.skip(1) + b);
        assert(plan_packets(a + b) =~= plan_packets(a) + plan_packets(b));
    }
}

proof fn lemma_flush_from(duplicates: Seq<bool>, from: int, next: int)
    requires
        0 <= from <= next <= duplicates.len() <= usize::MAX,
        next - from < WRITER_BULK_BATCH_LIMIT,
        forall|i: int| from <= i < next ==> !#[trigger] duplicates[i],
    ensures
        plan_packets(flush_from(duplicates, from, next)) == Seq::new(
            (duplicates.len() - from) as nat,
            |i: int| from + i,
        ),
        forall|k: int|
            0 <= k < flush_from(duplicates, from, next).len() ==> step_sound(
                #[trigger] flush_from(duplicates, from, next)[k],
                duplicates,
            ),
    decreases duplicates.len() - next,
{
    let all = flush_from(duplicates, from, next);
    let wanted = Seq::new((duplicates.len() - from) as nat, |i: int| from + i);
    reveal_with_fuel(plan_packets, 3);
    if next >= duplicates.len() {
        if from < next {
            assert(all.skip(1) =~= Seq::<FlushStep>::empty());
        }
        assert(plan_packets(all) =~= wanted);
    } else if duplicates[next] {
        let waiting: Seq<FlushStep> = if from < next {
            seq![FlushStep::Batch { from: from as usize, to: next as usize }]
        } else {
            Seq::empty()
        };
        let own = seq![FlushStep::Packet { index: next as usize, duplicate: true }];
        let rest = flush_from(duplicates, next + 1, next + 1);
        lemma_flush_from(duplicates, next + 1, next + 1);
        assert(all == waiting + own + rest);
        lemma_plan_add(waiting + own, rest);
        lemma_plan_add(waiting, own);
        if from < next {
            assert(waiting.skip(1) =~= Seq::<FlushStep>::empty());
        }
        assert(own.skip(1) =~= Seq::<FlushStep>::empty());
        assert(plan_packets(all) =~= wanted);
        assert forall|k: int| 0 <= k < all.len() implies step_sound(
            #[trigger] all[k],
            duplicates,
        ) by {
            let own_at = waiting.len() as int;
            if k < own_at {
                assert(all[k] == waiting[k]);
            } else if k == own_at {
                assert(all[k] == own[0]);
            } else {
                assert(all[k] == rest[k - own_at - 1]);
            }
        }
    } else if next + 1 - from == WRITER_BULK_BATCH_LIMIT {
        let own = seq![FlushStep::Batch { from: from as usize, to: (next + 1) as usize }];
        let rest = flush_from(duplicates, next + 1, next + 1);
        lemma_flush_from(duplicates, next + 1, next + 1);
        assert(all == own + rest);
        lemma_plan_add(own, rest);
        assert(own.skip(1) =~= Seq::<FlushStep>::empty());
        assert(plan_packets(all) =~= wanted);
        assert forall|k: int| 0 <= k < all.len() implies step_sound(
            #[trigger] all[k],
            duplicates,
        ) by {
            if k == 0 {
                assert(all[k] == own[0]);
            } else {
                assert(all[k] == rest[k - 1]);
            }
        }
    } else {
        lemma_flush_from(duplicates, from, next + 1);
    }
}

/// Every queued packet goes out, once and in order; what is worth sending twice
/// goes alone, and no batch is larger than the system takes.
pub proof fn law_flush_sends_everything_in_order(duplicates: Seq<bool>)
    requires
        duplicates.len() <= usize::MAX,
    ensures
        plan_packets(flush_spec(duplicates)) == Seq::new(duplicates.len(), |i: int| i),
        forall|k: int|
            0 <= k < flush_spec(duplicates).len() ==> step_sound(
                #[trigger] flush_spec(duplicates)[k],
                duplicates,
            ),
{
    if duplicates.len() == 1 {
        reveal_with_fuel(plan_packets, 2);
        let all = flush_spec(duplicates);
        assert(all.skip(1) =~= Seq::<FlushStep>::empty());
        assert(plan_packets(all) =~= Seq::new(1, |i: int| i));
    } else {
        lemma_flush_from(duplicates, 0, 0);
        assert(Seq::new((duplicates.len() - 0) as nat, |i: int| 0 + i) =~= Seq::new(
            duplicates.len(),
            |i: int| i,
        ));
    }
}

/// Whether a packet goes out twice: it must be worth it, and the budget must
/// have room.
pub fn wants_duplicate(budget: &mut Budget, packet: &[u8], now: u64) -> (r: bool)
    requires
        old(budget).wf(),
    ensures
        final(budget).wf(),
        should_duplicate_spec(packet@) ==> {
            &&& r == (old(budget).tokens_at(now) > 0)
            &&& final(budget).tokens == old(budget).tokens_at(now) - (if r {
                1int
            } else {
                0
            })
            &&& final(budget).updated == old(budget).updated + refill_spec(
                old(budget).updated,
                now,
            ) * REFILL_INTERVAL
        },
        !should_duplicate_spec(packet@) ==> !r && *final(budget) == *old(budget),
{
    should_duplicate(packet) && budget.allow(now)
}

/// Fills a packet with what is to be sent, or says how much was too much.
pub fn fill_packet(packet: &mut PacketBuf, data: &[u8]) -> (r: Result<(), usize>)
    requires
        old(packet).wf(),
    ensures
        final(packet).wf(),
        match r {
            Ok(()) => {
                &&& data@.len() <= PACKET_CAPACITY - PACKET_HEADROOM
                &&& final(packet)@.bytes() == data@
                &&& final(packet)@.start == PACKET_HEADROOM
            },
            Err(len) => {
                &&& len == data@.len()
                &&& data@.len() > PACKET_CAPACITY - PACKET_HEADROOM
                &&& final(packet)@ == old(packet)@
            },
        },
{
    if data.len() > PACKET_CAPACITY - PACKET_HEADROOM {
        return Err(data.len());
    }
    put_bytes(packet.read_area(), 0, data);
    let _ = packet.set_read_len(data.len());
    assert(packet@.bytes() =~= data@);
    Ok(())
}

/// What the writer does next.
#[derive(Clone, Copy, Debug, PartialEq, Eq, Structural)]
pub enum WriterAction {
    HandleCommand,
    SendBatch,
    Wait,
    Again,
    Stop,
}

/// What ended a writer's wait.
#[derive(Clone, Copy, Debug, PartialEq, Eq, Structural)]
pub enum WriterEvent {
    Cancelled,
    Command { present: bool },
    Packet { present: bool },
}

/// Commands go before packets; without either the writer waits, until all lanes
/// are closed.
pub fn writer_next(command_waits: bool, packet_waits: bool, all_closed: bool) -> (r: WriterAction)
    ensures
        r == if command_waits {
            WriterAction::HandleCommand
        } else if packet_waits {
            WriterAction::SendBatch
        } else if all_closed {
            WriterAction::Stop
        } else {
            WriterAction::Wait
        },
{
    if command_waits {
        WriterAction::HandleCommand
    } else if packet_waits {
        WriterAction::SendBatch
    } else if all_closed {
        WriterAction::Stop
    } else {
        WriterAction::Wait
    }
}

pub fn writer_woken(event: WriterEvent, cancelled: bool, all_closed: bool) -> (r: WriterAction)
    ensures
        r == match event {
            WriterEvent::Cancelled => WriterAction::Stop,
            WriterEvent::Command { present } => if present {
                WriterAction::HandleCommand
            } else {
                WriterAction::Again
            },
            WriterEvent::Packet { present } => if present {
                WriterAction::SendBatch
            } else if cancelled || all_closed {
                WriterAction::Stop
            } else {
                WriterAction::Again
            },
        },
{
    match event {
        WriterEvent::Cancelled => WriterAction::Stop,
        WriterEvent::Command { present } => if present {
            WriterAction::HandleCommand
        } else {
            WriterAction::Again
        },
        WriterEvent::Packet { present } => if present {
            WriterAction::SendBatch
        } else if cancelled || all_closed {
            WriterAction::Stop
        } else {
            WriterAction::Again
        },
    }
}

// ---------------------------------------------------------------------------
// Being configured
// ---------------------------------------------------------------------------

pub open spec fn config_timeout_spec(attempt: int) -> u64 {
    if attempt == 0 {
        750
    } else if attempt == 1 {
        1_500
    } else {
        3_000
    }
}

/// How long an attempt waits for its answer, in milliseconds.
pub fn config_timeout_ms(attempt: usize) -> (r: u64)
    ensures
        r == config_timeout_spec(attempt as int),
{
    if attempt == 0 {
        750
    } else if attempt == 1 {
        1_500
    } else {
        3_000
    }
}

/// What a session hears while it waits to be configured.
pub enum ConfigEvent {
    Timeout,
    PanelRestart,
    Unrelated,
    NoConfig,
    Config(String),
    Rejected(String),
}

/// What it does.
pub enum ConfigAction {
    /// Say that the panel restarts, and wait on.
    ReportRestart,
    KeepWaiting,
    /// Ask again and wait that long, in milliseconds.
    Retry { timeout_ms: u64 },
    /// Configured, or not to be.
    Done { delivered: bool, stream_repair: bool },
    /// Give up; the report is made under that name.
    Fail { report: Option<&'static str>, message: ConfigFailure },
}

pub enum ConfigFailure {
    NoAnswer,
    Rejected(String),
}

/// A configuration says that the server repairs streams.
pub open spec fn repairs_streams(value: Seq<char>) -> bool {
    ends(value, ":stream-v1"@) || ends(value, ":stream-v2"@)
}

pub open spec fn ends(value: Seq<char>, end: Seq<char>) -> bool {
    value.len() >= end.len() && value.skip(value.len() - end.len()) == end
}

fn ends_with(value: &[char], end: &str) -> (r: bool)
    ensures
        r == ends(value@, end@),
{
    let tail = crate::text::chars_of(end);
    if value.len() < tail.len() {
        return false;
    }
    let last = vstd::slice::slice_subrange(value, value.len() - tail.len(), value.len());
    assert(last@ =~= value@.skip(value@.len() - end@.len()));
    crate::text::same_chars(last, tail.as_slice())
}

/// What a session that waits in an attempt does about what it hears.
pub fn config_step(attempt: usize, get_config: bool, event: ConfigEvent) -> (r: (
    ConfigAction,
    Option<String>,
))
    requires
        attempt < CONFIG_RESPONSE_ATTEMPTS,
    ensures
        match event {
            ConfigEvent::Timeout => r.1 is None && if attempt + 1 < CONFIG_RESPONSE_ATTEMPTS {
                r.0 == (ConfigAction::Retry { timeout_ms: config_timeout_spec(attempt + 1) })
            } else {
                &&& r.0 is Fail
                &&& r.0->message is NoAnswer
                &&& r.0->report is Some == get_config
                &&& get_config ==> r.0->report->0@ == "handshake_timeout"@
            },
            ConfigEvent::PanelRestart => r.1 is None && r.0 is ReportRestart,
            ConfigEvent::Unrelated => r.1 is None && r.0 is KeepWaiting,
            ConfigEvent::NoConfig => r.1 is None && r.0 == (ConfigAction::Done {
                delivered: false,
                stream_repair: false,
            }),
            ConfigEvent::Config(value) => {
                &&& r.0 == (ConfigAction::Done {
                    delivered: get_config,
                    stream_repair: repairs_streams(value@),
                })
                &&& r.1 is Some == get_config
                &&& get_config ==> r.1->0@ == value@
            },
            ConfigEvent::Rejected(text) => {
                &&& r.1 is None
                &&& r.0 is Fail
                &&& r.0->message is Rejected
                &&& r.0->message->Rejected_0@ == text@
                &&& r.0->report is Some == (get_config && crate::text::has_text(
                    text@,
                    "FATAL_"@,
                ))
                &&& r.0->report is Some ==> r.0->report->0@ == "handshake_rejected"@
            },
        },
{
    match event {
        ConfigEvent::Timeout => {
            if attempt + 1 < CONFIG_RESPONSE_ATTEMPTS {
                (ConfigAction::Retry { timeout_ms: config_timeout_ms(attempt + 1) }, None)
            } else {
                let report = if get_config {
                    Some("handshake_timeout")
                } else {
                    None
                };
                (ConfigAction::Fail { report, message: ConfigFailure::NoAnswer }, None)
            }
        },
        ConfigEvent::PanelRestart => (ConfigAction::ReportRestart, None),
        ConfigEvent::Unrelated => (ConfigAction::KeepWaiting, None),
        ConfigEvent::NoConfig => (
            ConfigAction::Done { delivered: false, stream_repair: false },
            None,
        ),
        ConfigEvent::Config(value) => {
            let chars = crate::text::chars_of(value.as_str());
            let stream_repair = ends_with(chars.as_slice(), ":stream-v1") || ends_with(
                chars.as_slice(),
                ":stream-v2",
            );
            let handed = if get_config {
                Some(value)
            } else {
                None
            };
            (ConfigAction::Done { delivered: get_config, stream_repair }, handed)
        },
        ConfigEvent::Rejected(text) => {
            let chars = crate::text::chars_of(text.as_str());
            let report = if get_config && crate::text::contains(chars.as_slice(), "FATAL_") {
                Some("handshake_rejected")
            } else {
                None
            };
            (ConfigAction::Fail { report, message: ConfigFailure::Rejected(text) }, None)
        },
    }
}

impl ConfigFailure {
    pub open spec fn text_spec(self) -> Seq<char> {
        match self {
            ConfigFailure::NoAnswer =>
                "FATAL_HANDSHAKE: сервер не подтвердил конфигурацию после 3 попыток; проверьте пароль подключения и совместимость клиента с сервером"@,
            ConfigFailure::Rejected(text) => text@,
        }
    }

    pub fn text(&self) -> (r: String)
        ensures
            r@ == self.text_spec(),
    {
        match self {
            ConfigFailure::NoAnswer => crate::text::string_of(
                crate::text::chars_of(
                    "FATAL_HANDSHAKE: сервер не подтвердил конфигурацию после 3 попыток; проверьте пароль подключения и совместимость клиента с сервером",
                ).as_slice(),
            ),
            ConfigFailure::Rejected(text) => crate::text::string_of(
                crate::text::chars_of(text.as_str()).as_slice(),
            ),
        }
    }
}

// ---------------------------------------------------------------------------
// Receiving
// ---------------------------------------------------------------------------

/// What a packet turned out to be by its form.
#[derive(Clone, Copy, Debug, PartialEq, Eq, Structural)]
pub struct InboundForm {
    pub panel_restart: bool,
    pub stream_repair: bool,
    pub stream_alive: bool,
    pub control_response: bool,
}

#[derive(Clone, Copy, Debug, PartialEq, Eq, Structural)]
pub enum ReaderAction {
    ReportRestart,
    ApplyRepair,
    ApplyAlive,
    Farewell,
    NewConfig,
    Ignore,
    Deliver,
}

pub open spec fn reader_spec(
    shutdown: ShutdownModel,
    form: InboundForm,
    packet: Seq<u8>,
) -> (ShutdownModel, ReaderAction) {
    if form.panel_restart {
        (shutdown, ReaderAction::ReportRestart)
    } else if form.stream_repair {
        (shutdown, ReaderAction::ApplyRepair)
    } else if form.stream_alive {
        (shutdown, ReaderAction::ApplyAlive)
    } else if shutdown.observe(packet).1 {
        (shutdown.observe(packet).0, ReaderAction::Farewell)
    } else if begins(packet, "TUNCONF:"@) {
        (shutdown, ReaderAction::NewConfig)
    } else if form.control_response {
        (shutdown, ReaderAction::Ignore)
    } else {
        (shutdown, ReaderAction::Deliver)
    }
}

/// What a session makes of a packet: notices first, then answers, and what is
/// neither goes to the tunnel.
pub fn reader_action(
    shutdown: &mut ShutdownCoordinator,
    form: InboundForm,
    packet: &[u8],
) -> (r: ReaderAction)
    ensures
        (final(shutdown)@, r) == reader_spec(old(shutdown)@, form, packet@),
{
    if form.panel_restart {
        return ReaderAction::ReportRestart;
    }
    if form.stream_repair {
        return ReaderAction::ApplyRepair;
    }
    if form.stream_alive {
        return ReaderAction::ApplyAlive;
    }
    if shutdown.observe_control_response(packet) {
        return ReaderAction::Farewell;
    }
    proof {
        reveal_strlit("TUNCONF:");
    }
    if begins_with(packet, "TUNCONF:") {
        return ReaderAction::NewConfig;
    }
    if form.control_response {
        return ReaderAction::Ignore;
    }
    ReaderAction::Deliver
}

// ---------------------------------------------------------------------------
// The end of a session
// ---------------------------------------------------------------------------

/// What ended the work of a session.
#[derive(Clone, Copy, Debug, PartialEq, Eq, Structural)]
pub enum SessionEnd {
    Cancelled,
    Repair,
    Writer,
    Reader,
}

/// Which of the writer and the reader are still to be stopped: a task that has
/// ended is not waited for again.
pub fn tasks_to_stop(end: SessionEnd) -> (r: (bool, bool))
    ensures
        r.0 == (end != SessionEnd::Writer),
        r.1 == (end != SessionEnd::Reader),
{
    match end {
        SessionEnd::Cancelled | SessionEnd::Repair => (true, true),
        SessionEnd::Writer => (false, true),
        SessionEnd::Reader => (true, false),
    }
}

/// How a session's task ended.
#[derive(Clone, Copy, Debug, PartialEq, Eq, Structural)]
pub enum TaskEnd {
    Finished,
    Panicked,
    Stopped,
    /// It outlived its grace after the client stopped.
    Overdue,
}

/// What is said of a task that did not finish by itself; nothing where it did,
/// or where the client gave up on it.
pub open spec fn task_failure_spec(stopping: bool, end: TaskEnd) -> Option<Seq<char>> {
    match end {
        TaskEnd::Finished | TaskEnd::Overdue => None,
        TaskEnd::Panicked => Some(
            if stopping {
                "session panicked during graceful shutdown: "@
            } else {
                "паника сессии изолирована: "@
            },
        ),
        TaskEnd::Stopped => Some(
            if stopping {
                "session stopped during graceful shutdown: "@
            } else {
                "задача сессии завершена аварийно: "@
            },
        ),
    }
}

pub fn task_failure(stopping: bool, end: TaskEnd) -> (r: Option<&'static str>)
    ensures
        optional(r) == task_failure_spec(stopping, end),
{
    match end {
        TaskEnd::Finished | TaskEnd::Overdue => None,
        TaskEnd::Panicked => Some(
            if stopping {
                "session panicked during graceful shutdown: "
            } else {
                "паника сессии изолирована: "
            },
        ),
        TaskEnd::Stopped => Some(
            if stopping {
                "session stopped during graceful shutdown: "
            } else {
                "задача сессии завершена аварийно: "
            },
        ),
    }
}

/// Every relay is tried once before a session gives up: the search visits each
/// index.
pub proof fn law_search_visits_every_relay(count: int, config: SessionConfig, index: int)
    requires
        0 <= index < count,
    ensures
        exists|offset: int| 0 <= offset < count && #[trigger] candidate(count, config, offset) == index,
{
    let start = endpoint_index(config.id as int, config.turn_endpoint_cursor as int, count);
    assert(0 <= start < count) by {
        vstd::arithmetic::div_mod::lemma_mod_bound(
            config.id as int % count + config.turn_endpoint_cursor as int % count,
            count,
        );
    }
    let offset = if index >= start {
        index - start
    } else {
        index + count - start
    };
    if index >= start {
        vstd::arithmetic::div_mod::lemma_small_mod(index as nat, count as nat);
    } else {
        vstd::arithmetic::div_mod::lemma_mod_sub_multiples_vanish(start + offset, count);
        vstd::arithmetic::div_mod::lemma_small_mod(index as nat, count as nat);
    }
    assert(candidate(count, config, offset) == index);
}

/// While a packet of a more urgent class waits, no other is taken, and a batch of
/// a less urgent class stays at one packet.
pub proof fn law_urgent_packets_go_first(lanes: LanesModel, class: PacketClass)
    ensures
        lanes.latency.len() > 0 ==> lanes.urgent() == Some(PacketClass::Small),
        lanes.latency.len() == 0 && lanes.priority.len() > 0 ==> lanes.urgent() == Some(
            PacketClass::Medium,
        ),
        lanes.latency.len() > 0 && class != PacketClass::Small ==> lanes.joining(class) == 0,
        lanes.priority.len() > 0 && class == PacketClass::Bulk ==> lanes.joining(class) == 0,
        lanes.joining(class) + 1 <= batch_limit(class),
        lanes.urgent() is None <==> lanes.latency.len() + lanes.priority.len() + lanes.bulk.len()
            == 0,
{
}

} // verus!
