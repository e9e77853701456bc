//! What keeps a TURN allocation alive, and what ends it.

use vstd::prelude::*;
use crate::client::stun::{
    decode_spec, fingerprint_spec, md5_of, value_spec, AttributeSpan, DecodeError,
};
use crate::client::stun_build::{error_code_spec, integrity_spec, xor_address_spec};
use crate::client::turn_model::{
    answers, earliest_attempt, first_answered, first_operation, CoreModel,
    Operation, PendingModel, TurnControlTransport, CLOCK_LIMIT, EVENT_CHANNEL_BOUND,
    EVENT_RELAY_ADDRESS, EVENT_REQUEST_COMPLETE, STATE_DEALLOCATED,
    STATE_DEALLOCATING, STATE_DESTROYING, STATE_READY,
};
use crate::net::SocketAddress;
use crate::wire::law_network_order;

verus! {

/// A packet is a message that is signed with the key of the core and not damaged.
pub open spec fn is_signed(core: CoreModel, packet: Seq<u8>, spans: Seq<AttributeSpan>) -> bool {
    &&& decode_spec(packet) == Ok::<Seq<AttributeSpan>, DecodeError>(spans)
    &&& fingerprint_spec(packet, spans) != Some(false)
    &&& integrity_spec(packet, spans, core.key)
}

/// A packet of a type answers the request at an index: it has the transaction of
/// that request and of none before it.
pub open spec fn answers_request(core: CoreModel, index: int, packet: Seq<u8>) -> bool {
    &&& 0 <= index < core.pending.len()
    &&& packet.len() >= 20
    &&& core.pending[index].transaction == packet.subrange(8, 20)
    &&& forall|k: int|
        0 <= k < index ==> (#[trigger] core.pending[k]).transaction != packet.subrange(8, 20)
}

/// The lifetime that a response grants in seconds: the four bytes of attribute 13,
/// or the six hundred that were asked for.
pub open spec fn grants(packet: Seq<u8>, spans: Seq<AttributeSpan>, seconds: int) -> bool {
    match value_spec(packet, spans, 0x000d) {
        Some(v) => if v.len() == 4 {
            seconds == v[0] * 0x100_0000 + v[1] * 0x1_0000 + v[2] * 0x100 + v[3]
        } else {
            seconds == 600
        },
        None => seconds == 600,
    }
}

proof fn lemma_first_answered_is(
    pending: Seq<PendingModel>,
    transaction: Seq<u8>,
    method: nat,
    index: int,
)
    requires
        0 <= index < pending.len(),
        answers(pending[index], transaction, method),
        forall|k: int| 0 <= k < index ==> (#[trigger] pending[k]).transaction != transaction,
    ensures
        first_answered(pending, transaction, method) == index,
    decreases index,
{
    if index > 0 {
        assert(pending[0].transaction != transaction);
        let rest = pending.skip(1);
        assert forall|k: int| 0 <= k < index - 1 implies (#[trigger] rest[k]).transaction
            != transaction by {
            assert(rest[k] == pending[k + 1]);
        }
        lemma_first_answered_is(rest, transaction, method, index - 1);
    }
}

/// A response to a signed request that is signed itself is taken in.
proof fn lemma_taken_in(
    core: CoreModel,
    index: int,
    packet: Seq<u8>,
    spans: Seq<AttributeSpan>,
    now: u64,
    transaction: Seq<u8>,
)
    requires
        is_signed(core, packet, spans),
        answers_request(core, index, packet),
        packet[0] == 1,
        packet[1] < 32,
        packet[1] % 16 == core.pending[index].operation.method_spec(),
    ensures
        core.input_stun(packet, now, transaction) == core.accept(
            index,
            packet,
            spans,
            now,
            transaction,
        ),
{
    lemma_first_answered_is(
        core.pending,
        packet.subrange(8, 20),
        crate::client::stun::method_spec(packet),
        index,
    );
}

proof fn lemma_granted(packet: Seq<u8>, spans: Seq<AttributeSpan>, seconds: int)
    requires
        grants(packet, spans, seconds),
    ensures
        0 <= seconds <= 0xffff_ffff,
        match crate::client::stun_build::attribute_u32_spec(
            packet,
            spans,
            crate::client::stun::ATTR_LIFETIME,
        ) {
            Some(s) => s == seconds,
            None => seconds == 600,
        },
{
    if let Some(v) = value_spec(packet, spans, 0x000d) {
        if v.len() == 4 {
            law_network_order(v, 0);
        }
    }
}

/// A refresh that succeeds with a lifetime makes the allocation last that long
/// from now, sets the next refresh before its end, forgets earlier failures, and
/// leaves the relay, the channel and the other timers as they are.
#[verifier::spinoff_prover]
#[verifier::rlimit(50)]
pub proof fn law_refresh_extends_the_allocation(
    core: CoreModel,
    index: int,
    packet: Seq<u8>,
    spans: Seq<AttributeSpan>,
    seconds: int,
    now: u64,
    transaction: Seq<u8>,
)
    requires
        is_signed(core, packet, spans),
        answers_request(core, index, packet),
        core.pending[index].operation == Operation::Refresh,
        core.pending[index].authenticated,
        packet[0] == 1 && packet[1] == 4,
        grants(packet, spans, seconds),
        seconds > 0,
        now <= CLOCK_LIMIT,
    ensures
        ({
            let (next, r) = core.input_stun(packet, now, transaction);
            &&& r == 0
            &&& next.allocation_expires_at == Some((now + seconds * 1_000_000_000) as u64)
            &&& next.allocation_refresh matches Some(at) && now < at < now + seconds
                * 1_000_000_000
            &&& next.refresh_failures == 0
            &&& next.state == core.state
            &&& next.relay == core.relay
            &&& next.channel == core.channel
            &&& next.keepalive == core.keepalive
            &&& next.maintenance_refresh == core.maintenance_refresh
            &&& next.permission_retry == core.permission_retry
            &&& next.channel_retry == core.channel_retry
            &&& next.pending == core.pending.remove(index)
        }),
{
    lemma_granted(packet, spans, seconds);
    lemma_taken_in(core, index, packet, spans, now, transaction);
}

/// A refresh that is granted no time at all is no success: it is tried again while
/// the allocation lasts.
#[verifier::spinoff_prover]
#[verifier::rlimit(50)]
pub proof fn law_refresh_without_time_is_tried_again(
    core: CoreModel,
    index: int,
    packet: Seq<u8>,
    spans: Seq<AttributeSpan>,
    now: u64,
    end: u64,
    transaction: Seq<u8>,
)
    requires
        is_signed(core, packet, spans),
        answers_request(core, index, packet),
        core.pending[index].operation == Operation::Refresh,
        core.pending[index].authenticated,
        packet[0] == 1 && packet[1] == 4,
        grants(packet, spans, 0),
        core.state == STATE_READY,
        core.allocation_expires_at == Some(end),
        now < end,
        now <= CLOCK_LIMIT,
    ensures
        ({
            let (next, r) = core.input_stun(packet, now, transaction);
            &&& r < 0
            &&& next.state == STATE_READY
            &&& next.relay == core.relay
            &&& next.allocation_expires_at == Some(end)
            &&& next.allocation_refresh matches Some(at) && now + 1_000_000_000 <= at <= now
                + 30_000_000_000
        }),
{
    lemma_granted(packet, spans, 0);
    lemma_taken_in(core, index, packet, spans, now, transaction);
}

/// An allocation begins with the response that grants it: the relay is the address
/// in it, it lasts as long as it says, the first refresh comes before its end, and
/// upkeep and keepalive begin from now.
#[verifier::spinoff_prover]
#[verifier::rlimit(50)]
pub proof fn law_allocation_begins(
    core: CoreModel,
    index: int,
    packet: Seq<u8>,
    spans: Seq<AttributeSpan>,
    relay: SocketAddress,
    seconds: int,
    now: u64,
    transaction: Seq<u8>,
)
    requires
        core.profile.wf(),
        is_signed(core, packet, spans),
        answers_request(core, index, packet),
        core.pending[index].operation == Operation::Allocate,
        core.pending[index].authenticated,
        packet[0] == 1 && packet[1] == 3,
        value_spec(packet, spans, 0x0016) == Some(
            xor_address_spec(relay, packet.subrange(8, 20)),
        ),
        relay.port != 0,
        (relay.ip is V4) == (core.peer.ip is V4),
        grants(packet, spans, seconds),
        seconds > 0,
        now <= CLOCK_LIMIT,
        !core.shutting_down,
        core.events.len() < 60,
    ensures
        ({
            let (next, r) = core.input_stun(packet, now, transaction);
            &&& r == 0
            &&& next.state == STATE_READY
            &&& next.relay matches Some(found) && found.ip == relay.ip && found.port == relay.port
            &&& next.allocation_expires_at == Some((now + seconds * 1_000_000_000) as u64)
            &&& next.allocation_refresh matches Some(at) && now < at < now + seconds
                * 1_000_000_000
            &&& next.maintenance_refresh == Some((now + core.profile.maintenance_refresh) as u64)
            &&& next.keepalive == Some((now + core.profile.keepalive_interval) as u64)
            &&& next.pending == core.pending.remove(index)
            &&& exists|i: int|
                core.events.len() <= i < next.events.len() && (#[trigger] next.events[i]).kind
                    == EVENT_RELAY_ADDRESS && next.events[i].address.port == relay.port
            &&& next.events.last().kind == EVENT_REQUEST_COMPLETE
            &&& next.events.last().status == 0
            &&& next.events.last().method == 3
        }),
{
    lemma_granted(packet, spans, seconds);
    lemma_taken_in(core, index, packet, spans, now, transaction);
    crate::client::stun_build::law_xor_address_round_trip(relay, packet.subrange(8, 20));
    let (next, r) = core.input_stun(packet, now, transaction);
    let n = core.events.len() as int;
    assert(next.events[n].kind == EVENT_RELAY_ADDRESS);
}

/// A channel is bound by the response that says so, under the number that was
/// asked for, and the owner hears of it.
#[verifier::spinoff_prover]
#[verifier::rlimit(50)]
pub proof fn law_channel_is_bound(
    core: CoreModel,
    index: int,
    packet: Seq<u8>,
    spans: Seq<AttributeSpan>,
    now: u64,
    transaction: Seq<u8>,
)
    requires
        is_signed(core, packet, spans),
        answers_request(core, index, packet),
        core.pending[index].operation == Operation::Channel,
        core.pending[index].authenticated,
        packet[0] == 1 && packet[1] == 9,
        core.events.len() < 60,
    ensures
        ({
            let (next, r) = core.input_stun(packet, now, transaction);
            &&& r == 0
            &&& next.channel == Some(0x4000u16)
            &&& next.channel_failures == 0
            &&& next.state == core.state
            &&& next.relay == core.relay
            &&& next.allocation_expires_at == core.allocation_expires_at
            &&& next.allocation_refresh == core.allocation_refresh
            &&& next.pending == core.pending.remove(index)
            &&& next.events.len() == core.events.len() + 2
            &&& next.events[core.events.len() as int].kind == EVENT_CHANNEL_BOUND
            &&& next.events[core.events.len() as int].channel == 0x4000
            &&& next.events.last().kind == EVENT_REQUEST_COMPLETE && next.events.last().status == 0
        }),
{
    lemma_taken_in(core, index, packet, spans, now, transaction);
}

/// A permission that is granted forgets earlier failures and changes nothing else
/// of the allocation.
#[verifier::spinoff_prover]
#[verifier::rlimit(50)]
pub proof fn law_permission_is_granted(
    core: CoreModel,
    index: int,
    packet: Seq<u8>,
    spans: Seq<AttributeSpan>,
    now: u64,
    transaction: Seq<u8>,
)
    requires
        is_signed(core, packet, spans),
        answers_request(core, index, packet),
        core.pending[index].operation == Operation::Permission,
        core.pending[index].authenticated,
        packet[0] == 1 && packet[1] == 8,
    ensures
        ({
            let (next, r) = core.input_stun(packet, now, transaction);
            &&& r == 0
            &&& next.permission_failures == 0
            &&& next.state == core.state
            &&& next.relay == core.relay
            &&& next.channel == core.channel
            &&& next.allocation_expires_at == core.allocation_expires_at
            &&& next.allocation_refresh == core.allocation_refresh
            &&& next.pending == core.pending.remove(index)
        }),
{
    lemma_taken_in(core, index, packet, spans, now, transaction);
}

/// The response to a release ends the allocation, unless it grants time.
#[verifier::spinoff_prover]
#[verifier::rlimit(50)]
pub proof fn law_release_is_confirmed(
    core: CoreModel,
    index: int,
    packet: Seq<u8>,
    spans: Seq<AttributeSpan>,
    now: u64,
    transaction: Seq<u8>,
)
    requires
        is_signed(core, packet, spans),
        answers_request(core, index, packet),
        core.pending[index].operation == Operation::Deallocate,
        core.pending[index].authenticated,
        packet[0] == 1 && packet[1] == 4,
        grants(packet, spans, 0) || value_spec(packet, spans, 0x000d) is None,
    ensures
        ({
            let (next, r) = core.input_stun(packet, now, transaction);
            &&& r == 0
            &&& next.state == STATE_DEALLOCATED
            &&& next.relay is None
            &&& next.allocation_expires_at is None
            &&& next.allocation_refresh is None
        }),
{
    lemma_taken_in(core, index, packet, spans, now, transaction);
    if grants(packet, spans, 0) {
        lemma_granted(packet, spans, 0);
    }
}

/// A server that asks for credentials gets the same request again, signed with
/// the key that the name, its realm and the password make, as long as it has not
/// asked too often; what it said is kept for all later requests.
#[verifier::spinoff_prover]
#[verifier::rlimit(50)]
pub proof fn law_challenge_is_answered(
    core: CoreModel,
    index: int,
    packet: Seq<u8>,
    spans: Seq<AttributeSpan>,
    realm: Seq<u8>,
    nonce: Seq<u8>,
    now: u64,
    transaction: Seq<u8>,
)
    requires
        decode_spec(packet) == Ok::<Seq<AttributeSpan>, DecodeError>(spans),
        fingerprint_spec(packet, spans) != Some(false),
        answers_request(core, index, packet),
        core.pending[index].operation == Operation::Allocate,
        !core.pending[index].authenticated,
        packet[0] == 1 && packet[1] == 0x13,
        error_code_spec(packet, spans) == Some(401u16),
        value_spec(packet, spans, 0x0014) == Some(realm),
        value_spec(packet, spans, 0x0015) == Some(nonce),
        core.pending[index].nonce_retries < core.profile.max_nonce_retries,
        forall|i: int|
            0 <= i < core.pending.len() && i != index ==> (#[trigger] core.pending[i]).operation
                != Operation::Allocate,
        now <= CLOCK_LIMIT,
    ensures
        ({
            let (next, r) = core.input_stun(packet, now, transaction);
            let key = md5_of(core.username + seq![58u8] + realm + seq![58u8] + core.password);
            let keyed = core.set_auth(realm, nonce);
            &&& r == 0
            &&& next.realm == Some(realm)
            &&& next.nonce == Some(nonce)
            &&& next.key == Some(key)
            &&& keyed.request(Operation::Allocate, transaction, true) matches Some(request) ==> {
                &&& next.state == core.state
                &&& next.pending.len() == core.pending.len()
                &&& next.pending.last().operation == Operation::Allocate
                &&& next.pending.last().authenticated
                &&& next.pending.last().transaction == transaction
                &&& next.pending.last().packet == request
                &&& next.pending.last().nonce_retries == core.pending[index].nonce_retries + 1
                &&& next.pending.last().transmissions == 1
                &&& next.controls.len() > 0
                &&& next.controls.last().packet == request
                &&& next.controls.last().destination == core.server
            }
        }),
{
    lemma_first_answered_is(
        core.pending,
        packet.subrange(8, 20),
        crate::client::stun::method_spec(packet),
        index,
    );
    let left = core.pending.remove(index);
    assert forall|i: int| 0 <= i < left.len() implies (#[trigger] left[i]).operation
        != Operation::Allocate by {
        if i < index {
            assert(left[i] == core.pending[i]);
        } else {
            assert(left[i] == core.pending[i + 1]);
        }
    }
    lemma_no_operation(left, Operation::Allocate);
    let taken = (CoreModel { pending: left, ..core }).remove_queued(packet.subrange(8, 20));
    let keyed = taken.set_auth(realm, nonce);
    lemma_same_request(core.set_auth(realm, nonce), keyed, Operation::Allocate, transaction, true);
}

/// A request depends on who asks, for whom and with what, not on anything else.
proof fn lemma_same_request(
    a: CoreModel,
    b: CoreModel,
    operation: Operation,
    transaction: Seq<u8>,
    authenticated: bool,
)
    requires
        a.peer == b.peer,
        a.username == b.username,
        a.realm == b.realm,
        a.nonce == b.nonce,
        a.key == b.key,
    ensures
        a.request(operation, transaction, authenticated) == b.request(
            operation,
            transaction,
            authenticated,
        ),
{
    reveal(CoreModel::request);
    assert(a.request_body(operation, transaction, authenticated) =~= b.request_body(
        operation,
        transaction,
        authenticated,
    ));
}

proof fn lemma_no_operation(pending: Seq<PendingModel>, operation: Operation)
    requires
        forall|i: int| 0 <= i < pending.len() ==> (#[trigger] pending[i]).operation != operation,
    ensures
        first_operation(pending, operation) == pending.len(),
    decreases pending.len(),
{
    if pending.len() > 0 {
        assert(pending[0].operation != operation);
        let rest = pending.skip(1);
        assert forall|i: int| 0 <= i < rest.len() implies (#[trigger] rest[i]).operation
            != operation by {
            assert(rest[i] == pending[i + 1]);
        }
        lemma_no_operation(rest, operation);
    }
}

// ---------------------------------------------------------------------------
// Timers
// ---------------------------------------------------------------------------

/// Requests that keep an allocation, one of each kind at most.
pub open spec fn upkeep_alone(core: CoreModel) -> bool {
    &&& forall|i: int|
        0 <= i < core.pending.len() ==> (#[trigger] core.pending[i]).operation == Operation::Refresh
            || core.pending[i].operation == Operation::Permission || core.pending[i].operation
            == Operation::Channel
    &&& forall|i: int, j: int|
        0 <= i < j < core.pending.len() ==> (#[trigger] core.pending[i]).operation != (
        #[trigger] core.pending[j]).operation
}

/// A channel that fails once more is not given up yet.
pub open spec fn channel_may_fail(core: CoreModel) -> bool {
    core.channel_failures < 3 || forall|i: int|
        0 <= i < core.pending.len() ==> (#[trigger] core.pending[i]).operation != Operation::Channel
}

/// What an allocation is.
pub open spec fn same_allocation(a: CoreModel, b: CoreModel) -> bool {
    &&& a.state == b.state
    &&& a.relay == b.relay
    &&& a.channel == b.channel
    &&& a.allocation_expires_at == b.allocation_expires_at
    &&& a.shutting_down == b.shutting_down
    &&& a.destroyed == b.destroyed
}

#[verifier::spinoff_prover]
#[verifier::rlimit(50)]
proof fn lemma_expire_keeps(core: CoreModel, index: int, now: u64, end: u64)
    requires
        0 <= index,
        core.state == STATE_READY,
        core.allocation_expires_at == Some(end),
        now < end,
        upkeep_alone(core),
        channel_may_fail(core),
    ensures
        same_allocation(core.expire_from(index, now), core),
    decreases core.left_from(index),
{
    if index < core.pending.len() {
        if now < core.pending[index].next_attempt {
            lemma_expire_keeps(core, index + 1, now, end);
        } else if core.gives_up(index) {
            let next = core.time_out(index, now);
            let operation = core.pending[index].operation;
            let left = core.pending.remove(index);
            assert forall|i: int| 0 <= i < left.len() implies (#[trigger] left[i]).operation
                != operation && (left[i].operation == Operation::Refresh || left[i].operation
                == Operation::Permission || left[i].operation == Operation::Channel) by {
                if i < index {
                    assert(left[i] == core.pending[i]);
                    assert(core.pending[i].operation != core.pending[index].operation);
                } else {
                    assert(left[i] == core.pending[i + 1]);
                    assert(core.pending[index].operation != core.pending[i + 1].operation);
                }
            }
            assert forall|i: int, j: int| 0 <= i < j < left.len() implies (
            #[trigger] left[i]).operation != (#[trigger] left[j]).operation by {
                let a = if i < index {
                    i
                } else {
                    i + 1
                };
                let b = if j < index {
                    j
                } else {
                    j + 1
                };
                assert(left[i] == core.pending[a]);
                assert(left[j] == core.pending[b]);
            }
            if operation == Operation::Channel {
                assert(core.pending[index].operation == Operation::Channel);
                assert(core.channel_failures < 3);
            } else if core.channel_failures >= 3 {
                assert forall|i: int| 0 <= i < left.len() implies (#[trigger] left[i]).operation
                    != Operation::Channel by {
                    if i < index {
                        assert(left[i] == core.pending[i]);
                    } else {
                        assert(left[i] == core.pending[i + 1]);
                    }
                }
            }
            assert(next.pending == left);
            lemma_expire_keeps(next, index, now, end);
        } else {
            let next = core.retransmit(index, now);
            assert forall|i: int| 0 <= i < next.pending.len() implies (
            #[trigger] next.pending[i]).operation == core.pending[i].operation by {}
            lemma_expire_keeps(next, index + 1, now, end);
        }
    }
}

/// Until its end no timer ends an allocation: whichever requests are due, sent
/// again or given up, it stays ready with its relay, its channel and its end.
#[verifier::spinoff_prover]
#[verifier::rlimit(50)]
pub proof fn law_allocation_lives_to_its_end(
    core: CoreModel,
    now: u64,
    end: u64,
    ids: (Seq<u8>, Seq<u8>, Seq<u8>),
)
    requires
        !core.destroyed,
        !core.shutting_down,
        core.state == STATE_READY,
        core.allocation_expires_at == Some(end),
        now < end,
        upkeep_alone(core),
        channel_may_fail(core),
    ensures
        same_allocation(core.poll(now, ids).0, core),
{
    lemma_expire_keeps(core, 0, now, end);
}

/// The requests that are given up with an allocation.
proof fn lemma_expire_after_end(core: CoreModel, index: int, now: u64, end: u64)
    requires
        0 <= index,
        core.state == STATE_READY && core.allocation_expires_at == Some(end) || (core.state
            == STATE_DESTROYING && core.relay is None && core.pending.len() == 0),
        now >= end,
        forall|i: int|
            0 <= i < core.pending.len() ==> (#[trigger] core.pending[i]).operation
                != Operation::Deallocate,
    ensures
        ({
            let next = core.expire_from(index, now);
            &&& next.shutting_down == core.shutting_down
            &&& next.destroyed == core.destroyed
            &&& (next.state == STATE_READY && next.allocation_expires_at == Some(end)) || (
            next.state == STATE_DESTROYING && next.relay is None)
        }),
    decreases core.left_from(index),
{
    if index < core.pending.len() {
        if now < core.pending[index].next_attempt {
            lemma_expire_after_end(core, index + 1, now, end);
        } else if core.gives_up(index) {
            let next = core.time_out(index, now);
            assert(core.pending[index].operation != Operation::Deallocate);
            assert(next.pending.len() == 0);
            lemma_expire_after_end(next, index, now, end);
        } else {
            let next = core.retransmit(index, now);
            assert forall|i: int| 0 <= i < next.pending.len() implies (
            #[trigger] next.pending[i]).operation != Operation::Deallocate by {
                assert(next.pending[i].operation == core.pending[i].operation);
            }
            lemma_expire_after_end(next, index + 1, now, end);
        }
    }
}

/// At its end an allocation that nobody refreshed is gone: no relay is left of it
/// and the core is not ready any more.
pub proof fn law_allocation_ends_at_its_end(
    core: CoreModel,
    now: u64,
    end: u64,
    ids: (Seq<u8>, Seq<u8>, Seq<u8>),
)
    requires
        !core.destroyed,
        !core.shutting_down,
        core.state == STATE_READY,
        core.allocation_expires_at == Some(end),
        now >= end,
        forall|i: int|
            0 <= i < core.pending.len() ==> (#[trigger] core.pending[i]).operation
                != Operation::Deallocate,
    ensures
        core.poll(now, ids).0.state == STATE_DESTROYING,
        core.poll(now, ids).0.relay is None,
{
    lemma_expire_after_end(core, 0, now, end);
}

/// A request that was just sent, and where it stands.
pub open spec fn is_sent(core: CoreModel, operation: Operation, packet: Seq<u8>) -> bool {
    exists|i: int, k: int|
        0 <= i < core.pending.len() && 0 <= k < core.controls.len() && (
        #[trigger] core.pending[i]).operation == operation && core.pending[i].packet == packet
            && core.pending[i].transmissions == 1 && core.pending[i].authenticated && (
        #[trigger] core.controls[k]).packet == packet && core.controls[k].destination
            == core.server
}

/// A refresh that is due is sent, signed, to the server of the relay.
pub proof fn law_due_refresh_is_sent(
    core: CoreModel,
    now: u64,
    end: u64,
    at: u64,
    ids: (Seq<u8>, Seq<u8>, Seq<u8>),
    packet: Seq<u8>,
)
    requires
        !core.destroyed,
        !core.shutting_down,
        core.state == STATE_READY,
        core.allocation_expires_at == Some(end),
        now < end,
        core.pending.len() == 0,
        core.controls.len() == 0,
        core.allocation_refresh == Some(at),
        at <= now,
        now <= CLOCK_LIMIT,
        core.maintenance_refresh matches Some(t) ==> now < t,
        core.permission_retry matches Some(t) ==> now < t,
        core.channel_retry matches Some(t) ==> now < t,
        core.realm is Some && core.nonce is Some && core.key is Some,
        core.request(Operation::Refresh, ids.0, true) == Some(packet),
    ensures
        ({
            let (next, r) = core.poll(now, ids);
            &&& r is Ok
            &&& next.pending.len() == 1
            &&& is_sent(next, Operation::Refresh, packet)
            &&& next.pending[0].transaction == ids.0
            &&& next.allocation_refresh is None
            &&& core.transport == TurnControlTransport::Datagram ==> next.pending[0].next_attempt
                == now + 200_000_000
            &&& core.transport == TurnControlTransport::Stream ==> next.pending[0].next_attempt
                == now + 12_000_000_000
        }),
{
    lemma_no_operation(core.pending, Operation::Refresh);
    let bare = CoreModel { allocation_refresh: None, ..core };
    lemma_same_request(core, bare, Operation::Refresh, ids.0, true);
    let (next, r) = core.poll(now, ids);
    assert(next.pending[0].operation == Operation::Refresh);
    assert(next.controls[0].packet == packet);
}

/// Upkeep that is due renews the permission and the channel together, and the next
/// one is a whole interval later.
pub proof fn law_due_upkeep_renews_both(
    core: CoreModel,
    now: u64,
    end: u64,
    at: u64,
    ids: (Seq<u8>, Seq<u8>, Seq<u8>),
    permission: Seq<u8>,
    channel: Seq<u8>,
)
    requires
        core.profile.wf(),
        !core.destroyed,
        !core.shutting_down,
        core.state == STATE_READY,
        core.allocation_expires_at == Some(end),
        now < end,
        core.pending.len() == 0,
        core.controls.len() == 0,
        core.maintenance_refresh == Some(at),
        at <= now,
        now <= CLOCK_LIMIT,
        core.allocation_refresh matches Some(t) ==> now < t,
        core.realm is Some && core.nonce is Some && core.key is Some,
        core.request(Operation::Permission, ids.1, true) == Some(permission),
        core.request(Operation::Channel, ids.2, true) == Some(channel),
    ensures
        ({
            let (next, r) = core.poll(now, ids);
            &&& r is Ok
            &&& next.pending.len() == 2
            &&& is_sent(next, Operation::Permission, permission)
            &&& is_sent(next, Operation::Channel, channel)
            &&& next.maintenance_refresh == Some((now + core.profile.maintenance_refresh) as u64)
        }),
{
    lemma_no_operation(core.pending, Operation::Refresh);
    lemma_no_operation(core.pending, Operation::Permission);
    let (a, _, _) = core.poll_refresh(now, ids.0);
    assert(a == core);
    let m = CoreModel {
        maintenance_refresh: Some((now + core.profile.maintenance_refresh) as u64),
        ..core
    };
    let (b, started, result) = m.poll_permission(true, now, ids.1);
    lemma_same_request(
        core,
        (CoreModel { permission_retry: None, ..m }),
        Operation::Permission,
        ids.1,
        true,
    );
    assert(b.pending.len() == 1 && b.pending[0].operation == Operation::Permission);
    lemma_no_operation(b.pending, Operation::Channel);
    lemma_same_request(
        core,
        (CoreModel { channel_retry: None, ..b }),
        Operation::Channel,
        ids.2,
        true,
    );
    let (next, r) = core.poll(now, ids);
    assert(next.pending[0].operation == Operation::Permission);
    assert(next.controls[0].packet == permission);
    assert(next.pending[1].operation == Operation::Channel);
    assert(next.controls[1].packet == channel);
}

/// A quiet channel is kept open by a channel message of one byte, in every
/// interval.
pub proof fn law_quiet_channel_is_kept_open(
    core: CoreModel,
    now: u64,
    end: u64,
    at: u64,
    channel: u16,
    ids: (Seq<u8>, Seq<u8>, Seq<u8>),
)
    requires
        core.profile.wf(),
        !core.destroyed,
        !core.shutting_down,
        core.state == STATE_READY,
        core.allocation_expires_at == Some(end),
        now < end,
        core.pending.len() == 0,
        core.controls.len() == 0,
        core.channel == Some(channel),
        core.keepalive == Some(at),
        at <= now,
        now <= CLOCK_LIMIT,
        core.allocation_refresh matches Some(t) ==> now < t,
        core.maintenance_refresh matches Some(t) ==> now < t,
        core.permission_retry matches Some(t) ==> now < t,
        core.channel_retry matches Some(t) ==> now < t,
    ensures
        ({
            let (next, r) = core.poll(now, ids);
            &&& r is Ok
            &&& next.pending.len() == 0
            &&& next.controls.len() == 1
            &&& next.controls[0].destination == core.server
            &&& next.controls[0].packet == seq![
                (channel / 256) as u8,
                (channel % 256) as u8,
                0u8,
                1u8,
                0xffu8,
                0u8,
                0u8,
                0u8,
            ]
            &&& next.keepalive == Some((now + core.profile.keepalive_interval) as u64)
        }),
{
    reveal_with_fuel(crate::wire::be_bytes, 3);
    let (next, r) = core.poll(now, ids);
    assert(next.controls[0].packet =~= seq![
        (channel / 256) as u8,
        (channel % 256) as u8,
        0u8,
        1u8,
        0xffu8,
        0u8,
        0u8,
        0u8,
    ]);
}

/// A request whose time has come is sent again over datagrams until it was sent
/// seven times; then, or at once over a stream, it is given up.
pub proof fn law_unanswered_request_is_sent_again(
    core: CoreModel,
    request: PendingModel,
    now: u64,
    ids: (Seq<u8>, Seq<u8>, Seq<u8>),
)
    requires
        !core.destroyed,
        core.state != STATE_READY,
        core.pending == seq![request],
        core.controls.len() == 0,
        request.next_attempt <= now,
        200_000_000 <= request.rto <= 1_600_000_000,
        request.transmissions <= 7,
        now <= CLOCK_LIMIT,
    ensures
        ({
            let next = core.poll(now, ids).0;
            if core.transport == TurnControlTransport::Datagram && request.transmissions < 7 {
                &&& next.pending.len() == 1
                &&& next.pending[0].packet == request.packet
                &&& next.pending[0].transaction == request.transaction
                &&& next.pending[0].transmissions == request.transmissions + 1
                &&& next.pending[0].next_attempt == now + if request.rto * 2 < 1_600_000_000 {
                    request.rto * 2
                } else {
                    1_600_000_000
                }
                &&& next.controls.len() == 1
                &&& next.controls[0].packet == request.packet
                &&& next.controls[0].destination == core.server
                &&& next.state == core.state
            } else {
                &&& next.pending.len() == 0
                &&& next.controls.len() == 0
                &&& next.relay is None
                &&& next.state == if request.operation == Operation::Deallocate {
                    STATE_DEALLOCATED
                } else {
                    STATE_DESTROYING
                }
            }
        }),
{
    assert(core.pending[0] == request);
    assert(core.pending.len() == 1);
    if core.gives_up(0) {
        let next = core.time_out(0, now);
        assert(core.pending.remove(0) =~= Seq::<PendingModel>::empty());
        assert(next.pending.len() == 0);
        assert(next.expire_from(0, now) == next);
        assert(core.expire_from(0, now) == next);
    } else {
        let next = core.retransmit(0, now);
        assert(next.pending.len() == 1);
        assert(next.expire_from(1, now) == next);
        assert(core.expire_from(0, now) == next);
    }
}

proof fn lemma_earliest(pending: Seq<PendingModel>)
    ensures
        pending.len() == 0 <==> earliest_attempt(pending) is None,
        earliest_attempt(pending) matches Some(t) ==> {
            &&& forall|i: int| 0 <= i < pending.len() ==> t <= (#[trigger] pending[i]).next_attempt
            &&& exists|i: int| 0 <= i < pending.len() && (#[trigger] pending[i]).next_attempt == t
        },
    decreases pending.len(),
{
    if pending.len() > 0 {
        let before = pending.drop_last();
        lemma_earliest(before);
        let n = pending.len() - 1;
        assert(pending.last() == pending[n]);
        if let Some(t) = earliest_attempt(before) {
            let i = choose|i: int| 0 <= i < before.len() && (#[trigger] before[i]).next_attempt == t;
            assert(pending[i].next_attempt == t);
            assert forall|k: int| 0 <= k < before.len() implies t <= (
            #[trigger] pending[k]).next_attempt by {
                assert(before[k] == pending[k]);
            }
        }
    }
}

/// The owner of a core is never told to sleep past a deadline by more than the
/// millisecond that it sleeps at least, and is told to sleep at all exactly if
/// there is one.
pub proof fn law_no_deadline_is_slept_past(core: CoreModel, now: u64)
    requires
        now <= CLOCK_LIMIT,
    ensures
        match core.next_wait(now) {
            Some(wait) => {
                let until = now + wait;
                &&& wait >= 1_000_000
                &&& wait > 1_000_000 ==> {
                    &&& forall|i: int|
                        0 <= i < core.pending.len() ==> until <= (
                        #[trigger] core.pending[i]).next_attempt
                    &&& core.allocation_refresh matches Some(t) ==> until <= t
                    &&& core.maintenance_refresh matches Some(t) ==> until <= t
                    &&& core.permission_retry matches Some(t) ==> until <= t
                    &&& core.channel_retry matches Some(t) ==> until <= t
                    &&& core.keepalive matches Some(t) ==> until <= t
                }
            },
            None => {
                &&& core.pending.len() == 0
                &&& core.allocation_refresh is None
                &&& core.maintenance_refresh is None
                &&& core.permission_retry is None
                &&& core.channel_retry is None
                &&& core.keepalive is None
            },
        },
{
    lemma_earliest(core.pending);
}

/// A call that is shut down asks for its release: the request is signed and has no
/// other beside it; a core that is still allocating waits for the allocation and
/// releases it at once.
#[verifier::spinoff_prover]
#[verifier::rlimit(50)]
pub proof fn law_late_allocation_is_released(
    core: CoreModel,
    index: int,
    packet: Seq<u8>,
    spans: Seq<AttributeSpan>,
    relay: SocketAddress,
    seconds: int,
    now: u64,
    transaction: Seq<u8>,
)
    requires
        core.profile.wf(),
        is_signed(core, packet, spans),
        answers_request(core, index, packet),
        core.pending.len() == 1,
        core.pending[index].operation == Operation::Allocate,
        core.pending[index].authenticated,
        packet[0] == 1 && packet[1] == 3,
        value_spec(packet, spans, 0x0016) == Some(
            xor_address_spec(relay, packet.subrange(8, 20)),
        ),
        relay.port != 0,
        (relay.ip is V4) == (core.peer.ip is V4),
        grants(packet, spans, seconds),
        seconds > 0,
        now <= CLOCK_LIMIT,
        core.shutting_down,
        core.realm is Some && core.nonce is Some && core.key is Some,
        core.request(Operation::Deallocate, transaction, true) is Some,
    ensures
        ({
            let (next, r) = core.input_stun(packet, now, transaction);
            &&& r == 0
            &&& next.state == STATE_DEALLOCATING
            &&& next.pending.len() == 1
            &&& next.pending[0].operation == Operation::Deallocate
            &&& next.pending[0].authenticated
            &&& Some(next.pending[0].packet) == core.request(
                Operation::Deallocate,
                transaction,
                true,
            )
        }),
{
    lemma_granted(packet, spans, seconds);
    lemma_taken_in(core, index, packet, spans, now, transaction);
    crate::client::stun_build::law_xor_address_round_trip(relay, packet.subrange(8, 20));
    let left = core.pending.remove(index);
    assert(left =~= Seq::<PendingModel>::empty());
    let taken = (CoreModel { pending: left, ..core }).remove_queued(packet.subrange(8, 20));
    lemma_same_request(core, taken, Operation::Deallocate, transaction, true);
    lemma_released(taken, packet, spans, relay, seconds, now, transaction);
}

proof fn lemma_released(
    core: CoreModel,
    packet: Seq<u8>,
    spans: Seq<AttributeSpan>,
    relay: SocketAddress,
    seconds: int,
    now: u64,
    transaction: Seq<u8>,
)
    requires
        packet.len() >= 20,
        core.pending.len() == 0,
        value_spec(packet, spans, 0x0016) == Some(
            xor_address_spec(relay, packet.subrange(8, 20)),
        ),
        relay.port != 0,
        (relay.ip is V4) == (core.peer.ip is V4),
        grants(packet, spans, seconds),
        seconds > 0,
        core.shutting_down,
        core.realm is Some && core.nonce is Some && core.key is Some,
        core.request(Operation::Deallocate, transaction, true) is Some,
    ensures
        ({
            let (next, done) = core.complete_success(
                Operation::Allocate,
                packet,
                spans,
                now,
                transaction,
            );
            &&& done
            &&& next.state == STATE_DEALLOCATING
            &&& next.pending.len() == 1
            &&& next.pending[0].operation == Operation::Deallocate
            &&& next.pending[0].authenticated
            &&& Some(next.pending[0].packet) == core.request(
                Operation::Deallocate,
                transaction,
                true,
            )
        }),
{
    lemma_granted(packet, spans, seconds);
    crate::client::stun_build::law_xor_address_round_trip(relay, packet.subrange(8, 20));
    lemma_no_operation(core.pending, Operation::Deallocate);
    let returned = crate::client::stun_build::attribute_u32_spec(
        packet,
        spans,
        crate::client::stun::ATTR_LIFETIME,
    );
    let found = SocketAddress::plain(relay.ip, relay.port);
    let allocated = (CoreModel {
        relay: Some(found),
        allocation_refresh: Some(
            (now + crate::client::turn_model::refresh_delay(
                returned,
                core.profile.allocation_refresh,
            )) as u64,
        ),
        allocation_expires_at: Some((now + seconds * 1_000_000_000) as u64),
        refresh_failures: 0,
        maintenance_refresh: crate::client::turn_model::after(
            now,
            core.profile.maintenance_refresh,
        ),
        keepalive: crate::client::turn_model::after(now, core.profile.keepalive_interval),
        ..core
    }).push_event(
        crate::client::turn_model::EventModel {
            kind: EVENT_RELAY_ADDRESS,
            address: crate::client::turn_model::address_model(found),
            ..crate::client::turn_model::blank_event()
        },
    );
    let leaving = allocated.set_state(STATE_DEALLOCATING);
    lemma_same_request(core, leaving, Operation::Deallocate, transaction, true);
    assert(leaving.pending == core.pending);
    assert(!leaving.has_operation(Operation::Deallocate));
}

} // verus!
