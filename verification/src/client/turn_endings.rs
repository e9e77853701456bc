//! What a relay's refusals, silences and goodbyes come to.

use vstd::prelude::*;
use crate::client::stun::{value_spec, AttributeSpan};
use crate::client::stun_build::error_code_spec;
use crate::client::turn_model::{
    carries, maintenance_delay, refresh_delay, without_transaction, ControlModel, CoreModel,
    EventModel, Operation, PendingModel,
};

verus! {

/// A relay that no longer has the allocation ends it, and with it everything that
/// belonged to it; nothing is asked for any more.
pub proof fn law_lost_allocation_is_given_up(
    core: CoreModel,
    request: PendingModel,
    packet: Seq<u8>,
    spans: Seq<AttributeSpan>,
    now: u64,
    transaction: Seq<u8>,
    code: u16,
)
    requires
        error_code_spec(packet, spans) == Some(code),
        code == 437 || (code == 400 && request.operation == Operation::Channel),
    ensures
        ({
            let next = core.complete_error(request, packet, spans, now, transaction);
            &&& next.relay is None
            &&& next.channel is None
            &&& next.allocation_expires_at is None
            &&& next.allocation_refresh is None
            &&& next.pending.len() == 0
            &&& next.controls.len() == 0
            &&& request.operation != Operation::Deallocate ==> next.state == 7
            &&& request.operation == Operation::Deallocate ==> next.state == 6
            &&& next.key == core.key
        }),
{
}

/// A nonce that went stale is replaced, and the request is made anew with it; the
/// realm stays where the answer names none.
pub proof fn law_stale_nonce_is_renewed(
    core: CoreModel,
    request: PendingModel,
    packet: Seq<u8>,
    spans: Seq<AttributeSpan>,
    now: u64,
    transaction: Seq<u8>,
    realm: Seq<u8>,
    nonce: Seq<u8>,
)
    requires
        error_code_spec(packet, spans) == Some(438u16),
        request.nonce_retries < core.profile.max_nonce_retries,
        value_spec(packet, spans, 0x0014) is None,
        value_spec(packet, spans, 0x0015) == Some(nonce),
        core.realm == Some(realm),
        !core.has_operation(request.operation),
        core.set_auth(realm, nonce).request(request.operation, transaction, true) is Some,
    ensures
        ({
            let next = core.complete_error(request, packet, spans, now, transaction);
            &&& next.nonce == Some(nonce)
            &&& next.realm == Some(realm)
            &&& next.state == core.state
            &&& next.relay == core.relay
            &&& next.pending.len() == core.pending.len() + 1
            &&& next.pending.last().operation == request.operation
            &&& next.pending.last().authenticated
            &&& next.pending.last().transaction == transaction
            &&& next.pending.last().nonce_retries == request.nonce_retries + 1
        }),
{
}

/// A refusal that asks for nothing, or that was answered too often, ends an attempt
/// to allocate; of a live allocation only the request has failed, and it is made
/// again after a second.
pub proof fn law_refusal_ends_the_attempt(
    core: CoreModel,
    request: PendingModel,
    packet: Seq<u8>,
    spans: Seq<AttributeSpan>,
    now: u64,
    transaction: Seq<u8>,
    code: u16,
)
    requires
        error_code_spec(packet, spans) == Some(code),
        code > 0,
        code != 437,
        code == 400 ==> request.operation != Operation::Channel,
        code == 401 || code == 438 ==> request.nonce_retries >= core.profile.max_nonce_retries,
        now <= 0x7fff_ffff_ffff_ffff,
    ensures
        ({
            let next = core.complete_error(request, packet, spans, now, transaction);
            &&& request.operation == Operation::Allocate ==> next.state == 7 && next.pending.len()
                == 0 && next.relay is None
            &&& core.upkeep(request.operation, now) ==> {
                &&& request.operation == Operation::Channel && core.channel_failures >= 3
                    ==> next.state == 7
                &&& request.operation != Operation::Channel || core.channel_failures < 3 ==> {
                    &&& next.state == core.state
                    &&& next.relay == core.relay
                    &&& next.channel == core.channel
                    &&& next.allocation_expires_at == core.allocation_expires_at
                }
                &&& request.operation == Operation::Refresh && core.refresh_failures == 0
                    ==> next.allocation_refresh == Some((now + 1_000_000_000) as u64)
                    && next.refresh_failures == 1
                &&& request.operation == Operation::Permission && core.permission_failures == 0
                    ==> next.permission_retry == Some((now + 1_000_000_000) as u64)
                    && next.permission_failures == 1
                &&& request.operation == Operation::Channel && core.channel_failures == 0
                    ==> next.channel_retry == Some((now + 1_000_000_000) as u64)
                    && next.channel_failures == 1
            }
        }),
{
}

/// The rest after a failure doubles from one second up to half a minute.
pub proof fn law_upkeep_rests_double(failures: u8)
    requires
        1 <= failures < 255,
    ensures
        maintenance_delay(1) == 1_000_000_000,
        maintenance_delay((failures + 1) as u8) == if 2 * maintenance_delay(failures)
            <= 30_000_000_000 {
            2 * maintenance_delay(failures)
        } else {
            30_000_000_000
        },
        maintenance_delay(0) == maintenance_delay(1),
{
}

/// An allocation is refreshed after half of its life, or after the interval where
/// that is shorter, but never sooner than after half a second; an answer that names
/// no life means ten minutes.
pub proof fn law_refresh_comes_in_time(seconds: u32, interval: u64)
    requires
        interval >= 500_000_000,
    ensures
        refresh_delay(None, interval) == refresh_delay(Some(600), interval),
        seconds >= 1 ==> 2 * refresh_delay(Some(seconds), interval) <= seconds * 1_000_000_000,
        refresh_delay(Some(seconds), interval) <= interval,
        refresh_delay(Some(seconds), interval) >= 500_000_000,
        2 * interval <= seconds * 1_000_000_000 ==> refresh_delay(Some(seconds), interval)
            == interval,
        1 <= seconds && seconds * 1_000_000_000 < 2 * interval ==> 2 * refresh_delay(
            Some(seconds),
            interval,
        ) == seconds * 1_000_000_000,
{
}

/// The key is made of the name, the realm and the password, with colons between
/// them, and the rest stays as it was.
pub proof fn law_key_is_made_of_the_realm(core: CoreModel, realm: Seq<u8>, nonce: Seq<u8>)
    ensures
        core.set_auth(realm, nonce).key == Some(
            crate::client::stun::md5_of(
                core.username + seq![58u8] + realm + seq![58u8] + core.password,
            ),
        ),
        core.set_auth(realm, nonce).realm == Some(realm),
        core.set_auth(realm, nonce).nonce == Some(nonce),
        core.set_auth(realm, nonce).pending == core.pending,
        core.set_auth(realm, nonce).relay == core.relay,
{
}

/// An allocation is asked for once, by a request that is not yet signed and that is
/// sent to the server; what needs an allocation waits until there is one.
pub proof fn law_allocation_is_asked_for_once(
    core: CoreModel,
    now: u64,
    transaction: Seq<u8>,
)
    requires
        core.pending.len() == 0,
        core.controls.len() < 16,
        core.events.len() < 64,
        core.request(Operation::Allocate, transaction, false) is Some,
        now <= 0x7fff_ffff_ffff_ffff,
        core.transport is Datagram,
    ensures
        !core.destroyed && !core.shutting_down && core.state == 0 ==> {
            let (next, r) = core.start_allocation(now, transaction);
            &&& r is Ok
            &&& next.state == 3
            &&& next.pending.len() == 1
            &&& next.pending[0].operation == Operation::Allocate
            &&& !next.pending[0].authenticated
            &&& next.pending[0].transaction == transaction
            &&& next.pending[0].next_attempt == now + 200_000_000
            &&& next.controls.last().packet == next.pending[0].packet
            &&& next.controls.last().destination == core.server
            &&& next.start_allocation(now, transaction).1 is Err
        },
        core.state != 0 ==> core.start_allocation(now, transaction).1 is Err,
        core.state != 0 ==> core.start_allocation(now, transaction).0 == core,
{
    let started = core.set_state(3);
    assert(started.pending =~= core.pending);
    assert(!started.has_operation(Operation::Allocate));
    reveal(CoreModel::request);
    assert(started.request(Operation::Allocate, transaction, false) == core.request(
        Operation::Allocate,
        transaction,
        false,
    ));
}

/// Over a stream an answer is waited for for twelve seconds, and nothing is sent
/// twice before.
pub proof fn law_streams_are_waited_for(core: CoreModel)
    ensures
        core.transport is Datagram ==> core.transaction_timeout() == 200_000_000,
        !(core.transport is Datagram) ==> core.transaction_timeout() == 12_000_000_000,
{
}

/// What happened is told in order; when too much waits to be told, the oldest is
/// dropped, and that is told in place of the newest.
pub proof fn law_events_are_told_in_order(core: CoreModel, event: EventModel)
    requires
        core.events.len() <= 64,
    ensures
        core.events.len() < 64 ==> core.push_event(event).events == core.events.push(event),
        core.events.len() == 64 ==> {
            let told = core.push_event(event).events;
            &&& told.len() == 64
            &&& told.drop_last() == core.events.skip(1)
            &&& told.last().kind == 8
            &&& told.last().dropped == 1
        },
        core.push_event(event).pending == core.pending,
        core.push_event(event).state == core.state,
{
    if core.events.len() == 64 {
        assert(core.push_event(event).events.drop_last() =~= core.events.skip(1));
    }
}

/// A change of state is told with both states, and staying is not told.
pub proof fn law_changes_are_told(core: CoreModel, state: u32)
    requires
        core.events.len() < 64,
    ensures
        core.set_state(state).state == state,
        state == core.state ==> core.set_state(state) == core,
        state != core.state ==> {
            let told = core.set_state(state).events.last();
            told.kind == 1 && told.state == state && told.previous_state == core.state
        },
{
}

/// The end of a request is told with its method, its outcome and the relay's code.
pub proof fn law_ends_of_requests_are_told(core: CoreModel, status: i32, code: u16)
    requires
        core.events.len() < 64,
    ensures
        ({
            let told = core.complete(Operation::Allocate, status, code as int).events.last();
            told.kind == 2 && told.method == 3 && told.status == status && told.stun_code == code
                && told.state == core.state
        }),
        core.complete(Operation::Refresh, status, code as int).events.last().method == 4,
        core.complete(Operation::Deallocate, status, code as int).events.last().method == 4,
        core.complete(Operation::Permission, status, code as int).events.last().method == 8,
        core.complete(Operation::Channel, status, code as int).events.last().method == 9,
        core.complete(Operation::Channel, status, code as int).pending == core.pending,
{
}

/// What is sent goes to the server behind what waits; when too much waits, the
/// oldest is dropped and that is told.
pub proof fn law_requests_wait_in_order(core: CoreModel, packet: Seq<u8>)
    requires
        core.controls.len() <= 16,
        core.events.len() < 64,
    ensures
        core.controls.len() < 16 ==> core.queue_packet(packet).controls == core.controls.push(
            ControlModel { packet, destination: core.server },
        ),
        core.controls.len() == 16 ==> {
            let next = core.queue_packet(packet);
            &&& next.controls == core.controls.skip(1).push(
                ControlModel { packet, destination: core.server },
            )
            &&& next.events.last().kind == 5
        },
{
}

/// A request that was answered is not sent any more, and the others keep their
/// order.
pub proof fn law_answered_request_is_not_sent(
    controls: Seq<ControlModel>,
    control: ControlModel,
    transaction: Seq<u8>,
)
    ensures
        carries(control.packet, transaction) ==> without_transaction(
            controls.push(control),
            transaction,
        ) == without_transaction(controls, transaction),
        !carries(control.packet, transaction) ==> without_transaction(
            controls.push(control),
            transaction,
        ) == without_transaction(controls, transaction).push(control),
        without_transaction(Seq::empty(), transaction) == Seq::<ControlModel>::empty(),
        control.packet.len() < 20 ==> !carries(control.packet, transaction),
{
    assert(controls.push(control).drop_last() =~= controls);
}

/// A core that is destroyed sends nothing, asks for nothing and stays so.
pub proof fn law_destroyed_core_is_silent(core: CoreModel, status: i32, now: u64, transaction: Seq<u8>)
    requires
        !core.destroyed,
        core.events.len() < 62,
    ensures
        ({
            let next = core.force_destroy(status);
            &&& next.destroyed
            &&& next.controls.len() == 0
            &&& next.pending.len() == 0
            &&& next.state == 7
            &&& next.events.last().kind == 7
            &&& next.events.last().status == status
            &&& next.force_destroy(status) == next
            &&& next.graceful_shutdown(now, transaction).0 == next
        }),
{
}

/// A core without an allocation that shuts down asks for nothing; one that is still
/// asking for an allocation waits for the answer, to release what it gets.
pub proof fn law_shutdown_without_allocation_is_silent(
    core: CoreModel,
    now: u64,
    transaction: Seq<u8>,
)
    requires
        !core.destroyed,
        !core.shutting_down,
    ensures
        ({
            let (next, r) = core.graceful_shutdown(now, transaction);
            &&& next.shutting_down
            &&& next.channel is None
            &&& core.state == 0 || core.state == 6 ==> r is Ok && next.pending.len() == 0
                && next.controls.len() == 0 && next.state == core.state
            &&& core.state == 3 ==> r is Ok && next.pending == core.pending && next.state == 3
        }),
{
}

} // verus!
