//! What holds of the TURN client over several steps.

use vstd::prelude::*;
use crate::client::stun::{class_spec, decode_spec, AttributeSpan, Class};
use crate::client::stun_build::{
    fingerprinted_mismatch_spec, integrity_spec, requires_integrity_spec,
};
use crate::client::turn_model::{
    CHANNEL_NUMBER, CLOCK_LIMIT, CoreCall, CoreError, CoreModel, INITIAL_RTO,
    MAX_CHANNEL_MAINTENANCE_FAILURES, MAX_RTO, MAX_TRANSMISSIONS, MILLISECOND, Operation,
    PendingModel, RESULT_AUTHENTICATION, RESULT_CLOSED, STATE_DEALLOCATING, STATE_DESTROYING,
    STATE_READY, after, answers, first_answered,
};

verus! {

/// A response that must be signed and is not leaves the allocation and every
/// request as they were, so that the request is sent again.
pub proof fn law_unsigned_response_changes_nothing(
    core: CoreModel,
    packet: Seq<u8>,
    spans: Seq<AttributeSpan>,
    now: u64,
    transaction: Seq<u8>,
)
    requires
        decode_spec(packet) == Ok::<
            Seq<AttributeSpan>,
            crate::client::stun::DecodeError,
        >(spans),
        requires_integrity_spec(packet, spans),
        !integrity_spec(packet, spans, core.key),
        !fingerprinted_mismatch_spec(packet, spans),
        forall|i: int| 0 <= i < core.pending.len() ==> (#[trigger] core.pending[i]).authenticated,
    ensures
        ({
            let (next, r) = core.input_stun(packet, now, transaction);
            &&& r < 0
            &&& (CoreModel { events: core.events, ..next }) == core
        }),
{
    lemma_answered_index(core, packet);
}

proof fn lemma_answered_index(core: CoreModel, packet: Seq<u8>)
    ensures
        0 <= first_answered(
            core.pending,
            crate::client::stun::transaction_spec(packet),
            crate::client::stun::method_spec(packet),
        ),
{
    lemma_answered_from(
        core.pending,
        crate::client::stun::transaction_spec(packet),
        crate::client::stun::method_spec(packet),
    );
}

proof fn lemma_answered_from(pending: Seq<PendingModel>, transaction: Seq<u8>, method: nat)
    ensures
        0 <= first_answered(pending, transaction, method) <= pending.len(),
        first_answered(pending, transaction, method) < pending.len() ==> answers(
            pending[first_answered(pending, transaction, method)],
            transaction,
            method,
        ),
    decreases pending.len(),
{
    if pending.len() > 0 && !answers(pending[0], transaction, method) {
        lemma_answered_from(pending.skip(1), transaction, method);
    }
}

/// A success response to a request that was not signed is never taken for a
/// success: it is answered with the authentication status, and no allocation
/// comes of it.
pub proof fn law_unsigned_request_cannot_succeed(
    core: CoreModel,
    index: int,
    packet: Seq<u8>,
    spans: Seq<AttributeSpan>,
    now: u64,
    transaction: Seq<u8>,
)
    requires
        0 <= index < core.pending.len(),
        !core.pending[index].authenticated,
        class_spec(packet) == Class::Success,
        core.relay is None,
    ensures
        ({
            let (next, r) = core.accept(index, packet, spans, now, transaction);
            r == RESULT_AUTHENTICATION && next.relay is None
        }),
{
}

/// The timeout of an upkeep request of a live allocation keeps the allocation,
/// its channel, its expiry and the maintenance deadline, and sets a next try;
/// only the fourth failure of a channel in a row does not.
pub proof fn law_upkeep_timeout_keeps_allocation(core: CoreModel, index: int, now: u64)
    requires
        0 <= index < core.pending.len(),
        core.upkeep(core.pending[index].operation, now),
        core.pending[index].operation == Operation::Channel ==> core.channel_failures
            < MAX_CHANNEL_MAINTENANCE_FAILURES - 1,
    ensures
        ({
            let operation = core.pending[index].operation;
            let next = core.time_out(index, now);
            &&& next.state == STATE_READY
            &&& next.relay == core.relay
            &&& next.channel == core.channel
            &&& next.allocation_expires_at == core.allocation_expires_at
            &&& next.maintenance_refresh == core.maintenance_refresh
            &&& next.keepalive == core.keepalive
            &&& next.pending == core.pending.remove(index)
            &&& operation == Operation::Refresh ==> next.allocation_refresh is Some
            &&& operation == Operation::Permission ==> next.permission_retry is Some
            &&& operation == Operation::Channel ==> next.channel_retry is Some
                && next.channel_failures == core.channel_failures + 1
        }),
{
}

/// The fourth failure of a channel in a row gives the channel up but keeps what
/// is needed to release the allocation.
pub proof fn law_fourth_channel_failure_keeps_release(core: CoreModel, index: int, now: u64)
    requires
        0 <= index < core.pending.len(),
        core.pending[index].operation == Operation::Channel,
        core.upkeep(Operation::Channel, now),
        core.channel_failures >= MAX_CHANNEL_MAINTENANCE_FAILURES - 1,
    ensures
        ({
            let next = core.time_out(index, now);
            &&& next.state == STATE_DESTROYING
            &&& next.pending.len() == 0
            &&& next.controls.len() == 0
            &&& next.relay == core.relay
            &&& next.allocation_expires_at == core.allocation_expires_at
            &&& next.realm == core.realm && next.nonce == core.nonce && next.key == core.key
        }),
{
}

/// Shutting down an allocation that has credentials asks the server to release
/// it, and nothing else is in flight.
pub proof fn law_shutdown_releases_the_allocation(
    core: CoreModel,
    now: u64,
    transaction: Seq<u8>,
)
    requires
        !core.destroyed,
        !core.shutting_down,
        core.state == STATE_READY || (core.state == STATE_DESTROYING
            && core.allocation_expires_at is Some),
        core.realm is Some,
        core.nonce is Some,
        core.key is Some,
    ensures
        ({
            let (next, r) = core.graceful_shutdown(now, transaction);
            &&& next.state == STATE_DEALLOCATING
            &&& next.shutting_down
            &&& r is Ok ==> next.pending.len() == 1 && next.pending[0].operation
                == Operation::Deallocate && next.controls.len() == 1 && next.controls[0].packet
                == next.pending[0].packet && next.controls[0].destination == core.server
        }),
{
}

/// A core that is shutting down or destroyed starts nothing new.
pub proof fn law_closed_core_refuses(
    core: CoreModel,
    call: CoreCall,
    operation: Operation,
    now: u64,
    transaction: Seq<u8>,
)
    requires
        core.destroyed || core.shutting_down,
    ensures
        core.start_allocation(now, transaction) == (
            core,
            Err::<(), CoreError>(
                CoreError::Status { call: CoreCall::Allocate, status: RESULT_CLOSED },
            ),
        ),
        core.start_ready(call, operation, now, transaction) == (
            core,
            Err::<(), CoreError>(CoreError::Status { call, status: RESULT_CLOSED }),
        ),
        core.graceful_shutdown(now, transaction) == (core, Ok::<(), CoreError>(())),
{
}

/// The wait that a round of timers returns is at least a millisecond, and none
/// comes from a destroyed core.
pub proof fn law_wait_is_never_hot(
    core: CoreModel,
    now: u64,
    ids: (Seq<u8>, Seq<u8>, Seq<u8>),
)
    requires
        now <= CLOCK_LIMIT,
    ensures
        core.poll(now, ids).1 matches Ok(Some(wait)) ==> wait >= MILLISECOND,
        core.destroyed ==> core.poll(now, ids) == (core, Ok::<Option<u64>, CoreError>(None)),
{
}

/// The time before a request is sent again after a number of repetitions: 200 ms
/// doubled with each, at most 1600 ms.
pub open spec fn rto_after(repetitions: nat) -> u64
    decreases repetitions,
{
    if repetitions == 0 {
        INITIAL_RTO
    } else {
        let previous = rto_after((repetitions - 1) as nat);
        if previous * 2 < MAX_RTO {
            (previous * 2) as u64
        } else {
            MAX_RTO
        }
    }
}

/// Each repetition of a request waits as long as the schedule says, counted
/// from the time at which it is sent, however late that is.
pub proof fn law_retransmission_schedule(core: CoreModel, index: int, now: u64, repetitions: nat)
    requires
        0 <= index < core.pending.len(),
        now <= CLOCK_LIMIT,
        core.pending[index].rto == rto_after(repetitions),
        core.pending[index].transmissions == repetitions + 1,
        repetitions + 1 < MAX_TRANSMISSIONS,
    ensures
        ({
            let next = core.retransmit(index, now).pending[index];
            &&& next.rto == rto_after(repetitions + 1)
            &&& next.next_attempt == now + rto_after(repetitions + 1)
            &&& next.transmissions == repetitions + 2
            &&& next.packet == core.pending[index].packet
        }),
        rto_after(1) == 400_000_000,
        rto_after(2) == 800_000_000,
        rto_after(3) == 1_600_000_000,
        rto_after(6) == 1_600_000_000,
{
    reveal_with_fuel(rto_after, 8);
    lemma_rto_bound(repetitions + 1);
}

proof fn lemma_rto_bound(repetitions: nat)
    ensures
        rto_after(repetitions) <= MAX_RTO,
    decreases repetitions,
{
    if repetitions > 0 {
        lemma_rto_bound((repetitions - 1) as nat);
    }
}

/// Binding a channel again does not move the maintenance deadline.
pub proof fn law_channel_success_keeps_maintenance(
    core: CoreModel,
    packet: Seq<u8>,
    spans: Seq<AttributeSpan>,
    now: u64,
    transaction: Seq<u8>,
)
    ensures
        ({
            let (next, done) = core.complete_success(
                Operation::Channel,
                packet,
                spans,
                now,
                transaction,
            );
            &&& done
            &&& next.maintenance_refresh == core.maintenance_refresh
            &&& next.channel == Some(CHANNEL_NUMBER)
            &&& next.channel_failures == 0
        }),
{
}

} // verus!
