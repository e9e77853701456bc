//! How the main loop is spread, restarted and kept fair.

use vstd::prelude::*;
use crate::server::dataplane::{
    command_step, fanout_shard, received_packets, shard_count_spec,
    sharded_count, shutdown_result, AfterRun, CommandKind,
    CommandStep, DataplaneLoop, LoopEvent, Restarts,
};
use crate::server::io_counters::IoCounters;
use crate::server::udp_supervisor::{bounded_spec, next_spec, RestartPolicy, Supervisor};
use crate::text::{decimal, law_decimal_round_trip, parse_unsigned, trimmed};

verus! {

/// From one to thirty-two session workers can be asked for; anything else, and
/// nothing, asks for the nearest, or for one.
pub proof fn law_workers_are_counted(text: Seq<char>, n: u64)
    requires
        trimmed(text) == decimal(n as nat),
        n <= usize::MAX,
    ensures
        shard_count_spec(None) == 1,
        1 <= n <= 32 ==> shard_count_spec(Some(text)) == n,
        n == 0 ==> shard_count_spec(Some(text)) == 1,
        n > 32 ==> shard_count_spec(Some(text)) == 32,
{
    law_decimal_round_trip(n as nat, usize::MAX as nat);
}

/// What is not a number asks for one session worker.
pub proof fn law_nonsense_asks_for_one_worker(text: Seq<char>)
    requires
        parse_unsigned(trimmed(text), usize::MAX as nat) is None,
    ensures
        shard_count_spec(Some(text)) == 1,
{
}

/// Where sessions are spread, there are from two to thirty-two workers, as many as
/// asked for where that is possible.
pub proof fn law_sharded_workers(shards: usize, r: usize)
    requires
        call_ensures(sharded_count, (shards,), r),
    ensures
        2 <= r <= 32,
        2 <= shards <= 32 ==> r == shards,
        shards < 2 ==> r == 2,
        shards > 32 ==> r == 32,
{
}

/// Work is dealt out in turn: neighbours go to neighbours, the last is followed by
/// the first.
pub proof fn law_work_is_dealt_in_turn(index: usize, count: usize, a: usize, b: usize)
    requires
        count > 0,
        index < usize::MAX,
        call_ensures(fanout_shard, (index, count), a),
        call_ensures(fanout_shard, ((index + 1) as usize, count), b),
    ensures
        a < count,
        b == a + 1 || (a == count - 1 && b == 0),
        index < count ==> a == index,
{
    let n = count as int;
    let i = index as int;
    assert((i + 1) % n == if i % n == n - 1 {
        0
    } else {
        i % n + 1
    }) by (nonlinear_arith)
        requires
            0 <= i,
            0 < n,
    {
        vstd::arithmetic::div_mod::lemma_fundamental_div_mod(i, n);
        vstd::arithmetic::div_mod::lemma_mod_bound(i, n);
        if i % n == n - 1 {
            vstd::arithmetic::div_mod::lemma_fundamental_div_mod_converse(i + 1, n, i / n + 1, 0);
        } else {
            vstd::arithmetic::div_mod::lemma_fundamental_div_mod_converse(
                i + 1,
                n,
                i / n,
                i % n + 1,
            );
        }
    }
    if index < count {
        vstd::arithmetic::div_mod::lemma_small_mod(index as nat, count as nat);
    }
}

/// The first start must succeed. Later failures are followed by rests of one
/// second, two, four and so on up to half a minute, and of one second again after
/// a minute of work; the end of the server ends it all.
pub proof fn law_failures_are_rested_out(r: Restarts, uptime_ms: u64)
    requires
        r.backoff_ms <= 30_000,
    ensures
        r.first ==> r.ended_spec(true, false, uptime_ms).1 == AfterRun::Fail,
        !r.first && uptime_ms < 60_000 ==> r.ended_spec(true, false, uptime_ms).1
            == AfterRun::Rest(r.backoff_ms),
        !r.first && uptime_ms >= 60_000 ==> r.ended_spec(true, false, uptime_ms).1
            == AfterRun::Rest(1_000),
        r.ended_spec(false, false, uptime_ms).1 == AfterRun::Stop,
        r.ended_spec(true, true, uptime_ms).1 == AfterRun::Stop,
        !r.ended_spec(true, false, uptime_ms).0.first,
        r.backoff_ms <= 15_000 ==> r.rested_spec().backoff_ms == 2 * r.backoff_ms,
        r.backoff_ms > 15_000 ==> r.rested_spec().backoff_ms == 30_000,
{
}

/// Every new error is reported, and every 1024 packets; nothing else is.
pub proof fn law_reports_are_due(state: DataplaneLoop, counters: IoCounters)
    requires
        counters.udp_rx_packets + counters.tun_rx_packets <= u64::MAX,
    ensures
        counters.udp_tx_errors != state.last_counters.udp_tx_errors ==> state.due(counters),
        counters.tun_tx_errors != state.last_counters.tun_tx_errors ==> state.due(counters),
        counters.udp_rx_errors != state.last_counters.udp_rx_errors ==> state.due(counters),
        counters.tun_rx_errors != state.last_counters.tun_rx_errors ==> state.due(counters),
        counters.udp_rx_packets + counters.tun_rx_packets >= state.last_report_packets + 1024
            ==> state.due(counters),
        received_packets(counters) == counters.udp_rx_packets + counters.tun_rx_packets,
        state.due(counters) ==> counters.udp_rx_packets + counters.tun_rx_packets
            >= state.last_report_packets + 1024 || counters.udp_tx_errors
            != state.last_counters.udp_tx_errors || counters.tun_tx_errors
            != state.last_counters.tun_tx_errors || counters.udp_rx_errors
            != state.last_counters.udp_rx_errors || counters.tun_rx_errors
            != state.last_counters.tun_rx_errors,
{
}

/// Datagrams are counted only while nothing else has its turn, and performance is
/// told after the clock had its turn.
pub proof fn law_turns_are_counted(state: DataplaneLoop, event: LoopEvent)
    requires
        state.udp_passes < u32::MAX,
    ensures
        state.throttled() <==> state.udp_passes >= 4,
        state.woken_spec(LoopEvent::UdpReadable).udp_passes == state.udp_passes + 1,
        event is Tick || event is Command || event is TunReadable ==> state.woken_spec(
            event,
        ).udp_passes == 0,
        event is UdpWritable || event is TunWritable ==> state.woken_spec(event).udp_passes
            == state.udp_passes,
        state.woken_spec(LoopEvent::Tick).publish_perf,
        !(event is Tick) ==> state.woken_spec(event).publish_perf == state.publish_perf,
        state.woken_spec(event).last_report_packets == state.last_report_packets,
        state.woken_spec(event).last_counters == state.last_counters,
{
}

/// A command that was taken is handled, an order to stop is obeyed at once, and a
/// closed queue stops the loop unless something was taken before.
pub proof fn law_commands_are_not_lost(kind: CommandKind, taken: usize, r: CommandStep)
    requires
        call_ensures(command_step, (kind, taken), r),
    ensures
        r is Handle <==> kind is Logic,
        r is Stop <==> kind is Shutdown || (kind is Closed && taken == 0),
        r is Done <==> kind is Empty || (kind is Closed && taken > 0),
{
}

/// The result of the thread comes before that of the signal, and success needs
/// both.
pub proof fn law_shutdown_tells_the_failure(
    signal: Result<(), u64>,
    join: Result<(), u64>,
    r: Result<(), u64>,
)
    requires
        call_ensures(shutdown_result::<u64>, (signal, join), r),
    ensures
        r is Ok <==> signal is Ok && join is Ok,
        join is Err ==> r == join,
        join is Ok ==> r == signal,
{
}

/// A listener rests for twice as long each time it fails at once, from its first
/// rest to its longest, and begins anew after it has worked for long enough.
pub proof fn law_listener_rests_double(supervisor: Supervisor, elapsed: u64)
    requires
        supervisor.policy.max_delay >= 1_000_000,
        1_000_000 <= supervisor.policy.initial_delay <= supervisor.policy.max_delay,
        1_000_000 <= supervisor.delay <= supervisor.policy.max_delay,
    ensures
        elapsed < supervisor.policy.reset_after ==> supervisor.rest_spec(elapsed)
            == supervisor.delay,
        elapsed >= supervisor.policy.reset_after ==> supervisor.rest_spec(elapsed)
            == supervisor.policy.initial_delay,
        2 * supervisor.delay <= supervisor.policy.max_delay ==> next_spec(
            supervisor.policy,
            supervisor.delay,
        ) == 2 * supervisor.delay,
        2 * supervisor.delay > supervisor.policy.max_delay ==> next_spec(
            supervisor.policy,
            supervisor.delay,
        ) == supervisor.policy.max_delay,
{
}

/// No rest is shorter than a millisecond, nor longer than its limit, if that is
/// not shorter still.
pub proof fn law_rests_have_limits(policy: RestartPolicy, delay: u64)
    ensures
        bounded_spec(policy, delay) >= 1_000_000,
        policy.max_delay >= 1_000_000 ==> bounded_spec(policy, delay) <= policy.max_delay,
        policy.max_delay < 1_000_000 ==> bounded_spec(policy, delay) == 1_000_000,
        1_000_000 <= delay <= policy.max_delay ==> bounded_spec(policy, delay) == delay,
{
}

} // verus!
