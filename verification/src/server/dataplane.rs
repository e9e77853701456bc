//! The server's main loop: what it waits for, what it does with what it gets,
//! and how it is started anew when it fails.

use vstd::prelude::*;
use crate::net::SocketAddress;
use crate::server::io_counters::IoCounters;
use crate::server::perf::{less, more};
use crate::server::tokio_io::{IoModel, TokioIo, MAX_RX_PER_PASS, TUN_RX_DRAIN_BATCH};
use crate::server::packet_sink::SinkModel;
use crate::text::{
    chars_of, copy_text, join_texts, joined, parse_u64, parse_unsigned, trim, trimmed, views,
};

verus! {

pub const RESTART_BACKOFF_INITIAL_MS: u64 = 1_000;
pub const RESTART_BACKOFF_MAX_MS: u64 = 30_000;

/// A start that lasted so long makes the next rest the first again.
pub const HEALTHY_UPTIME_MS: u64 = 60_000;
pub const COMMAND_DRAIN_LIMIT: usize = 4096;
pub const SHUTDOWN_FLUSH_SYSCALLS: usize = 16;
pub const MAX_CONSECUTIVE_UDP_PASSES: u32 = 4;
pub const MAX_DATAPLANE_SHARDS: usize = 32;
pub const COMMAND_CAPACITY: usize = 4096;

/// Packets between two reports.
pub const REPORT_PACKETS: u64 = 1024;

/// The number of session workers that a setting asks for.
pub open spec fn shard_count_spec(setting: Option<Seq<char>>) -> nat {
    match setting {
        Some(text) => match parse_unsigned(trimmed(text), usize::MAX as nat) {
            Some(n) => if n == 0 {
                1
            } else if n > MAX_DATAPLANE_SHARDS {
                MAX_DATAPLANE_SHARDS as nat
            } else {
                n
            },
            None => 1,
        },
        None => 1,
    }
}

/// The number of session workers: one, unless a setting names another.
pub fn configured_shard_count(setting: Option<&str>) -> (r: usize)
    ensures
        r == shard_count_spec(
            match setting {
                Some(text) => Some(text@),
                None => None,
            },
        ),
{
    match setting {
        Some(text) => {
            let chars = chars_of(text);
            match parse_u64(trim(chars.as_slice())) {
                Some(n) => {
                    if n == 0 || n > usize::MAX as u64 {
                        1
                    } else if n > MAX_DATAPLANE_SHARDS as u64 {
                        MAX_DATAPLANE_SHARDS
                    } else {
                        n as usize
                    }
                },
                None => 1,
            }
        },
        None => 1,
    }
}

/// The workers of a server that spreads its sessions: at least two.
pub fn sharded_count(shards: usize) -> (r: usize)
    ensures
        r == if shards < 2 {
            2
        } else if shards > MAX_DATAPLANE_SHARDS {
            MAX_DATAPLANE_SHARDS
        } else {
            shards
        },
{
    if shards < 2 {
        2
    } else if shards > MAX_DATAPLANE_SHARDS {
        MAX_DATAPLANE_SHARDS
    } else {
        shards
    }
}

/// The worker that gets one of the commands that a command was split into.
pub fn fanout_shard(index: usize, shard_count: usize) -> (r: usize)
    requires
        shard_count > 0,
    ensures
        r == index % shard_count,
        r < shard_count,
{
    index % shard_count
}

pub struct DataplaneConfig {
    pub listen: SocketAddress,
    pub tun_iface: String,
    pub tun_addr: String,
    pub command_capacity: usize,
    pub shards: usize,
}

impl DataplaneConfig {
    pub fn new(
        listen: SocketAddress,
        tun_iface: &str,
        tun_addr: &str,
        shards: Option<&str>,
    ) -> (r: DataplaneConfig)
        ensures
            r.listen == listen,
            r.tun_iface@ == tun_iface@,
            r.tun_addr@ == tun_addr@,
            r.command_capacity == COMMAND_CAPACITY,
            r.shards == shard_count_spec(
                match shards {
                    Some(text) => Some(text@),
                    None => None,
                },
            ),
    {
        DataplaneConfig {
            listen,
            tun_iface: copy_text(tun_iface),
            tun_addr: copy_text(tun_addr),
            command_capacity: COMMAND_CAPACITY,
            shards: configured_shard_count(shards),
        }
    }
}

#[derive(Clone, Copy, Debug, PartialEq, Eq, Structural)]
pub struct DataplaneQueueSnapshot {
    pub queued: usize,
    pub capacity: usize,
}

impl Default for DataplaneQueueSnapshot {
    fn default() -> (r: DataplaneQueueSnapshot)
        ensures
            r == (DataplaneQueueSnapshot { queued: 0, capacity: 0 }),
    {
        DataplaneQueueSnapshot { queued: 0, capacity: 0 }
    }
}

/// The queue of commands takes no more.
#[derive(Clone, Copy, Debug, PartialEq, Eq, Structural)]
pub struct QueueFull;

impl QueueFull {
    pub fn text(&self) -> (r: &'static str)
        ensures
            r@ == "dataplane command queue is full"@,
    {
        "dataplane command queue is full"
    }
}

/// How the main loop is reached: commands that it has yet to take, and whether
/// it is to end.
#[derive(Clone, Copy, Debug, PartialEq, Eq, Structural)]
pub struct DataplaneHandle {
    queued: usize,
    command_capacity: usize,
    ending: bool,
}

impl DataplaneHandle {
    pub closed spec fn snapshot(self) -> DataplaneQueueSnapshot {
        DataplaneQueueSnapshot { queued: self.queued, capacity: self.command_capacity }
    }

    pub closed spec fn ends(self) -> bool {
        self.ending
    }

    /// The queue has room for at least 16 commands.
    pub fn new(command_capacity: usize) -> (r: DataplaneHandle)
        ensures
            r.snapshot() == (DataplaneQueueSnapshot {
                queued: 0,
                capacity: if command_capacity < 16 {
                    16
                } else {
                    command_capacity
                },
            }),
            !r.ends(),
    {
        DataplaneHandle {
            queued: 0,
            command_capacity: if command_capacity < 16 {
                16
            } else {
                command_capacity
            },
            ending: false,
        }
    }

    /// Takes note of a command that was offered to the queue.
    pub fn try_send(&mut self, accepted: bool) -> (r: Result<(), QueueFull>)
        requires
            accepted ==> old(self).snapshot().queued < usize::MAX,
        ensures
            r is Ok <==> accepted,
            final(self).snapshot() == (DataplaneQueueSnapshot {
                queued: if accepted {
                    (old(self).snapshot().queued + 1) as usize
                } else {
                    old(self).snapshot().queued
                },
                ..old(self).snapshot()
            }),
            final(self).ends() == old(self).ends(),
    {
        if accepted {
            self.queued = self.queued + 1;
            Ok(())
        } else {
            Err(QueueFull)
        }
    }

    /// Has the loop end, whether or not the queue takes a command that says so.
    pub fn shutdown(&mut self, accepted: bool)
        requires
            accepted ==> old(self).snapshot().queued < usize::MAX,
        ensures
            final(self).snapshot() == (DataplaneQueueSnapshot {
                queued: if accepted {
                    (old(self).snapshot().queued + 1) as usize
                } else {
                    old(self).snapshot().queued
                },
                ..old(self).snapshot()
            }),
            final(self).ends(),
    {
        self.ending = true;
        if accepted {
            self.queued = self.queued + 1;
        }
    }

    /// A command left the queue.
    pub fn taken(&mut self)
        ensures
            final(self).snapshot() == (DataplaneQueueSnapshot {
                queued: if old(self).snapshot().queued > 0 {
                    (old(self).snapshot().queued - 1) as usize
                } else {
                    0
                },
                ..old(self).snapshot()
            }),
            final(self).ends() == old(self).ends(),
    {
        if self.queued > 0 {
            self.queued = self.queued - 1;
        }
    }

    pub fn is_ending(&self) -> (r: bool)
        ensures
            r == self.ends(),
    {
        self.ending
    }

    pub fn command_queue_snapshot(&self) -> (r: DataplaneQueueSnapshot)
        ensures
            r == self.snapshot(),
    {
        DataplaneQueueSnapshot { queued: self.queued, capacity: self.command_capacity }
    }
}

/// Which of two results of ending is told: that of the thread before that of the
/// signal.
pub fn shutdown_result<E>(signal: Result<(), E>, join: Result<(), E>) -> (r: Result<(), E>)
    ensures
        r == match join {
            Err(error) => Err(error),
            Ok(()) => signal,
        },
{
    match join {
        Err(error) => Err(error),
        Ok(()) => signal,
    }
}

/// What follows when a run of the loop has ended.
#[derive(Clone, Copy, Debug, PartialEq, Eq, Structural)]
pub enum AfterRun {
    Stop,
    Fail,
    Rest(u64),
}

/// The starts of the main loop. Rests are in milliseconds.
#[derive(Clone, Copy, Debug, PartialEq, Eq, Structural)]
pub struct Restarts {
    pub first: bool,
    pub backoff_ms: u64,
}

impl Restarts {
    pub open spec fn wf(self) -> bool {
        RESTART_BACKOFF_INITIAL_MS <= self.backoff_ms <= RESTART_BACKOFF_MAX_MS
    }

    pub fn new() -> (r: Restarts)
        ensures
            r == (Restarts { first: true, backoff_ms: RESTART_BACKOFF_INITIAL_MS }),
            r.wf(),
    {
        Restarts { first: true, backoff_ms: RESTART_BACKOFF_INITIAL_MS }
    }

    pub open spec fn ended_spec(self, failed: bool, ending: bool, uptime_ms: u64) -> (
        Restarts,
        AfterRun,
    ) {
        let next = Restarts {
            first: false,
            backoff_ms: if failed && !ending && !self.first && uptime_ms >= HEALTHY_UPTIME_MS {
                RESTART_BACKOFF_INITIAL_MS
            } else {
                self.backoff_ms
            },
        };
        (
            next,
            if !failed || ending {
                AfterRun::Stop
            } else if self.first {
                AfterRun::Fail
            } else {
                AfterRun::Rest(next.backoff_ms)
            },
        )
    }

    /// A run has ended. Where it failed, it is started anew after a rest, unless
    /// it was the first or the server is ending.
    pub fn ended(&mut self, failed: bool, ending: bool, uptime_ms: u64) -> (r: AfterRun)
        ensures
            (*final(self), r) == old(self).ended_spec(failed, ending, uptime_ms),
            old(self).wf() ==> final(self).wf(),
    {
        let first = self.first;
        self.first = false;
        if !failed || ending {
            return AfterRun::Stop;
        }
        if first {
            return AfterRun::Fail;
        }
        if uptime_ms >= HEALTHY_UPTIME_MS {
            self.backoff_ms = RESTART_BACKOFF_INITIAL_MS;
        }
        AfterRun::Rest(self.backoff_ms)
    }

    pub open spec fn rested_spec(self) -> Restarts {
        Restarts {
            backoff_ms: if self.backoff_ms * 2 > RESTART_BACKOFF_MAX_MS {
                RESTART_BACKOFF_MAX_MS
            } else {
                (self.backoff_ms * 2) as u64
            },
            ..self
        }
    }

    /// The rest is over: the next one is twice as long, up to a limit.
    pub fn rested(&mut self)
        ensures
            *final(self) == old(self).rested_spec(),
            old(self).wf() ==> final(self).wf(),
    {
        if self.backoff_ms > RESTART_BACKOFF_MAX_MS / 2 {
            self.backoff_ms = RESTART_BACKOFF_MAX_MS;
        } else {
            self.backoff_ms = self.backoff_ms * 2;
        }
    }
}

/// However often the loop fails, it rests for at least the first and at most the
/// longest rest, each twice as long as the one before, and a run that stayed up
/// starts the rests anew.
pub proof fn law_restarts_are_paced(restarts: Restarts, uptime_ms: u64)
    requires
        restarts.wf(),
        !restarts.first,
    ensures
        ({
            let (next, after) = restarts.ended_spec(true, false, uptime_ms);
            &&& after == AfterRun::Rest(next.backoff_ms)
            &&& RESTART_BACKOFF_INITIAL_MS <= next.backoff_ms <= RESTART_BACKOFF_MAX_MS
            &&& uptime_ms >= HEALTHY_UPTIME_MS ==> next.backoff_ms == RESTART_BACKOFF_INITIAL_MS
            &&& uptime_ms < HEALTHY_UPTIME_MS ==> next.backoff_ms == restarts.backoff_ms
            &&& next.rested_spec().backoff_ms == 2 * next.backoff_ms
                || next.rested_spec().backoff_ms == RESTART_BACKOFF_MAX_MS
        }),
        restarts.ended_spec(true, true, uptime_ms).1 == AfterRun::Stop,
{
}

/// What is told of a loop that has ended.
pub open spec fn status_spec(sharded: bool, failure: Option<Seq<char>>) -> Seq<char> {
    let name = if sharded {
        "tokio sharded dataplane"@
    } else {
        "tokio dataplane"@
    };
    match failure {
        None => joined(seq![name, " stopped"@]),
        Some(error) => joined(seq![name, " failed: "@, error]),
    }
}

pub fn status_text(sharded: bool, failure: Option<&str>) -> (r: String)
    ensures
        r@ == status_spec(
            sharded,
            match failure {
                Some(error) => Some(error@),
                None => None,
            },
        ),
{
    let name = if sharded {
        "tokio sharded dataplane"
    } else {
        "tokio dataplane"
    };
    match failure {
        None => {
            let parts: [&str; 2] = [name, " stopped"];
            assert(views(parts@) =~= seq![name@, " stopped"@]);
            join_texts(parts.as_slice())
        },
        Some(error) => {
            let parts: [&str; 3] = [name, " failed: ", error];
            assert(views(parts@) =~= seq![name@, " failed: "@, error@]);
            join_texts(parts.as_slice())
        },
    }
}

/// Why a server must end whose dataplane told of itself: what it said, that it
/// fell silent without a word, or that nobody is left to speak.
pub fn terminal_failure(channel_open: bool, status: Option<&str>) -> (r: String)
    ensures
        r@ == if !channel_open {
            "io_uring dataplane status channel closed"@
        } else {
            match status {
                Some(text) => text@,
                None => "io_uring dataplane stopped unexpectedly"@,
            }
        },
{
    if !channel_open {
        return copy_text("io_uring dataplane status channel closed");
    }
    match status {
        Some(text) => copy_text(text),
        None => copy_text("io_uring dataplane stopped unexpectedly"),
    }
}

/// Why the loop ended.
pub enum LoopFailure {
    TunWrite,
    TunRead(String),
}

impl LoopFailure {
    pub fn text(&self) -> (r: String)
        ensures
            r@ == match self {
                LoopFailure::TunWrite => "TUN write failed"@,
                LoopFailure::TunRead(error) => joined(seq!["TUN RX failed: "@, error@]),
            },
    {
        match self {
            LoopFailure::TunWrite => copy_text("TUN write failed"),
            LoopFailure::TunRead(error) => {
                let parts: [&str; 2] = ["TUN RX failed: ", error.as_str()];
                assert(views(parts@) =~= seq!["TUN RX failed: "@, error@]);
                join_texts(parts.as_slice())
            },
        }
    }
}

/// What the loop was woken by. Of several it is the first of these.
#[derive(Clone, Copy, Debug, PartialEq, Eq, Structural)]
pub enum LoopEvent {
    Tick,
    Command,
    UdpReadable,
    TunReadable,
    UdpWritable,
    TunWritable,
}

/// What the loop waits for, besides the clock, commands and the tunnel.
#[derive(Clone, Copy, Debug, PartialEq, Eq, Structural)]
pub struct Interests {
    pub udp_read: bool,
    pub udp_write: bool,
    pub tun_write: bool,
}

/// What is to be flushed.
#[derive(Clone, Copy, Debug, PartialEq, Eq, Structural)]
pub struct FlushPlan {
    pub udp: bool,
    pub tun: bool,
}

/// The state of the main loop.
#[derive(Clone, Copy, Debug, PartialEq, Eq, Structural)]
pub struct DataplaneLoop {
    pub udp_passes: u32,
    pub last_counters: IoCounters,
    pub last_report_packets: u64,
    pub publish_perf: bool,
}

pub open spec fn received_packets(counters: IoCounters) -> u64 {
    more(counters.udp_rx_packets, counters.tun_rx_packets)
}

impl DataplaneLoop {
    pub fn new(counters: IoCounters) -> (r: DataplaneLoop)
        ensures
            r == (DataplaneLoop {
                udp_passes: 0,
                last_counters: counters,
                last_report_packets: 0,
                publish_perf: false,
            }),
    {
        DataplaneLoop {
            udp_passes: 0,
            last_counters: counters,
            last_report_packets: 0,
            publish_perf: false,
        }
    }

    /// Datagrams are left alone after so many turns in a row.
    pub open spec fn throttled(self) -> bool {
        self.udp_passes >= MAX_CONSECUTIVE_UDP_PASSES
    }

    /// What to wait for.
    pub fn interests(&self, io: &TokioIo) -> (r: Interests)
        requires
            io.wf(),
        ensures
            r == (Interests {
                udp_read: !self.throttled(),
                udp_write: io@.sink.udp.pending() != 0,
                tun_write: io@.sink.tun.pending() != 0,
            }),
    {
        Interests {
            udp_read: self.udp_passes < MAX_CONSECUTIVE_UDP_PASSES,
            udp_write: io.pending_udp_tx_len() != 0,
            tun_write: io.pending_tun_tx_len() != 0,
        }
    }

    pub open spec fn woken_spec(self, event: LoopEvent) -> DataplaneLoop {
        DataplaneLoop {
            udp_passes: match event {
                LoopEvent::Tick | LoopEvent::Command | LoopEvent::TunReadable => 0,
                LoopEvent::UdpReadable => if self.udp_passes < u32::MAX {
                    (self.udp_passes + 1) as u32
                } else {
                    u32::MAX
                },
                LoopEvent::UdpWritable | LoopEvent::TunWritable => self.udp_passes,
            },
            publish_perf: self.publish_perf || event is Tick,
            ..self
        }
    }

    /// The loop was woken.
    pub fn woken(&mut self, event: LoopEvent)
        ensures
            *final(self) == old(self).woken_spec(event),
    {
        match event {
            LoopEvent::Tick => {
                self.udp_passes = 0;
                self.publish_perf = true;
            },
            LoopEvent::Command => {
                self.udp_passes = 0;
            },
            LoopEvent::TunReadable => {
                self.udp_passes = 0;
            },
            LoopEvent::UdpReadable => {
                if self.udp_passes < u32::MAX {
                    self.udp_passes = self.udp_passes + 1;
                }
            },
            LoopEvent::UdpWritable => {},
            LoopEvent::TunWritable => {},
        }
    }

    pub open spec fn due(self, counters: IoCounters) -> bool {
        ||| less(received_packets(counters), self.last_report_packets) >= REPORT_PACKETS
        ||| counters.udp_tx_errors != self.last_counters.udp_tx_errors
        ||| counters.tun_tx_errors != self.last_counters.tun_tx_errors
        ||| counters.udp_rx_errors != self.last_counters.udp_rx_errors
        ||| counters.tun_rx_errors != self.last_counters.tun_rx_errors
    }

    /// Whether the counters are to be reported: enough packets came in, or some
    /// error is new.
    pub fn report(&mut self, counters: &IoCounters) -> (r: bool)
        ensures
            r == old(self).due(*counters),
            *final(self) == if r {
                DataplaneLoop {
                    last_counters: *counters,
                    last_report_packets: received_packets(*counters),
                    ..*old(self)
                }
            } else {
                *old(self)
            },
    {
        let total: u64 = counters.udp_rx_packets.saturating_add(counters.tun_rx_packets);
        let due = total.saturating_sub(self.last_report_packets) >= REPORT_PACKETS
            || counters.udp_tx_errors != self.last_counters.udp_tx_errors || counters.tun_tx_errors
            != self.last_counters.tun_tx_errors || counters.udp_rx_errors
            != self.last_counters.udp_rx_errors || counters.tun_rx_errors
            != self.last_counters.tun_rx_errors;
        if due {
            self.last_counters = *counters;
            self.last_report_packets = total;
        }
        due
    }

    /// Whether the measurements are to be published, once after each tick.
    pub fn take_publish(&mut self) -> (r: bool)
        ensures
            r == old(self).publish_perf,
            *final(self) == (DataplaneLoop { publish_perf: false, ..*old(self) }),
    {
        let r = self.publish_perf;
        self.publish_perf = false;
        r
    }
}

/// After what woke the loop was handled: what is to be flushed, unless the
/// tunnel failed.
pub fn settle(io: &mut TokioIo) -> (r: Result<FlushPlan, LoopFailure>)
    requires
        old(io).wf(),
    ensures
        final(io).wf(),
        final(io)@ == (IoModel {
            sink: SinkModel { tun_fatal: false, ..old(io)@.sink },
            ..old(io)@
        }),
        match r {
            Err(failure) => old(io)@.sink.tun_fatal && failure is TunWrite,
            Ok(plan) => {
                &&& !old(io)@.sink.tun_fatal
                &&& plan.udp == (old(io)@.sink.udp.pending() != 0)
                &&& plan.tun == (old(io)@.sink.tun.pending() != 0)
            },
        },
{
    if io.take_tun_fatal() {
        return Err(LoopFailure::TunWrite);
    }
    Ok(FlushPlan { udp: io.pending_udp_tx_len() != 0, tun: io.pending_tun_tx_len() != 0 })
}

/// How many datagrams may still be read in this turn.
pub fn udp_budget(processed: usize) -> (r: Option<usize>)
    ensures
        r == if processed < MAX_RX_PER_PASS {
            Some((MAX_RX_PER_PASS - processed) as usize)
        } else {
            None
        },
{
    if processed < MAX_RX_PER_PASS {
        Some(MAX_RX_PER_PASS - processed)
    } else {
        None
    }
}

/// Whether the tunnel may be read again in this turn.
pub fn tun_budget_left(processed: usize) -> (r: bool)
    ensures
        r == (processed < TUN_RX_DRAIN_BATCH),
{
    processed < TUN_RX_DRAIN_BATCH
}

/// What the queue of commands gave.
#[derive(Clone, Copy, Debug, PartialEq, Eq, Structural)]
pub enum CommandKind {
    Logic,
    Shutdown,
    Closed,
    Empty,
}

#[derive(Clone, Copy, Debug, PartialEq, Eq, Structural)]
pub enum CommandStep {
    Handle,
    Stop,
    Done,
}

/// Whether the queue of commands may be asked again in this turn, after so many
/// commands were taken from it: the one that was waited for, and up to a limit
/// of those behind it. What stands behind them stays in the queue.
pub fn command_budget_left(taken: usize) -> (r: bool)
    ensures
        r == (taken <= COMMAND_DRAIN_LIMIT),
{
    taken <= COMMAND_DRAIN_LIMIT
}

/// What to do with what the queue of commands gave, after so many commands in
/// this turn. What was taken from the queue is never passed over.
pub fn command_step(kind: CommandKind, taken: usize) -> (r: CommandStep)
    ensures
        r == match kind {
            CommandKind::Logic => CommandStep::Handle,
            CommandKind::Shutdown => CommandStep::Stop,
            CommandKind::Closed => if taken == 0 {
                CommandStep::Stop
            } else {
                CommandStep::Done
            },
            CommandKind::Empty => CommandStep::Done,
        },
{
    match kind {
        CommandKind::Logic => CommandStep::Handle,
        CommandKind::Shutdown => CommandStep::Stop,
        CommandKind::Closed => {
            if taken == 0 {
                CommandStep::Stop
            } else {
                CommandStep::Done
            }
        },
        CommandKind::Empty => CommandStep::Done,
    }
}

/// The passes that are left to datagrams after a run of turns.
pub open spec fn passes_after(state: DataplaneLoop, events: Seq<LoopEvent>) -> DataplaneLoop
    decreases events.len(),
{
    if events.len() == 0 {
        state
    } else {
        passes_after(state, events.drop_last()).woken_spec(events.last())
    }
}

/// Datagrams cannot starve the rest: after four turns of them in a row they are
/// no longer waited for, until the clock, a command or the tunnel had its turn.
pub proof fn law_datagrams_yield(state: DataplaneLoop, events: Seq<LoopEvent>)
    requires
        events.len() >= MAX_CONSECUTIVE_UDP_PASSES,
        forall|i: int| 0 <= i < events.len() ==> #[trigger] events[i] == LoopEvent::UdpReadable,
    ensures
        passes_after(state, events).throttled(),
        !passes_after(state, events).woken_spec(LoopEvent::Tick).throttled(),
        !passes_after(state, events).woken_spec(LoopEvent::Command).throttled(),
        !passes_after(state, events).woken_spec(LoopEvent::TunReadable).throttled(),
{
    lemma_passes(state, events);
}

proof fn lemma_passes(state: DataplaneLoop, events: Seq<LoopEvent>)
    requires
        forall|i: int| 0 <= i < events.len() ==> #[trigger] events[i] == LoopEvent::UdpReadable,
    ensures
        passes_after(state, events).udp_passes >= events.len() || passes_after(
            state,
            events,
        ).udp_passes == u32::MAX,
    decreases events.len(),
{
    if events.len() > 0 {
        lemma_passes(state, events.drop_last());
        assert(events.last() == events[events.len() - 1]);
    }
}

} // verus!
