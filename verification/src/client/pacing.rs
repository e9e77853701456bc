//! When the workers of a client start, pause, ask for their configuration, and
//! say that they recover.

use vstd::prelude::*;
use crate::client::session::ConfigDeliveryState;

verus! {

/// The time between the starts of two workers, in milliseconds.
pub const WORKER_START_INTERVAL_MS: u64 = 100;
/// The time between two reports of one kind, in milliseconds.
pub const RECOVERY_LOG_INTERVAL_MS: u64 = 10_000;
/// How long a paused worker sleeps before it looks again, in milliseconds.
pub const PAUSE_RECHECK_MS: u64 = 250;

/// Gathers what happens often into a report now and then.
#[derive(Clone, Copy, Debug, PartialEq, Eq, Structural)]
pub struct RecoveryLogGate {
    pub pending: u64,
    pub next_report_ms: u64,
}

impl RecoveryLogGate {
    pub fn new() -> (r: RecoveryLogGate)
        ensures
            r == (RecoveryLogGate { pending: 0, next_report_ms: 0 }),
    {
        RecoveryLogGate { pending: 0, next_report_ms: 0 }
    }

    /// The number of occurrences, this one among them.
    pub open spec fn counted(self) -> u64 {
        if self.pending == u64::MAX {
            0
        } else {
            (self.pending + 1) as u64
        }
    }

    pub open spec fn due(self, now_ms: u64) -> bool {
        self.next_report_ms == 0 || now_ms >= self.next_report_ms
    }

    /// When the report after one at this time is due.
    pub open spec fn next_after(now_ms: u64) -> u64 {
        if now_ms + RECOVERY_LOG_INTERVAL_MS > u64::MAX {
            u64::MAX
        } else {
            (now_ms + RECOVERY_LOG_INTERVAL_MS) as u64
        }
    }

    /// Counts an occurrence; the count since the last report, where one is due.
    pub fn observe(&mut self, now_ms: u64) -> (r: Option<u64>)
        ensures
            r == if old(self).due(now_ms) {
                Some(old(self).counted())
            } else {
                None
            },
            *final(self) == if old(self).due(now_ms) {
                RecoveryLogGate {
                    pending: 0,
                    next_report_ms: RecoveryLogGate::next_after(now_ms),
                }
            } else {
                RecoveryLogGate { pending: old(self).counted(), ..*old(self) }
            },
    {
        self.pending = self.pending.wrapping_add(1);
        if self.next_report_ms != 0 && now_ms < self.next_report_ms {
            return None;
        }
        self.next_report_ms = now_ms.saturating_add(RECOVERY_LOG_INTERVAL_MS);
        let count: u64 = self.pending;
        self.pending = 0;
        Some(count)
    }
}

/// No occurrence is lost: what is reported and what still waits make up all that
/// was counted; and reports of one kind are an interval apart.
pub proof fn law_reports_lose_nothing(gate: RecoveryLogGate, now_ms: u64, later_ms: u64)
    requires
        gate.pending < u64::MAX,
        now_ms <= u64::MAX - RECOVERY_LOG_INTERVAL_MS,
    ensures
        gate.counted() == gate.pending + 1,
        gate.due(now_ms) && later_ms < now_ms + RECOVERY_LOG_INTERVAL_MS ==> !(RecoveryLogGate {
            pending: 0,
            next_report_ms: RecoveryLogGate::next_after(now_ms),
        }).due(later_ms),
{
}

/// Whether work may begin.
pub struct PauseGate {
    paused: bool,
}

impl View for PauseGate {
    type V = bool;

    closed spec fn view(&self) -> bool {
        self.paused
    }
}

impl PauseGate {
    pub fn new() -> (r: PauseGate)
        ensures
            !r@,
    {
        PauseGate { paused: false }
    }

    /// Pauses or resumes; whether that changes anything, so that whoever waits
    /// has to be woken.
    pub fn set_paused(&mut self, paused: bool) -> (r: bool)
        ensures
            final(self)@ == paused,
            r == (old(self)@ != paused),
    {
        let changed = self.paused != paused;
        self.paused = paused;
        changed
    }

    pub fn is_paused(&self) -> (r: bool)
        ensures
            r == self@,
    {
        self.paused
    }
}

/// Spaces the starts of workers. Times are in milliseconds.
#[derive(Clone, Copy, Debug, PartialEq, Eq, Structural)]
pub struct WorkerStartPacer {
    pub next: u64,
    pub interval: u64,
}

impl WorkerStartPacer {
    pub fn new(now: u64, interval: u64) -> (r: WorkerStartPacer)
        ensures
            r == (WorkerStartPacer { next: now, interval }),
    {
        WorkerStartPacer { next: now, interval }
    }

    pub open spec fn scheduled_spec(self, now: u64) -> u64 {
        if self.next > now {
            self.next
        } else {
            now
        }
    }

    /// When a worker that asks now may start.
    pub fn scheduled(&self, now: u64) -> (r: u64)
        ensures
            r == self.scheduled_spec(now),
    {
        if self.next > now {
            self.next
        } else {
            now
        }
    }

    pub open spec fn started_spec(self, at: u64) -> WorkerStartPacer {
        WorkerStartPacer { next: (at + self.interval) as u64, ..self }
    }

    /// A worker has started at its time; one that gave up before takes no place.
    pub fn started(&mut self, at: u64)
        requires
            at + old(self).interval <= u64::MAX,
        ensures
            *final(self) == old(self).started_spec(at),
    {
        self.next = at + self.interval;
    }
}

/// The pacer after so many workers that all asked at one time have started.
pub open spec fn after_starts(pacer: WorkerStartPacer, now: u64, count: nat) -> WorkerStartPacer
    decreases count,
{
    if count == 0 {
        pacer
    } else {
        let before = after_starts(pacer, now, (count - 1) as nat);
        before.started_spec(before.scheduled_spec(now))
    }
}

/// Workers that all ask at one time start an interval apart, the first at once.
pub proof fn law_starts_are_spaced(now: u64, interval: u64, count: nat)
    requires
        now + (count + 1) * interval <= u64::MAX,
    ensures
        after_starts(WorkerStartPacer { next: now, interval }, now, count).scheduled_spec(now)
            == now + count * interval,
    decreases count,
{
    let pacer = WorkerStartPacer { next: now, interval };
    if count > 0 {
        assert((count + 1) * interval == count * interval + interval) by (nonlinear_arith);
        assert(count * interval == (count - 1) * interval + interval) by (nonlinear_arith)
            requires
                count > 0,
        ;
        assert(0 <= (count - 1) * interval) by (nonlinear_arith)
            requires
                count > 0,
        ;
        law_starts_are_spaced(now, interval, (count - 1) as nat);
        lemma_interval_kept(pacer, now, (count - 1) as nat);
        let before = after_starts(pacer, now, (count - 1) as nat);
        let at = before.scheduled_spec(now);
        assert(at == now + (count - 1) * interval);
        assert(before.started_spec(at).next == at + interval);
    } else {
        assert(count * interval == 0) by (nonlinear_arith)
            requires
                count == 0,
        ;
    }
}

proof fn lemma_interval_kept(pacer: WorkerStartPacer, now: u64, count: nat)
    ensures
        after_starts(pacer, now, count).interval == pacer.interval,
    decreases count,
{
    if count > 0 {
        lemma_interval_kept(pacer, now, (count - 1) as nat);
    }
}

/// After a start no other is scheduled before an interval has passed, and one
/// that asks later than that starts at once.
pub proof fn law_next_start_waits(pacer: WorkerStartPacer, at: u64, now: u64)
    requires
        at + pacer.interval <= u64::MAX,
    ensures
        pacer.started_spec(at).scheduled_spec(now) >= at + pacer.interval,
        now >= at + pacer.interval ==> pacer.started_spec(at).scheduled_spec(now) == now,
{
}

/// The right to ask for the configuration, which one worker has at a time.
#[derive(Clone, Copy, Debug, PartialEq, Eq, Structural)]
pub struct ConfigFlightGuard {
    pub acquired: bool,
}

impl ConfigFlightGuard {
    /// Takes the right, if nobody has it and none was delivered.
    pub fn acquire(state: &mut ConfigDeliveryState) -> (r: ConfigFlightGuard)
        ensures
            r.acquired == (!old(state).sent && !old(state).in_flight),
            *final(state) == (ConfigDeliveryState {
                in_flight: old(state).in_flight || r.acquired,
                ..*old(state)
            }),
    {
        let acquired = !state.sent && !state.in_flight;
        if acquired {
            state.in_flight = true;
        }
        ConfigFlightGuard { acquired }
    }

    /// Gives the right back, if it was had.
    pub fn release(self, state: &mut ConfigDeliveryState)
        ensures
            *final(state) == (ConfigDeliveryState {
                in_flight: old(state).in_flight && !self.acquired,
                ..*old(state)
            }),
    {
        if self.acquired {
            state.in_flight = false;
        }
    }
}

/// Whether the configuration has to be asked for again: the last of the paths
/// that worked is gone, and the client goes on.
pub fn should_refresh_configuration_after_full_outage(
    was_ready: bool,
    failed: bool,
    active_connections: i32,
    cancelled: bool,
) -> (r: bool)
    ensures
        r == (was_ready && failed && active_connections == 0 && !cancelled),
{
    was_ready && failed && active_connections == 0 && !cancelled
}

/// Whether the calls behind a hash can be joined.
#[derive(Clone, Copy, Debug, PartialEq, Eq, Structural)]
pub struct HashAvailability {
    pub unavailable: bool,
}

impl HashAvailability {
    pub fn new() -> (r: HashAvailability)
        ensures
            !r.unavailable,
    {
        HashAvailability { unavailable: false }
    }

    pub fn mark_unavailable(&mut self)
        ensures
            final(self).unavailable,
    {
        self.unavailable = true;
    }

    /// Whether the workers of the hash stop: with it, or with the client.
    pub fn stops(&self, client_cancelled: bool) -> (r: bool)
        ensures
            r == (self.unavailable || client_cancelled),
    {
        self.unavailable || client_cancelled
    }
}

} // verus!
