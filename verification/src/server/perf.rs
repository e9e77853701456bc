//! What the server measures of its own work.

use vstd::prelude::*;
use crate::text::{
    chars_of, find_in, first_in, last_in, parse_u64, parse_unsigned, pieces, rfind_in, string_of,
    words, words_spec, CharClass,
};

verus! {

/// One operation in so many is measured.
pub const SAMPLE_INTERVAL: u64 = 64;

#[derive(Clone, Copy, Debug, PartialEq, Eq, Structural)]
pub struct Counters {
    pub operations: u64,
    pub bytes: u64,
    pub samples: u64,
    pub sampled_ns: u64,
    pub sampled_wall_ns: u64,
}

pub open spec fn less(a: u64, b: u64) -> u64 {
    if a > b {
        (a - b) as u64
    } else {
        0
    }
}

pub open spec fn more(a: u64, b: u64) -> u64 {
    if a + b > u64::MAX {
        u64::MAX
    } else {
        (a + b) as u64
    }
}

impl Default for Counters {
    fn default() -> (r: Counters)
        ensures
            r == Counters::zero(),
    {
        Counters { operations: 0, bytes: 0, samples: 0, sampled_ns: 0, sampled_wall_ns: 0 }
    }
}

impl Counters {
    pub open spec fn zero() -> Counters {
        Counters { operations: 0, bytes: 0, samples: 0, sampled_ns: 0, sampled_wall_ns: 0 }
    }

    pub open spec fn delta_spec(self, previous: Counters) -> Counters {
        Counters {
            operations: less(self.operations, previous.operations),
            bytes: less(self.bytes, previous.bytes),
            samples: less(self.samples, previous.samples),
            sampled_ns: less(self.sampled_ns, previous.sampled_ns),
            sampled_wall_ns: less(self.sampled_wall_ns, previous.sampled_wall_ns),
        }
    }

    /// What was added since; nothing where a count went back.
    pub fn delta(self, previous: Counters) -> (r: Counters)
        ensures
            r == self.delta_spec(previous),
    {
        Counters {
            operations: self.operations.saturating_sub(previous.operations),
            bytes: self.bytes.saturating_sub(previous.bytes),
            samples: self.samples.saturating_sub(previous.samples),
            sampled_ns: self.sampled_ns.saturating_sub(previous.sampled_ns),
            sampled_wall_ns: self.sampled_wall_ns.saturating_sub(previous.sampled_wall_ns),
        }
    }

    pub open spec fn sum_spec(self, other: Counters) -> Counters {
        Counters {
            operations: more(self.operations, other.operations),
            bytes: more(self.bytes, other.bytes),
            samples: more(self.samples, other.samples),
            sampled_ns: more(self.sampled_ns, other.sampled_ns),
            sampled_wall_ns: more(self.sampled_wall_ns, other.sampled_wall_ns),
        }
    }

    /// Both counts together, as far as they can be counted.
    pub fn add(self, other: Counters) -> (r: Counters)
        ensures
            r == self.sum_spec(other),
    {
        Counters {
            operations: self.operations.saturating_add(other.operations),
            bytes: self.bytes.saturating_add(other.bytes),
            samples: self.samples.saturating_add(other.samples),
            sampled_ns: self.sampled_ns.saturating_add(other.sampled_ns),
            sampled_wall_ns: self.sampled_wall_ns.saturating_add(other.sampled_wall_ns),
        }
    }
}

#[derive(Clone, Copy, Debug, PartialEq, Eq, Structural)]
pub struct Snapshot {
    pub dispatch: Counters,
    pub udp_rx: Counters,
    pub tun_rx: Counters,
    pub route_replay: Counters,
    pub tun_write: Counters,
    pub udp_queue: Counters,
    pub flush: Counters,
    pub bookkeeping: Counters,
}

impl Default for Snapshot {
    fn default() -> (r: Snapshot)
        ensures
            r == (Snapshot {
                dispatch: Counters::zero(),
                udp_rx: Counters::zero(),
                tun_rx: Counters::zero(),
                route_replay: Counters::zero(),
                tun_write: Counters::zero(),
                udp_queue: Counters::zero(),
                flush: Counters::zero(),
                bookkeeping: Counters::zero(),
            }),
    {
        let zero = Counters::default();
        Snapshot {
            dispatch: zero,
            udp_rx: zero,
            tun_rx: zero,
            route_replay: zero,
            tun_write: zero,
            udp_queue: zero,
            flush: zero,
            bookkeeping: zero,
        }
    }
}

impl Snapshot {
    pub open spec fn delta_spec(self, previous: Snapshot) -> Snapshot {
        Snapshot {
            dispatch: self.dispatch.delta_spec(previous.dispatch),
            udp_rx: self.udp_rx.delta_spec(previous.udp_rx),
            tun_rx: self.tun_rx.delta_spec(previous.tun_rx),
            route_replay: self.route_replay.delta_spec(previous.route_replay),
            tun_write: self.tun_write.delta_spec(previous.tun_write),
            udp_queue: self.udp_queue.delta_spec(previous.udp_queue),
            flush: self.flush.delta_spec(previous.flush),
            bookkeeping: self.bookkeeping.delta_spec(previous.bookkeeping),
        }
    }

    /// What was added since, stage by stage.
    pub fn delta(self, previous: Snapshot) -> (r: Snapshot)
        ensures
            r == self.delta_spec(previous),
    {
        Snapshot {
            dispatch: self.dispatch.delta(previous.dispatch),
            udp_rx: self.udp_rx.delta(previous.udp_rx),
            tun_rx: self.tun_rx.delta(previous.tun_rx),
            route_replay: self.route_replay.delta(previous.route_replay),
            tun_write: self.tun_write.delta(previous.tun_write),
            udp_queue: self.udp_queue.delta(previous.udp_queue),
            flush: self.flush.delta(previous.flush),
            bookkeeping: self.bookkeeping.delta(previous.bookkeeping),
        }
    }

    pub open spec fn merge_spec(self, other: Snapshot) -> Snapshot {
        Snapshot {
            dispatch: self.dispatch.sum_spec(other.dispatch),
            udp_rx: self.udp_rx.sum_spec(other.udp_rx),
            tun_rx: self.tun_rx.sum_spec(other.tun_rx),
            route_replay: self.route_replay.sum_spec(other.route_replay),
            tun_write: self.tun_write.sum_spec(other.tun_write),
            udp_queue: self.udp_queue.sum_spec(other.udp_queue),
            flush: self.flush.sum_spec(other.flush),
            bookkeeping: self.bookkeeping.sum_spec(other.bookkeeping),
        }
    }

    /// Two measurements together, stage by stage.
    pub fn merge(self, other: Snapshot) -> (r: Snapshot)
        ensures
            r == self.merge_spec(other),
    {
        Snapshot {
            dispatch: self.dispatch.add(other.dispatch),
            udp_rx: self.udp_rx.add(other.udp_rx),
            tun_rx: self.tun_rx.add(other.tun_rx),
            route_replay: self.route_replay.add(other.route_replay),
            tun_write: self.tun_write.add(other.tun_write),
            udp_queue: self.udp_queue.add(other.udp_queue),
            flush: self.flush.add(other.flush),
            bookkeeping: self.bookkeeping.add(other.bookkeeping),
        }
    }
}

/// What was merged in comes out again as the difference, as long as the counts
/// are not full.
pub proof fn law_merge_then_delta(a: Counters, b: Counters)
    requires
        a.operations + b.operations <= u64::MAX,
        a.bytes + b.bytes <= u64::MAX,
        a.samples + b.samples <= u64::MAX,
        a.sampled_ns + b.sampled_ns <= u64::MAX,
        a.sampled_wall_ns + b.sampled_wall_ns <= u64::MAX,
    ensures
        a.sum_spec(b).delta_spec(a) == b,
{
}

#[derive(Clone, Copy, Debug, PartialEq, Eq, Structural)]
pub enum Stage {
    Dispatch,
    UdpRx,
    TunRx,
    RouteReplay,
    TunWrite,
    UdpQueue,
    Flush,
    Bookkeeping,
}

impl Stage {
    pub open spec fn place(self) -> int {
        match self {
            Stage::Dispatch => 0,
            Stage::UdpRx => 1,
            Stage::TunRx => 2,
            Stage::RouteReplay => 3,
            Stage::TunWrite => 4,
            Stage::UdpQueue => 5,
            Stage::Flush => 6,
            Stage::Bookkeeping => 7,
        }
    }

    fn index(self) -> (r: usize)
        ensures
            r == self.place(),
            r < 8,
    {
        match self {
            Stage::Dispatch => 0,
            Stage::UdpRx => 1,
            Stage::TunRx => 2,
            Stage::RouteReplay => 3,
            Stage::TunWrite => 4,
            Stage::UdpQueue => 5,
            Stage::Flush => 6,
            Stage::Bookkeeping => 7,
        }
    }
}

#[verifier::ext_equal]
pub struct ProfilerModel {
    /// The server was built to measure at all.
    pub diagnostics: bool,
    pub enabled: bool,
    pub cursors: Seq<u64>,
    pub counters: Seq<Counters>,
}

impl ProfilerModel {
    /// There is a place for each stage.
    pub open spec fn wf(self) -> bool {
        self.cursors.len() == 8 && self.counters.len() == 8
    }

    /// The operation is one of those that are measured.
    pub open spec fn sampled(self, stage: Stage) -> bool {
        self.enabled && self.cursors[stage.place()] % SAMPLE_INTERVAL == 0
    }

    pub open spec fn begin(self, stage: Stage, bytes: u64) -> ProfilerModel {
        if !self.enabled {
            self
        } else {
            let at = stage.place();
            let counter = self.counters[at];
            let cursor = self.cursors[at];
            ProfilerModel {
                cursors: self.cursors.update(
                    at,
                    if cursor == u64::MAX {
                        0
                    } else {
                        (cursor + 1) as u64
                    },
                ),
                counters: self.counters.update(
                    at,
                    Counters {
                        operations: more(counter.operations, 1),
                        bytes: more(counter.bytes, bytes),
                        samples: if self.sampled(stage) {
                            more(counter.samples, 1)
                        } else {
                            counter.samples
                        },
                        ..counter
                    },
                ),
                ..self
            }
        }
    }

    pub open spec fn finish(self, stage: Stage, elapsed_ns: u64) -> ProfilerModel {
        let counter = self.counters[stage.place()];
        ProfilerModel {
            counters: self.counters.update(
                stage.place(),
                Counters { sampled_ns: more(counter.sampled_ns, elapsed_ns), ..counter },
            ),
            ..self
        }
    }

    /// An operation turns out to have been a batch.
    pub open spec fn expand(
        self,
        stage: Stage,
        operations: u64,
        bytes: u64,
        sampled: bool,
    ) -> ProfilerModel {
        if !self.enabled {
            self
        } else {
            let counter = self.counters[stage.place()];
            let additional = less(operations, 1);
            ProfilerModel {
                counters: self.counters.update(
                    stage.place(),
                    Counters {
                        operations: more(counter.operations, additional),
                        bytes: more(counter.bytes, bytes),
                        samples: if sampled {
                            more(counter.samples, additional)
                        } else {
                            counter.samples
                        },
                        ..counter
                    },
                ),
                ..self
            }
        }
    }
}

pub struct Profiler {
    diagnostics: bool,
    enabled: bool,
    cursors: [u64; 8],
    counters: [Counters; 8],
}

impl View for Profiler {
    type V = ProfilerModel;

    closed spec fn view(&self) -> ProfilerModel {
        ProfilerModel {
            diagnostics: self.diagnostics,
            enabled: self.enabled,
            cursors: self.cursors@,
            counters: self.counters@,
        }
    }
}

impl Default for Profiler {
    fn default() -> (r: Profiler)
        ensures
            !r@.diagnostics,
            !r@.enabled,
            r@.cursors == Seq::new(8, |i: int| 0u64),
            r@.counters == Seq::new(8, |i: int| Counters::zero()),
    {
        Profiler::new(false)
    }
}

impl Profiler {
    pub fn new(diagnostics: bool) -> (r: Profiler)
        ensures
            r@.diagnostics == diagnostics,
            !r@.enabled,
            r@.cursors == Seq::new(8, |i: int| 0u64),
            r@.counters == Seq::new(8, |i: int| Counters::zero()),
    {
        let zero = Counters::default();
        let r = Profiler {
            diagnostics,
            enabled: false,
            cursors: [0, 0, 0, 0, 0, 0, 0, 0],
            counters: [zero, zero, zero, zero, zero, zero, zero, zero],
        };
        assert(r@.cursors =~= Seq::new(8, |i: int| 0u64));
        assert(r@.counters =~= Seq::new(8, |i: int| Counters::zero()));
        r
    }

    /// Measures from now on exactly if somebody looks on.
    pub fn refresh_enabled(&mut self, watchers: u64)
        ensures
            final(self)@ == (ProfilerModel {
                enabled: old(self)@.diagnostics && watchers != 0,
                ..old(self)@
            }),
    {
        self.enabled = self.diagnostics && watchers != 0;
    }

    pub fn enabled(&self) -> (r: bool)
        ensures
            r == self@.enabled,
    {
        self.enabled
    }

    /// An operation begins at a processor time; the time, if it is measured.
    pub fn begin(&mut self, stage: Stage, bytes: usize, cpu_ns: u64) -> (r: Option<u64>)
        ensures
            final(self)@ == old(self)@.begin(stage, bytes as u64),
            r == if old(self)@.sampled(stage) {
                Some(cpu_ns)
            } else {
                None
            },
    {
        if !self.enabled {
            return None;
        }
        let ghost before = self@;
        let index: usize = stage.index();
        let mut counter = self.counters[index];
        counter.operations = counter.operations.saturating_add(1);
        counter.bytes = counter.bytes.saturating_add(bytes as u64);
        let cursor: u64 = self.cursors[index];
        self.cursors[index] = cursor.wrapping_add(1);
        let measured = cursor % SAMPLE_INTERVAL == 0;
        if measured {
            counter.samples = counter.samples.saturating_add(1);
        }
        self.counters[index] = counter;
        assert(self@ =~= before.begin(stage, bytes as u64));
        if measured {
            Some(cpu_ns)
        } else {
            None
        }
    }

    /// An operation ends at a processor time.
    pub fn finish(&mut self, stage: Stage, started: Option<u64>, cpu_ns: u64)
        ensures
            final(self)@ == match started {
                Some(started) => old(self)@.finish(stage, less(cpu_ns, started)),
                None => old(self)@,
            },
    {
        if let Some(started) = started {
            self.finish_elapsed(stage, cpu_ns.saturating_sub(started));
        }
    }

    pub fn finish_elapsed(&mut self, stage: Stage, elapsed_ns: u64)
        ensures
            final(self)@ == old(self)@.finish(stage, elapsed_ns),
    {
        let ghost before = self@;
        let index: usize = stage.index();
        let mut counter = self.counters[index];
        counter.sampled_ns = counter.sampled_ns.saturating_add(elapsed_ns);
        self.counters[index] = counter;
        assert(self@ =~= before.finish(stage, elapsed_ns));
    }

    pub fn expand_batch(&mut self, stage: Stage, operations: u64, bytes: u64, sampled: bool)
        ensures
            final(self)@ == old(self)@.expand(stage, operations, bytes, sampled),
    {
        if !self.enabled {
            return;
        }
        let ghost before = self@;
        let index: usize = stage.index();
        let mut counter = self.counters[index];
        let additional: u64 = operations.saturating_sub(1);
        counter.operations = counter.operations.saturating_add(additional);
        counter.bytes = counter.bytes.saturating_add(bytes);
        if sampled {
            counter.samples = counter.samples.saturating_add(additional);
        }
        self.counters[index] = counter;
        assert(self@ =~= before.expand(stage, operations, bytes, sampled));
    }

    pub fn snapshot(&self) -> (r: Snapshot)
        ensures
            r.dispatch == self@.counters[0],
            r.udp_rx == self@.counters[1],
            r.tun_rx == self@.counters[2],
            r.route_replay == self@.counters[3],
            r.tun_write == self@.counters[4],
            r.udp_queue == self@.counters[5],
            r.flush == self@.counters[6],
            r.bookkeeping == self@.counters[7],
    {
        Snapshot {
            dispatch: self.counters[0],
            udp_rx: self.counters[1],
            tun_rx: self.counters[2],
            route_replay: self.counters[3],
            tun_write: self.counters[4],
            udp_queue: self.counters[5],
            flush: self.counters[6],
            bookkeeping: self.counters[7],
        }
    }

    /// What there is to publish; nothing while nobody looks on.
    pub fn publish_dataplane(&self) -> (r: Option<Snapshot>)
        ensures
            r is Some == self@.enabled,
            r is Some ==> {
                let snapshot = r->0;
                &&& snapshot.dispatch == self@.counters[0]
                &&& snapshot.udp_rx == self@.counters[1]
                &&& snapshot.tun_rx == self@.counters[2]
                &&& snapshot.route_replay == self@.counters[3]
                &&& snapshot.tun_write == self@.counters[4]
                &&& snapshot.udp_queue == self@.counters[5]
                &&& snapshot.flush == self@.counters[6]
                &&& snapshot.bookkeeping == self@.counters[7]
            },
    {
        if self.enabled {
            Some(self.snapshot())
        } else {
            None
        }
    }

    /// What there is to publish of the sessions; nothing while nobody looks on.
    pub fn publish_protocol(&self) -> (r: Option<Snapshot>)
        ensures
            r is Some == self@.enabled,
            r is Some ==> {
                let snapshot = r->0;
                &&& snapshot.dispatch == self@.counters[0]
                &&& snapshot.udp_rx == self@.counters[1]
                &&& snapshot.tun_rx == self@.counters[2]
                &&& snapshot.route_replay == self@.counters[3]
                &&& snapshot.tun_write == self@.counters[4]
                &&& snapshot.udp_queue == self@.counters[5]
                &&& snapshot.flush == self@.counters[6]
                &&& snapshot.bookkeeping == self@.counters[7]
            },
    {
        self.publish_dataplane()
    }
}

/// The time of the main loop, and how often it was told.
#[derive(Clone, Copy, Debug, PartialEq, Eq, Structural)]
pub struct DataplaneCpu {
    pub cpu_ns: u64,
    pub sequence: u64,
}

impl Default for DataplaneCpu {
    fn default() -> (r: DataplaneCpu)
        ensures
            r == (DataplaneCpu { cpu_ns: 0, sequence: 0 }),
    {
        DataplaneCpu { cpu_ns: 0, sequence: 0 }
    }
}

impl DataplaneCpu {
    /// Tells the time anew; the count of it wraps around.
    pub fn publish_dataplane_cpu(&mut self, cpu_ns: u64)
        ensures
            final(self).cpu_ns == cpu_ns,
            final(self).sequence == (old(self).sequence + 1) % 0x1_0000_0000_0000_0000,
    {
        self.cpu_ns = cpu_ns;
        self.sequence = self.sequence.wrapping_add(1);
    }
}

/// Every profiler has a place for each stage, whatever was done with it.
pub proof fn law_every_stage_has_a_place(profiler: Profiler, stage: Stage)
    ensures
        profiler@.wf(),
        0 <= stage.place() < 8,
{
}

/// An operation that turns out to have been a batch counts as the operations of
/// the batch: one that begins and is then expanded adds as many operations, all of
/// its bytes, and as many samples, if it is one that is measured. No time is added,
/// and no other stage changes. A batch of one or of none adds nothing.
pub proof fn law_batch_counts_its_operations(
    model: ProfilerModel,
    stage: Stage,
    bytes: u64,
    operations: u64,
    extra: u64,
    flag: bool,
)
    requires
        model.wf(),
        model.enabled,
        operations >= 1,
        model.counters[stage.place()].operations + operations <= u64::MAX,
        model.counters[stage.place()].bytes + bytes + extra <= u64::MAX,
        model.counters[stage.place()].samples + operations <= u64::MAX,
    ensures
        ({
            let at = stage.place();
            let before = model.counters[at];
            let measured = model.sampled(stage);
            let after = model.begin(stage, bytes).expand(stage, operations, extra, measured);
            &&& after.wf()
            &&& after.enabled
            &&& after.counters[at].operations == before.operations + operations
            &&& after.counters[at].bytes == before.bytes + bytes + extra
            &&& after.counters[at].samples == before.samples + if measured {
                operations as int
            } else {
                0
            }
            &&& after.counters[at].sampled_ns == before.sampled_ns
            &&& forall|other: int|
                0 <= other < 8 && other != at ==> #[trigger] after.counters[other]
                    == model.counters[other] && after.cursors[other] == model.cursors[other]
        }),
        model.expand(stage, 1, 0, flag) == model,
        model.expand(stage, 0, 0, flag) == model,
{
    assert(model.expand(stage, 1, 0, flag) =~= model);
    assert(model.expand(stage, 0, 0, flag) =~= model);
}

/// Without diagnostics nothing is ever measured or counted.
pub proof fn law_unwatched_work_is_free(model: ProfilerModel, stage: Stage, bytes: u64)
    requires
        !model.enabled,
    ensures
        model.begin(stage, bytes) == model,
        !model.sampled(stage),
        model.expand(stage, bytes, bytes, true) == model,
{
}

#[derive(Debug)]
pub struct ThreadCpuSnapshot {
    pub tid: u32,
    pub name: String,
    pub user_ns: u64,
    pub system_ns: u64,
}

/// The name and the two processor times that a line of `/proc` tells; the name
/// stands between the first opening and the last closing bracket.
pub open spec fn proc_stat_spec(stat: Seq<char>) -> Option<(Seq<char>, nat, nat)> {
    let start = first_in(stat, CharClass::Is('('));
    let end = last_in(stat, CharClass::Is(')'));
    let fields = words_spec(stat.skip(end + 1));
    if start >= stat.len() || end <= start || fields.len() < 13 {
        None
    } else {
        match (
            parse_unsigned(fields[11], u64::MAX as nat),
            parse_unsigned(fields[12], u64::MAX as nat),
        ) {
            (Some(user), Some(system)) => Some((stat.subrange(start + 1, end), user, system)),
            _ => None,
        }
    }
}

pub fn parse_proc_stat(stat: &str) -> (r: Option<(String, u64, u64)>)
    ensures
        match r {
            Some((name, user, system)) => proc_stat_spec(stat@) == Some(
                (name@, user as nat, system as nat),
            ),
            None => proc_stat_spec(stat@) is None,
        },
{
    let all = chars_of(stat);
    let s = all.as_slice();
    let start: usize = find_in(s, CharClass::Is('('));
    if start >= s.len() {
        return None;
    }
    let end: usize = match rfind_in(s, CharClass::Is(')')) {
        Some(end) => end,
        None => {
            return None;
        },
    };
    if end <= start {
        return None;
    }
    let rest = vstd::slice::slice_subrange(s, end + 1, s.len());
    assert(rest@ =~= s@.skip(end + 1));
    let fields = words(rest);
    assert(pieces(fields@).len() == fields@.len());
    if fields.len() < 13 {
        return None;
    }
    assert(pieces(fields@)[11] == fields@[11]@);
    assert(pieces(fields@)[12] == fields@[12]@);
    match (parse_u64(fields[11].as_slice()), parse_u64(fields[12].as_slice())) {
        (Some(user), Some(system)) => {
            let name = vstd::slice::slice_subrange(s, start + 1, end);
            Some((string_of(name), user, system))
        },
        _ => None,
    }
}

/// Ticks as nanoseconds.
pub open spec fn ticks_spec(ticks: u64, ticks_per_second: i64) -> u64 {
    let ns = ticks * 1_000_000_000 / ticks_per_second as int;
    if ns > u64::MAX {
        u64::MAX
    } else {
        ns as u64
    }
}

fn scale(ticks: u64, ticks_per_second: i64) -> (r: u64)
    requires
        ticks_per_second > 0,
    ensures
        r == ticks_spec(ticks, ticks_per_second),
{
    let ns: u128 = ticks as u128 * 1_000_000_000 / ticks_per_second as u128;
    if ns > u64::MAX as u128 {
        u64::MAX
    } else {
        ns as u64
    }
}

pub fn ticks_to_ns(user_ticks: u64, system_ticks: u64, ticks_per_second: i64) -> (r: Option<
    (u64, u64),
>)
    ensures
        r == if ticks_per_second <= 0 {
            None
        } else {
            Some(
                (
                    ticks_spec(user_ticks, ticks_per_second),
                    ticks_spec(system_ticks, ticks_per_second),
                ),
            )
        },
{
    if ticks_per_second <= 0 {
        return None;
    }
    Some((scale(user_ticks, ticks_per_second), scale(system_ticks, ticks_per_second)))
}

/// The time of this process, in its own name and in that of the system; nothing
/// where it is not told.
pub open spec fn split_spec(stat: Option<Seq<char>>, ticks_per_second: i64) -> (u64, u64) {
    match stat {
        Some(stat) => match proc_stat_spec(stat) {
            Some((_, user, system)) => if ticks_per_second <= 0 {
                (0, 0)
            } else {
                (
                    ticks_spec(user as u64, ticks_per_second),
                    ticks_spec(system as u64, ticks_per_second),
                )
            },
            None => (0, 0),
        },
        None => (0, 0),
    }
}

pub fn process_cpu_split_ns(stat: Option<&str>, ticks_per_second: i64) -> (r: (u64, u64))
    ensures
        r == split_spec(
            match stat {
                Some(stat) => Some(stat@),
                None => None,
            },
            ticks_per_second,
        ),
{
    match stat {
        Some(stat) => match parse_proc_stat(stat) {
            Some((_, user, system)) => match ticks_to_ns(user, system, ticks_per_second) {
                Some(times) => times,
                None => (0, 0),
            },
            None => (0, 0),
        },
        None => (0, 0),
    }
}

/// The number of a thread, and what the system tells of it.
pub struct ThreadEntry {
    pub name: String,
    pub stat: Option<String>,
}

/// What an entry tells of a thread; nothing where its number, its line or the
/// clock is not known.
pub open spec fn thread_spec(entry: ThreadEntry, ticks_per_second: i64) -> Option<
    (u32, Seq<char>, u64, u64),
> {
    match (parse_unsigned(entry.name@, u32::MAX as nat), entry.stat) {
        (Some(tid), Some(stat)) => match proc_stat_spec(stat@) {
            Some((name, user, system)) => if ticks_per_second <= 0 {
                None
            } else {
                Some(
                    (
                        tid as u32,
                        name,
                        ticks_spec(user as u64, ticks_per_second),
                        ticks_spec(system as u64, ticks_per_second),
                    ),
                )
            },
            None => None,
        },
        _ => None,
    }
}

/// The threads that the entries tell of, in their order.
pub open spec fn threads_spec(entries: Seq<ThreadEntry>, ticks_per_second: i64) -> Seq<
    (u32, Seq<char>, u64, u64),
>
    decreases entries.len(),
{
    if entries.len() == 0 {
        Seq::empty()
    } else {
        match thread_spec(entries.last(), ticks_per_second) {
            Some(thread) => threads_spec(entries.drop_last(), ticks_per_second).push(thread),
            None => threads_spec(entries.drop_last(), ticks_per_second),
        }
    }
}

pub open spec fn snapshot_views(threads: Seq<ThreadCpuSnapshot>) -> Seq<
    (u32, Seq<char>, u64, u64),
> {
    threads.map_values(|t: ThreadCpuSnapshot| (t.tid, t.name@, t.user_ns, t.system_ns))
}

fn thread_of(entry: &ThreadEntry, ticks_per_second: i64) -> (r: Option<ThreadCpuSnapshot>)
    ensures
        match r {
            Some(t) => thread_spec(*entry, ticks_per_second) == Some(
                (t.tid, t.name@, t.user_ns, t.system_ns),
            ),
            None => thread_spec(*entry, ticks_per_second) is None,
        },
{
    let chars = chars_of(entry.name.as_str());
    let tid: u32 = match parse_u64(chars.as_slice()) {
        Some(n) => {
            if n > 0xffff_ffff {
                return None;
            }
            n as u32
        },
        None => {
            return None;
        },
    };
    match &entry.stat {
        Some(stat) => match parse_proc_stat(stat.as_str()) {
            Some((name, user, system)) => match ticks_to_ns(user, system, ticks_per_second) {
                Some((user_ns, system_ns)) => Some(
                    ThreadCpuSnapshot { tid, name, user_ns, system_ns },
                ),
                None => None,
            },
            None => None,
        },
        None => None,
    }
}

/// The times of the threads of this process.
pub fn process_thread_cpu_snapshot(entries: &Vec<ThreadEntry>, ticks_per_second: i64) -> (r: Vec<
    ThreadCpuSnapshot,
>)
    ensures
        snapshot_views(r@) == threads_spec(entries@, ticks_per_second),
{
    let mut threads: Vec<ThreadCpuSnapshot> = Vec::new();
    let mut i: usize = 0;
    assert(snapshot_views(threads@) =~= Seq::empty());
    while i < entries.len()
        invariant
            i <= entries@.len(),
            snapshot_views(threads@) == threads_spec(entries@.take(i as int), ticks_per_second),
        decreases entries@.len() - i,
    {
        let ghost next = entries@.take(i + 1);
        assert(next.drop_last() =~= entries@.take(i as int));
        assert(next.last() == entries@[i as int]);
        if let Some(thread) = thread_of(&entries[i], ticks_per_second) {
            let ghost before = snapshot_views(threads@);
            threads.push(thread);
            assert(snapshot_views(threads@) =~= before.push(
                (thread.tid, thread.name@, thread.user_ns, thread.system_ns),
            ));
        }
        i = i + 1;
    }
    assert(entries@.take(i as int) =~= entries@);
    threads
}

/// More ticks are never less time.
pub proof fn law_ticks_keep_their_order(a: u64, b: u64, ticks_per_second: i64)
    requires
        a <= b,
        ticks_per_second > 0,
    ensures
        ticks_spec(a, ticks_per_second) <= ticks_spec(b, ticks_per_second),
{
    vstd::arithmetic::div_mod::lemma_div_is_ordered(
        a * 1_000_000_000,
        b * 1_000_000_000,
        ticks_per_second as int,
    );
    vstd::arithmetic::div_mod::lemma_div_pos_is_pos(a * 1_000_000_000, ticks_per_second as int);
}

} // verus!
