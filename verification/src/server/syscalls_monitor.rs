//! What the server tells, second by second, of its work: how much of everything
//! since the second before.

use vstd::prelude::*;
use crate::server::perf::{less, more, Counters, Snapshot, ThreadCpuSnapshot, SAMPLE_INTERVAL};
use crate::text::{
    chars_of, copy_text, decimal, decimal_u64, join_texts, joined, string_of_vec, views,
};

verus! {

/// One operation in so many is measured where packets are sealed and opened.
pub const CRYPTO_PERF_SAMPLE_INTERVAL: u64 = 64;

/// What was counted of the I/O.
#[derive(Clone, Copy, Debug, PartialEq, Eq, Structural)]
pub struct MonitorCounters {
    pub udp_rx_packets: u64,
    pub udp_rx_bytes: u64,
    pub udp_rx_errors: u64,
    pub udp_rx_enobufs: u64,
    pub udp_tx_packets: u64,
    pub udp_tx_bytes: u64,
    pub udp_tx_errors: u64,
    pub udp_tx_drops: u64,
    pub tun_rx_packets: u64,
    pub tun_rx_bytes: u64,
    pub tun_rx_errors: u64,
    pub tun_tx_packets: u64,
    pub tun_tx_bytes: u64,
    pub tun_tx_errors: u64,
    pub tun_tx_drops: u64,
    pub sqe_submissions: u64,
    pub cqe_completions: u64,
    pub udp_rx_rearms: u64,
    pub tun_rx_rearms: u64,
    pub free_udp_tx_slots: u64,
    pub free_tun_tx_slots: u64,
    pub cq_min_wait_usec: u64,
    pub cq_wait_batch: u64,
    pub cq_capacity: u64,
    pub cq_overflow: u64,
    pub udp_rx_multishot: u64,
    pub udp_rx_buffer_count: u64,
    pub tun_fixed_buffers: u64,
    pub iowq_bounded_limit: u64,
    pub iowq_unbounded_limit: u64,
    pub uring_mode: u64,
}

/// What was measured of sealing and opening packets.
#[derive(Clone, Copy, Debug, PartialEq, Eq, Structural)]
pub struct CryptoPerf {
    pub chacha: Counters,
    pub srtp: Counters,
    pub unwrap_crypto: Counters,
    pub wrap_crypto: Counters,
}

impl CryptoPerf {
    pub open spec fn delta_spec(self, previous: CryptoPerf) -> CryptoPerf {
        CryptoPerf {
            chacha: self.chacha.delta_spec(previous.chacha),
            srtp: self.srtp.delta_spec(previous.srtp),
            unwrap_crypto: self.unwrap_crypto.delta_spec(previous.unwrap_crypto),
            wrap_crypto: self.wrap_crypto.delta_spec(previous.wrap_crypto),
        }
    }

    /// What was added since.
    pub fn delta(self, previous: CryptoPerf) -> (r: CryptoPerf)
        ensures
            r == self.delta_spec(previous),
    {
        CryptoPerf {
            chacha: self.chacha.delta(previous.chacha),
            srtp: self.srtp.delta(previous.srtp),
            unwrap_crypto: self.unwrap_crypto.delta(previous.unwrap_crypto),
            wrap_crypto: self.wrap_crypto.delta(previous.wrap_crypto),
        }
    }
}

/// The rates of one second and the figures as they stand.
#[derive(Clone, Copy, Debug, PartialEq, Eq, Structural)]
pub struct IoRates {
    pub udp_rx_pps: u64,
    pub udp_rx_bps: u64,
    pub udp_rx_errors_s: u64,
    pub udp_tx_pps: u64,
    pub udp_tx_bps: u64,
    pub udp_tx_errors_s: u64,
    pub udp_tx_drops_s: u64,
    pub tun_rx_pps: u64,
    pub tun_rx_bps: u64,
    pub tun_rx_errors_s: u64,
    pub tun_tx_pps: u64,
    pub tun_tx_bps: u64,
    pub tun_tx_errors_s: u64,
    pub tun_tx_drops_s: u64,
    pub sqe_per_sec: u64,
    pub cqe_per_sec: u64,
    pub udp_rx_rearms_s: u64,
    pub tun_rx_rearms_s: u64,
    pub cq_overflow_s: u64,
    pub udp_rx_enobufs_s: u64,
    pub free_udp_tx_slots: u64,
    pub free_tun_tx_slots: u64,
    pub cq_min_wait_usec: u64,
    pub cq_wait_batch: u64,
    pub cq_capacity: u64,
    pub udp_rx_multishot: u64,
    pub udp_rx_buffer_count: u64,
    pub tun_fixed_buffers: u64,
    pub iowq_bounded_limit: u64,
    pub iowq_unbounded_limit: u64,
    pub uring_mode: u64,
    pub total_udp_rx_packets: u64,
    pub total_udp_tx_packets: u64,
    pub total_tun_rx_packets: u64,
    pub total_tun_tx_packets: u64,
}

impl MonitorCounters {
    pub open spec fn rates_spec(self, last: MonitorCounters) -> IoRates {
        IoRates {
            udp_rx_pps: less(self.udp_rx_packets, last.udp_rx_packets),
            udp_rx_bps: less(self.udp_rx_bytes, last.udp_rx_bytes),
            udp_rx_errors_s: less(self.udp_rx_errors, last.udp_rx_errors),
            udp_tx_pps: less(self.udp_tx_packets, last.udp_tx_packets),
            udp_tx_bps: less(self.udp_tx_bytes, last.udp_tx_bytes),
            udp_tx_errors_s: less(self.udp_tx_errors, last.udp_tx_errors),
            udp_tx_drops_s: less(self.udp_tx_drops, last.udp_tx_drops),
            tun_rx_pps: less(self.tun_rx_packets, last.tun_rx_packets),
            tun_rx_bps: less(self.tun_rx_bytes, last.tun_rx_bytes),
            tun_rx_errors_s: less(self.tun_rx_errors, last.tun_rx_errors),
            tun_tx_pps: less(self.tun_tx_packets, last.tun_tx_packets),
            tun_tx_bps: less(self.tun_tx_bytes, last.tun_tx_bytes),
            tun_tx_errors_s: less(self.tun_tx_errors, last.tun_tx_errors),
            tun_tx_drops_s: less(self.tun_tx_drops, last.tun_tx_drops),
            sqe_per_sec: less(self.sqe_submissions, last.sqe_submissions),
            cqe_per_sec: less(self.cqe_completions, last.cqe_completions),
            udp_rx_rearms_s: less(self.udp_rx_rearms, last.udp_rx_rearms),
            tun_rx_rearms_s: less(self.tun_rx_rearms, last.tun_rx_rearms),
            cq_overflow_s: less(self.cq_overflow, last.cq_overflow),
            udp_rx_enobufs_s: less(self.udp_rx_enobufs, last.udp_rx_enobufs),
            free_udp_tx_slots: self.free_udp_tx_slots,
            free_tun_tx_slots: self.free_tun_tx_slots,
            cq_min_wait_usec: self.cq_min_wait_usec,
            cq_wait_batch: self.cq_wait_batch,
            cq_capacity: self.cq_capacity,
            udp_rx_multishot: self.udp_rx_multishot,
            udp_rx_buffer_count: self.udp_rx_buffer_count,
            tun_fixed_buffers: self.tun_fixed_buffers,
            iowq_bounded_limit: self.iowq_bounded_limit,
            iowq_unbounded_limit: self.iowq_unbounded_limit,
            uring_mode: self.uring_mode,
            total_udp_rx_packets: self.udp_rx_packets,
            total_udp_tx_packets: self.udp_tx_packets,
            total_tun_rx_packets: self.tun_rx_packets,
            total_tun_tx_packets: self.tun_tx_packets,
        }
    }

    /// What was counted since; nothing where a count went back.
    pub fn rates(self, last: MonitorCounters) -> (r: IoRates)
        ensures
            r == self.rates_spec(last),
    {
        IoRates {
            udp_rx_pps: self.udp_rx_packets.saturating_sub(last.udp_rx_packets),
            udp_rx_bps: self.udp_rx_bytes.saturating_sub(last.udp_rx_bytes),
            udp_rx_errors_s: self.udp_rx_errors.saturating_sub(last.udp_rx_errors),
            udp_tx_pps: self.udp_tx_packets.saturating_sub(last.udp_tx_packets),
            udp_tx_bps: self.udp_tx_bytes.saturating_sub(last.udp_tx_bytes),
            udp_tx_errors_s: self.udp_tx_errors.saturating_sub(last.udp_tx_errors),
            udp_tx_drops_s: self.udp_tx_drops.saturating_sub(last.udp_tx_drops),
            tun_rx_pps: self.tun_rx_packets.saturating_sub(last.tun_rx_packets),
            tun_rx_bps: self.tun_rx_bytes.saturating_sub(last.tun_rx_bytes),
            tun_rx_errors_s: self.tun_rx_errors.saturating_sub(last.tun_rx_errors),
            tun_tx_pps: self.tun_tx_packets.saturating_sub(last.tun_tx_packets),
            tun_tx_bps: self.tun_tx_bytes.saturating_sub(last.tun_tx_bytes),
            tun_tx_errors_s: self.tun_tx_errors.saturating_sub(last.tun_tx_errors),
            tun_tx_drops_s: self.tun_tx_drops.saturating_sub(last.tun_tx_drops),
            sqe_per_sec: self.sqe_submissions.saturating_sub(last.sqe_submissions),
            cqe_per_sec: self.cqe_completions.saturating_sub(last.cqe_completions),
            udp_rx_rearms_s: self.udp_rx_rearms.saturating_sub(last.udp_rx_rearms),
            tun_rx_rearms_s: self.tun_rx_rearms.saturating_sub(last.tun_rx_rearms),
            cq_overflow_s: self.cq_overflow.saturating_sub(last.cq_overflow),
            udp_rx_enobufs_s: self.udp_rx_enobufs.saturating_sub(last.udp_rx_enobufs),
            free_udp_tx_slots: self.free_udp_tx_slots,
            free_tun_tx_slots: self.free_tun_tx_slots,
            cq_min_wait_usec: self.cq_min_wait_usec,
            cq_wait_batch: self.cq_wait_batch,
            cq_capacity: self.cq_capacity,
            udp_rx_multishot: self.udp_rx_multishot,
            udp_rx_buffer_count: self.udp_rx_buffer_count,
            tun_fixed_buffers: self.tun_fixed_buffers,
            iowq_bounded_limit: self.iowq_bounded_limit,
            iowq_unbounded_limit: self.iowq_unbounded_limit,
            uring_mode: self.uring_mode,
            total_udp_rx_packets: self.udp_rx_packets,
            total_udp_tx_packets: self.udp_tx_packets,
            total_tun_rx_packets: self.tun_rx_packets,
            total_tun_tx_packets: self.tun_tx_packets,
        }
    }
}

/// What a thread used of the processor.
#[derive(Debug)]
pub struct ThreadCpuFrame {
    pub tid: u32,
    pub name: String,
    pub user_cpu_ns: u64,
    pub system_cpu_ns: u64,
}

/// A thread's name, number and times.
#[verifier::ext_equal]
pub struct ThreadModel {
    pub tid: u32,
    pub name: Seq<char>,
    pub user_ns: u64,
    pub system_ns: u64,
}

impl View for ThreadCpuFrame {
    type V = ThreadModel;

    open spec fn view(&self) -> ThreadModel {
        ThreadModel {
            tid: self.tid,
            name: self.name@,
            user_ns: self.user_cpu_ns,
            system_ns: self.system_cpu_ns,
        }
    }
}

pub open spec fn frame_views(frames: Seq<ThreadCpuFrame>) -> Seq<ThreadModel> {
    frames.map_values(|f: ThreadCpuFrame| f@)
}

pub open spec fn thread_model(thread: ThreadCpuSnapshot) -> ThreadModel {
    ThreadModel {
        tid: thread.tid,
        name: thread.name@,
        user_ns: thread.user_ns,
        system_ns: thread.system_ns,
    }
}

pub open spec fn thread_models(threads: Seq<ThreadCpuSnapshot>) -> Seq<ThreadModel> {
    threads.map_values(|t: ThreadCpuSnapshot| thread_model(t))
}

/// The times of a thread when it was last looked at: the last entry with its
/// number.
pub open spec fn previous_of(threads: Seq<ThreadModel>, tid: u32) -> Option<ThreadModel>
    decreases threads.len(),
{
    if threads.len() == 0 {
        None
    } else if threads.last().tid == tid {
        Some(threads.last())
    } else {
        previous_of(threads.drop_last(), tid)
    }
}

/// What a thread used since; nothing where it was not there before.
pub open spec fn used(thread: ThreadModel, last: Seq<ThreadModel>) -> ThreadModel {
    match previous_of(last, thread.tid) {
        Some(previous) => ThreadModel {
            user_ns: less(thread.user_ns, previous.user_ns),
            system_ns: less(thread.system_ns, previous.system_ns),
            ..thread
        },
        None => ThreadModel { user_ns: 0, system_ns: 0, ..thread },
    }
}

/// Whether an entry is the last one with its number.
pub open spec fn is_last(threads: Seq<ThreadModel>, i: int) -> bool {
    forall|j: int| i < j < threads.len() ==> (#[trigger] threads[j]).tid != threads[i].tid
}

/// What each of the first threads used; of entries with one number only the last
/// counts.
pub open spec fn all_used(threads: Seq<ThreadModel>, last: Seq<ThreadModel>, n: int) -> Seq<
    ThreadModel,
>
    decreases n,
{
    if n <= 0 {
        Seq::empty()
    } else if is_last(threads, n - 1) {
        all_used(threads, last, n - 1).push(used(threads[n - 1], last))
    } else {
        all_used(threads, last, n - 1)
    }
}

/// Whether one text stands before another in the order of their characters.
pub open spec fn text_before(a: Seq<char>, b: Seq<char>) -> bool
    decreases a.len(),
{
    if b.len() == 0 {
        false
    } else if a.len() == 0 {
        true
    } else if a[0] != b[0] {
        a[0] < b[0]
    } else {
        text_before(a.skip(1), b.skip(1))
    }
}

/// Threads are told by name, and those of one name by number.
pub open spec fn told_before(a: ThreadModel, b: ThreadModel) -> bool {
    text_before(a.name, b.name) || (a.name == b.name && a.tid < b.tid)
}

pub open spec fn in_order(threads: Seq<ThreadModel>) -> bool {
    forall|i: int, j: int|
        0 <= i < j < threads.len() ==> !told_before(#[trigger] threads[j], #[trigger] threads[i])
}

proof fn lemma_text_order(a: Seq<char>, b: Seq<char>, c: Seq<char>)
    ensures
        !text_before(a, a),
        text_before(a, b) ==> !text_before(b, a),
        text_before(a, b) && text_before(b, c) ==> text_before(a, c),
        text_before(a, b) || text_before(b, a) || a == b,
    decreases a.len(),
{
    if a.len() > 0 && b.len() > 0 {
        lemma_text_order(
            a.skip(1),
            b.skip(1),
            if c.len() > 0 {
                c.skip(1)
            } else {
                c
            },
        );
        if a.skip(1) == b.skip(1) && a[0] == b[0] {
            assert(a =~= seq![a[0]] + a.skip(1));
            assert(b =~= seq![b[0]] + b.skip(1));
        }
    } else {
        if a.len() == 0 && b.len() == 0 {
            assert(a =~= b);
        }
        if a.len() > 0 {
            lemma_text_order(a.skip(1), a.skip(1), a.skip(1));
        }
    }
}

proof fn lemma_told_order(a: ThreadModel, b: ThreadModel, c: ThreadModel)
    ensures
        told_before(a, b) ==> !told_before(b, a),
        !told_before(b, a) && !told_before(c, b) ==> !told_before(c, a),
{
    lemma_text_order(a.name, b.name, c.name);
    lemma_text_order(b.name, a.name, c.name);
    lemma_text_order(c.name, a.name, b.name);
    lemma_text_order(b.name, c.name, a.name);
    lemma_text_order(c.name, b.name, a.name);
    lemma_text_order(a.name, c.name, b.name);
}

fn name_before(a: &[char], b: &[char]) -> (r: bool)
    ensures
        r == text_before(a@, b@),
{
    let mut i: usize = 0;
    assert(a@.skip(0) =~= a@);
    assert(b@.skip(0) =~= b@);
    loop
        invariant
            i <= a@.len(),
            i <= b@.len(),
            text_before(a@, b@) == text_before(a@.skip(i as int), b@.skip(i as int)),
        decreases a@.len() - i,
    {
        if i >= b.len() {
            return false;
        }
        if i >= a.len() {
            return true;
        }
        assert(a@.skip(i as int)[0] == a@[i as int]);
        assert(b@.skip(i as int)[0] == b@[i as int]);
        if a[i] != b[i] {
            return a[i] < b[i];
        }
        assert(a@.skip(i as int).skip(1) =~= a@.skip(i + 1));
        assert(b@.skip(i as int).skip(1) =~= b@.skip(i + 1));
        i = i + 1;
    }
}

fn frame_before(a: &ThreadCpuFrame, b: &ThreadCpuFrame) -> (r: bool)
    ensures
        r == told_before(a@, b@),
{
    let x = chars_of(a.name.as_str());
    let y = chars_of(b.name.as_str());
    if name_before(x.as_slice(), y.as_slice()) {
        return true;
    }
    let same = crate::text::same_text(a.name.as_str(), b.name.as_str());
    same && a.tid < b.tid
}

proof fn lemma_insert_counts(s: Seq<ThreadModel>, i: int, x: ThreadModel)
    requires
        0 <= i <= s.len(),
    ensures
        s.insert(i, x).to_multiset() == s.to_multiset().insert(x),
{
    broadcast use vstd::seq_lib::group_to_multiset_ensures;

    let t = s.insert(i, x);
    assert(t.remove(i) =~= s);
    assert(t[i] == x);
    assert(t.to_multiset().remove(x) =~= s.to_multiset());
    assert(t.contains(x));
    assert(t.to_multiset().count(x) > 0);
    assert(s.to_multiset().insert(x) =~= t.to_multiset());
}

/// Puts a thread in its place.
fn place(frames: &mut Vec<ThreadCpuFrame>, frame: ThreadCpuFrame)
    requires
        in_order(frame_views(old(frames)@)),
    ensures
        in_order(frame_views(final(frames)@)),
        frame_views(final(frames)@).to_multiset() == frame_views(
            old(frames)@,
        ).to_multiset().insert(frame@),
{
    let ghost before = frame_views(frames@);
    let mut i: usize = frames.len();
    while i > 0 && frame_before(&frame, &frames[i - 1])
        invariant
            i <= frames@.len(),
            before == frame_views(frames@),
            in_order(before),
            forall|k: int| i <= k < before.len() ==> told_before(frame@, #[trigger] before[k]),
        decreases i,
    {
        assert(before[i - 1] == frames@[i - 1]@);
        i = i - 1;
    }
    proof {
        if i > 0 {
            assert(before[i - 1] == frames@[i - 1]@);
            assert(!told_before(frame@, before[i - 1]));
        }
        let after = before.insert(i as int, frame@);
        assert forall|a: int, b: int| 0 <= a < b < after.len() implies !told_before(
            #[trigger] after[b],
            #[trigger] after[a],
        ) by {
            if b < i {
                assert(after[a] == before[a]);
                assert(after[b] == before[b]);
            } else if b == i {
                assert(after[a] == before[a]);
                if a < i - 1 {
                    assert(!told_before(before[i - 1], before[a]));
                    lemma_told_order(before[a], before[i - 1], frame@);
                }
            } else {
                assert(after[b] == before[b - 1]);
                if a < i {
                    assert(after[a] == before[a]);
                } else if a == i {
                    lemma_told_order(frame@, before[b - 1], frame@);
                } else {
                    assert(after[a] == before[a - 1]);
                }
            }
        }
        lemma_insert_counts(before, i as int, frame@);
    }
    frames.insert(i, frame);
    assert(frame_views(frames@) =~= before.insert(i as int, frame@));
}

fn find_previous(threads: &Vec<ThreadCpuSnapshot>, tid: u32) -> (r: Option<usize>)
    ensures
        match r {
            Some(i) => i < threads@.len() && previous_of(thread_models(threads@), tid) == Some(
                thread_model(threads@[i as int]),
            ),
            None => previous_of(thread_models(threads@), tid) is None,
        },
{
    let ghost all = thread_models(threads@);
    let mut i: usize = threads.len();
    assert(all.take(i as int) =~= all);
    while i > 0
        invariant
            i <= threads@.len(),
            all == thread_models(threads@),
            previous_of(all, tid) == previous_of(all.take(i as int), tid),
        decreases i,
    {
        let ghost now = all.take(i as int);
        i = i - 1;
        assert(now.drop_last() =~= all.take(i as int));
        assert(now.last() == thread_model(threads@[i as int]));
        if threads[i].tid == tid {
            return Some(i);
        }
    }
    None
}

fn last_entry(threads: &Vec<ThreadCpuSnapshot>, at: usize) -> (r: bool)
    requires
        at < threads@.len(),
    ensures
        r == is_last(thread_models(threads@), at as int),
{
    let ghost all = thread_models(threads@);
    let size: usize = threads.len();
    assert(at < size);
    let mut j: usize = at + 1;
    while j < threads.len()
        invariant
            at < j <= threads@.len(),
            all == thread_models(threads@),
            forall|k: int| at < k < j ==> (#[trigger] all[k]).tid != all[at as int].tid,
        decreases threads@.len() - j,
    {
        assert(all[j as int] == thread_model(threads@[j as int]));
        assert(all[at as int] == thread_model(threads@[at as int]));
        if threads[j].tid == threads[at].tid {
            return false;
        }
        j = j + 1;
    }
    true
}

/// What each thread used since it was last looked at, in the order in which they
/// are told.
pub fn thread_frames(threads: &Vec<ThreadCpuSnapshot>, last: &Vec<ThreadCpuSnapshot>) -> (r: Vec<
    ThreadCpuFrame,
>)
    ensures
        in_order(frame_views(r@)),
        frame_views(r@).to_multiset() == all_used(
            thread_models(threads@),
            thread_models(last@),
            threads@.len() as int,
        ).to_multiset(),
{
    let ghost all = thread_models(threads@);
    let ghost known = thread_models(last@);
    let mut r: Vec<ThreadCpuFrame> = Vec::new();
    let mut i: usize = 0;
    assert(frame_views(r@) =~= Seq::empty());
    while i < threads.len()
        invariant
            i <= threads@.len(),
            all == thread_models(threads@),
            known == thread_models(last@),
            in_order(frame_views(r@)),
            frame_views(r@).to_multiset() == all_used(all, known, i as int).to_multiset(),
        decreases threads@.len() - i,
    {
        assert(all[i as int] == thread_model(threads@[i as int]));
        if last_entry(threads, i) {
            let thread = &threads[i];
            let (user_cpu_ns, system_cpu_ns): (u64, u64) = match find_previous(last, thread.tid) {
                Some(k) => (
                    thread.user_ns.saturating_sub(last[k].user_ns),
                    thread.system_ns.saturating_sub(last[k].system_ns),
                ),
                None => (0, 0),
            };
            let frame = ThreadCpuFrame {
                tid: thread.tid,
                name: copy_text(thread.name.as_str()),
                user_cpu_ns,
                system_cpu_ns,
            };
            assert(frame@ =~= used(all[i as int], known));
            proof {
                broadcast use vstd::seq_lib::group_to_multiset_ensures;

                let before = all_used(all, known, i as int);
                assert(before.push(frame@).to_multiset() =~= before.to_multiset().insert(frame@));
            }
            place(&mut r, frame);
        }
        i = i + 1;
    }
    r
}

/// All that is looked at in one second.
pub struct Sample {
    pub now_ns: u64,
    pub timestamp_ms: u64,
    pub counters: MonitorCounters,
    pub crypto: u64,
    pub crypto_perf: CryptoPerf,
    pub dataplane_perf: Snapshot,
    pub protocol_perf: Snapshot,
    pub process_cpu_ns: u64,
    pub process_user_cpu_ns: u64,
    pub process_system_cpu_ns: u64,
    pub dataplane_cpu_ns: u64,
    pub dataplane_sequence: u64,
    pub dataplane_tid: u32,
    pub threads: Vec<ThreadCpuSnapshot>,
    /// Whether someone watches everything.
    pub all_active: bool,
    pub active_sessions: u64,
}

/// What is told of one second.
pub struct SyscallsFrame {
    pub timestamp_ms: u64,
    pub sample_window_ns: u64,
    pub process_cpu_ns: u64,
    pub process_user_cpu_ns: u64,
    pub process_system_cpu_ns: u64,
    pub dataplane_cpu_ns: u64,
    pub dataplane_tid: u32,
    pub threads: Vec<ThreadCpuFrame>,
    pub io: IoRates,
    pub crypto_ops_s: u64,
    pub active_sessions: u64,
    pub crypto_sample_interval: u64,
    pub crypto: CryptoPerf,
    pub all_sample_interval: u64,
    pub all: Snapshot,
}

/// The second before.
pub struct SyscallsMonitor {
    last: Option<Sample>,
}

impl View for SyscallsMonitor {
    type V = Option<Sample>;

    /// What was looked at last; nothing while nobody watches.
    closed spec fn view(&self) -> Option<Sample> {
        self.last
    }
}

/// What is told of a second: each figure against that of the second before. The
/// time of the main loop counts where it was measured anew and all is watched
/// for the second time; threads where all is watched.
pub open spec fn frame_of(last: Sample, now: Sample, frame: SyscallsFrame) -> bool {
    &&& frame.timestamp_ms == now.timestamp_ms
    &&& frame.sample_window_ns == less(now.now_ns, last.now_ns)
    &&& frame.process_cpu_ns == less(now.process_cpu_ns, last.process_cpu_ns)
    &&& frame.process_user_cpu_ns == less(now.process_user_cpu_ns, last.process_user_cpu_ns)
    &&& frame.process_system_cpu_ns == less(now.process_system_cpu_ns, last.process_system_cpu_ns)
    &&& frame.dataplane_cpu_ns == if last.all_active && now.all_active && now.dataplane_sequence
        != last.dataplane_sequence {
        less(now.dataplane_cpu_ns, last.dataplane_cpu_ns)
    } else {
        0
    }
    &&& frame.dataplane_tid == now.dataplane_tid
    &&& in_order(frame_views(frame.threads@))
    &&& frame_views(frame.threads@).to_multiset() == all_used(
        watched_threads(now),
        watched_threads(last),
        watched_threads(now).len() as int,
    ).to_multiset()
    &&& frame.io == now.counters.rates_spec(last.counters)
    &&& frame.crypto_ops_s == less(now.crypto, last.crypto)
    &&& frame.active_sessions == now.active_sessions
    &&& frame.crypto_sample_interval == CRYPTO_PERF_SAMPLE_INTERVAL
    &&& frame.crypto == now.crypto_perf.delta_spec(last.crypto_perf)
    &&& frame.all_sample_interval == SAMPLE_INTERVAL
    &&& frame.all == now.dataplane_perf.merge_spec(now.protocol_perf).delta_spec(
        last.dataplane_perf.merge_spec(last.protocol_perf),
    )
}

/// The threads that a look counts: none unless all is watched.
pub open spec fn watched_threads(sample: Sample) -> Seq<ThreadModel> {
    if sample.all_active {
        thread_models(sample.threads@)
    } else {
        Seq::empty()
    }
}

impl SyscallsMonitor {
    pub fn new() -> (r: SyscallsMonitor)
        ensures
            r@ is None,
    {
        SyscallsMonitor { last: None }
    }

    /// Takes a look at everything. While nobody watches nothing is kept; the
    /// first look only serves to compare with; each later one is told.
    pub fn sample(&mut self, watchers: usize, sample: Sample) -> (r: Option<SyscallsFrame>)
        ensures
            if watchers == 0 {
                final(self)@ is None && r is None
            } else {
                &&& final(self)@ == Some(sample)
                &&& match old(self)@ {
                    None => r is None,
                    Some(last) => r is Some && frame_of(last, sample, r->0),
                }
            },
    {
        if watchers == 0 {
            self.last = None;
            return None;
        }
        let none: Vec<ThreadCpuSnapshot> = Vec::new();
        assert(thread_models(none@) =~= Seq::empty());
        let r = match &self.last {
            None => None,
            Some(last) => {
                let threads = thread_frames(
                    if sample.all_active {
                        &sample.threads
                    } else {
                        &none
                    },
                    if last.all_active {
                        &last.threads
                    } else {
                        &none
                    },
                );
                let dataplane_cpu_ns: u64 = if last.all_active && sample.all_active
                    && sample.dataplane_sequence != last.dataplane_sequence {
                    sample.dataplane_cpu_ns.saturating_sub(last.dataplane_cpu_ns)
                } else {
                    0
                };
                let all = sample.dataplane_perf.merge(sample.protocol_perf);
                let before = last.dataplane_perf.merge(last.protocol_perf);
                Some(
                    SyscallsFrame {
                        timestamp_ms: sample.timestamp_ms,
                        sample_window_ns: sample.now_ns.saturating_sub(last.now_ns),
                        process_cpu_ns: sample.process_cpu_ns.saturating_sub(last.process_cpu_ns),
                        process_user_cpu_ns: sample.process_user_cpu_ns.saturating_sub(
                            last.process_user_cpu_ns,
                        ),
                        process_system_cpu_ns: sample.process_system_cpu_ns.saturating_sub(
                            last.process_system_cpu_ns,
                        ),
                        dataplane_cpu_ns,
                        dataplane_tid: sample.dataplane_tid,
                        threads,
                        io: sample.counters.rates(last.counters),
                        crypto_ops_s: sample.crypto.saturating_sub(last.crypto),
                        active_sessions: sample.active_sessions,
                        crypto_sample_interval: CRYPTO_PERF_SAMPLE_INTERVAL,
                        crypto: sample.crypto_perf.delta(last.crypto_perf),
                        all_sample_interval: SAMPLE_INTERVAL,
                        all: all.delta(before),
                    },
                )
            },
        };
        self.last = Some(sample);
        r
    }
}

/// Where the time of the process went.
#[derive(Clone, Copy, Debug, PartialEq, Eq, Structural)]
pub struct ThreadShares {
    pub dataplane_ns: u64,
    pub other_threads_ns: u64,
    pub unattributed_ns: u64,
}

/// The times of threads together.
pub open spec fn threads_total(threads: Seq<ThreadModel>) -> u64
    decreases threads.len(),
{
    if threads.len() == 0 {
        0
    } else {
        more(
            threads_total(threads.drop_last()),
            more(threads.last().user_ns, threads.last().system_ns),
        )
    }
}

/// The time of the first thread with the given number.
pub open spec fn thread_time(threads: Seq<ThreadModel>, tid: u32) -> u64
    decreases threads.len(),
{
    if threads.len() == 0 {
        0
    } else if threads[0].tid == tid {
        more(threads[0].user_ns, threads[0].system_ns)
    } else {
        thread_time(threads.skip(1), tid)
    }
}

/// What of the time of the process the main loop took, what the other threads,
/// and what is told of no thread.
pub fn thread_shares(frame: &SyscallsFrame) -> (r: ThreadShares)
    ensures
        ({
            let threads = frame_views(frame.threads@);
            let total = threads_total(threads);
            let dataplane = thread_time(threads, frame.dataplane_tid);
            r == ThreadShares {
                dataplane_ns: dataplane,
                other_threads_ns: less(total, dataplane),
                unattributed_ns: less(frame.process_cpu_ns, total),
            }
        }),
{
    let ghost all = frame_views(frame.threads@);
    let mut total: u64 = 0;
    let mut dataplane: Option<u64> = None;
    let mut i: usize = 0;
    assert(all.take(0) =~= Seq::empty());
    assert(all.skip(0) =~= all);
    while i < frame.threads.len()
        invariant
            i <= frame.threads@.len(),
            all == frame_views(frame.threads@),
            total == threads_total(all.take(i as int)),
            match dataplane {
                Some(time) => thread_time(all, frame.dataplane_tid) == time,
                None => thread_time(all, frame.dataplane_tid) == thread_time(
                    all.skip(i as int),
                    frame.dataplane_tid,
                ),
            },
        decreases frame.threads@.len() - i,
    {
        let thread = &frame.threads[i];
        assert(all[i as int] == thread@);
        assert(all.take(i + 1).drop_last() =~= all.take(i as int));
        assert(all.skip(i as int)[0] == thread@);
        assert(all.skip(i as int).skip(1) =~= all.skip(i + 1));
        let time: u64 = thread.user_cpu_ns.saturating_add(thread.system_cpu_ns);
        total = total.saturating_add(time);
        if dataplane.is_none() && thread.tid == frame.dataplane_tid {
            dataplane = Some(time);
        }
        i = i + 1;
    }
    assert(all.take(i as int) =~= all);
    let dataplane_ns: u64 = match dataplane {
        Some(time) => time,
        None => 0,
    };
    ThreadShares {
        dataplane_ns,
        other_threads_ns: total.saturating_sub(dataplane_ns),
        unattributed_ns: frame.process_cpu_ns.saturating_sub(total),
    }
}

/// How the kernel's queues are used.
pub fn uring_mode_label(mode: u64) -> (r: &'static str)
    ensures
        r@ == match mode {
            5 => "single+coop+defer"@,
            4 => "single+coop+taskrun"@,
            3 => "coop"@,
            2 => "single"@,
            1 => "basic"@,
            _ => "неизвестен"@,
        },
{
    match mode {
        5 => "single+coop+defer",
        4 => "single+coop+taskrun",
        3 => "coop",
        2 => "single",
        1 => "basic",
        _ => "неизвестен",
    }
}

/// How datagrams are taken in: many for one request, or one by one.
pub fn multishot_label(multishot: u64) -> (r: &'static str)
    ensures
        r@ == if multishot != 0 {
            "активен"@
        } else {
            "fallback"@
        },
{
    if multishot != 0 {
        "активен"
    } else {
        "fallback"
    }
}

/// How many threads the kernel may use for requests that wait, bounded and
/// unbounded.
pub open spec fn iowq_spec(bounded: u64, unbounded: u64) -> Seq<char> {
    if bounded != 0 || unbounded != 0 {
        joined(seq![decimal(bounded as nat), "/"@, decimal(unbounded as nat)])
    } else {
        "не поддерживается ядром"@
    }
}

pub fn iowq_text(bounded: u64, unbounded: u64) -> (r: String)
    ensures
        r@ == iowq_spec(bounded, unbounded),
{
    if bounded != 0 || unbounded != 0 {
        let first = string_of_vec(&decimal_u64(bounded));
        let second = string_of_vec(&decimal_u64(unbounded));
        let parts: [&str; 3] = [first.as_str(), "/", second.as_str()];
        assert(views(parts@) =~= seq![first@, "/"@, second@]);
        join_texts(parts.as_slice())
    } else {
        copy_text("не поддерживается ядром")
    }
}

/// Two looks at the same figures tell that nothing was done.
pub proof fn law_idle_second_is_silent(sample: Sample, frame: SyscallsFrame)
    requires
        frame_of(sample, sample, frame),
    ensures
        frame.sample_window_ns == 0,
        frame.process_cpu_ns == 0,
        frame.dataplane_cpu_ns == 0,
        frame.crypto_ops_s == 0,
        frame.io.udp_rx_pps == 0 && frame.io.udp_tx_pps == 0 && frame.io.tun_rx_pps == 0
            && frame.io.tun_tx_pps == 0,
        frame.io.udp_rx_bps == 0 && frame.io.udp_tx_bps == 0 && frame.io.tun_rx_bps == 0
            && frame.io.tun_tx_bps == 0,
{
}

} // verus!
