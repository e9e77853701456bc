//! What a second of work amounts to.

use vstd::prelude::*;
use crate::server::syscalls_monitor::{
    frame_of, iowq_spec, previous_of, thread_time, threads_total, used, MonitorCounters, Sample,
    SyscallsFrame, ThreadModel,
};
use crate::text::{decimal, joined};

verus! {

/// What a counter gained is told; one that began anew gained nothing.
pub open spec fn gained(now: u64, last: u64, told: u64) -> bool {
    &&& now >= last ==> last + told == now
    &&& now < last ==> told == 0
}

/// Every rate is what its own counter gained.
pub proof fn law_rates_are_gains(now: MonitorCounters, last: MonitorCounters)
    ensures
        ({
            let told = now.rates_spec(last);
            &&& gained(now.udp_rx_packets, last.udp_rx_packets, told.udp_rx_pps)
            &&& gained(now.udp_rx_bytes, last.udp_rx_bytes, told.udp_rx_bps)
            &&& gained(now.udp_rx_errors, last.udp_rx_errors, told.udp_rx_errors_s)
            &&& gained(now.udp_tx_packets, last.udp_tx_packets, told.udp_tx_pps)
            &&& gained(now.udp_tx_bytes, last.udp_tx_bytes, told.udp_tx_bps)
            &&& gained(now.udp_tx_errors, last.udp_tx_errors, told.udp_tx_errors_s)
            &&& gained(now.udp_tx_drops, last.udp_tx_drops, told.udp_tx_drops_s)
            &&& gained(now.tun_rx_packets, last.tun_rx_packets, told.tun_rx_pps)
            &&& gained(now.tun_rx_bytes, last.tun_rx_bytes, told.tun_rx_bps)
            &&& gained(now.tun_rx_errors, last.tun_rx_errors, told.tun_rx_errors_s)
            &&& gained(now.tun_tx_packets, last.tun_tx_packets, told.tun_tx_pps)
            &&& gained(now.tun_tx_bytes, last.tun_tx_bytes, told.tun_tx_bps)
            &&& gained(now.tun_tx_errors, last.tun_tx_errors, told.tun_tx_errors_s)
            &&& gained(now.tun_tx_drops, last.tun_tx_drops, told.tun_tx_drops_s)
            &&& gained(now.sqe_submissions, last.sqe_submissions, told.sqe_per_sec)
            &&& gained(now.cqe_completions, last.cqe_completions, told.cqe_per_sec)
            &&& gained(now.udp_rx_rearms, last.udp_rx_rearms, told.udp_rx_rearms_s)
            &&& gained(now.tun_rx_rearms, last.tun_rx_rearms, told.tun_rx_rearms_s)
            &&& gained(now.cq_overflow, last.cq_overflow, told.cq_overflow_s)
            &&& gained(now.udp_rx_enobufs, last.udp_rx_enobufs, told.udp_rx_enobufs_s)
            &&& told.free_udp_tx_slots == now.free_udp_tx_slots
        }),
{
}

/// Times are told as they were gained, and the main loop's only where it was
/// measured anew and everything was watched for the whole second.
pub proof fn law_times_are_gains(last: Sample, now: Sample, frame: SyscallsFrame)
    requires
        frame_of(last, now, frame),
    ensures
        gained(now.now_ns, last.now_ns, frame.sample_window_ns),
        gained(now.process_cpu_ns, last.process_cpu_ns, frame.process_cpu_ns),
        gained(now.process_user_cpu_ns, last.process_user_cpu_ns, frame.process_user_cpu_ns),
        gained(now.process_system_cpu_ns, last.process_system_cpu_ns, frame.process_system_cpu_ns),
        gained(now.crypto, last.crypto, frame.crypto_ops_s),
        last.all_active && now.all_active && now.dataplane_sequence != last.dataplane_sequence
            ==> gained(now.dataplane_cpu_ns, last.dataplane_cpu_ns, frame.dataplane_cpu_ns),
        !last.all_active || !now.all_active || now.dataplane_sequence == last.dataplane_sequence
            ==> frame.dataplane_cpu_ns == 0,
        frame.timestamp_ms == now.timestamp_ms,
        frame.active_sessions == now.active_sessions,
        frame.dataplane_tid == now.dataplane_tid,
{
}

/// A thread used what it gained since it was last seen, and nothing where it was
/// not seen before; of two entries of one thread the later one counts.
pub proof fn law_threads_used_what_they_gained(
    thread: ThreadModel,
    before: Seq<ThreadModel>,
    seen: ThreadModel,
)
    requires
        seen.tid == thread.tid,
    ensures
        ({
            let r = used(thread, before.push(seen));
            &&& r.tid == thread.tid && r.name == thread.name
            &&& gained(thread.user_ns, seen.user_ns, r.user_ns)
            &&& gained(thread.system_ns, seen.system_ns, r.system_ns)
        }),
        used(thread, Seq::empty()).user_ns == 0,
        used(thread, Seq::empty()).system_ns == 0,
{
}

/// A thread is not mistaken for another.
pub proof fn law_other_threads_do_not_matter(
    thread: ThreadModel,
    before: Seq<ThreadModel>,
    other: ThreadModel,
)
    requires
        other.tid != thread.tid,
    ensures
        used(thread, before.push(other)) == used(thread, before),
        previous_of(before.push(other), thread.tid) == previous_of(before, thread.tid),
{
    assert(before.push(other).drop_last() =~= before);
}

/// The time of all threads is that of each, in its own name and in that of the
/// system.
pub proof fn law_thread_times_add_up(threads: Seq<ThreadModel>, thread: ThreadModel)
    requires
        threads_total(threads) + thread.user_ns + thread.system_ns <= u64::MAX,
    ensures
        threads_total(Seq::empty()) == 0,
        threads_total(threads.push(thread)) == threads_total(threads) + thread.user_ns
            + thread.system_ns,
        thread_time(seq![thread] + threads, thread.tid) == thread.user_ns + thread.system_ns,
        thread_time(Seq::empty(), thread.tid) == 0,
{
    assert(threads.push(thread).drop_last() =~= threads);
    assert((seq![thread] + threads)[0] == thread);
}

/// The two numbers are told with a stroke between them, unless both are missing.
pub proof fn law_waiting_threads_are_told(bounded: u64, unbounded: u64)
    requires
        bounded > 0 || unbounded > 0,
    ensures
        iowq_spec(bounded, unbounded) == decimal(bounded as nat) + seq!['/'] + decimal(
            unbounded as nat,
        ),
{
    reveal_strlit("/");
    assert("/"@ =~= seq!['/']);
    reveal_with_fuel(joined, 4);
    let parts = seq![decimal(bounded as nat), "/"@, decimal(unbounded as nat)];
    assert(parts.drop_last().drop_last().drop_last() =~= Seq::empty());
    assert(joined(parts) =~= decimal(bounded as nat) + seq!['/'] + decimal(unbounded as nat));
}

} // verus!
