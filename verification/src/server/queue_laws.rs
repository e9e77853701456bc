//! What waits for a client, and what work costs.

use vstd::prelude::*;
use crate::server::downlink_queue::{
    bounded_paths, slots_for, turns, DownlinkModel, SlotsModel,
};
use crate::server::perf::{ticks_spec, Counters, ProfilerModel, Snapshot, Stage};
use crate::shared::striped_scheduler::PacketClass;

verus! {

/// A client has sixteen slots for small packets, and for the others as many as it
/// has paths, two and eight for each, within limits; without a path it has none.
pub proof fn law_slots_grow_with_paths(paths: nat)
    ensures
        slots_for(0, PacketClass::Small) == 0,
        slots_for(0, PacketClass::Medium) == 0,
        slots_for(0, PacketClass::Bulk) == 0,
        paths > 0 ==> slots_for(paths, PacketClass::Small) == 16,
        1 <= paths <= 16 ==> slots_for(paths, PacketClass::Medium) == 32,
        16 <= paths <= 126 ==> slots_for(paths, PacketClass::Medium) == 2 * paths,
        1 <= paths <= 9 ==> slots_for(paths, PacketClass::Bulk) == 72,
        9 <= paths <= 126 ==> slots_for(paths, PacketClass::Bulk) == 8 * paths,
        paths > 126 ==> slots_for(paths, PacketClass::Medium) == 252,
        paths > 126 ==> slots_for(paths, PacketClass::Bulk) == 1_008,
        bounded_paths(paths) <= 126,
        paths <= 126 ==> bounded_paths(paths) == paths,
{
}

/// In a round a client has one turn for small and for medium packets, and as many as
/// it has paths for large ones; without a path it has none.
pub proof fn law_turns_by_class(paths: nat)
    ensures
        turns(0, PacketClass::Small) == 0 && turns(0, PacketClass::Medium) == 0 && turns(
            0,
            PacketClass::Bulk,
        ) == 0,
        paths > 0 ==> turns(paths, PacketClass::Small) == 1 && turns(paths, PacketClass::Medium)
            == 1,
        paths > 0 ==> turns(paths, PacketClass::Bulk) == paths,
{
}

/// A packet is taken in where it fits and a slot is free, and waits behind the
/// others; what leaves came first, and what is put back leaves next.
pub proof fn law_slots_are_a_queue(slots: SlotsModel, packet: Seq<u8>)
    ensures
        slots.free > 0 && packet.len() <= 1_600 ==> slots.enqueue(packet).pending
            == slots.pending.push(packet) && slots.enqueue(packet).free == slots.free - 1,
        slots.free == 0 || packet.len() > 1_600 ==> slots.enqueue(packet) == slots,
        slots.pending.len() > 0 ==> slots.dequeue().requeue_front(slots.pending[0]) == slots,
        slots.requeue_front(packet).dequeue() == slots,
        slots.requeue_front(packet).pending[0] == packet,
        slots.recycle().free == slots.free + 1,
        slots.recycle().pending == slots.pending,
        slots.clear().pending.len() == 0,
        slots.clear().free == slots.free + slots.pending.len(),
{
    if slots.pending.len() > 0 {
        assert(seq![slots.pending[0]] + slots.pending.skip(1) =~= slots.pending);
    }
    assert((seq![packet] + slots.pending).skip(1) =~= slots.pending);
}

/// A slot that was taken from and given back is free again, and no slot is lost by a
/// change of their number: the oldest packets stay, as many as there is room for.
pub proof fn law_resizing_keeps_the_oldest(slots: SlotsModel, capacity: nat, i: int)
    ensures
        slots.resize(capacity).free + slots.resize(capacity).pending.len() == capacity,
        0 <= i < slots.pending.len() && i < capacity ==> slots.resize(capacity).pending.len() > i
            && slots.resize(capacity).pending[i] == slots.pending[i],
        slots.pending.len() <= capacity ==> slots.resize(capacity).pending == slots.pending,
        slots.resize(capacity).pending.len() <= capacity,
{
    if slots.pending.len() == capacity {
        assert(slots.pending.take(capacity as int) =~= slots.pending);
    }
}

/// A client without paths is sent nothing, and neither is one that is not there.
pub proof fn law_absent_clients_get_nothing(
    model: DownlinkModel,
    key: nat,
    class: PacketClass,
    packet: Seq<u8>,
)
    requires
        model.lanes.len() == crate::server::downlink_queue::LANES,
    ensures
        key >= model.lanes.len() ==> model.enqueue(key, class, packet) == model,
        key < model.lanes.len() && model.lanes[key as int].active_paths == 0 ==> model.enqueue(
            key,
            class,
            packet,
        ) == model,
        key < model.lanes.len() && model.lanes[key as int].active_paths > 0 && model.lanes[
            key as int
        ].queue(class).free > 0 && packet.len() <= 1_600 ==> model.enqueue(
            key,
            class,
            packet,
        ).lanes[key as int].queue(class).pending == model.lanes[key as int].queue(
            class,
        ).pending.push(packet),
        key < model.lanes.len() ==> model.clear(key).lanes[key as int].queue(class).pending.len()
            == 0,
{
}

/// Every stage is told in its own place, and what was added between two looks is
/// what the later one tells beyond the earlier.
pub proof fn law_stages_are_told_apart(a: Snapshot, b: Snapshot)
    ensures
        a.delta_spec(b).dispatch == a.dispatch.delta_spec(b.dispatch),
        a.delta_spec(b).udp_rx == a.udp_rx.delta_spec(b.udp_rx),
        a.delta_spec(b).tun_rx == a.tun_rx.delta_spec(b.tun_rx),
        a.delta_spec(b).route_replay == a.route_replay.delta_spec(b.route_replay),
        a.delta_spec(b).tun_write == a.tun_write.delta_spec(b.tun_write),
        a.delta_spec(b).udp_queue == a.udp_queue.delta_spec(b.udp_queue),
        a.delta_spec(b).flush == a.flush.delta_spec(b.flush),
        a.delta_spec(b).bookkeeping == a.bookkeeping.delta_spec(b.bookkeeping),
        a.merge_spec(b).dispatch == b.dispatch.sum_spec(a.dispatch),
        a.merge_spec(b).flush == b.flush.sum_spec(a.flush),
        a.merge_spec(b) == b.merge_spec(a),
{
}

/// Counts are added and taken apart figure by figure.
pub proof fn law_counts_are_kept_apart(a: Counters, b: Counters)
    requires
        a.operations >= b.operations,
        a.bytes >= b.bytes,
        a.samples >= b.samples,
        a.sampled_ns >= b.sampled_ns,
        a.sampled_wall_ns >= b.sampled_wall_ns,
    ensures
        a.delta_spec(b).operations == a.operations - b.operations,
        a.delta_spec(b).bytes == a.bytes - b.bytes,
        a.delta_spec(b).samples == a.samples - b.samples,
        a.delta_spec(b).sampled_ns == a.sampled_ns - b.sampled_ns,
        a.delta_spec(b).sampled_wall_ns == a.sampled_wall_ns - b.sampled_wall_ns,
        b.sum_spec(a.delta_spec(b)) == a,
{
}

/// One operation in sixty-four is measured, and its time counts for its own stage
/// alone.
pub proof fn law_one_in_many_is_measured(
    model: ProfilerModel,
    stage: Stage,
    other: Stage,
    elapsed_ns: u64,
)
    requires
        model.wf(),
        model.enabled,
        stage != other,
        model.counters[stage.place()].sampled_ns + elapsed_ns <= u64::MAX,
    ensures
        model.sampled(stage) <==> model.cursors[stage.place()] % 64 == 0,
        model.finish(stage, elapsed_ns).counters[stage.place()].sampled_ns == model.counters[
            stage.place()
        ].sampled_ns + elapsed_ns,
        model.finish(stage, elapsed_ns).counters[other.place()] == model.counters[other.place()],
        model.finish(stage, elapsed_ns).counters[stage.place()].operations == model.counters[
            stage.place()
        ].operations,
{
}

/// So many ticks as there are in a second are a second, and twice as many are two.
pub proof fn law_ticks_are_seconds(seconds: u64, ticks_per_second: i64)
    requires
        0 < ticks_per_second,
        seconds * 1_000_000_000 <= u64::MAX,
        seconds * ticks_per_second <= u64::MAX,
    ensures
        ticks_spec((seconds * ticks_per_second) as u64, ticks_per_second) == seconds
            * 1_000_000_000,
{
    let s = seconds as int;
    let t = ticks_per_second as int;
    let n = s * t;
    assert(0 <= n) by (nonlinear_arith)
        requires
            0 <= s,
            0 < t,
            n == s * t,
    ;
    assert(n * 1_000_000_000 == t * (s * 1_000_000_000)) by (nonlinear_arith)
        requires
            n == s * t,
    ;
    vstd::arithmetic::div_mod::lemma_div_multiples_vanish(s * 1_000_000_000, t);
    assert(t * (s * 1_000_000_000) == (s * 1_000_000_000) * t) by (nonlinear_arith);
}

} // verus!
