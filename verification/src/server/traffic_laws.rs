//! Where packets go, who owns them, and what is counted of them.

use vstd::prelude::*;
use crate::net::{IpAddress, SocketAddress};
use crate::server::io_counters::{mode_spec, unavailable_spec, IoCounters, UdpDatagramMode};
use crate::server::packet::{destination_spec, PacketBuf, PoolModel};
use crate::server::packet_sink::{Outgoing, Returned, Route, SinkModel};
use crate::server::router::{in_tunnel, EndpointRoute, RouterCommand, RouterModel};
use crate::server::tx_queue::TxModel;
use crate::shared::striped_scheduler::PacketClass;
use crate::text::trimmed;

verus! {

// ---------------------------------------------------------------------------
// Owners
// ---------------------------------------------------------------------------

/// An endpoint belongs to the worker that claimed it last, and to the first one
/// where none did; a claim changes no other owner, and is taken once.
pub proof fn law_last_claim_counts<C>(
    router: RouterModel<C>,
    endpoint: EndpointRoute,
    shard: usize,
    other: EndpointRoute,
)
    requires
        router.pending.len() > 0,
        router.pending[0] == (RouterCommand::<C>::BindEndpoint { endpoint, shard }),
    ensures
        router.next().0.endpoint_shard(endpoint) == shard,
        other != endpoint ==> router.next().0.endpoint_shard(other) == router.endpoint_shard(other),
        router.next().0.tunnels == router.tunnels,
        router.next().0.pending == router.pending.skip(1),
        !router.endpoints.dom().contains(other) ==> router.endpoint_shard(other) == 0,
{
}

/// A packet of the tunnel goes by the last number of its destination, if that is in
/// the server's own network; a claim of one address changes no other.
pub proof fn law_tunnel_packets_go_by_address<C>(
    router: RouterModel<C>,
    last: u8,
    shard: usize,
    packet: Seq<u8>,
    ip: [u8; 4],
)
    requires
        router.pending.len() > 0,
        router.tunnels.len() == 256,
        ip@ == seq![10u8, 66, 67, last],
        router.pending[0] == (RouterCommand::<C>::BindTunnel { ip, shard }),
        packet.len() >= 20,
        0x40 <= packet[0] < 0x50,
    ensures
        packet[16] == 10 && packet[17] == 66 && packet[18] == 67 && packet[19] == last
            ==> router.next().0.tunnel_shard(packet) == shard,
        packet[19] != last ==> router.next().0.tunnel_shard(packet) == router.tunnel_shard(packet),
        packet[16] != 10 || packet[17] != 66 || packet[18] != 67 ==> router.tunnel_shard(packet)
            == 0,
        router.next().0.endpoints == router.endpoints,
{
    let to = packet.subrange(16, 20);
    assert(to[0] == packet[16] && to[1] == packet[17] && to[2] == packet[18] && to[3]
        == packet[19]);
    assert(ip@[3] == last);
}

/// A packet has a destination where it is one of the older kind and has a whole
/// header: the four bytes at its end.
pub proof fn law_destination_is_in_the_header(packet: Seq<u8>)
    ensures
        packet.len() >= 20 && 0x40 <= packet[0] < 0x50 ==> destination_spec(packet) == Some(
            seq![packet[16], packet[17], packet[18], packet[19]],
        ),
        packet.len() < 20 ==> destination_spec(packet) is None,
        packet.len() > 0 && (packet[0] < 0x40 || packet[0] >= 0x50) ==> destination_spec(
            packet,
        ) is None,
        in_tunnel(seq![10u8, 66, 67, 1]),
{
    if packet.len() >= 20 {
        assert(packet.subrange(16, 20) =~= seq![packet[16], packet[17], packet[18], packet[19]]);
    }
}

/// A migration to a worker that is not there is dropped and changes nothing.
pub proof fn law_migration_needs_a_worker<C>(
    router: RouterModel<C>,
    endpoint: EndpointRoute,
    shard: usize,
    command: C,
)
    requires
        router.pending.len() > 0,
        router.pending[0] == (RouterCommand::Migrate { endpoint, shard, command }),
        shard >= router.shards,
    ensures
        router.next().1 is Applied,
        router.next().0 == (RouterModel { pending: router.pending.skip(1), ..router }),
{
}

/// The source of a datagram is fixed where it is known and both ends are of the
/// older kind.
pub proof fn law_source_is_fixed_where_known(
    peer: SocketAddress,
    other: SocketAddress,
    ip: u32,
    new_ip: u128,
)
    requires
        peer.ip is V4,
        other.ip is V6,
    ensures
        ip != 0 ==> Route::spec_of(peer, Some(IpAddress::V4(ip))).source == Some(ip),
        Route::spec_of(peer, Some(IpAddress::V4(0))).source is None,
        Route::spec_of(peer, Some(IpAddress::V6(new_ip))).source is None,
        Route::spec_of(peer, None).source is None,
        Route::spec_of(other, Some(IpAddress::V4(ip))).source is None,
        Route::spec_of(peer, None).peer == peer,
{
}

// ---------------------------------------------------------------------------
// Queues
// ---------------------------------------------------------------------------

/// With a free slot a datagram waits behind those of its class, with its route, and
/// is neither dropped nor given back; without one it is dropped and counted, and
/// its buffer goes home.
pub proof fn law_datagrams_wait_or_are_counted(
    sink: SinkModel,
    packet: PacketBuf,
    home: Option<usize>,
    route: Route,
    class: PacketClass,
)
    requires
        sink.counters.udp_tx_drops < u64::MAX,
    ensures
        ({
            let r = sink.queue_udp(packet, home, route, class);
            &&& r.tun == sink.tun
            &&& sink.udp.free > 0 ==> {
                &&& r.udp.pending() == sink.udp.pending() + 1
                &&& r.udp.free == sink.udp.free - 1
                &&& r.udp.lane(class).last() == (Outgoing { packet, home, route: Some(route) })
                &&& r.pool == sink.pool
                &&& r.counters == sink.counters
                &&& r.returned == sink.returned
            }
            &&& sink.udp.free == 0 ==> {
                &&& r.udp == sink.udp
                &&& r.counters.udp_tx_drops == sink.counters.udp_tx_drops + 1
                &&& home is None ==> r.pool == sink.pool.release(packet@.bytes) && r.returned
                    == sink.returned
                &&& home is Some ==> r.pool == sink.pool && r.returned == sink.returned.push(
                    Returned { home: home->0, packet },
                )
            }
        }),
{
}

/// So it is with packets for the tunnel, which have no route.
pub proof fn law_tunnel_packets_wait_or_are_counted(
    sink: SinkModel,
    packet: PacketBuf,
    home: Option<usize>,
    class: PacketClass,
)
    requires
        sink.counters.tun_tx_drops < u64::MAX,
    ensures
        ({
            let r = sink.queue_tun(packet, home, class);
            &&& r.udp == sink.udp
            &&& sink.tun.free > 0 ==> {
                &&& r.tun.pending() == sink.tun.pending() + 1
                &&& r.tun.lane(class).last() == (Outgoing { packet, home, route: None })
                &&& r.pool == sink.pool
                &&& r.counters == sink.counters
            }
            &&& sink.tun.free == 0 ==> {
                &&& r.tun == sink.tun
                &&& r.counters.tun_tx_drops == sink.counters.tun_tx_drops + 1
                &&& home is None ==> r.pool == sink.pool.release(packet@.bytes)
                &&& home is Some ==> r.returned == sink.returned.push(
                    Returned { home: home->0, packet },
                )
            }
        }),
{
}

/// A packet that is done with frees its slot, and its buffer goes home; the others
/// wait on.
pub proof fn law_done_packets_free_their_slots(sink: SinkModel)
    ensures
        sink.udp.pending() > 0 ==> {
            let item = sink.udp.next()->0;
            &&& sink.udp_done().udp.pending() == sink.udp.pending() - 1
            &&& sink.udp_done().udp.free == sink.udp.free + 1
            &&& item.home is None ==> sink.udp_done().pool == sink.pool.release(
                item.packet@.bytes,
            )
            &&& item.home is Some ==> sink.udp_done().returned.last() == (Returned {
                home: item.home->0,
                packet: item.packet,
            })
        },
        sink.udp.pending() == 0 ==> sink.udp_done() == sink,
        sink.tun.pending() > 0 ==> {
            &&& sink.tun_done().tun.pending() == sink.tun.pending() - 1
            &&& sink.tun_done().tun.free == sink.tun.free + 1
        },
        sink.udp_done().tun == sink.tun,
        sink.tun_done().udp == sink.udp,
{
}

/// A second copy goes out only where it is wanted, more than 32 slots stay free for
/// others, and there is a buffer for it.
pub proof fn law_copies_leave_room(sink: SinkModel)
    ensures
        !sink.copies(false),
        sink.udp.free <= 32 ==> !sink.copies(true),
        sink.udp.free > 32 && sink.pool.acquire() is Some ==> sink.copies(true),
        sink.pool.acquire() is None ==> !sink.copies(true),
{
}

/// Small packets leave before medium ones, and those before large ones; in a class
/// the oldest leaves first.
pub proof fn law_urgent_datagrams_leave_first<T>(queue: TxModel<T>, limit: nat)
    ensures
        queue.latency.len() > 0 ==> queue.next() == Some(queue.latency[0]),
        queue.latency.len() == 0 && queue.priority.len() > 0 ==> queue.next() == Some(
            queue.priority[0],
        ),
        queue.latency.len() == 0 && queue.priority.len() == 0 && queue.bulk.len() > 0
            ==> queue.next() == Some(queue.bulk[0]),
        queue.latency.len() > 0 ==> queue.pop().latency == queue.latency.skip(1),
        queue.batch_len(limit) <= limit,
        queue.latency.len() > 0 ==> queue.batch_len(limit) <= queue.latency.len(),
        queue.pending() > 0 && limit > 0 ==> queue.batch_len(limit) > 0,
{
}

/// A buffer is given out while there is one, the one that came back first before
/// a new one; what comes back is kept, up to 256 of them.
pub proof fn law_buffers_are_used_again(pool: PoolModel, bytes: Seq<u8>)
    requires
        pool.wf(),
        bytes.len() == 1600,
        pool.out() > 0,
    ensures
        pool.acquire() is None <==> pool.idle.len() == 0 && pool.allocated == pool.capacity,
        pool.acquire() matches Some((left, given)) ==> {
            &&& pool.idle.len() > 0 ==> given == pool.idle[0] && left.allocated == pool.allocated
            &&& pool.idle.len() == 0 ==> left.allocated == pool.allocated + 1
            &&& left.out() == pool.out() + 1
        },
        pool.idle.len() < 256 && pool.idle.len() < pool.capacity ==> pool.release(bytes).idle
            == pool.idle.push(bytes),
        pool.idle.len() >= 256 ==> pool.release(bytes).idle == pool.idle,
        pool.release(bytes).out() == pool.out() - 1,
        pool.release(bytes).acquire() is Some,
{
}

// ---------------------------------------------------------------------------
// Counters
// ---------------------------------------------------------------------------

/// Every event is counted once, in its own counters and in no other.
pub proof fn law_events_are_counted_once(c: IoCounters, length: u64, batch: u64)
    requires
        c.udp_tx_packets < u64::MAX,
        c.udp_tx_bytes + length <= u64::MAX,
        c.udp_rx_packets < u64::MAX,
        c.udp_rx_bytes + length <= u64::MAX,
        c.tun_tx_packets < u64::MAX,
        c.tun_tx_bytes + length <= u64::MAX,
        c.tun_rx_packets < u64::MAX,
        c.tun_rx_bytes + length <= u64::MAX,
        c.udp_tx_errors < u64::MAX,
        c.udp_tx_drops < u64::MAX,
        c.udp_rx_errors < u64::MAX,
        c.tun_tx_errors < u64::MAX,
        c.tun_tx_drops < u64::MAX,
        c.tun_rx_errors < u64::MAX,
        c.udp_tx_eagain < u64::MAX,
        c.udp_tx_enobufs < u64::MAX,
        c.udp_rx_eagain < u64::MAX,
        c.udp_rx_enobufs < u64::MAX,
        c.readiness_wakeups < u64::MAX,
        c.udp_datagram_mode_switches < u64::MAX,
        c.udp_recv_syscalls < u64::MAX,
        c.udp_send_syscalls < u64::MAX,
    ensures
        c.udp_sent(length as nat) == (IoCounters {
            udp_tx_packets: (c.udp_tx_packets + 1) as u64,
            udp_tx_bytes: (c.udp_tx_bytes + length) as u64,
            ..c
        }),
        c.udp_received(length as nat) == (IoCounters {
            udp_rx_packets: (c.udp_rx_packets + 1) as u64,
            udp_rx_bytes: (c.udp_rx_bytes + length) as u64,
            ..c
        }),
        c.tun_sent(length as nat) == (IoCounters {
            tun_tx_packets: (c.tun_tx_packets + 1) as u64,
            tun_tx_bytes: (c.tun_tx_bytes + length) as u64,
            ..c
        }),
        c.tun_received(length as nat) == (IoCounters {
            tun_rx_packets: (c.tun_rx_packets + 1) as u64,
            tun_rx_bytes: (c.tun_rx_bytes + length) as u64,
            ..c
        }),
        c.udp_send_failed() == (IoCounters {
            udp_tx_errors: (c.udp_tx_errors + 1) as u64,
            udp_tx_drops: (c.udp_tx_drops + 1) as u64,
            ..c
        }),
        c.tun_send_failed() == (IoCounters {
            tun_tx_errors: (c.tun_tx_errors + 1) as u64,
            tun_tx_drops: (c.tun_tx_drops + 1) as u64,
            ..c
        }),
        c.udp_dropped() == (IoCounters { udp_tx_drops: (c.udp_tx_drops + 1) as u64, ..c }),
        c.tun_dropped() == (IoCounters { tun_tx_drops: (c.tun_tx_drops + 1) as u64, ..c }),
        c.udp_receive_failed() == (IoCounters { udp_rx_errors: (c.udp_rx_errors + 1) as u64, ..c }),
        c.tun_receive_failed() == (IoCounters { tun_rx_errors: (c.tun_rx_errors + 1) as u64, ..c }),
        c.udp_send_blocked() == (IoCounters { udp_tx_eagain: (c.udp_tx_eagain + 1) as u64, ..c }),
        c.udp_send_starved() == (IoCounters { udp_tx_enobufs: (c.udp_tx_enobufs + 1) as u64, ..c }),
        c.udp_receive_blocked() == (IoCounters { udp_rx_eagain: (c.udp_rx_eagain + 1) as u64, ..c }),
        c.udp_receive_starved() == (IoCounters {
            udp_rx_errors: (c.udp_rx_errors + 1) as u64,
            udp_rx_enobufs: (c.udp_rx_enobufs + 1) as u64,
            ..c
        }),
        c.woken() == (IoCounters { readiness_wakeups: (c.readiness_wakeups + 1) as u64, ..c }),
        c.switched() == (IoCounters {
            udp_datagram_mode: UdpDatagramMode::Compat,
            udp_datagram_mode_switches: (c.udp_datagram_mode_switches + 1) as u64,
            ..c
        }),
        c.batch_received(batch as nat).udp_recv_syscalls == c.udp_recv_syscalls + 1,
        c.batch_received(batch as nat).udp_recv_batch_max >= batch,
        c.batch_received(batch as nat).udp_recv_batch_max >= c.udp_recv_batch_max,
        c.batch_received(batch as nat).udp_recv_batch_max == batch || c.batch_received(
            batch as nat,
        ).udp_recv_batch_max == c.udp_recv_batch_max,
        c.batch_sent(false) == (IoCounters {
            udp_send_syscalls: (c.udp_send_syscalls + 1) as u64,
            ..c
        }),
        c.partial_sendmmsg < u64::MAX ==> c.batch_sent(true).partial_sendmmsg == c.partial_sendmmsg
            + 1,
{
}

/// One setting asks for datagrams one by one; nothing, and two other words, ask for
/// batches, and what is none of these is told to be wrong.
pub proof fn law_modes_are_asked_for(text: Seq<char>)
    ensures
        mode_spec(None) == (UdpDatagramMode::Batch, false),
        trimmed(text) == "compat"@ ==> mode_spec(Some(text)) == (UdpDatagramMode::Compat, false),
        trimmed(text) == "auto"@ || trimmed(text) == "batch"@ || trimmed(text).len() == 0
            ==> mode_spec(Some(text)) == (UdpDatagramMode::Batch, false),
        trimmed(text) != "compat"@ && trimmed(text) != "auto"@ && trimmed(text) != "batch"@
            && trimmed(text).len() > 0 ==> mode_spec(Some(text)) == (UdpDatagramMode::Batch, true),
{
    reveal_strlit("compat");
    reveal_strlit("auto");
    reveal_strlit("batch");
}

/// Batches are given up where the system does not know them, does not permit or
/// support them, or finds them invalid; a full queue is no reason.
pub proof fn law_batches_are_given_up(code: i32)
    ensures
        unavailable_spec(Some(38i32)) && unavailable_spec(Some(1i32)) && unavailable_spec(
            Some(13i32),
        ) && unavailable_spec(Some(95i32)) && unavailable_spec(Some(22i32)),
        !unavailable_spec(Some(11i32)) && !unavailable_spec(Some(105i32)),
        !unavailable_spec(None),
        unavailable_spec(Some(code)) ==> code == 1 || code == 13 || code == 22 || code == 38
            || code == 95,
{
}

} // verus!
