//! What comes in and goes out, and how the proxy is watched.

use vstd::prelude::*;
use crate::net::{IpAddress, SocketAddress};
use crate::server::packet_sink::TunWrite;
use crate::server::pktinfo::destination_spec;
use crate::server::proxy_monitor::{pause_spec, ProxyAction, ProxyMonitor, RouteState};
use crate::server::tokio_io::{
    is_tun_create_retryable, tun_create_delay, IoFailure, IoModel, RecvOutcome, RecvStep, RxOutcome,
    SendOutcome, TunRead, TunStep,
};

verus! {

/// Datagrams that could not be sent for good are dropped one by one and counted;
/// what may pass is tried later.
pub proof fn law_hopeless_datagrams_are_dropped(io: IoModel, batch: nat, failure: IoFailure)
    requires
        io.sink.udp.pending() > 0,
        !failure.would_block,
        failure.code != Some(105i32),
        io.mode is Compat,
        io.sink.counters.udp_tx_errors < u64::MAX,
        io.sink.counters.udp_tx_drops < u64::MAX,
    ensures
        ({
            let r = io.flushed(batch, SendOutcome::Failed(failure));
            &&& r.1
            &&& r.0.sink.udp.pending() == io.sink.udp.pending() - 1
            &&& r.0.sink.counters.udp_tx_errors == io.sink.counters.udp_tx_errors + 1
            &&& r.0.sink.counters.udp_tx_drops == io.sink.counters.udp_tx_drops + 1
            &&& r.0.mode == io.mode
        }),
{
}

/// Sending goes on after success, and pauses where the system has no room.
pub proof fn law_sending_pauses_without_room(
    io: IoModel,
    batch: nat,
    failure: IoFailure,
    none: Vec<usize>,
)
    requires
        none@.len() == 0,
    ensures
        failure.code == Some(105i32) ==> !io.flushed(batch, SendOutcome::Failed(failure)).1,
        io.mode is Compat && failure.would_block ==> !io.flushed(
            batch,
            SendOutcome::Failed(failure),
        ).1,
        io.mode is Batch && failure.code == Some(38i32) ==> io.flushed(
            batch,
            SendOutcome::Failed(failure),
        ).1,
        !io.flushed(batch, SendOutcome::Sent(none)).1,
        io.mode is Compat ==> io.udp_batch() <= 1,
{
}

/// What was received is handled batch by batch until nothing is there; where the
/// system cannot do batches receiving is tried again one by one.
pub proof fn law_receiving_ends_when_drained(io: IoModel, batch: usize, failure: IoFailure)
    ensures
        batch > 0 ==> io.received(RecvOutcome::Got(batch)).1 == RecvStep::Done(
            RxOutcome::Batch(batch),
        ),
        io.received(RecvOutcome::Got(0)).1 == RecvStep::Done(RxOutcome::Drained),
        io.received(RecvOutcome::Got(0)).0 == io,
        io.mode is Batch && failure.code == Some(38i32) ==> io.received(
            RecvOutcome::Failed(failure),
        ).1 is Again && io.received(RecvOutcome::Failed(failure)).0.mode is Compat,
        io.mode is Compat ==> io.received(RecvOutcome::Failed(failure)).1 == RecvStep::Done(
            RxOutcome::Drained,
        ),
        io.received(RecvOutcome::Failed(failure)).0.sink.udp == io.sink.udp,
{
}

/// A datagram is taken in where it is whole, fits, and says where it came from; it
/// is counted with its length, and keeps the address that it came to.
pub proof fn law_whole_datagrams_are_taken_in(
    io: IoModel,
    length: nat,
    peer: SocketAddress,
    control: Seq<u8>,
)
    requires
        io.sink.counters.udp_rx_packets < u64::MAX,
        io.sink.counters.udp_rx_bytes + length <= u64::MAX,
        io.sink.counters.udp_rx_errors < u64::MAX,
    ensures
        length <= 1_600 ==> {
            let r = io.arrived(false, length, Some(peer), control);
            &&& r.1 is Some && r.1->0.peer == peer
            &&& r.1->0.local_ip == match destination_spec(control) {
                Some(ip) => Some(IpAddress::V4(ip)),
                None => None,
            }
            &&& r.0.sink.counters.udp_rx_packets == io.sink.counters.udp_rx_packets + 1
            &&& r.0.sink.counters.udp_rx_bytes == io.sink.counters.udp_rx_bytes + length
        },
        io.arrived(true, length, Some(peer), control).1 is None,
        io.arrived(true, length, Some(peer), control).0.sink.counters.udp_rx_errors
            == io.sink.counters.udp_rx_errors + 1,
        length > 1_600 ==> io.arrived(false, length, Some(peer), control).1 is None,
        io.arrived(false, length, None, control).1 is None,
{
}

/// The tunnel gives a packet, nothing, its end, or a failure; only the packet counts
/// as received.
pub proof fn law_tunnel_gives_packets(io: IoModel, length: usize)
    requires
        io.sink.counters.tun_rx_packets < u64::MAX,
        io.sink.counters.tun_rx_errors < u64::MAX,
    ensures
        0 < length <= 1_600 ==> io.tun_read(TunRead::Got(length)).1 is Packet && io.tun_read(
            TunRead::Got(length),
        ).0.sink.counters.tun_rx_packets == io.sink.counters.tun_rx_packets + 1,
        length > 1_600 ==> io.tun_read(TunRead::Got(length)).1 is Nothing && io.tun_read(
            TunRead::Got(length),
        ).0.sink.counters.tun_rx_errors == io.sink.counters.tun_rx_errors + 1,
        io.tun_read(TunRead::Got(0)).1 is EndOfFile,
        io.tun_read(TunRead::WouldBlock) == (io, TunStep::Nothing),
        io.tun_read(TunRead::Failed).1 is Failed,
{
}

/// A packet leaves for the tunnel when it is written or when that failed for good;
/// else it waits on. A failure is told to be fatal.
pub proof fn law_tunnel_takes_packets(io: IoModel)
    requires
        io.sink.tun.pending() > 0,
        io.sink.counters.tun_tx_packets < u64::MAX,
    ensures
        io.tun_flushed(TunWrite::WouldBlock) == (io, false),
        io.tun_flushed(TunWrite::Done).1,
        io.tun_flushed(TunWrite::Done).0.sink.tun.pending() == io.sink.tun.pending() - 1,
        io.tun_flushed(TunWrite::Done).0.sink.counters.tun_tx_packets
            == io.sink.counters.tun_tx_packets + 1,
        !io.tun_flushed(TunWrite::Failed).1,
        io.tun_flushed(TunWrite::Failed).0.sink.tun_fatal,
        io.tun_flushed(TunWrite::Failed).0.sink.tun.pending() == io.sink.tun.pending() - 1,
        io.tun_flushed(TunWrite::Failed).0.sink.udp == io.sink.udp,
{
}

/// The report tells what is free and pooled at the moment, and the counters as they
/// stand.
pub proof fn law_report_is_of_the_moment(io: IoModel)
    requires
        io.sink.udp.free <= u64::MAX,
        io.sink.tun.free <= u64::MAX,
        io.sink.pool.allocated <= u64::MAX,
        io.sink.pool.capacity <= u64::MAX,
    ensures
        io.snapshot().free_udp_tx_slots == io.sink.udp.free,
        io.snapshot().free_tun_tx_slots == io.sink.tun.free,
        io.snapshot().packet_pool_allocated == io.sink.pool.allocated,
        io.snapshot().packet_pool_capacity == io.sink.pool.capacity,
        io.snapshot().udp_datagram_mode == io.mode,
        io.snapshot().udp_rx_packets == io.sink.counters.udp_rx_packets,
        io.snapshot().udp_tx_packets == io.sink.counters.udp_tx_packets,
        io.snapshot().tun_rx_bytes == io.sink.counters.tun_rx_bytes,
        io.snapshot().tun_tx_bytes == io.sink.counters.tun_tx_bytes,
        io.snapshot().udp_tx_drops == io.sink.counters.udp_tx_drops,
{
}

/// Making the tunnel is tried again where the failure may pass, after rests that
/// grow by forty milliseconds.
pub proof fn law_tunnel_is_made_again(
    code: i32,
    again: bool,
    attempt: u64,
    rest: u64,
    next: u64,
    unknown: bool,
)
    requires
        attempt < 7,
        call_ensures(is_tun_create_retryable, (Some(code),), again),
        call_ensures(is_tun_create_retryable, (None,), unknown),
        call_ensures(tun_create_delay, (attempt,), rest),
        call_ensures(tun_create_delay, ((attempt + 1) as u64,), next),
    ensures
        again <==> code == 2 || code == 4 || code == 11 || code == 16 || code == 17 || code == 19
            || code == 98,
        !unknown,
        next == rest + 40,
        attempt == 0 ==> rest == 40,
{
}

/// Nothing is done through a proxy that is not wanted; a route of no use goes first,
/// and otherwise the port is looked at.
pub proof fn law_unwanted_route_goes(monitor: ProxyMonitor, route: RouteState)
    ensures
        monitor.observed(false, RouteState::Absent).1 == (ProxyAction::Disable {
            remove_route: false,
        }),
        monitor.observed(false, RouteState::Current).1 == (ProxyAction::Disable {
            remove_route: true,
        }),
        monitor.observed(false, RouteState::Stale).1 == (ProxyAction::Disable {
            remove_route: true,
        }),
        monitor.observed(false, route).0.wait_ms == 5_000,
        monitor.observed(false, route).0.port_failures == 0,
        monitor.observed(false, route).0.health_failures == 0,
        monitor.observed(true, RouteState::Stale).1 is RemoveStale,
        monitor.observed(true, RouteState::Absent).1 is CheckPort,
        monitor.observed(true, RouteState::Current).1 is CheckPort,
        monitor.observed(true, RouteState::Current).0 == monitor,
{
}

/// A port that listens is connected to, or probed where it already is; one that
/// fell silent under a route loses it at once.
pub proof fn law_port_decides_the_route(monitor: ProxyMonitor, port: u16)
    ensures
        monitor.checked(port, true, true) == (monitor, ProxyAction::Probe),
        monitor.checked(port, true, false).1 == ProxyAction::RemoveSilent(port),
        monitor.checked(port, true, false).0.port_failures == 1,
        monitor.checked(port, false, true).1 == ProxyAction::Connect(port),
        monitor.checked(port, false, true).0.port_failures == 0,
        monitor.checked(port, false, true).0.pause_round == 0,
        monitor.checked(port, false, false).1 == (ProxyAction::ReportSilent {
            port,
            first: monitor.port_failures == 0,
        }),
        monitor.port_failures < 4 ==> monitor.checked(port, false, false).0.port_failures
            == monitor.port_failures + 1,
        monitor.port_failures < 4 ==> monitor.checked(port, false, false).0.wait_ms == 3_000,
        monitor.port_failures == 4 ==> monitor.checked(port, false, false).0.wait_ms == pause_spec(
            monitor.pause_round,
        ),
        pause_spec(0) == 30_000,
        pause_spec(1) == 90_000,
        monitor.pause_round >= 2 ==> pause_spec(monitor.pause_round) == 120_000,
{
}

} // verus!
