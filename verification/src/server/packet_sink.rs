//! What the server has to send: datagrams for its peers and packets for the
//! tunnel, in buffers of a pool.

use vstd::prelude::*;
use crate::net::{IpAddress, SocketAddress};
use crate::server::io_counters::IoCounters;
use crate::server::packet::{
    PacketBuf, PacketModel, PacketPool, PacketPoolSnapshot, PoolModel, PACKET_CAPACITY, TUN_TX_SLOTS, UDP_TX_SLOTS,
};
use crate::server::tx_queue::{TxModel, TxQueue};
use crate::shared::striped_scheduler::PacketClass;

verus! {

/// Slots that copies of a datagram leave free.
pub const FEC_TX_SLOT_RESERVE: usize = 32;

/// Where a datagram goes, and the address that it leaves from.
#[derive(Clone, Copy, Debug, PartialEq, Eq, Structural)]
pub struct Route {
    pub peer: SocketAddress,
    pub source: Option<u32>,
}

impl Route {
    pub open spec fn spec_of(peer: SocketAddress, source_ip: Option<IpAddress>) -> Route {
        Route {
            peer,
            source: match (peer.ip, source_ip) {
                (IpAddress::V4(_), Some(IpAddress::V4(ip))) if ip != 0 => Some(ip),
                _ => None,
            },
        }
    }

    /// The source is fixed where both addresses are of the older kind and it is
    /// specified.
    pub fn of(peer: SocketAddress, source_ip: Option<IpAddress>) -> (r: Route)
        ensures
            r == Route::spec_of(peer, source_ip),
    {
        let source = match (peer.ip, source_ip) {
            (IpAddress::V4(_), Some(IpAddress::V4(ip))) => {
                if ip != 0 {
                    Some(ip)
                } else {
                    None
                }
            },
            _ => None,
        };
        Route { peer, source }
    }
}

/// A packet that waits to be sent. Its buffer belongs to the pool here, or to
/// that of a session worker.
pub struct Outgoing {
    pub packet: PacketBuf,
    pub home: Option<usize>,
    pub route: Option<Route>,
}

/// A buffer that goes back to a session worker.
pub struct Returned {
    pub home: usize,
    pub packet: PacketBuf,
}

/// What came of writing a packet to the tunnel.
#[derive(Clone, Copy, Debug, PartialEq, Eq, Structural)]
pub enum TunWrite {
    Done,
    WouldBlock,
    Failed,
}

/// How many of the packets are in buffers of the pool here.
pub open spec fn own(items: Seq<Outgoing>) -> nat
    decreases items.len(),
{
    if items.len() == 0 {
        0
    } else {
        own(items.drop_last()) + if items.last().home is None {
            1nat
        } else {
            0nat
        }
    }
}

pub open spec fn own_pending(queue: TxModel<Outgoing>) -> nat {
    own(queue.latency) + own(queue.priority) + own(queue.bulk)
}

proof fn lemma_own_push(items: Seq<Outgoing>, item: Outgoing)
    ensures
        own(items.push(item)) == own(items) + if item.home is None {
            1nat
        } else {
            0nat
        },
{
    assert(items.push(item).drop_last() =~= items);
}

proof fn lemma_own_skip(items: Seq<Outgoing>)
    requires
        items.len() > 0,
    ensures
        own(items) == own(items.skip(1)) + if items[0].home is None {
            1nat
        } else {
            0nat
        },
    decreases items.len(),
{
    if items.len() == 1 {
        assert(items.skip(1) =~= Seq::empty());
        assert(items.drop_last() =~= Seq::empty());
    } else {
        lemma_own_skip(items.drop_last());
        assert(items.drop_last().skip(1) =~= items.skip(1).drop_last());
    }
}

proof fn lemma_own_offer(queue: TxModel<Outgoing>, item: Outgoing, class: PacketClass)
    requires
        queue.free > 0,
    ensures
        own_pending(queue.offer(item, class)) == own_pending(queue) + if item.home is None {
            1nat
        } else {
            0nat
        },
{
    lemma_own_push(queue.lane(class), item);
}

proof fn lemma_own_pop(queue: TxModel<Outgoing>)
    requires
        queue.next() is Some,
    ensures
        own_pending(queue) == own_pending(queue.pop()) + if queue.next()->0.home is None {
            1nat
        } else {
            0nat
        },
{
    lemma_own_skip(queue.lane(queue.urgent()));
}

/// Every packet of a queue is whole.
pub open spec fn whole(items: Seq<Outgoing>) -> bool {
    forall|i: int| 0 <= i < items.len() ==> (#[trigger] items[i]).packet.wf()
}

pub open spec fn all_whole(queue: TxModel<Outgoing>) -> bool {
    whole(queue.latency) && whole(queue.priority) && whole(queue.bulk)
}

proof fn lemma_whole_pop(queue: TxModel<Outgoing>)
    requires
        all_whole(queue),
        queue.next() is Some,
    ensures
        all_whole(queue.pop()),
        queue.next()->0.packet.wf(),
{
    let lane = queue.lane(queue.urgent());
    assert forall|i: int| 0 <= i < lane.skip(1).len() implies (#[trigger] lane.skip(
        1,
    )[i]).packet.wf() by {
        assert(lane.skip(1)[i] == lane[i + 1]);
    }
}

#[verifier::ext_equal]
pub struct SinkModel {
    pub pool: PoolModel,
    pub udp: TxModel<Outgoing>,
    pub tun: TxModel<Outgoing>,
    pub counters: IoCounters,
    pub tun_fatal: bool,
    pub urgent: bool,
    pub returned: Seq<Returned>,
}

impl SinkModel {
    /// The buffers of the pool that are out and wait nowhere here.
    pub open spec fn spare(self) -> int {
        self.pool.out() - own_pending(self.udp) - own_pending(self.tun)
    }

    pub open spec fn wf(self) -> bool {
        &&& self.pool.wf()
        &&& self.spare() >= 0
        &&& all_whole(self.udp)
        &&& all_whole(self.tun)
    }

    /// A packet is done with: its buffer goes where it belongs.
    pub open spec fn discard(self, packet: PacketBuf, home: Option<usize>) -> SinkModel {
        match home {
            None => SinkModel { pool: self.pool.release(packet@.bytes), ..self },
            Some(home) => SinkModel {
                returned: self.returned.push(Returned { home, packet }),
                ..self
            },
        }
    }

    pub open spec fn udp_dropped(self) -> SinkModel {
        SinkModel { counters: self.counters.udp_dropped(), ..self }
    }

    pub open spec fn tun_dropped(self) -> SinkModel {
        SinkModel { counters: self.counters.tun_dropped(), ..self }
    }

    /// A datagram is queued, or dropped where no slot is free.
    pub open spec fn queue_udp(
        self,
        packet: PacketBuf,
        home: Option<usize>,
        route: Route,
        class: PacketClass,
    ) -> SinkModel {
        if self.udp.free == 0 {
            self.discard(packet, home).udp_dropped()
        } else {
            SinkModel {
                udp: self.udp.offer(Outgoing { packet, home, route: Some(route) }, class),
                ..self
            }
        }
    }

    pub open spec fn queue_tun(
        self,
        packet: PacketBuf,
        home: Option<usize>,
        class: PacketClass,
    ) -> SinkModel {
        if self.tun.free == 0 {
            self.discard(packet, home).tun_dropped()
        } else {
            SinkModel {
                tun: self.tun.offer(Outgoing { packet, home, route: None }, class),
                ..self
            }
        }
    }

    /// Whether a second copy of a datagram may go out, after the first took its
    /// slot.
    pub open spec fn copies(self, duplicate: bool) -> bool {
        duplicate && self.udp.free > FEC_TX_SLOT_RESERVE && self.pool.acquire() is Some
    }

    /// The next datagram is done with.
    pub open spec fn udp_done(self) -> SinkModel {
        match self.udp.next() {
            Some(item) => SinkModel { udp: self.udp.pop(), ..self }.discard(
                item.packet,
                item.home,
            ),
            None => self,
        }
    }

    /// The next packet for the tunnel is done with.
    pub open spec fn tun_done(self) -> SinkModel {
        match self.tun.next() {
            Some(item) => SinkModel { tun: self.tun.pop(), ..self }.discard(
                item.packet,
                item.home,
            ),
            None => self,
        }
    }

    pub open spec fn counting(self, counters: IoCounters) -> SinkModel {
        SinkModel { counters, ..self }
    }

    pub open spec fn tun_written(self, length: nat) -> SinkModel {
        SinkModel { counters: self.counters.tun_sent(length), ..self }
    }

    pub open spec fn tun_failed(self) -> SinkModel {
        SinkModel { counters: self.counters.tun_send_failed(), tun_fatal: true, ..self }
    }
}

/// The packets that wait to be sent, and the pool of their buffers.
pub struct PacketSink {
    pool: PacketPool,
    udp: TxQueue<Outgoing>,
    tun: TxQueue<Outgoing>,
    counters: IoCounters,
    tun_fatal: bool,
    urgent: bool,
    returned: Vec<Returned>,
}

impl View for PacketSink {
    type V = SinkModel;

    closed spec fn view(&self) -> SinkModel {
        SinkModel {
            pool: self.pool@,
            udp: self.udp@,
            tun: self.tun@,
            counters: self.counters,
            tun_fatal: self.tun_fatal,
            urgent: self.urgent,
            returned: self.returned@,
        }
    }
}

impl PacketSink {
    /// No buffer of the pool is lost: those that are out wait here or are in the
    /// hands of the caller.
    pub closed spec fn wf(&self) -> bool {
        &&& self.pool.wf()
        &&& self.udp.wf()
        &&& self.tun.wf()
        &&& self@.wf()
    }

    pub proof fn lemma_model_wf(&self)
        requires
            self.wf(),
        ensures
            self@.wf(),
    {
    }

    pub fn new(counters: IoCounters) -> (r: PacketSink)
        ensures
            r.wf(),
            r@.pool.capacity == UDP_TX_SLOTS + TUN_TX_SLOTS,
            r@.pool.allocated == 0,
            r@.udp.free == UDP_TX_SLOTS,
            r@.udp.pending() == 0,
            r@.tun.free == TUN_TX_SLOTS,
            r@.tun.pending() == 0,
            r@.counters == counters,
            !r@.tun_fatal,
            !r@.urgent,
            r@.returned.len() == 0,
    {
        let r = PacketSink {
            pool: PacketPool::new(crate::server::packet::packet_pool_size()),
            udp: TxQueue::new(UDP_TX_SLOTS),
            tun: TxQueue::new(TUN_TX_SLOTS),
            counters,
            tun_fatal: false,
            urgent: false,
            returned: Vec::new(),
        };
        proof {
            r.pool.lemma_model_wf();
        }
        r
    }

    pub fn has_udp_tx_slot(&self) -> (r: bool)
        ensures
            r == (self@.udp.free > 0),
    {
        self.udp.has_free()
    }

    fn discard(&mut self, packet: PacketBuf, home: Option<usize>)
        requires
            old(self).wf(),
            home is None ==> old(self)@.spare() > 0,
        ensures
            final(self).wf(),
            final(self)@ == old(self)@.discard(packet, home),
    {
        let ghost before = self@;
        match home {
            None => {
                self.pool.release(packet);
                proof {
                    self.pool.lemma_model_wf();
                }
            },
            Some(home) => {
                self.returned.push(Returned { home, packet });
            },
        }
        assert(self@ =~= before.discard(packet, home));
    }

    /// A buffer to build a datagram in, if there is a slot for it as well.
    pub fn reserve_udp(&mut self) -> (r: Option<PacketBuf>)
        requires
            old(self).wf(),
        ensures
            final(self).wf(),
            match r {
                Some(packet) => {
                    &&& old(self)@.udp.free > 0
                    &&& old(self)@.pool.acquire() == Some((final(self)@.pool, packet@.bytes))
                    &&& final(self)@ == (SinkModel { pool: final(self)@.pool, ..old(self)@ })
                    &&& final(self)@.spare() == old(self)@.spare() + 1
                    &&& packet.wf()
                    &&& packet@.len == 0
                },
                None => {
                    &&& old(self)@.udp.free == 0 || old(self)@.pool.acquire() is None
                    &&& final(self)@ == old(self)@.udp_dropped()
                },
            },
    {
        let ghost before = self@;
        if !self.udp.has_free() {
            self.counters.drop_udp();
            assert(self@ =~= before.udp_dropped());
            return None;
        }
        match self.pool.try_acquire() {
            Some(packet) => {
                proof {
                    self.pool.lemma_model_wf();
                    crate::server::packet::law_pool_recovers(before.pool, packet@.bytes);
                }
                Some(packet)
            },
            None => {
                self.counters.drop_udp();
                assert(self@ =~= before.udp_dropped());
                None
            },
        }
    }

    fn offer_udp(&mut self, packet: PacketBuf, home: Option<usize>, route: Route, class: PacketClass)
        requires
            old(self).wf(),
            old(self)@.udp.free > 0,
            packet.wf(),
            home is None ==> old(self)@.spare() > 0,
        ensures
            final(self).wf(),
            final(self)@ == old(self)@.queue_udp(packet, home, route, class),
            final(self)@.spare() == old(self)@.spare() - if home is None {
                1int
            } else {
                0int
            },
    {
        let ghost before = self@;
        let item = Outgoing { packet, home, route: Some(route) };
        proof {
            lemma_own_offer(self.udp@, item, class);
        }
        let _ = self.udp.offer(item, class);
        assert(self@ =~= before.queue_udp(packet, home, route, class));
    }

    /// Queues a datagram that was built in a reserved buffer, and a copy of it
    /// where one is wanted and enough slots stay free. Where it was not built it
    /// is dropped.
    pub fn send_udp_with_duplicate_priority(
        &mut self,
        peer: SocketAddress,
        source_ip: Option<IpAddress>,
        duplicate: bool,
        class: PacketClass,
        packet: PacketBuf,
        built: bool,
    ) -> (r: bool)
        requires
            old(self).wf(),
            old(self)@.spare() > 0,
            packet.wf(),
        ensures
            final(self).wf(),
            r == (built && old(self)@.udp.free > 0),
            !r ==> final(self)@ == old(self)@.discard(packet, None).udp_dropped(),
            r ==> {
                let route = Route::spec_of(peer, source_ip);
                let sent = old(self)@.queue_udp(packet, None, route, class);
                if sent.copies(duplicate) {
                    let (pool, bytes) = sent.pool.acquire()->0;
                    exists|copy: PacketBuf|
                        {
                            &&& copy@ == (PacketModel { bytes, len: 0 }).copy_from(packet@.data())
                            &&& final(self)@ == #[trigger] (SinkModel { pool, ..sent }).queue_udp(
                                copy,
                                None,
                                route,
                                class,
                            )
                        }
                } else {
                    final(self)@ == sent
                }
            },
    {
        let ghost before = self@;
        if !built || !self.udp.has_free() {
            self.discard(packet, None);
            self.counters.drop_udp();
            assert(self@ =~= before.discard(packet, None).udp_dropped());
            return false;
        }
        let route = Route::of(peer, source_ip);
        let ghost sent = before.queue_udp(packet, None, route, class);
        let wanted = duplicate && self.udp.free_len() - 1 > FEC_TX_SLOT_RESERVE;
        if !wanted {
            self.offer_udp(packet, None, route, class);
            return true;
        }
        match self.pool.try_acquire() {
            None => {
                assert(self@ =~= before);
                self.offer_udp(packet, None, route, class);
                assert(sent.pool == before.pool);
                true
            },
            Some(copy) => {
                let ghost (pool, bytes) = before.pool.acquire()->0;
                let ghost fresh = copy@;
                proof {
                    self.pool.lemma_model_wf();
                    crate::server::packet::law_pool_recovers(before.pool, bytes);
                }
                assert(self@ =~= (SinkModel { pool, ..before }));
                let mut copy = copy;
                let _ = copy.copy_from(packet.as_slice());
                self.offer_udp(packet, None, route, class);
                assert(self@ =~= (SinkModel { pool, ..sent }));
                self.offer_udp(copy, None, route, class);
                assert(fresh =~= (PacketModel { bytes, len: 0 }));
                assert(copy@ == (PacketModel { bytes, len: 0 }).copy_from(packet@.data()));
                assert(self@ == (SinkModel { pool, ..sent }).queue_udp(copy, None, route, class));
                true
            },
        }
    }

    /// The datagrams that wait.
    pub fn udp_queue(&self) -> (r: &TxQueue<Outgoing>)
        requires
            self.wf(),
        ensures
            r.wf(),
            r@ == self@.udp,
    {
        &self.udp
    }

    /// The packets that wait for the tunnel.
    pub fn tun_queue(&self) -> (r: &TxQueue<Outgoing>)
        requires
            self.wf(),
        ensures
            r.wf(),
            r@ == self@.tun,
    {
        &self.tun
    }

    pub fn counters(&self) -> (r: IoCounters)
        ensures
            r == self@.counters,
    {
        self.counters
    }

    /// The counters, for counting.
    pub fn count(&mut self) -> (r: &mut IoCounters)
        requires
            old(self).wf(),
        ensures
            *r == old(self)@.counters,
            final(self).wf(),
            final(self)@ == old(self)@.counting(*final(r)),
    {
        &mut self.counters
    }

    pub fn pool_snapshot(&self) -> (r: PacketPoolSnapshot)
        requires
            self.wf(),
        ensures
            r.capacity == self@.pool.capacity,
            r.allocated == self@.pool.allocated,
            r.retained == self@.pool.idle.len(),
    {
        self.pool.snapshot()
    }

    /// Whether a flush was asked for, which is then taken as heard.
    pub fn take_urgent(&mut self) -> (r: bool)
        requires
            old(self).wf(),
        ensures
            final(self).wf(),
            r == old(self)@.urgent,
            final(self)@ == (SinkModel { urgent: false, ..old(self)@ }),
    {
        let r = self.urgent;
        self.urgent = false;
        r
    }

    /// Whether the tunnel failed, which is then taken as heard.
    pub fn take_tun_fatal(&mut self) -> (r: bool)
        requires
            old(self).wf(),
        ensures
            final(self).wf(),
            r == old(self)@.tun_fatal,
            final(self)@ == (SinkModel { tun_fatal: false, ..old(self)@ }),
    {
        let r = self.tun_fatal;
        self.tun_fatal = false;
        r
    }

    /// The buffers that go back to the session workers.
    pub fn take_returned(&mut self) -> (r: Vec<Returned>)
        requires
            old(self).wf(),
        ensures
            final(self).wf(),
            r@ == old(self)@.returned,
            final(self)@ == (SinkModel { returned: Seq::empty(), ..old(self)@ }),
    {
        let ghost before = self@;
        let mut r: Vec<Returned> = Vec::new();
        std::mem::swap(&mut r, &mut self.returned);
        assert(self@ =~= (SinkModel { returned: Seq::empty(), ..before }));
        r
    }

    /// The tunnel failed for good.
    pub fn fail_tun(&mut self)
        requires
            old(self).wf(),
        ensures
            final(self).wf(),
            final(self)@ == old(self)@.tun_failed(),
    {
        let ghost before = self@;
        self.counters.fail_tun_send();
        self.tun_fatal = true;
        assert(self@ =~= before.tun_failed());
    }

    /// Takes the next datagram out, sent or not.
    pub fn finish_udp(&mut self) -> (r: bool)
        requires
            old(self).wf(),
        ensures
            final(self).wf(),
            r == (old(self)@.udp.next() is Some),
            final(self)@ == old(self)@.udp_done(),
    {
        let ghost before = self@;
        match self.udp.pop() {
            Some(item) => {
                proof {
                    lemma_own_pop(before.udp);
                    lemma_whole_pop(before.udp);
                }
                assert(self@ =~= (SinkModel { udp: before.udp.pop(), ..before }));
                self.discard(item.packet, item.home);
                true
            },
            None => {
                assert(self@ =~= before);
                false
            },
        }
    }

    /// Takes the next packet for the tunnel out, written or not.
    pub fn finish_tun(&mut self) -> (r: bool)
        requires
            old(self).wf(),
        ensures
            final(self).wf(),
            r == (old(self)@.tun.next() is Some),
            final(self)@ == old(self)@.tun_done(),
    {
        let ghost before = self@;
        match self.tun.pop() {
            Some(item) => {
                proof {
                    lemma_own_pop(before.tun);
                    lemma_whole_pop(before.tun);
                }
                assert(self@ =~= (SinkModel { tun: before.tun.pop(), ..before }));
                self.discard(item.packet, item.home);
                true
            },
            None => {
                assert(self@ =~= before);
                false
            },
        }
    }

    /// Has the datagrams that wait sent at once.
    pub fn request_udp_flush(&mut self)
        requires
            old(self).wf(),
        ensures
            final(self).wf(),
            final(self)@ == (SinkModel { urgent: true, ..old(self)@ }),
    {
        self.urgent = true;
    }

    /// Whether the tunnel is written to directly: nothing waits for it.
    pub fn tun_is_idle(&self) -> (r: bool)
        requires
            self.wf(),
        ensures
            r == (self@.tun.pending() == 0),
    {
        self.tun.pending_len() == 0
    }

    fn offer_tun(&mut self, packet: PacketBuf, home: Option<usize>, class: PacketClass)
        requires
            old(self).wf(),
            old(self)@.tun.free > 0,
            packet.wf(),
            home is None ==> old(self)@.spare() > 0,
        ensures
            final(self).wf(),
            final(self)@ == old(self)@.queue_tun(packet, home, class),
    {
        let ghost before = self@;
        let item = Outgoing { packet, home, route: None };
        proof {
            lemma_own_offer(self.tun@, item, class);
        }
        let _ = self.tun.offer(item, class);
        assert(self@ =~= before.queue_tun(packet, home, class));
    }

    /// Sends a packet to the tunnel. Where nothing waits for it the packet was
    /// written already, with the outcome given; it is queued where that would
    /// have blocked, or something waits.
    pub fn write_tun_priority(
        &mut self,
        payload: &[u8],
        class: PacketClass,
        written: Option<TunWrite>,
    ) -> (r: bool)
        requires
            old(self).wf(),
            written is Some <==> old(self)@.tun.pending() == 0,
        ensures
            final(self).wf(),
            match written {
                Some(TunWrite::Done) => {
                    &&& r
                    &&& final(self)@ == old(self)@.tun_written(payload@.len())
                },
                Some(TunWrite::Failed) => !r && final(self)@ == old(self)@.tun_failed(),
                _ => if old(self)@.tun.free == 0 || old(self)@.pool.acquire() is None {
                    !r && final(self)@ == old(self)@.tun_dropped()
                } else {
                    let (pool, bytes) = old(self)@.pool.acquire()->0;
                    let taken = SinkModel { pool, ..old(self)@ };
                    if payload@.len() > PACKET_CAPACITY {
                        &&& !r
                        &&& final(self)@ == (SinkModel {
                            pool: pool.release(bytes),
                            ..old(self)@
                        }).tun_dropped()
                    } else {
                        &&& r
                        &&& exists|packet: PacketBuf|
                            {
                                &&& packet@ == (PacketModel { bytes, len: 0 }).copy_from(payload@)
                                &&& final(self)@ == #[trigger] taken.queue_tun(packet, None, class)
                            }
                    }
                },
            },
    {
        let ghost before = self@;
        match written {
            Some(TunWrite::Done) => {
                self.counters.send_tun(payload.len());
                assert(self@ =~= before.tun_written(payload@.len()));
                return true;
            },
            Some(TunWrite::Failed) => {
                self.counters.fail_tun_send();
                self.tun_fatal = true;
                assert(self@ =~= before.tun_failed());
                return false;
            },
            _ => {},
        }
        if !self.tun.has_free() {
            self.counters.drop_tun();
            assert(self@ =~= before.tun_dropped());
            return false;
        }
        match self.pool.try_acquire() {
            None => {
                self.counters.drop_tun();
                assert(self@ =~= before.tun_dropped());
                false
            },
            Some(packet) => {
                let ghost (pool, bytes) = before.pool.acquire()->0;
                proof {
                    self.pool.lemma_model_wf();
                    crate::server::packet::law_pool_recovers(before.pool, bytes);
                }
                let ghost taken = SinkModel { pool, ..before };
                assert(self@ =~= taken);
                let mut packet = packet;
                assert(packet@ =~= (PacketModel { bytes, len: 0 }));
                if !packet.copy_from(payload) {
                    self.discard(packet, None);
                    self.counters.drop_tun();
                    assert(self@ =~= (SinkModel {
                        pool: pool.release(bytes),
                        ..before
                    }).tun_dropped());
                    return false;
                }
                self.offer_tun(packet, None, class);
                assert(self@ == taken.queue_tun(packet, None, class));
                true
            },
        }
    }

    /// Queues a datagram that a session worker built.
    pub fn send_prebuilt_udp(
        &mut self,
        peer: SocketAddress,
        source_ip: Option<IpAddress>,
        packet: PacketBuf,
        home: Option<usize>,
        class: PacketClass,
    ) -> (r: bool)
        requires
            old(self).wf(),
            packet.wf(),
            home is None ==> old(self)@.spare() > 0,
        ensures
            final(self).wf(),
            r == (old(self)@.udp.free > 0),
            final(self)@ == old(self)@.queue_udp(
                packet,
                home,
                Route::spec_of(peer, source_ip),
                class,
            ),
    {
        let ghost before = self@;
        let route = Route::of(peer, source_ip);
        if !self.udp.has_free() {
            self.discard(packet, home);
            self.counters.drop_udp();
            assert(self@ =~= before.queue_udp(packet, home, route, class));
            return false;
        }
        self.offer_udp(packet, home, route, class);
        true
    }

    /// Sends a packet that a session worker built to the tunnel.
    pub fn write_prebuilt_tun(
        &mut self,
        packet: PacketBuf,
        home: Option<usize>,
        class: PacketClass,
        written: Option<TunWrite>,
    ) -> (r: bool)
        requires
            old(self).wf(),
            packet.wf(),
            home is None ==> old(self)@.spare() > 0,
            written is Some <==> old(self)@.tun.pending() == 0,
        ensures
            final(self).wf(),
            match written {
                Some(TunWrite::Done) => {
                    &&& r
                    &&& final(self)@ == old(self)@.tun_written(packet@.len).discard(packet, home)
                },
                Some(TunWrite::Failed) => {
                    &&& !r
                    &&& final(self)@ == old(self)@.tun_failed().discard(packet, home)
                },
                _ => {
                    &&& r == (old(self)@.tun.free > 0)
                    &&& final(self)@ == old(self)@.queue_tun(packet, home, class)
                },
            },
    {
        let ghost before = self@;
        match written {
            Some(TunWrite::Done) => {
                self.counters.send_tun(packet.len());
                assert(self@ =~= before.tun_written(packet@.len));
                self.discard(packet, home);
                return true;
            },
            Some(TunWrite::Failed) => {
                self.counters.fail_tun_send();
                self.tun_fatal = true;
                assert(self@ =~= before.tun_failed());
                self.discard(packet, home);
                return false;
            },
            _ => {},
        }
        if !self.tun.has_free() {
            self.discard(packet, home);
            self.counters.drop_tun();
            assert(self@ =~= before.queue_tun(packet, home, class));
            return false;
        }
        self.offer_tun(packet, home, class);
        true
    }
}

} // verus!
