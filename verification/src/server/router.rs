//! Which session worker owns an endpoint or a tunnel address, where the server
//! spreads its sessions over several of them.

use vstd::prelude::*;
use std::collections::VecDeque;
use crate::net::{IpAddress, SocketAddress};
use crate::server::io_counters::IoCounters;
use crate::server::packet::{
    destination_spec, extract_dst_ipv4, PacketBuf, PacketBuffer, PacketModel, PacketPool,
    PoolModel, PACKET_CAPACITY,
};
use crate::server::packet_sink::{Route, TunWrite};
use crate::server::tokio_io::TokioIo;
use crate::shared::striped_scheduler::PacketClass;

verus! {

pub const SHARD_INPUT_CAPACITY: usize = 1024;
pub const SHARD_OUTPUT_CAPACITY: usize = 1024;
pub const SHARD_OUTPUT_DRAIN_LIMIT: usize = 256;

/// Whether a session worker may hand out more in this turn.
pub fn output_budget_left(taken: usize) -> (r: bool)
    ensures
        r == (taken < SHARD_OUTPUT_DRAIN_LIMIT),
{
    taken < SHARD_OUTPUT_DRAIN_LIMIT
}

/// A peer, and the address on which it reaches the server.
#[derive(Clone, Copy, Debug, PartialEq, Eq, Structural, Hash)]
pub struct EndpointRoute {
    pub peer: SocketAddress,
    pub local_ip: Option<IpAddress>,
}

impl EndpointRoute {
    pub fn new(peer: SocketAddress, local_ip: Option<IpAddress>) -> (r: EndpointRoute)
        ensures
            r == (EndpointRoute { peer, local_ip }),
    {
        EndpointRoute { peer, local_ip }
    }
}

/// What a session worker asks of the router.
pub enum RouterCommand<C> {
    Migrate { endpoint: EndpointRoute, shard: usize, command: C },
    BindEndpoint { endpoint: EndpointRoute, shard: usize },
    BindTunnel { ip: [u8; 4], shard: usize },
}

/// What a session worker hands out.
pub enum WorkerOutput<C> {
    Udp {
        peer: SocketAddress,
        source_ip: Option<IpAddress>,
        class: PacketClass,
        buffer: PacketBuf,
    },
    Tun { class: PacketClass, buffer: PacketBuf },
    FlushUdp,
    Router(RouterCommand<C>),
}

/// What a session worker is handed.
pub enum WorkerInput<C> {
    Udp { peer: SocketAddress, local_ip: Option<IpAddress>, packet: PacketBuffer },
    Tun { packet: PacketBuffer },
    IoCounters(IoCounters),
    Command(C),
    Shutdown,
}

impl<C> WorkerOutput<C> {
    /// Its packet is whole.
    pub open spec fn wf(&self) -> bool {
        match self {
            WorkerOutput::Udp { buffer, .. } => buffer.wf(),
            WorkerOutput::Tun { buffer, .. } => buffer.wf(),
            _ => true,
        }
    }
}

/// The place of a session worker among the others.
#[derive(Clone, Copy, Debug, PartialEq, Eq, Structural)]
pub struct WorkerContext {
    shard_index: usize,
    shard_count: usize,
}

impl WorkerContext {
    pub closed spec fn index(self) -> usize {
        self.shard_index
    }

    pub closed spec fn count(self) -> usize {
        self.shard_count
    }

    pub fn new(shard_index: usize, shard_count: usize) -> (r: WorkerContext)
        ensures
            r.index() == shard_index,
            r.count() == shard_count,
    {
        WorkerContext { shard_index, shard_count }
    }

    pub fn shard_index(&self) -> (r: usize)
        ensures
            r == self.index(),
    {
        self.shard_index
    }

    pub fn shard_count(&self) -> (r: usize)
        ensures
            r == self.count(),
    {
        self.shard_count
    }

    /// Claims an endpoint for this worker.
    pub fn bind_endpoint<C>(&self, endpoint: EndpointRoute) -> (r: WorkerOutput<C>)
        ensures
            r == WorkerOutput::<C>::Router(
                RouterCommand::BindEndpoint { endpoint, shard: self.index() },
            ),
    {
        WorkerOutput::Router(RouterCommand::BindEndpoint { endpoint, shard: self.shard_index })
    }

    /// Claims a tunnel address for this worker.
    pub fn bind_tunnel<C>(&self, ip: [u8; 4]) -> (r: WorkerOutput<C>)
        ensures
            r == WorkerOutput::<C>::Router(RouterCommand::BindTunnel { ip, shard: self.index() }),
    {
        WorkerOutput::Router(RouterCommand::BindTunnel { ip, shard: self.shard_index })
    }

    /// Hands an endpoint to another worker, with a command for it.
    pub fn migrate<C>(&self, endpoint: EndpointRoute, shard: usize, command: C) -> (r: WorkerOutput<
        C,
    >)
        ensures
            r == WorkerOutput::Router(RouterCommand::Migrate { endpoint, shard, command }),
    {
        WorkerOutput::Router(RouterCommand::Migrate { endpoint, shard, command })
    }
}

/// The command of a migration that could not be handed out.
pub fn refused_command<C>(output: WorkerOutput<C>) -> (r: Option<C>)
    ensures
        r == match output {
            WorkerOutput::Router(RouterCommand::Migrate { command, .. }) => Some(command),
            _ => None,
        },
{
    match output {
        WorkerOutput::Router(RouterCommand::Migrate { command, .. }) => Some(command),
        _ => None,
    }
}

/// Packets that a session worker builds for the router to send.
pub struct RemotePacketSink {
    packet_pool: PacketPool,
}

impl View for RemotePacketSink {
    type V = PoolModel;

    closed spec fn view(&self) -> PoolModel {
        self.packet_pool@
    }
}

impl RemotePacketSink {
    pub closed spec fn wf(&self) -> bool {
        self.packet_pool.wf()
    }

    pub fn new(buffers: usize) -> (r: RemotePacketSink)
        requires
            buffers <= u32::MAX,
        ensures
            r.wf(),
            r@.capacity == if buffers > 0 {
                buffers as nat
            } else {
                1
            },
            r@.allocated == 0,
            r@.idle.len() == 0,
    {
        RemotePacketSink { packet_pool: PacketPool::new(buffers) }
    }

    /// A buffer to build a packet in.
    pub fn reserve(&mut self) -> (r: Option<PacketBuf>)
        requires
            old(self).wf(),
        ensures
            final(self).wf(),
            match r {
                Some(packet) => {
                    &&& old(self)@.acquire() == Some((final(self)@, packet@.bytes))
                    &&& packet.wf()
                    &&& packet@.len == 0
                },
                None => old(self)@.acquire() is None && final(self)@ == old(self)@,
            },
    {
        self.packet_pool.try_acquire()
    }

    /// A buffer came back.
    pub fn give_back(&mut self, packet: PacketBuf)
        requires
            old(self).wf(),
            old(self)@.out() > 0,
        ensures
            final(self).wf(),
            final(self)@ == old(self)@.release(packet@.bytes),
    {
        self.packet_pool.release(packet);
    }

    /// A datagram that was built in a reserved buffer, as it goes to the router,
    /// and a copy of it where one is wanted and there is a buffer for it.
    pub fn send_udp_with_duplicate_priority<C>(
        &mut self,
        peer: SocketAddress,
        source_ip: Option<IpAddress>,
        duplicate: bool,
        class: PacketClass,
        packet: PacketBuf,
        built: bool,
    ) -> (r: Option<(WorkerOutput<C>, Option<WorkerOutput<C>>)>)
        requires
            old(self).wf(),
            old(self)@.out() > 0,
            packet.wf(),
        ensures
            final(self).wf(),
            match r {
                None => !built && final(self)@ == old(self)@.release(packet@.bytes),
                Some((sent, copy)) => {
                    &&& built
                    &&& sent == (WorkerOutput::<C>::Udp { peer, source_ip, class, buffer: packet })
                    &&& match copy {
                        None => {
                            &&& !duplicate || old(self)@.acquire() is None
                            &&& final(self)@ == old(self)@
                        },
                        Some(copy) => {
                            let (pool, bytes) = old(self)@.acquire()->0;
                            &&& duplicate
                            &&& old(self)@.acquire() is Some
                            &&& final(self)@ == pool
                            &&& copy is Udp
                            &&& copy->Udp_peer == peer
                            &&& copy->Udp_source_ip == source_ip
                            &&& copy->Udp_class == class
                            &&& copy->Udp_buffer.wf()
                            &&& copy->Udp_buffer@ == (PacketModel { bytes, len: 0 }).copy_from(
                                packet@.data(),
                            )
                        },
                    }
                },
            },
    {
        if !built {
            self.packet_pool.release(packet);
            return None;
        }
        let copy: Option<WorkerOutput<C>> = if duplicate {
            match self.packet_pool.try_acquire() {
                Some(fresh) => {
                    let mut buffer = fresh;
                    assert(buffer@ =~= (PacketModel { bytes: buffer@.bytes, len: 0 }));
                    let _ = buffer.copy_from(packet.as_slice());
                    Some(WorkerOutput::Udp { peer, source_ip, class, buffer })
                },
                None => None,
            }
        } else {
            None
        };
        Some((WorkerOutput::Udp { peer, source_ip, class, buffer: packet }, copy))
    }

    /// A packet for the tunnel, as it goes to the router.
    pub fn write_tun_priority<C>(&mut self, payload: &[u8], class: PacketClass) -> (r: Option<
        WorkerOutput<C>,
    >)
        requires
            old(self).wf(),
            old(self)@.wf(),
        ensures
            final(self).wf(),
            match r {
                None => if old(self)@.acquire() is None {
                    final(self)@ == old(self)@
                } else {
                    let (pool, bytes) = old(self)@.acquire()->0;
                    payload@.len() > PACKET_CAPACITY && final(self)@ == pool.release(bytes)
                },
                Some(output) => {
                    let (pool, bytes) = old(self)@.acquire()->0;
                    &&& old(self)@.acquire() is Some
                    &&& payload@.len() <= PACKET_CAPACITY
                    &&& final(self)@ == pool
                    &&& output is Tun
                    &&& output->Tun_class == class
                    &&& output->Tun_buffer.wf()
                    &&& output->Tun_buffer@ == (PacketModel { bytes, len: 0 }).copy_from(payload@)
                },
            },
    {
        let ghost before = self@;
        match self.packet_pool.try_acquire() {
            None => None,
            Some(fresh) => {
                let mut buffer = fresh;
                assert(buffer@ =~= (PacketModel { bytes: buffer@.bytes, len: 0 }));
                proof {
                    crate::server::packet::law_pool_recovers(before, buffer@.bytes);
                }
                if !buffer.copy_from(payload) {
                    self.packet_pool.release(buffer);
                    return None;
                }
                Some(WorkerOutput::Tun { class, buffer })
            },
        }
    }
}

#[verifier::ext_equal]
pub struct RouterModel<C> {
    pub shards: nat,
    pub pending: Seq<RouterCommand<C>>,
    pub endpoints: Map<EndpointRoute, usize>,
    pub tunnels: Seq<Option<usize>>,
}

/// What becomes of the command that waited first.
pub enum RouterStep<C> {
    Idle,
    Applied,
    Deliver { endpoint: EndpointRoute, shard: usize, command: C },
}

/// Whether an address is in the server's own tunnel network.
pub open spec fn in_tunnel(ip: Seq<u8>) -> bool {
    ip[0] == 10 && ip[1] == 66 && ip[2] == 67
}

impl<C> RouterModel<C> {
    pub open spec fn bind(self, endpoint: EndpointRoute, shard: usize) -> RouterModel<C> {
        RouterModel { endpoints: self.endpoints.insert(endpoint, shard), ..self }
    }

    /// The command that waited first is taken. A migration is delivered before
    /// the endpoint changes hands; one to a worker that is not there is dropped.
    pub open spec fn next(self) -> (RouterModel<C>, RouterStep<C>) {
        let rest = RouterModel { pending: self.pending.skip(1), ..self };
        if self.pending.len() == 0 {
            (self, RouterStep::Idle)
        } else {
            match self.pending[0] {
                RouterCommand::BindEndpoint { endpoint, shard } => (
                    rest.bind(endpoint, shard),
                    RouterStep::Applied,
                ),
                RouterCommand::BindTunnel { ip, shard } => (
                    if in_tunnel(ip@) {
                        RouterModel {
                            tunnels: self.tunnels.update(ip@[3] as int, Some(shard)),
                            ..rest
                        }
                    } else {
                        rest
                    },
                    RouterStep::Applied,
                ),
                RouterCommand::Migrate { endpoint, shard, command } => if shard < self.shards {
                    (rest, RouterStep::Deliver { endpoint, shard, command })
                } else {
                    (rest, RouterStep::Applied)
                },
            }
        }
    }

    /// A migration was delivered, or refused with its command.
    pub open spec fn delivered(
        self,
        endpoint: EndpointRoute,
        shard: usize,
        refused: Option<C>,
    ) -> RouterModel<C> {
        match refused {
            None => self.bind(endpoint, shard),
            Some(command) => RouterModel {
                pending: self.pending.push(RouterCommand::Migrate { endpoint, shard, command }),
                ..self
            },
        }
    }

    /// What a pass makes of the commands that waited when it began: for each of
    /// them whether its worker would take it, if it is one to be delivered.
    pub open spec fn passed(self, answers: Seq<bool>) -> RouterModel<C>
        decreases answers.len(),
    {
        if answers.len() == 0 {
            self
        } else {
            let (rest, step) = self.next();
            let after = match step {
                RouterStep::Deliver { endpoint, shard, command } => rest.delivered(
                    endpoint,
                    shard,
                    if answers[0] {
                        None
                    } else {
                        Some(command)
                    },
                ),
                _ => rest,
            };
            after.passed(answers.skip(1))
        }
    }

    /// The worker that an endpoint belongs to; the first one where none claimed
    /// it.
    pub open spec fn endpoint_shard(self, endpoint: EndpointRoute) -> usize {
        if self.endpoints.dom().contains(endpoint) {
            self.endpoints[endpoint]
        } else {
            0
        }
    }

    /// The worker that a packet of the tunnel belongs to.
    pub open spec fn tunnel_shard(self, packet: Seq<u8>) -> usize {
        match destination_spec(packet) {
            Some(ip) if in_tunnel(ip) => match self.tunnels[ip[3] as int] {
                Some(shard) => shard,
                None => 0,
            },
            _ => 0,
        }
    }
}

spec fn has_key(entries: Seq<(EndpointRoute, usize)>, key: EndpointRoute) -> bool {
    exists|i: int| 0 <= i < entries.len() && (#[trigger] entries[i]).0 == key
}

spec fn key_at(entries: Seq<(EndpointRoute, usize)>, key: EndpointRoute) -> int {
    choose|i: int| 0 <= i < entries.len() && (#[trigger] entries[i]).0 == key
}

spec fn distinct_keys(entries: Seq<(EndpointRoute, usize)>) -> bool {
    forall|i: int, j: int|
        0 <= i < j < entries.len() ==> (#[trigger] entries[i]).0 != (#[trigger] entries[j]).0
}

spec fn entry_map(entries: Seq<(EndpointRoute, usize)>) -> Map<EndpointRoute, usize> {
    Map::new(
        |key: EndpointRoute| has_key(entries, key),
        |key: EndpointRoute| entries[key_at(entries, key)].1,
    )
}

/// What a command binds is a worker that is there.
pub open spec fn binds_within<C>(command: RouterCommand<C>, shards: nat) -> bool {
    match command {
        RouterCommand::Migrate { .. } => true,
        RouterCommand::BindEndpoint { shard, .. } => shard < shards,
        RouterCommand::BindTunnel { shard, .. } => shard < shards,
    }
}

/// Who owns what.
pub struct Router<C> {
    shards: usize,
    pending: VecDeque<RouterCommand<C>>,
    endpoints: Vec<(EndpointRoute, usize)>,
    tunnels: Vec<Option<usize>>,
}

impl<C> View for Router<C> {
    type V = RouterModel<C>;

    closed spec fn view(&self) -> RouterModel<C> {
        RouterModel {
            shards: self.shards as nat,
            pending: self.pending@,
            endpoints: entry_map(self.endpoints@),
            tunnels: self.tunnels@,
        }
    }
}

impl<C> Router<C> {
    pub closed spec fn wf(&self) -> bool {
        &&& self.shards > 0
        &&& self.tunnels@.len() == 256
        &&& distinct_keys(self.endpoints@)
        &&& forall|i: int| 0 <= i < self.endpoints@.len() ==> (#[trigger] self.endpoints@[i]).1
            < self.shards
        &&& forall|i: int|
            0 <= i < 256 ==> ((#[trigger] self.tunnels@[i]) matches Some(shard) ==> shard
                < self.shards)
        &&& forall|i: int|
            0 <= i < self.pending@.len() ==> binds_within(
                #[trigger] self.pending@[i],
                self.shards as nat,
            )
    }

    pub fn new(shards: usize) -> (r: Router<C>)
        requires
            shards > 0,
        ensures
            r.wf(),
            r@.shards == shards,
            r@.pending.len() == 0,
            r@.endpoints == Map::<EndpointRoute, usize>::empty(),
            r@.tunnels == Seq::new(256, |i: int| None::<usize>),
    {
        let mut tunnels: Vec<Option<usize>> = Vec::new();
        let mut i: usize = 0;
        while i < 256
            invariant
                i <= 256,
                tunnels@ == Seq::new(i as nat, |k: int| None::<usize>),
            decreases 256 - i,
        {
            tunnels.push(None);
            assert(tunnels@ =~= Seq::new((i + 1) as nat, |k: int| None::<usize>));
            i = i + 1;
        }
        let r = Router { shards, pending: VecDeque::new(), endpoints: Vec::new(), tunnels };
        assert(r@.endpoints =~= Map::<EndpointRoute, usize>::empty());
        r
    }

    pub fn pending_len(&self) -> (r: usize)
        ensures
            r == self@.pending.len(),
    {
        self.pending.len()
    }

    /// Takes a command in.
    pub fn push(&mut self, command: RouterCommand<C>)
        requires
            old(self).wf(),
            binds_within(command, old(self)@.shards),
        ensures
            final(self).wf(),
            final(self)@ == (RouterModel {
                pending: old(self)@.pending.push(command),
                ..old(self)@
            }),
    {
        let ghost before = self@;
        self.pending.push_back(command);
        assert(self@ =~= (RouterModel { pending: before.pending.push(command), ..before }));
    }

    fn find(&self, endpoint: &EndpointRoute) -> (r: Option<usize>)
        ensures
            match r {
                Some(i) => i < self.endpoints@.len() && self.endpoints@[i as int].0 == *endpoint,
                None => !has_key(self.endpoints@, *endpoint),
            },
    {
        let mut i: usize = 0;
        while i < self.endpoints.len()
            invariant
                i <= self.endpoints@.len(),
                forall|k: int| 0 <= k < i ==> (#[trigger] self.endpoints@[k]).0 != *endpoint,
            decreases self.endpoints@.len() - i,
        {
            if self.endpoints[i].0 == *endpoint {
                return Some(i);
            }
            i = i + 1;
        }
        None
    }

    fn bind(&mut self, endpoint: EndpointRoute, shard: usize)
        requires
            old(self).wf(),
            shard < old(self)@.shards,
        ensures
            final(self).wf(),
            final(self)@ == old(self)@.bind(endpoint, shard),
    {
        let ghost before = self.endpoints@;
        let ghost model = self@;
        match self.find(&endpoint) {
            Some(i) => {
                self.endpoints[i] = (endpoint, shard);
                let ghost after = self.endpoints@;
                proof {
                    assert forall|a: int, b: int| 0 <= a < b < after.len() implies (
                    #[trigger] after[a]).0 != (#[trigger] after[b]).0 by {
                        assert(after[a].0 == before[a].0);
                        assert(after[b].0 == before[b].0);
                    }
                    assert forall|key: EndpointRoute| has_key(after, key) == has_key(
                        before,
                        key,
                    ) by {
                        if has_key(before, key) {
                            let k = key_at(before, key);
                            assert(after[k].0 == key);
                        }
                        if has_key(after, key) {
                            let k = key_at(after, key);
                            assert(before[k].0 == key);
                        }
                    }
                    assert(before[i as int].0 == endpoint);
                    assert forall|key: EndpointRoute| has_key(before, key) implies after[key_at(
                        after,
                        key,
                    )].1 == (if key == endpoint {
                        shard
                    } else {
                        before[key_at(before, key)].1
                    }) by {
                        let a = key_at(after, key);
                        let b = key_at(before, key);
                        assert(after[a].0 == key);
                        assert(before[b].0 == key);
                        assert(before[a].0 == key);
                        assert(a == b);
                    }
                    assert(entry_map(after) =~= entry_map(before).insert(endpoint, shard));
                }
            },
            None => {
                self.endpoints.push((endpoint, shard));
                let ghost after = self.endpoints@;
                proof {
                    let n = before.len() as int;
                    assert forall|a: int, b: int| 0 <= a < b < after.len() implies (
                    #[trigger] after[a]).0 != (#[trigger] after[b]).0 by {
                        assert(after[a].0 == before[a].0);
                        if b < n {
                            assert(after[b].0 == before[b].0);
                        } else {
                            assert(before[a].0 != endpoint);
                        }
                    }
                    assert(after[n].0 == endpoint);
                    assert forall|key: EndpointRoute|
                        has_key(after, key) == (has_key(before, key) || key == endpoint) by {
                        if has_key(before, key) {
                            let k = key_at(before, key);
                            assert(after[k].0 == key);
                        }
                        if has_key(after, key) && key != endpoint {
                            let k = key_at(after, key);
                            assert(before[k].0 == key);
                        }
                    }
                    assert forall|key: EndpointRoute| has_key(after, key) implies after[key_at(
                        after,
                        key,
                    )].1 == (if key == endpoint {
                        shard
                    } else {
                        before[key_at(before, key)].1
                    }) by {
                        let a = key_at(after, key);
                        assert(after[a].0 == key);
                        if key == endpoint {
                            if a < n {
                                assert(before[a].0 == endpoint);
                            }
                        } else {
                            let b = key_at(before, key);
                            assert(before[a].0 == key);
                            assert(before[b].0 == key);
                            assert(a == b);
                        }
                    }
                    assert(entry_map(after) =~= entry_map(before).insert(endpoint, shard));
                }
            },
        }
        assert(self@ =~= model.bind(endpoint, shard));
    }

    /// Takes the command that waited first.
    pub fn next(&mut self) -> (r: RouterStep<C>)
        requires
            old(self).wf(),
        ensures
            final(self).wf(),
            (final(self)@, r) == old(self)@.next(),
            r matches RouterStep::Deliver { shard, .. } ==> shard < old(self)@.shards,
    {
        let ghost before = self@;
        let ghost rest = RouterModel { pending: before.pending.skip(1), ..before };
        let command = match self.pending.pop_front() {
            Some(command) => command,
            None => {
                assert(self@ =~= before);
                return RouterStep::Idle;
            },
        };
        assert(binds_within(command, self.shards as nat)) by {
            assert(before.pending[0] == command);
        }
        assert(self@ =~= rest);
        assert forall|i: int| 0 <= i < self.pending@.len() implies binds_within(
            #[trigger] self.pending@[i],
            self.shards as nat,
        ) by {
            assert(self.pending@[i] == before.pending[i + 1]);
        }
        match command {
            RouterCommand::BindEndpoint { endpoint, shard } => {
                self.bind(endpoint, shard);
                RouterStep::Applied
            },
            RouterCommand::BindTunnel { ip, shard } => {
                if ip[0] == 10 && ip[1] == 66 && ip[2] == 67 {
                    self.tunnels.set(ip[3] as usize, Some(shard));
                    assert(self@ =~= (RouterModel {
                        tunnels: before.tunnels.update(ip@[3] as int, Some(shard)),
                        ..rest
                    }));
                }
                RouterStep::Applied
            },
            RouterCommand::Migrate { endpoint, shard, command } => {
                if shard < self.shards {
                    RouterStep::Deliver { endpoint, shard, command }
                } else {
                    RouterStep::Applied
                }
            },
        }
    }

    /// Takes the next command of a pass, which looks once at each that waited when
    /// it began.
    pub fn pass_next(&mut self, left: &mut usize) -> (r: RouterStep<C>)
        requires
            old(self).wf(),
        ensures
            final(self).wf(),
            *final(left) == if *old(left) > 0 {
                *old(left) - 1
            } else {
                0
            },
            if *old(left) > 0 {
                (final(self)@, r) == old(self)@.next()
            } else {
                final(self)@ == old(self)@ && r is Idle
            },
            r matches RouterStep::Deliver { shard, .. } ==> shard < old(self)@.shards,
    {
        if *left == 0 {
            return RouterStep::Idle;
        }
        *left = *left - 1;
        self.next()
    }

    /// Takes note of a migration that was delivered, or refused with its
    /// command: it is then tried again later.
    pub fn delivered(&mut self, endpoint: EndpointRoute, shard: usize, refused: Option<C>)
        requires
            old(self).wf(),
            shard < old(self)@.shards,
        ensures
            final(self).wf(),
            final(self)@ == old(self)@.delivered(endpoint, shard, refused),
    {
        match refused {
            None => {
                self.bind(endpoint, shard);
            },
            Some(command) => {
                self.push(RouterCommand::Migrate { endpoint, shard, command });
            },
        }
    }

    /// The worker that an endpoint belongs to.
    pub fn endpoint_shard(&self, peer: SocketAddress, local_ip: Option<IpAddress>) -> (r: usize)
        requires
            self.wf(),
        ensures
            r == self@.endpoint_shard(EndpointRoute { peer, local_ip }),
            r < self@.shards,
    {
        let endpoint = EndpointRoute { peer, local_ip };
        match self.find(&endpoint) {
            Some(i) => {
                proof {
                    let k = key_at(self.endpoints@, endpoint);
                    assert(self.endpoints@[i as int].0 == endpoint);
                    assert(self.endpoints@[k].0 == endpoint);
                    assert(k == i);
                }
                self.endpoints[i].1
            },
            None => 0,
        }
    }

    /// The worker that a packet of the tunnel belongs to.
    pub fn tunnel_shard(&self, packet: &[u8]) -> (r: usize)
        requires
            self.wf(),
        ensures
            r == self@.tunnel_shard(packet@),
            r < self@.shards,
    {
        match extract_dst_ipv4(packet) {
            Some(ip) => {
                if ip[0] == 10 && ip[1] == 66 && ip[2] == 67 {
                    match self.tunnels[ip[3] as usize] {
                        Some(shard) => shard,
                        None => 0,
                    }
                } else {
                    0
                }
            },
            None => 0,
        }
    }

    /// A datagram for the worker that its endpoint belongs to; nothing where it
    /// does not fit a buffer.
    pub fn route_udp(&self, peer: SocketAddress, local_ip: Option<IpAddress>, packet: &[u8]) -> (r:
        Option<(usize, WorkerInput<C>)>)
        requires
            self.wf(),
        ensures
            match r {
                Some((shard, input)) => {
                    &&& packet@.len() <= PACKET_CAPACITY
                    &&& shard == self@.endpoint_shard(EndpointRoute { peer, local_ip })
                    &&& shard < self@.shards
                    &&& input is Udp
                    &&& input->Udp_peer == peer
                    &&& input->Udp_local_ip == local_ip
                    &&& input->Udp_packet.wf()
                    &&& input->Udp_packet@.data() == packet@
                },
                None => packet@.len() > PACKET_CAPACITY,
            },
    {
        let mut forwarded = PacketBuffer::new();
        let ghost fresh = forwarded@;
        if !forwarded.copy_from(packet) {
            return None;
        }
        proof {
            crate::server::packet::law_copy_reads_back(fresh, packet@);
        }
        let shard: usize = self.endpoint_shard(peer, local_ip);
        Some((shard, WorkerInput::Udp { peer, local_ip, packet: forwarded }))
    }

    /// A packet of the tunnel for the worker that its address belongs to;
    /// nothing where it does not fit a buffer.
    pub fn route_tun(&self, packet: &[u8]) -> (r: Option<(usize, WorkerInput<C>)>)
        requires
            self.wf(),
        ensures
            match r {
                Some((shard, input)) => {
                    &&& packet@.len() <= PACKET_CAPACITY
                    &&& shard == self@.tunnel_shard(packet@)
                    &&& shard < self@.shards
                    &&& input is Tun
                    &&& input->Tun_packet.wf()
                    &&& input->Tun_packet@.data() == packet@
                },
                None => packet@.len() > PACKET_CAPACITY,
            },
    {
        let mut forwarded = PacketBuffer::new();
        let ghost fresh = forwarded@;
        if !forwarded.copy_from(packet) {
            return None;
        }
        proof {
            crate::server::packet::law_copy_reads_back(fresh, packet@);
        }
        let shard: usize = self.tunnel_shard(packet);
        Some((shard, WorkerInput::Tun { packet: forwarded }))
    }

    /// Takes what a session worker handed out: packets wait to be sent, commands
    /// wait to be taken. Tells whether a flush was asked for.
    pub fn take_output(
        &mut self,
        io: &mut TokioIo,
        home: usize,
        output: WorkerOutput<C>,
        written: Option<TunWrite>,
    ) -> (r: bool)
        requires
            old(self).wf(),
            old(io).wf(),
            output.wf(),
            output matches WorkerOutput::Router(command) ==> binds_within(
                command,
                old(self)@.shards,
            ),
            output is Tun ==> (written is Some <==> old(io)@.sink.tun.pending() == 0),
        ensures
            final(self).wf(),
            final(io).wf(),
            r == (output is FlushUdp),
            final(io)@.mode == old(io)@.mode,
            match output {
                WorkerOutput::Udp { peer, source_ip, class, buffer } => {
                    &&& final(self)@ == old(self)@
                    &&& final(io)@.sink == old(io)@.sink.queue_udp(
                        buffer,
                        Some(home),
                        Route::spec_of(peer, source_ip),
                        class,
                    )
                },
                WorkerOutput::Tun { class, buffer } => {
                    &&& final(self)@ == old(self)@
                    &&& final(io)@.sink == match written {
                        Some(TunWrite::Done) => old(io)@.sink.tun_written(buffer@.len).discard(
                            buffer,
                            Some(home),
                        ),
                        Some(TunWrite::Failed) => old(io)@.sink.tun_failed().discard(
                            buffer,
                            Some(home),
                        ),
                        _ => old(io)@.sink.queue_tun(buffer, Some(home), class),
                    }
                },
                WorkerOutput::FlushUdp => final(self)@ == old(self)@ && final(io)@ == old(io)@,
                WorkerOutput::Router(command) => {
                    &&& final(io)@ == old(io)@
                    &&& final(self)@ == (RouterModel {
                        pending: old(self)@.pending.push(command),
                        ..old(self)@
                    })
                },
            },
    {
        match output {
            WorkerOutput::Udp { peer, source_ip, class, buffer } => {
                let _ = io.with_sink().send_prebuilt_udp(peer, source_ip, buffer, Some(home), class);
                false
            },
            WorkerOutput::Tun { class, buffer } => {
                let _ = io.with_sink().write_prebuilt_tun(buffer, Some(home), class, written);
                false
            },
            WorkerOutput::FlushUdp => true,
            WorkerOutput::Router(command) => {
                self.push(command);
                false
            },
        }
    }
}

/// An endpoint changes hands only once its new owner has the command: taking the
/// migration changes no owner, and a refused one stays as it was and is tried
/// again after all that waits.
pub proof fn law_migration_is_delivered_first<C>(
    router: RouterModel<C>,
    endpoint: EndpointRoute,
    shard: usize,
    command: C,
    refused: Option<C>,
)
    requires
        router.pending.len() > 0,
        router.pending[0] == (RouterCommand::Migrate { endpoint, shard, command }),
        shard < router.shards,
    ensures
        router.next().1 == (RouterStep::Deliver { endpoint, shard, command }),
        router.next().0.endpoints == router.endpoints,
        refused is None ==> router.next().0.delivered(endpoint, shard, refused).endpoint_shard(
            endpoint,
        ) == shard,
        refused == Some(command) ==> {
            let after = router.next().0.delivered(endpoint, shard, refused);
            &&& after.endpoints == router.endpoints
            &&& after.pending.len() == router.pending.len()
            &&& after.pending.last() == router.pending[0]
        },
{
}

/// The migrations that a pass could not deliver, in the order in which they
/// waited.
pub open spec fn refused_of<C>(
    commands: Seq<RouterCommand<C>>,
    answers: Seq<bool>,
    shards: nat,
) -> Seq<RouterCommand<C>>
    decreases commands.len(),
{
    if commands.len() == 0 {
        Seq::empty()
    } else {
        let rest = refused_of(commands.skip(1), answers.skip(1), shards);
        match commands[0] {
            RouterCommand::Migrate { shard, .. } if shard < shards && !answers[0] => seq![
                commands[0],
            ] + rest,
            _ => rest,
        }
    }
}

proof fn lemma_pass<C>(router: RouterModel<C>, answers: Seq<bool>)
    requires
        answers.len() <= router.pending.len(),
    ensures
        router.passed(answers).pending == router.pending.skip(answers.len() as int) + refused_of(
            router.pending.take(answers.len() as int),
            answers,
            router.shards,
        ),
        router.passed(answers).shards == router.shards,
    decreases answers.len(),
{
    let n = answers.len() as int;
    let first = router.pending.take(n);
    if n == 0 {
        assert(router.pending.skip(0) + Seq::<RouterCommand<C>>::empty() =~= router.pending);
    } else {
        let (rest, step) = router.next();
        let after = match step {
            RouterStep::Deliver { endpoint, shard, command } => rest.delivered(
                endpoint,
                shard,
                if answers[0] {
                    None
                } else {
                    Some(command)
                },
            ),
            _ => rest,
        };
        lemma_pass(after, answers.skip(1));
        assert(rest.pending =~= router.pending.skip(1));
        assert(after.pending.take(n - 1) =~= first.skip(1));
        let kept = refused_of(first.skip(1), answers.skip(1), router.shards);
        if after.pending.len() == rest.pending.len() {
            assert(after.pending.skip(n - 1) =~= router.pending.skip(n));
        } else {
            assert(after.pending.skip(n - 1) =~= router.pending.skip(n) + seq![first[0]]);
            assert(router.pending.skip(n) + seq![first[0]] + kept =~= router.pending.skip(n) + (
            seq![first[0]] + kept));
        }
    }
}

/// A pass over all that waits leaves the migrations that no worker took, and no
/// other, in the order in which they waited.
pub proof fn law_pass_keeps_what_was_refused<C>(router: RouterModel<C>, answers: Seq<bool>)
    requires
        answers.len() == router.pending.len(),
    ensures
        router.passed(answers).pending == refused_of(router.pending, answers, router.shards),
{
    lemma_pass(router, answers);
    assert(router.pending.take(answers.len() as int) =~= router.pending);
    assert(router.pending.skip(answers.len() as int) =~= Seq::<RouterCommand<C>>::empty());
    assert(Seq::<RouterCommand<C>>::empty() + refused_of(
        router.pending,
        answers,
        router.shards,
    ) =~= refused_of(router.pending, answers, router.shards));
}

/// Tunnel addresses outside the server's own network are never claimed.
pub proof fn law_foreign_addresses_are_not_claimed<C>(
    router: RouterModel<C>,
    ip: [u8; 4],
    shard: usize,
    packet: Seq<u8>,
)
    requires
        router.pending.len() > 0,
        router.pending[0] == (RouterCommand::<C>::BindTunnel { ip, shard }),
        router.tunnels.len() == 256,
    ensures
        !in_tunnel(ip@) ==> router.next().0.tunnels == router.tunnels,
        in_tunnel(ip@) && destination_spec(packet) == Some(ip@) ==> router.next().0.tunnel_shard(
            packet,
        ) == shard,
{
}

} // verus!
