//! Packets on their way to the clients: a lane of slots for each client, and a
//! round over the lanes in which a client has as many turns as paths.

use vstd::prelude::*;
use std::collections::VecDeque;
use crate::server::packet::{law_copy_reads_back, PacketBuffer, PACKET_CAPACITY};
use crate::shared::flow_frame::{FrameHeader, FRAME_LEN};
use crate::shared::striped_scheduler::PacketClass;
use crate::wire::put_bytes;

verus! {

pub const LANES: usize = 256;
pub const LATENCY_SLOTS: usize = 16;
pub const PRIORITY_MIN_SLOTS: usize = 32;
pub const PRIORITY_MAX_SLOTS: usize = 252;
pub const PRIORITY_SLOTS_PER_PATH: usize = 2;
pub const BULK_MIN_SLOTS: usize = 72;
pub const BULK_MAX_SLOTS: usize = 1_008;
pub const BULK_SLOTS_PER_PATH: usize = 8;
/// The paths that a client has turns for.
pub const MAX_PATHS: usize = 126;

#[derive(Clone, Copy, Debug, PartialEq, Eq, Structural)]
pub struct ClientQueueProfile {
    pub latency_slots: usize,
    pub priority_slots: usize,
    pub bulk_slots: usize,
}

pub open spec fn bounded_paths(active_paths: nat) -> nat {
    if active_paths < MAX_PATHS {
        active_paths
    } else {
        MAX_PATHS as nat
    }
}

pub open spec fn clamped(value: int, low: int, high: int) -> int {
    if value < low {
        low
    } else if value > high {
        high
    } else {
        value
    }
}

/// The slots of each class that a client with so many paths has.
pub open spec fn slots_for(active_paths: nat, class: PacketClass) -> int {
    let paths = bounded_paths(active_paths);
    if paths == 0 {
        0
    } else {
        match class {
            PacketClass::Small => LATENCY_SLOTS as int,
            PacketClass::Medium => clamped(
                paths * PRIORITY_SLOTS_PER_PATH,
                PRIORITY_MIN_SLOTS as int,
                PRIORITY_MAX_SLOTS as int,
            ),
            PacketClass::Bulk => clamped(
                paths * BULK_SLOTS_PER_PATH,
                BULK_MIN_SLOTS as int,
                BULK_MAX_SLOTS as int,
            ),
        }
    }
}

fn bound_paths(active_paths: usize) -> (r: usize)
    ensures
        r == bounded_paths(active_paths as nat),
{
    if active_paths < MAX_PATHS {
        active_paths
    } else {
        MAX_PATHS
    }
}

fn clamp_slots(value: usize, low: usize, high: usize) -> (r: usize)
    ensures
        r == clamped(value as int, low as int, high as int),
{
    if value < low {
        low
    } else if value > high {
        high
    } else {
        value
    }
}

pub fn profile_for_active_paths(active_paths: usize) -> (r: ClientQueueProfile)
    ensures
        r.latency_slots == slots_for(active_paths as nat, PacketClass::Small),
        r.priority_slots == slots_for(active_paths as nat, PacketClass::Medium),
        r.bulk_slots == slots_for(active_paths as nat, PacketClass::Bulk),
{
    let paths: usize = bound_paths(active_paths);
    if paths == 0 {
        return ClientQueueProfile { latency_slots: 0, priority_slots: 0, bulk_slots: 0 };
    }
    ClientQueueProfile {
        latency_slots: LATENCY_SLOTS,
        priority_slots: clamp_slots(
            paths * PRIORITY_SLOTS_PER_PATH,
            PRIORITY_MIN_SLOTS,
            PRIORITY_MAX_SLOTS,
        ),
        bulk_slots: clamp_slots(paths * BULK_SLOTS_PER_PATH, BULK_MIN_SLOTS, BULK_MAX_SLOTS),
    }
}

/// Slots of one class: the free ones, and the packets that wait, the oldest
/// first.
#[verifier::ext_equal]
pub struct SlotsModel {
    pub free: nat,
    pub pending: Seq<Seq<u8>>,
}

impl SlotsModel {
    pub open spec fn empty() -> SlotsModel {
        SlotsModel { free: 0, pending: Seq::empty() }
    }

    /// As many slots as given; the newest packets go first where they are too
    /// few.
    pub open spec fn resize(self, capacity: nat) -> SlotsModel {
        let kept = if self.pending.len() < capacity {
            self.pending
        } else {
            self.pending.take(capacity as int)
        };
        SlotsModel { free: (capacity - kept.len()) as nat, pending: kept }
    }

    pub open spec fn takes(self, packet: Seq<u8>) -> bool {
        self.free > 0 && packet.len() <= PACKET_CAPACITY
    }

    pub open spec fn enqueue(self, packet: Seq<u8>) -> SlotsModel {
        if self.takes(packet) {
            SlotsModel { free: (self.free - 1) as nat, pending: self.pending.push(packet) }
        } else {
            self
        }
    }

    /// The oldest packet leaves with its slot.
    pub open spec fn dequeue(self) -> SlotsModel {
        if self.pending.len() > 0 {
            SlotsModel { pending: self.pending.skip(1), ..self }
        } else {
            self
        }
    }

    pub open spec fn requeue_front(self, packet: Seq<u8>) -> SlotsModel {
        SlotsModel { pending: seq![packet] + self.pending, ..self }
    }

    pub open spec fn recycle(self) -> SlotsModel {
        SlotsModel { free: self.free + 1, ..self }
    }

    pub open spec fn clear(self) -> SlotsModel {
        SlotsModel { free: self.free + self.pending.len(), pending: Seq::empty() }
    }
}

struct PacketSlots {
    free: Vec<PacketBuffer>,
    pending: VecDeque<PacketBuffer>,
}

spec fn datas(packets: Seq<PacketBuffer>) -> Seq<Seq<u8>> {
    Seq::new(packets.len(), |i: int| packets[i]@.data())
}

spec fn all_wf(packets: Seq<PacketBuffer>) -> bool {
    forall|i: int| 0 <= i < packets.len() ==> (#[trigger] packets[i]).wf()
}

impl PacketSlots {
    spec fn wf(&self) -> bool {
        all_wf(self.free@) && all_wf(self.pending@)
    }

    spec fn model(&self) -> SlotsModel {
        SlotsModel { free: self.free@.len(), pending: datas(self.pending@) }
    }

    fn new() -> (r: PacketSlots)
        ensures
            r.wf(),
            r.model() == SlotsModel::empty(),
    {
        let r = PacketSlots { free: Vec::new(), pending: VecDeque::new() };
        assert(r.model() =~= SlotsModel::empty());
        r
    }

    fn resize(&mut self, capacity: usize)
        requires
            old(self).wf(),
            capacity <= BULK_MAX_SLOTS,
        ensures
            final(self).wf(),
            final(self).model() == old(self).model().resize(capacity as nat),
    {
        let ghost before = self.model();
        while self.free.len().saturating_add(self.pending.len()) < capacity
            invariant
                capacity <= BULK_MAX_SLOTS,
                self.wf(),
                self.model().pending == before.pending,
                self.free@.len() == before.free || self.free@.len() + self.pending@.len()
                    <= capacity,
            decreases capacity - self.free@.len(),
        {
            self.free.push(PacketBuffer::new());
        }
        let ghost middle = self.model();
        while self.free.len().saturating_add(self.pending.len()) > capacity
            invariant
                capacity <= BULK_MAX_SLOTS,
                self.wf(),
                self.free@.len() + self.pending@.len() >= capacity,
                self.pending@.len() <= before.pending.len(),
                self.model().pending == before.pending.take(self.pending@.len() as int),
                self.free@.len() > 0 ==> self.pending@.len() == before.pending.len(),
                self.pending@.len() < before.pending.len() ==> self.pending@.len() >= capacity,
            decreases self.free@.len() + self.pending@.len(),
        {
            if self.free.pop().is_none() {
                let _ = self.pending.pop_back();
                assert(self.model().pending =~= before.pending.take(self.pending@.len() as int));
            }
        }
        assert(self.model() =~= before.resize(capacity as nat));
    }

    fn enqueue(&mut self, packet: &[u8]) -> (r: bool)
        requires
            old(self).wf(),
        ensures
            final(self).wf(),
            r == old(self).model().takes(packet@),
            final(self).model() == old(self).model().enqueue(packet@),
    {
        let ghost before = *self;
        let mut slot = match self.free.pop() {
            Some(slot) => slot,
            None => {
                return false;
            },
        };
        assert(slot.wf());
        let ghost taken = slot@;
        if !slot.copy_from(packet) {
            self.free.push(slot);
            assert(self.model() =~= before.model());
            return false;
        }
        proof {
            law_copy_reads_back(taken, packet@);
        }
        self.pending.push_back(slot);
        assert(self.model() =~= before.model().enqueue(packet@));
        true
    }

    fn enqueue_framed(&mut self, header: FrameHeader, packet: &[u8]) -> (r: bool)
        requires
            old(self).wf(),
        ensures
            final(self).wf(),
            r == old(self).model().takes(header.bytes() + packet@),
            final(self).model() == old(self).model().enqueue(header.bytes() + packet@),
    {
        let ghost before = *self;
        proof {
            header.lemma_len();
        }
        let mut slot = match self.free.pop() {
            Some(slot) => slot,
            None => {
                return false;
            },
        };
        assert(slot.wf());
        let total: usize = packet.len().saturating_add(FRAME_LEN);
        if total > slot.capacity() || !slot.set_len(total) {
            self.free.push(slot);
            assert(self.model() =~= before.model());
            return false;
        }
        write_frame(slot.as_mut_slice(), &header, packet);
        assert(slot@.data() =~= header.bytes() + packet@);
        self.pending.push_back(slot);
        assert(self.model() =~= before.model().enqueue(header.bytes() + packet@));
        true
    }

    fn dequeue(&mut self) -> (r: Option<PacketBuffer>)
        requires
            old(self).wf(),
        ensures
            final(self).wf(),
            final(self).model() == old(self).model().dequeue(),
            match r {
                Some(packet) => {
                    &&& packet.wf()
                    &&& old(self).model().pending.len() > 0
                    &&& packet@.data() == old(self).model().pending[0]
                },
                None => old(self).model().pending.len() == 0,
            },
    {
        let ghost before = *self;
        let r = self.pending.pop_front();
        assert(r is Some ==> r->0 == before.pending@[0]);
        assert(r is Some ==> self.pending@ =~= before.pending@.skip(1));
        assert(self.model() =~= before.model().dequeue());
        r
    }

    fn requeue_front(&mut self, packet: PacketBuffer)
        requires
            old(self).wf(),
            packet.wf(),
        ensures
            final(self).wf(),
            final(self).model() == old(self).model().requeue_front(packet@.data()),
    {
        let ghost before = *self;
        self.pending.push_front(packet);
        assert forall|i: int| 0 <= i < self.pending@.len() implies (
        #[trigger] self.pending@[i]).wf() by {
            if i > 0 {
                assert(self.pending@[i] == before.pending@[i - 1]);
            }
        }
        assert(self.model() =~= before.model().requeue_front(packet@.data()));
    }

    fn recycle(&mut self, packet: PacketBuffer)
        requires
            old(self).wf(),
            packet.wf(),
        ensures
            final(self).wf(),
            final(self).model() == old(self).model().recycle(),
    {
        self.free.push(packet);
    }

    fn clear_pending(&mut self)
        requires
            old(self).wf(),
        ensures
            final(self).wf(),
            final(self).model() == old(self).model().clear(),
    {
        let ghost before = self.model();
        loop
            invariant
                self.wf(),
                self.free@.len() + self.pending@.len() == before.free + before.pending.len(),
            ensures
                self.pending@.len() == 0,
            decreases self.pending@.len(),
        {
            let ghost packets = self.pending@;
            match self.pending.pop_front() {
                Some(packet) => {
                    assert(packet == packets[0]);
                    self.free.push(packet);
                },
                None => {
                    break;
                },
            }
        }
        assert(self.model() =~= before.clear());
    }

    fn pending_len(&self) -> (r: usize)
        ensures
            r == self.model().pending.len(),
    {
        self.pending.len()
    }
}

/// Writes a frame over a slice of its size.
fn write_frame(output: &mut [u8], header: &FrameHeader, packet: &[u8])
    requires
        old(output)@.len() == FRAME_LEN + packet@.len(),
    ensures
        final(output)@ == header.bytes() + packet@,
{
    let (head, tail) = output.split_at_mut(FRAME_LEN);
    let _ = header.encode(head);
    put_bytes(tail, 0, packet);
    assert(tail@ =~= packet@);
}

/// A client's lane.
#[verifier::ext_equal]
pub struct LaneModel {
    pub active_paths: nat,
    pub latency: SlotsModel,
    pub priority: SlotsModel,
    pub bulk: SlotsModel,
}

impl LaneModel {
    pub open spec fn empty() -> LaneModel {
        LaneModel {
            active_paths: 0,
            latency: SlotsModel::empty(),
            priority: SlotsModel::empty(),
            bulk: SlotsModel::empty(),
        }
    }

    pub open spec fn queue(self, class: PacketClass) -> SlotsModel {
        match class {
            PacketClass::Small => self.latency,
            PacketClass::Medium => self.priority,
            PacketClass::Bulk => self.bulk,
        }
    }

    pub open spec fn with_queue(self, class: PacketClass, queue: SlotsModel) -> LaneModel {
        match class {
            PacketClass::Small => LaneModel { latency: queue, ..self },
            PacketClass::Medium => LaneModel { priority: queue, ..self },
            PacketClass::Bulk => LaneModel { bulk: queue, ..self },
        }
    }

    pub open spec fn configure(self, active_paths: nat) -> LaneModel {
        LaneModel {
            active_paths: bounded_paths(active_paths),
            latency: self.latency.resize(slots_for(active_paths, PacketClass::Small) as nat),
            priority: self.priority.resize(slots_for(active_paths, PacketClass::Medium) as nat),
            bulk: self.bulk.resize(slots_for(active_paths, PacketClass::Bulk) as nat),
        }
    }

    pub open spec fn clear(self) -> LaneModel {
        LaneModel {
            latency: self.latency.clear(),
            priority: self.priority.clear(),
            bulk: self.bulk.clear(),
            ..self
        }
    }
}

struct ClientEgressLane {
    active_paths: usize,
    latency: PacketSlots,
    priority: PacketSlots,
    bulk: PacketSlots,
}

impl ClientEgressLane {
    spec fn wf(&self) -> bool {
        &&& self.active_paths <= MAX_PATHS
        &&& self.latency.wf()
        &&& self.priority.wf()
        &&& self.bulk.wf()
    }

    spec fn model(&self) -> LaneModel {
        LaneModel {
            active_paths: self.active_paths as nat,
            latency: self.latency.model(),
            priority: self.priority.model(),
            bulk: self.bulk.model(),
        }
    }

    spec fn slots(&self, class: PacketClass) -> PacketSlots {
        match class {
            PacketClass::Small => self.latency,
            PacketClass::Medium => self.priority,
            PacketClass::Bulk => self.bulk,
        }
    }

    fn new() -> (r: ClientEgressLane)
        ensures
            r.wf(),
            r.model() == LaneModel::empty(),
    {
        ClientEgressLane {
            active_paths: 0,
            latency: PacketSlots::new(),
            priority: PacketSlots::new(),
            bulk: PacketSlots::new(),
        }
    }

    fn configure(&mut self, active_paths: usize)
        requires
            old(self).wf(),
        ensures
            final(self).wf(),
            final(self).model() == old(self).model().configure(active_paths as nat),
    {
        self.active_paths = bound_paths(active_paths);
        let profile = profile_for_active_paths(self.active_paths);
        self.latency.resize(profile.latency_slots);
        self.priority.resize(profile.priority_slots);
        self.bulk.resize(profile.bulk_slots);
    }

    fn queue_mut(&mut self, class: PacketClass) -> (r: &mut PacketSlots)
        requires
            old(self).wf(),
        ensures
            *r == old(self).slots(class),
            final(r).wf() ==> final(self).wf(),
            final(self).model() == old(self).model().with_queue(class, final(r).model()),
    {
        match class {
            PacketClass::Small => &mut self.latency,
            PacketClass::Medium => &mut self.priority,
            PacketClass::Bulk => &mut self.bulk,
        }
    }

    fn queue(&self, class: PacketClass) -> (r: &PacketSlots)
        ensures
            *r == self.slots(class),
    {
        match class {
            PacketClass::Small => &self.latency,
            PacketClass::Medium => &self.priority,
            PacketClass::Bulk => &self.bulk,
        }
    }

    fn clear_pending(&mut self)
        requires
            old(self).wf(),
        ensures
            final(self).wf(),
            final(self).model() == old(self).model().clear(),
    {
        self.latency.clear_pending();
        self.priority.clear_pending();
        self.bulk.clear_pending();
    }
}

/// The keys of the lanes in the order of their turns: in the bulk class as many
/// for each as it has paths, in the others one.
pub open spec fn ring(paths: Seq<nat>, class: PacketClass) -> Seq<usize>
    decreases paths.len(),
{
    if paths.len() == 0 {
        Seq::empty()
    } else {
        let key = (paths.len() - 1) as usize;
        ring(paths.drop_last(), class) + Seq::new(turns(paths.last(), class), |i: int| key)
    }
}

/// The turns of a lane in a round.
pub open spec fn turns(active_paths: nat, class: PacketClass) -> nat {
    if active_paths == 0 {
        0
    } else if class == PacketClass::Bulk {
        active_paths
    } else {
        1
    }
}

pub open spec fn occurrences(keys: Seq<usize>, key: usize) -> nat
    decreases keys.len(),
{
    if keys.len() == 0 {
        0
    } else {
        occurrences(keys.drop_last(), key) + if keys.last() == key {
            1nat
        } else {
            0
        }
    }
}

/// All lanes, and where each round stands.
#[verifier::ext_equal]
pub struct DownlinkModel {
    pub lanes: Seq<LaneModel>,
    pub latency_cursor: nat,
    pub priority_cursor: nat,
    pub bulk_cursor: nat,
}

pub open spec fn wrapped(cursor: nat, len: nat) -> nat {
    cursor % if len > 1 {
        len
    } else {
        1
    }
}

impl DownlinkModel {
    pub open spec fn paths(self) -> Seq<nat> {
        Seq::new(self.lanes.len(), |i: int| self.lanes[i].active_paths)
    }

    pub open spec fn ring(self, class: PacketClass) -> Seq<usize> {
        ring(self.paths(), class)
    }

    pub open spec fn cursor(self, class: PacketClass) -> nat {
        match class {
            PacketClass::Small => self.latency_cursor,
            PacketClass::Medium => self.priority_cursor,
            PacketClass::Bulk => self.bulk_cursor,
        }
    }

    pub open spec fn with_cursor(self, class: PacketClass, cursor: nat) -> DownlinkModel {
        match class {
            PacketClass::Small => DownlinkModel { latency_cursor: cursor, ..self },
            PacketClass::Medium => DownlinkModel { priority_cursor: cursor, ..self },
            PacketClass::Bulk => DownlinkModel { bulk_cursor: cursor, ..self },
        }
    }

    pub open spec fn cursor_wf(self, class: PacketClass) -> bool {
        self.cursor(class) < self.ring(class).len() || self.cursor(class) == 0
    }

    pub open spec fn wf(self) -> bool {
        &&& self.lanes.len() == LANES
        &&& self.cursor_wf(PacketClass::Small)
        &&& self.cursor_wf(PacketClass::Medium)
        &&& self.cursor_wf(PacketClass::Bulk)
    }

    pub open spec fn empty() -> DownlinkModel {
        DownlinkModel {
            lanes: Seq::new(LANES as nat, |i: int| LaneModel::empty()),
            latency_cursor: 0,
            priority_cursor: 0,
            bulk_cursor: 0,
        }
    }

    pub open spec fn with_lane(self, key: int, lane: LaneModel) -> DownlinkModel {
        DownlinkModel { lanes: self.lanes.update(key, lane), ..self }
    }

    pub open spec fn with_queue(
        self,
        key: int,
        class: PacketClass,
        queue: SlotsModel,
    ) -> DownlinkModel {
        self.with_lane(key, self.lanes[key].with_queue(class, queue))
    }

    /// A lane for a client with so many paths; the rounds go on where they
    /// stand.
    pub open spec fn configure(self, key: nat, active_paths: nat) -> DownlinkModel {
        if key >= LANES || self.lanes[key as int].active_paths == bounded_paths(active_paths) {
            self
        } else {
            let next = self.with_lane(key as int, self.lanes[key as int].configure(active_paths));
            DownlinkModel {
                latency_cursor: wrapped(
                    self.latency_cursor,
                    next.ring(PacketClass::Small).len(),
                ),
                priority_cursor: wrapped(
                    self.priority_cursor,
                    next.ring(PacketClass::Medium).len(),
                ),
                bulk_cursor: wrapped(self.bulk_cursor, next.ring(PacketClass::Bulk).len()),
                ..next
            }
        }
    }

    pub open spec fn takes(self, key: nat, class: PacketClass, packet: Seq<u8>) -> bool {
        key < LANES && self.lanes[key as int].active_paths != 0 && self.lanes[key as int].queue(
            class,
        ).takes(packet)
    }

    pub open spec fn enqueue(
        self,
        key: nat,
        class: PacketClass,
        packet: Seq<u8>,
    ) -> DownlinkModel {
        if self.takes(key, class, packet) {
            self.with_queue(
                key as int,
                class,
                self.lanes[key as int].queue(class).enqueue(packet),
            )
        } else {
            self
        }
    }

    /// The lane whose turn it is, and the round after that turn.
    pub open spec fn turn(self, class: PacketClass) -> (usize, DownlinkModel) {
        let cursor = self.cursor(class);
        let keys = self.ring(class);
        (
            keys[cursor as int],
            self.with_cursor(
                class,
                if cursor + 1 == keys.len() {
                    0
                } else {
                    cursor + 1
                },
            ),
        )
    }

    /// The oldest packet of the first lane in turn that has one, in so many
    /// turns.
    pub open spec fn search(self, class: PacketClass, attempts: nat) -> (
        DownlinkModel,
        Option<(usize, Seq<u8>)>,
    )
        decreases attempts,
    {
        if attempts == 0 {
            (self, None)
        } else {
            let (key, next) = self.turn(class);
            let queue = self.lanes[key as int].queue(class);
            if queue.pending.len() > 0 {
                (
                    next.with_queue(key as int, class, queue.dequeue()),
                    Some((key, queue.pending[0])),
                )
            } else {
                next.search(class, (attempts - 1) as nat)
            }
        }
    }

    pub open spec fn dequeue(self, class: PacketClass) -> (
        DownlinkModel,
        Option<(usize, Seq<u8>)>,
    ) {
        self.search(class, self.ring(class).len())
    }

    pub open spec fn requeue_front(
        self,
        key: nat,
        class: PacketClass,
        packet: Seq<u8>,
    ) -> DownlinkModel {
        if key < LANES {
            self.with_queue(
                key as int,
                class,
                self.lanes[key as int].queue(class).requeue_front(packet),
            )
        } else {
            self
        }
    }

    pub open spec fn recycle(self, key: nat, class: PacketClass) -> DownlinkModel {
        if key < LANES {
            self.with_queue(key as int, class, self.lanes[key as int].queue(class).recycle())
        } else {
            self
        }
    }

    pub open spec fn clear(self, key: nat) -> DownlinkModel {
        if key < LANES {
            self.with_lane(key as int, self.lanes[key as int].clear())
        } else {
            self
        }
    }
}

proof fn lemma_ring_keys(paths: Seq<nat>, class: PacketClass)
    requires
        paths.len() <= LANES,
    ensures
        forall|i: int|
            0 <= i < ring(paths, class).len() ==> (#[trigger] ring(paths, class)[i])
                < paths.len() && paths[ring(paths, class)[i] as int] > 0,
    decreases paths.len(),
{
    if paths.len() > 0 {
        let rest = ring(paths.drop_last(), class);
        lemma_ring_keys(paths.drop_last(), class);
        assert forall|i: int| 0 <= i < ring(paths, class).len() implies (
        #[trigger] ring(paths, class)[i]) < paths.len() && paths[ring(
            paths,
            class,
        )[i] as int] > 0 by {
            if i < rest.len() {
                assert(ring(paths, class)[i] == rest[i]);
                assert(paths.drop_last()[rest[i] as int] == paths[rest[i] as int]);
            }
        }
    }
}

/// The packets that wait for each client, and the rounds over them.
pub struct DownlinkQueue {
    lanes: Vec<ClientEgressLane>,
    latency_ring: Vec<usize>,
    priority_ring: Vec<usize>,
    bulk_ring: Vec<usize>,
    latency_cursor: usize,
    priority_cursor: usize,
    bulk_cursor: usize,
}

spec fn lane_models(lanes: Seq<ClientEgressLane>) -> Seq<LaneModel> {
    Seq::new(lanes.len(), |i: int| lanes[i].model())
}

impl View for DownlinkQueue {
    type V = DownlinkModel;

    closed spec fn view(&self) -> DownlinkModel {
        DownlinkModel {
            lanes: lane_models(self.lanes@),
            latency_cursor: self.latency_cursor as nat,
            priority_cursor: self.priority_cursor as nat,
            bulk_cursor: self.bulk_cursor as nat,
        }
    }
}

impl Default for DownlinkQueue {
    fn default() -> (r: DownlinkQueue)
        ensures
            r.wf(),
            r@ == DownlinkModel::empty(),
    {
        let mut lanes: Vec<ClientEgressLane> = Vec::new();
        let mut i: usize = 0;
        while i < LANES
            invariant
                i <= LANES,
                lanes@.len() == i,
                forall|k: int|
                    0 <= k < i ==> (#[trigger] lanes@[k]).wf() && lanes@[k].model()
                        == LaneModel::empty(),
            decreases LANES - i,
        {
            lanes.push(ClientEgressLane::new());
            i = i + 1;
        }
        let r = DownlinkQueue {
            lanes,
            latency_ring: Vec::new(),
            priority_ring: Vec::new(),
            bulk_ring: Vec::new(),
            latency_cursor: 0,
            priority_cursor: 0,
            bulk_cursor: 0,
        };
        assert(r@ =~= DownlinkModel::empty());
        proof {
            lemma_no_ring(r@.paths(), PacketClass::Small);
            lemma_no_ring(r@.paths(), PacketClass::Medium);
            lemma_no_ring(r@.paths(), PacketClass::Bulk);
        }
        r
    }
}

proof fn lemma_no_ring(paths: Seq<nat>, class: PacketClass)
    requires
        forall|i: int| 0 <= i < paths.len() ==> #[trigger] paths[i] == 0,
    ensures
        ring(paths, class) == Seq::<usize>::empty(),
    decreases paths.len(),
{
    if paths.len() > 0 {
        lemma_no_ring(paths.drop_last(), class);
        assert(ring(paths, class) =~= Seq::<usize>::empty());
    }
}

impl DownlinkQueue {
    spec fn lanes_wf(&self) -> bool {
        &&& self.lanes@.len() == LANES
        &&& forall|i: int| 0 <= i < LANES ==> (#[trigger] self.lanes@[i]).wf()
    }

    spec fn keys(&self, class: PacketClass) -> Seq<usize> {
        match class {
            PacketClass::Small => self.latency_ring@,
            PacketClass::Medium => self.priority_ring@,
            PacketClass::Bulk => self.bulk_ring@,
        }
    }

    pub closed spec fn wf(&self) -> bool {
        &&& self.lanes_wf()
        &&& self.latency_ring@ == self@.ring(PacketClass::Small)
        &&& self.priority_ring@ == self@.ring(PacketClass::Medium)
        &&& self.bulk_ring@ == self@.ring(PacketClass::Bulk)
        &&& self@.wf()
    }

    pub proof fn lemma_model_wf(&self)
        requires
            self.wf(),
        ensures
            self@.wf(),
    {
    }

    pub fn configure(&mut self, key: usize, active_paths: usize)
        requires
            old(self).wf(),
        ensures
            final(self).wf(),
            final(self)@ == old(self)@.configure(key as nat, active_paths as nat),
    {
        if key >= self.lanes.len() {
            return;
        }
        if self.lanes[key].active_paths == bound_paths(active_paths) {
            return;
        }
        let ghost before = self@;
        self.lanes[key].configure(active_paths);
        let ghost next = before.with_lane(
            key as int,
            before.lanes[key as int].configure(active_paths as nat),
        );
        assert(self@.lanes =~= next.lanes);
        self.rebuild_rings();
        assert(next.paths() =~= self@.paths());
        assert(self@ =~= before.configure(key as nat, active_paths as nat));
    }

    pub fn enqueue(&mut self, key: usize, class: PacketClass, packet: &[u8]) -> (r: bool)
        requires
            old(self).wf(),
        ensures
            final(self).wf(),
            r == old(self)@.takes(key as nat, class, packet@),
            final(self)@ == old(self)@.enqueue(key as nat, class, packet@),
    {
        if key >= self.lanes.len() || self.lanes[key].active_paths == 0 {
            return false;
        }
        let ghost before = self@;
        let r = self.lanes[key].queue_mut(class).enqueue(packet);
        assert(self@ =~= before.enqueue(key as nat, class, packet@));
        assert(self@.paths() =~= before.paths());
        r
    }

    pub fn enqueue_framed(
        &mut self,
        key: usize,
        class: PacketClass,
        header: FrameHeader,
        packet: &[u8],
    ) -> (r: bool)
        requires
            old(self).wf(),
        ensures
            final(self).wf(),
            r == old(self)@.takes(key as nat, class, header.bytes() + packet@),
            final(self)@ == old(self)@.enqueue(key as nat, class, header.bytes() + packet@),
    {
        if key >= self.lanes.len() || self.lanes[key].active_paths == 0 {
            return false;
        }
        let ghost before = self@;
        let r = self.lanes[key].queue_mut(class).enqueue_framed(header, packet);
        assert(self@ =~= before.enqueue(key as nat, class, header.bytes() + packet@));
        assert(self@.paths() =~= before.paths());
        r
    }

    /// The next packet of a class, with the client that it is for.
    pub fn dequeue(&mut self, class: PacketClass) -> (r: Option<(usize, PacketBuffer)>)
        requires
            old(self).wf(),
        ensures
            final(self).wf(),
            final(self)@ == old(self)@.dequeue(class).0,
            match r {
                Some((key, packet)) => packet.wf() && old(self)@.dequeue(class).1 == Some(
                    (key, packet@.data()),
                ),
                None => old(self)@.dequeue(class).1 is None,
            },
    {
        let ghost before = self@;
        let attempts: usize = self.ring_len(class);
        let mut i: usize = 0;
        while i < attempts
            invariant
                i <= attempts,
                attempts == self@.ring(class).len(),
                self.wf(),
                before == old(self)@,
                self@.search(class, (attempts - i) as nat) == before.dequeue(class),
            decreases attempts - i,
        {
            let ghost start = self@;
            let key: usize = match self.next_key(class) {
                Some(key) => key,
                None => {
                    return None;
                },
            };
            proof {
                lemma_ring_keys(start.paths(), class);
            }
            let ghost turned = self@;
            assert(turned.paths() =~= start.paths());
            let lane = &mut self.lanes[key];
            let taken = lane.queue_mut(class).dequeue();
            match taken {
                Some(packet) => {
                    assert(start.turn(class) == (key, turned));
                    assert(self@ =~= turned.with_queue(
                        key as int,
                        class,
                        turned.lanes[key as int].queue(class).dequeue(),
                    ));
                    assert(self@.paths() =~= start.paths());
                    return Some((key, packet));
                },
                None => {
                    assert(self@.lanes =~= turned.lanes);
                    assert(self@ =~= turned);
                },
            }
            i = i + 1;
        }
        None
    }

    /// Puts a packet back that could not be sent.
    pub fn requeue_front(&mut self, key: usize, class: PacketClass, packet: PacketBuffer)
        requires
            old(self).wf(),
            packet.wf(),
        ensures
            final(self).wf(),
            final(self)@ == old(self)@.requeue_front(key as nat, class, packet@.data()),
    {
        if key < self.lanes.len() {
            let ghost before = self@;
            self.lanes[key].queue_mut(class).requeue_front(packet);
            assert(self@ =~= before.requeue_front(key as nat, class, packet@.data()));
            assert(self@.paths() =~= before.paths());
        }
    }

    /// Gives a packet's slot back.
    pub fn recycle(&mut self, key: usize, class: PacketClass, packet: PacketBuffer)
        requires
            old(self).wf(),
            packet.wf(),
        ensures
            final(self).wf(),
            final(self)@ == old(self)@.recycle(key as nat, class),
    {
        if key < self.lanes.len() {
            let ghost before = self@;
            self.lanes[key].queue_mut(class).recycle(packet);
            assert(self@ =~= before.recycle(key as nat, class));
            assert(self@.paths() =~= before.paths());
        }
    }

    /// Drops what waits for a client.
    pub fn clear(&mut self, key: usize)
        requires
            old(self).wf(),
        ensures
            final(self).wf(),
            final(self)@ == old(self)@.clear(key as nat),
    {
        if key < self.lanes.len() {
            let ghost before = self@;
            self.lanes[key].clear_pending();
            assert(self@ =~= before.clear(key as nat));
            assert(self@.paths() =~= before.paths());
        }
    }

    fn rebuild_rings(&mut self)
        requires
            old(self).lanes_wf(),
        ensures
            final(self).wf(),
            final(self)@.lanes == old(self)@.lanes,
            final(self)@.latency_cursor == wrapped(
                old(self)@.latency_cursor,
                final(self)@.ring(PacketClass::Small).len(),
            ),
            final(self)@.priority_cursor == wrapped(
                old(self)@.priority_cursor,
                final(self)@.ring(PacketClass::Medium).len(),
            ),
            final(self)@.bulk_cursor == wrapped(
                old(self)@.bulk_cursor,
                final(self)@.ring(PacketClass::Bulk).len(),
            ),
    {
        self.latency_ring.clear();
        self.priority_ring.clear();
        self.bulk_ring.clear();
        let ghost before = *self;
        let ghost paths = self@.paths();
        assert(ring(paths.take(0), PacketClass::Small) =~= Seq::<usize>::empty());
        assert(ring(paths.take(0), PacketClass::Medium) =~= Seq::<usize>::empty());
        assert(ring(paths.take(0), PacketClass::Bulk) =~= Seq::<usize>::empty());
        let mut key: usize = 0;
        while key < LANES
            invariant
                key <= LANES,
                self.lanes_wf(),
                self.lanes == before.lanes,
                self.latency_cursor == before.latency_cursor,
                self.priority_cursor == before.priority_cursor,
                self.bulk_cursor == before.bulk_cursor,
                paths == self@.paths(),
                self.latency_ring@ == ring(paths.take(key as int), PacketClass::Small),
                self.priority_ring@ == ring(paths.take(key as int), PacketClass::Medium),
                self.bulk_ring@ == ring(paths.take(key as int), PacketClass::Bulk),
            decreases LANES - key,
        {
            let active: usize = self.lanes[key].active_paths;
            assert(paths.take(key + 1).drop_last() =~= paths.take(key as int));
            assert(paths.take(key + 1).last() == active);
            let ghost bulk = self.bulk_ring@;
            if active != 0 {
                self.latency_ring.push(key);
                self.priority_ring.push(key);
                let mut i: usize = 0;
                while i < active
                    invariant
                        i <= active,
                        self.lanes == before.lanes,
                        self.latency_cursor == before.latency_cursor,
                        self.priority_cursor == before.priority_cursor,
                        self.bulk_cursor == before.bulk_cursor,
                        self.latency_ring@ == ring(
                            paths.take(key as int),
                            PacketClass::Small,
                        ).push(key),
                        self.priority_ring@ == ring(
                            paths.take(key as int),
                            PacketClass::Medium,
                        ).push(key),
                        self.bulk_ring@ == bulk + Seq::new(i as nat, |k: int| key),
                    decreases active - i,
                {
                    self.bulk_ring.push(key);
                    i = i + 1;
                    assert(self.bulk_ring@ =~= bulk + Seq::new(i as nat, |k: int| key));
                }
            }
            assert(self.latency_ring@ =~= ring(paths.take(key + 1), PacketClass::Small));
            assert(self.priority_ring@ =~= ring(paths.take(key + 1), PacketClass::Medium));
            assert(self.bulk_ring@ =~= ring(paths.take(key + 1), PacketClass::Bulk));
            key = key + 1;
        }
        assert(paths.take(key as int) =~= paths);
        self.latency_cursor = wrap(self.latency_cursor, self.latency_ring.len());
        self.priority_cursor = wrap(self.priority_cursor, self.priority_ring.len());
        self.bulk_cursor = wrap(self.bulk_cursor, self.bulk_ring.len());
        assert(self@.paths() =~= paths);
    }

    fn ring_len(&self, class: PacketClass) -> (r: usize)
        requires
            self.wf(),
        ensures
            r == self@.ring(class).len(),
    {
        match class {
            PacketClass::Small => self.latency_ring.len(),
            PacketClass::Medium => self.priority_ring.len(),
            PacketClass::Bulk => self.bulk_ring.len(),
        }
    }

    fn next_key(&mut self, class: PacketClass) -> (r: Option<usize>)
        requires
            old(self).wf(),
        ensures
            final(self).wf(),
            final(self).lanes@ == old(self).lanes@,
            match r {
                Some(key) => old(self)@.ring(class).len() > 0 && (key, final(self)@) == old(
                    self,
                )@.turn(class),
                None => old(self)@.ring(class).len() == 0 && final(self)@ == old(self)@,
            },
    {
        let ghost before = self@;
        let r = match class {
            PacketClass::Small => step(&self.latency_ring, &mut self.latency_cursor),
            PacketClass::Medium => step(&self.priority_ring, &mut self.priority_cursor),
            PacketClass::Bulk => step(&self.bulk_ring, &mut self.bulk_cursor),
        };
        assert(self@.paths() =~= before.paths());
        assert(r is Some ==> self@ =~= before.turn(class).1);
        r
    }

    pub fn pending_len(&self, key: usize, class: PacketClass) -> (r: usize)
        requires
            self.wf(),
        ensures
            r == if key < LANES {
                self@.lanes[key as int].queue(class).pending.len()
            } else {
                0
            },
    {
        if key < self.lanes.len() {
            self.lanes[key].queue(class).pending_len()
        } else {
            0
        }
    }
}

fn wrap(cursor: usize, len: usize) -> (r: usize)
    ensures
        r == wrapped(cursor as nat, len as nat),
        r < len || r == 0,
{
    if len > 1 {
        cursor % len
    } else {
        assert(cursor as nat % 1 == 0);
        0
    }
}

fn step(keys: &Vec<usize>, cursor: &mut usize) -> (r: Option<usize>)
    requires
        *old(cursor) < keys@.len() || *old(cursor) == 0,
    ensures
        match r {
            Some(key) => {
                &&& keys@.len() > 0
                &&& key == keys@[*old(cursor) as int]
                &&& *final(cursor) == if *old(cursor) + 1 == keys@.len() {
                    0
                } else {
                    *old(cursor) + 1
                }
            },
            None => keys@.len() == 0 && *final(cursor) == *old(cursor),
        },
{
    if *cursor >= keys.len() {
        return None;
    }
    let key: usize = keys[*cursor];
    *cursor = *cursor + 1;
    if *cursor == keys.len() {
        *cursor = 0;
    }
    Some(key)
}

proof fn lemma_occurrences_add(a: Seq<usize>, b: Seq<usize>, key: usize)
    ensures
        occurrences(a + b, key) == occurrences(a, key) + occurrences(b, key),
    decreases b.len(),
{
    if b.len() == 0 {
        assert(a + b =~= a);
    } else {
        assert((a + b).drop_last() =~= a + b.drop_last());
        lemma_occurrences_add(a, b.drop_last(), key);
    }
}

proof fn lemma_occurrences_same(n: nat, value: usize, key: usize)
    ensures
        occurrences(Seq::new(n, |i: int| value), key) == if value == key {
            n
        } else {
            0
        },
    decreases n,
{
    if n > 0 {
        let all = Seq::new(n, |i: int| value);
        assert(all.drop_last() =~= Seq::new((n - 1) as nat, |i: int| value));
        lemma_occurrences_same((n - 1) as nat, value, key);
    }
}

/// In a round of the bulk class a client has as many turns as paths, and in one
/// of the other classes one turn, if it has a path at all.
pub proof fn law_turns_are_weighted(paths: Seq<nat>, class: PacketClass, key: usize)
    requires
        paths.len() <= LANES,
    ensures
        occurrences(ring(paths, class), key) == if key < paths.len() {
            turns(paths[key as int], class)
        } else {
            0
        },
    decreases paths.len(),
{
    if paths.len() > 0 {
        let last = (paths.len() - 1) as usize;
        law_turns_are_weighted(paths.drop_last(), class, key);
        let own = Seq::new(turns(paths.last(), class), |i: int| last);
        lemma_occurrences_add(ring(paths.drop_last(), class), own, key);
        lemma_occurrences_same(turns(paths.last(), class), last, key);
    }
}

proof fn lemma_has_turn(paths: Seq<nat>, class: PacketClass, key: usize) -> (at: int)
    requires
        paths.len() <= LANES,
        key < paths.len(),
        paths[key as int] > 0,
    ensures
        0 <= at < ring(paths, class).len(),
        ring(paths, class)[at] == key,
    decreases paths.len(),
{
    if key == paths.len() - 1 {
        ring(paths.drop_last(), class).len() as int
    } else {
        lemma_has_turn(paths.drop_last(), class, key)
    }
}

/// The cursor after a number of turns.
spec fn turned(cursor: nat, by: nat, len: nat) -> nat {
    if cursor + by < len {
        cursor + by
    } else {
        (cursor + by - len) as nat
    }
}

/// What a search does: it skips the turns of empty lanes, and the packet that it
/// finds is the oldest of its lane.
proof fn lemma_search(model: DownlinkModel, class: PacketClass, attempts: nat)
    requires
        model.wf(),
        attempts <= model.ring(class).len(),
    ensures
        ({
            let (after, found) = model.search(class, attempts);
            let len = model.ring(class).len();
            match found {
                None => {
                    &&& attempts > 0 ==> after == model.with_cursor(
                        class,
                        turned(model.cursor(class), attempts, len),
                    )
                    &&& attempts == 0 ==> after == model
                    &&& forall|k: nat|
                        k < attempts ==> #[trigger] model.lanes[model.ring(class)[turned(
                            model.cursor(class),
                            k,
                            len,
                        ) as int] as int].queue(class).pending.len() == 0
                },
                Some((key, packet)) => {
                    let queue = model.lanes[key as int].queue(class);
                    &&& key < LANES
                    &&& model.lanes[key as int].active_paths > 0
                    &&& queue.pending.len() > 0
                    &&& packet == queue.pending[0]
                    &&& after.lanes == model.with_queue(
                        key as int,
                        class,
                        queue.dequeue(),
                    ).lanes
                },
            }
        }),
    decreases attempts,
{
    if attempts > 0 {
        let len = model.ring(class).len();
        let (key, next) = model.turn(class);
        lemma_ring_keys(model.paths(), class);
        assert(model.ring(class)[model.cursor(class) as int] == key);
        assert(model.paths()[key as int] == model.lanes[key as int].active_paths);
        assert(next.paths() =~= model.paths());
        if model.lanes[key as int].queue(class).pending.len() == 0 {
            lemma_search(next, class, (attempts - 1) as nat);
            let (after, found) = model.search(class, attempts);
            if found is None {
                assert forall|k: nat| k < attempts implies #[trigger] model.lanes[model.ring(
                    class,
                )[turned(model.cursor(class), k, len) as int] as int].queue(
                    class,
                ).pending.len() == 0 by {
                    if k > 0 {
                        let j = (k - 1) as nat;
                        assert(turned(next.cursor(class), j, len) == turned(
                            model.cursor(class),
                            k,
                            len,
                        ));
                        assert(next.lanes[next.ring(class)[turned(
                            next.cursor(class),
                            j,
                            len,
                        ) as int] as int].queue(class).pending.len() == 0);
                    }
                }
                assert(after =~= model.with_cursor(
                    class,
                    turned(model.cursor(class), attempts, len),
                ));
            }
        }
    }
}

/// A packet that waits for a client with a path is never passed over: where one
/// does, a packet comes out.
pub proof fn law_nothing_is_passed_over(model: DownlinkModel, class: PacketClass, key: usize)
    requires
        model.wf(),
        key < LANES,
        model.lanes[key as int].active_paths > 0,
        model.lanes[key as int].queue(class).pending.len() > 0,
    ensures
        model.dequeue(class).1 is Some,
{
    let len = model.ring(class).len();
    lemma_search(model, class, len);
    let at = lemma_has_turn(model.paths(), class, key);
    if model.dequeue(class).1 is None {
        let cursor = model.cursor(class);
        let k = if at >= cursor {
            (at - cursor) as nat
        } else {
            (at + len - cursor) as nat
        };
        assert(turned(cursor, k, len) == at);
        assert(model.lanes[model.ring(class)[turned(cursor, k, len) as int] as int].queue(
            class,
        ).pending.len() == 0);
    }
}

/// What comes out is the oldest packet of its lane, which is that of a client with
/// a path, and no other lane changes; where nothing comes out, nothing changes at
/// all.
pub proof fn law_oldest_packet_leaves(model: DownlinkModel, class: PacketClass)
    requires
        model.wf(),
    ensures
        match model.dequeue(class).1 {
            Some((key, packet)) => {
                let queue = model.lanes[key as int].queue(class);
                &&& key < LANES
                &&& model.lanes[key as int].active_paths > 0
                &&& queue.pending.len() > 0
                &&& packet == queue.pending[0]
                &&& model.dequeue(class).0.lanes == model.with_queue(
                    key as int,
                    class,
                    queue.dequeue(),
                ).lanes
            },
            None => model.dequeue(class).0 == model,
        },
{
    lemma_search(model, class, model.ring(class).len());
    let cursor = model.cursor(class);
    let len = model.ring(class).len();
    if model.dequeue(class).1 is None && len > 0 {
        assert(turned(cursor, len, len) == cursor);
        assert(model.with_cursor(class, cursor) =~= model);
    }
}

/// The client whose turn it is and who has a packet is served, and the turn
/// passes on to the next.
pub proof fn law_turns_follow_the_ring(model: DownlinkModel, class: PacketClass)
    requires
        model.wf(),
        model.ring(class).len() > 0,
        model.lanes[model.turn(class).0 as int].queue(class).pending.len() > 0,
    ensures
        model.dequeue(class).1 is Some,
        (model.dequeue(class).1->Some_0).0 == model.ring(class)[model.cursor(class) as int],
        model.dequeue(class).0.cursor(class) == if model.cursor(class) + 1 == model.ring(
            class,
        ).len() {
            0
        } else {
            model.cursor(class) + 1
        },
{
}

/// A packet waits for every client with a path.
pub open spec fn all_wait(model: DownlinkModel, class: PacketClass) -> bool {
    forall|key: int|
        0 <= key < LANES && (#[trigger] model.lanes[key]).active_paths > 0 ==> model.lanes[key].queue(
            class,
        ).pending.len() > 0
}

/// The queue before each of some packets is taken out of it: between two of them
/// no client was configured, so that the round goes on where it stood, and every
/// client with a path has a packet each time.
pub open spec fn is_busy_run(models: Seq<DownlinkModel>, class: PacketClass) -> bool {
    &&& forall|i: int|
        0 <= i < models.len() ==> (#[trigger] models[i]).wf() && models[i].paths()
            == models[0].paths() && all_wait(models[i], class)
    &&& forall|i: int, j: int|
        0 <= i && j == i + 1 && j < models.len() ==> (#[trigger] models[j]).cursor(class) == (
        #[trigger] models[i]).dequeue(class).0.cursor(class)
}

/// The clients that are served in a run.
pub open spec fn served(models: Seq<DownlinkModel>, class: PacketClass) -> Seq<usize> {
    Seq::new(models.len(), |i: int| (models[i].dequeue(class).1->Some_0).0)
}

proof fn lemma_busy_turn(model: DownlinkModel, class: PacketClass)
    requires
        model.wf(),
        all_wait(model, class),
        model.ring(class).len() > 0,
    ensures
        model.cursor(class) < model.ring(class).len(),
        model.dequeue(class).1 is Some,
        (model.dequeue(class).1->Some_0).0 == model.ring(class)[model.cursor(class) as int],
        model.dequeue(class).0.cursor(class) == turned(
            model.cursor(class),
            1,
            model.ring(class).len(),
        ),
{
    let key = model.turn(class).0;
    lemma_ring_keys(model.paths(), class);
    assert(model.ring(class)[model.cursor(class) as int] == key);
    assert(model.paths()[key as int] == model.lanes[key as int].active_paths);
    law_turns_follow_the_ring(model, class);
}

proof fn lemma_busy_cursor(models: Seq<DownlinkModel>, class: PacketClass, i: int)
    requires
        is_busy_run(models, class),
        0 <= i < models.len(),
        i < models[0].ring(class).len(),
    ensures
        models[i].ring(class) == models[0].ring(class),
        models[i].cursor(class) == turned(
            models[0].cursor(class),
            i as nat,
            models[0].ring(class).len(),
        ),
        models[i].dequeue(class).1 is Some,
        served(models, class)[i] == models[0].ring(class)[models[i].cursor(class) as int],
    decreases i,
{
    assert(models[i].paths() == models[0].paths());
    assert(models[0].wf());
    if i > 0 {
        lemma_busy_cursor(models, class, i - 1);
        lemma_busy_turn(models[i - 1], class);
        assert(models[i].cursor(class) == models[i - 1].dequeue(class).0.cursor(class));
    }
    lemma_busy_turn(models[i], class);
}

/// While every client with a path has packets, a whole round serves each as often
/// as it has turns: in the bulk class as often as it has paths, in the others once.
pub proof fn law_round_is_shared_by_weight(
    models: Seq<DownlinkModel>,
    class: PacketClass,
    key: usize,
)
    requires
        models.len() > 0,
        models.len() == models[0].ring(class).len(),
        is_busy_run(models, class),
        key < LANES,
    ensures
        forall|i: int|
            0 <= i < models.len() ==> (#[trigger] models[i].dequeue(class)).1 is Some,
        occurrences(served(models, class), key) == turns(
            models[0].lanes[key as int].active_paths,
            class,
        ),
{
    let keys = models[0].ring(class);
    let len = keys.len() as int;
    let cursor = models[0].cursor(class) as int;
    assert(models[0].wf());
    lemma_busy_cursor(models, class, 0);
    lemma_busy_turn(models[0], class);
    assert forall|i: int| 0 <= i < models.len() implies (#[trigger] models[i].dequeue(
        class,
    )).1 is Some by {
        lemma_busy_cursor(models, class, i);
    }
    let rolled = keys.skip(cursor) + keys.take(cursor);
    assert forall|i: int| 0 <= i < len implies served(models, class)[i] == rolled[i] by {
        lemma_busy_cursor(models, class, i);
    }
    assert(served(models, class) =~= rolled);
    lemma_occurrences_add(keys.skip(cursor), keys.take(cursor), key);
    lemma_occurrences_add(keys.take(cursor), keys.skip(cursor), key);
    assert(keys.take(cursor) + keys.skip(cursor) =~= keys);
    law_turns_are_weighted(models[0].paths(), class, key);
}

/// Only configuring a client moves the rounds or changes their turns: taking
/// packets in, putting them back, recycling slots and clearing a lane do not.
pub proof fn law_rounds_go_on(
    model: DownlinkModel,
    key: nat,
    class: PacketClass,
    other: PacketClass,
    packet: Seq<u8>,
)
    ensures
        model.enqueue(key, class, packet).cursor(other) == model.cursor(other),
        model.requeue_front(key, class, packet).cursor(other) == model.cursor(other),
        model.recycle(key, class).cursor(other) == model.cursor(other),
        model.clear(key).cursor(other) == model.cursor(other),
        model.lanes.len() == LANES ==> {
            &&& model.enqueue(key, class, packet).paths() == model.paths()
            &&& model.requeue_front(key, class, packet).paths() == model.paths()
            &&& model.recycle(key, class).paths() == model.paths()
            &&& model.clear(key).paths() == model.paths()
        },
{
    if model.lanes.len() == LANES {
        assert(model.enqueue(key, class, packet).paths() =~= model.paths());
        assert(model.requeue_front(key, class, packet).paths() =~= model.paths());
        assert(model.recycle(key, class).paths() =~= model.paths());
        assert(model.clear(key).paths() =~= model.paths());
    }
}

/// A lane that was configured has exactly its slots, and keeps its oldest
/// packets; no other lane changes.
pub proof fn law_configured_lane_has_its_slots(
    model: DownlinkModel,
    key: nat,
    active_paths: nat,
    class: PacketClass,
)
    requires
        model.wf(),
        key < LANES,
        model.lanes[key as int].active_paths != bounded_paths(active_paths),
    ensures
        ({
            let before = model.lanes[key as int].queue(class).pending;
            let after = model.configure(key, active_paths).lanes[key as int].queue(class);
            let slots = slots_for(active_paths, class);
            &&& after.free + after.pending.len() == slots
            &&& after.pending == before.take(
                if before.len() < slots {
                    before.len() as int
                } else {
                    slots
                },
            )
        }),
        forall|other: int|
            0 <= other < LANES && other != key ==> #[trigger] model.configure(
                key,
                active_paths,
            ).lanes[other] == model.lanes[other],
{
    let before = model.lanes[key as int].queue(class).pending;
    assert(before.take(before.len() as int) =~= before);
}

/// What one client's packets do to the slots is no concern of another's.
pub proof fn law_lanes_are_isolated(
    model: DownlinkModel,
    key: nat,
    class: PacketClass,
    packet: Seq<u8>,
    other: int,
)
    requires
        model.wf(),
        0 <= other < LANES,
        other != key,
    ensures
        model.enqueue(key, class, packet).lanes[other] == model.lanes[other],
        model.clear(key).lanes[other] == model.lanes[other],
        model.recycle(key, class).lanes[other] == model.lanes[other],
{
}

} // verus!
