//! The server's packet buffers and the bounded pool that they come from.

use vstd::prelude::*;
use bytes::BytesMut;
use crossbeam_queue::ArrayQueue;
use crate::shared::buffers::{
    buffer_bytes, buffer_len, buffer_slice, buffer_slice_mut, buffer_zeroed, queue_buffers,
    queue_capacity, queue_new, queue_pop, queue_push, queue_room,
};
use crate::wire::put_bytes;

verus! {

pub const PACKET_CAPACITY: usize = 1600;
pub const UDP_TX_SLOTS: usize = 4096;
pub const TUN_TX_SLOTS: usize = 1024;
pub const TUN_MTU: u16 = 1300;
pub const PACKET_POOL_RETAINED_MAX: usize = 256;

/// A buffer for every slot of the two send queues.
pub fn packet_pool_size() -> (r: usize)
    ensures
        r == UDP_TX_SLOTS + TUN_TX_SLOTS,
{
    UDP_TX_SLOTS + TUN_TX_SLOTS
}

/// What a pool is: the buffers that it may have, those that it has, and the idle
/// ones among them.
#[verifier::ext_equal]
pub struct PoolModel {
    pub capacity: nat,
    pub allocated: nat,
    pub idle: Seq<Seq<u8>>,
}

impl PoolModel {
    /// The buffers that may wait idle.
    pub open spec fn idle_limit(self) -> nat {
        if self.capacity < PACKET_POOL_RETAINED_MAX {
            self.capacity
        } else {
            PACKET_POOL_RETAINED_MAX as nat
        }
    }

    pub open spec fn wf(self) -> bool {
        &&& 0 < self.capacity
        &&& self.idle.len() <= self.allocated <= self.capacity
        &&& self.idle.len() <= self.idle_limit()
        &&& forall|i: int|
            0 <= i < self.idle.len() ==> (#[trigger] self.idle[i]).len() == PACKET_CAPACITY
    }

    /// The buffers that are out.
    pub open spec fn out(self) -> int {
        self.allocated - self.idle.len()
    }

    pub open spec fn acquire(self) -> Option<(PoolModel, Seq<u8>)> {
        if self.idle.len() > 0 {
            Some((PoolModel { idle: self.idle.skip(1), ..self }, self.idle[0]))
        } else if self.allocated < self.capacity {
            Some(
                (
                    PoolModel { allocated: self.allocated + 1, ..self },
                    Seq::new(PACKET_CAPACITY as nat, |i: int| 0u8),
                ),
            )
        } else {
            None
        }
    }

    pub open spec fn release(self, bytes: Seq<u8>) -> PoolModel {
        if bytes.len() == PACKET_CAPACITY && self.idle.len() < self.idle_limit() {
            PoolModel { idle: self.idle.push(bytes), ..self }
        } else {
            PoolModel { allocated: (self.allocated - 1) as nat, ..self }
        }
    }
}

/// A bounded pool of packet buffers.
pub struct PacketPool {
    queue: ArrayQueue<BytesMut>,
    allocated: usize,
    retained: usize,
    retained_limit: usize,
}

#[derive(Clone, Copy, Debug, PartialEq, Eq, Structural)]
pub struct PacketPoolSnapshot {
    pub capacity: usize,
    pub allocated: usize,
    pub retained: usize,
}

impl Default for PacketPoolSnapshot {
    fn default() -> (r: PacketPoolSnapshot)
        ensures
            r == (PacketPoolSnapshot { capacity: 0, allocated: 0, retained: 0 }),
    {
        PacketPoolSnapshot { capacity: 0, allocated: 0, retained: 0 }
    }
}

impl View for PacketPool {
    type V = PoolModel;

    closed spec fn view(&self) -> PoolModel {
        PoolModel {
            capacity: queue_room(self.queue),
            allocated: self.allocated as nat,
            idle: queue_buffers(self.queue),
        }
    }
}

impl PacketPool {
    pub closed spec fn wf(&self) -> bool {
        &&& self@.wf()
        &&& self.retained == self@.idle.len()
        &&& self.retained_limit == self@.idle_limit()
    }

    pub proof fn lemma_model_wf(&self)
        requires
            self.wf(),
        ensures
            self@.wf(),
    {
    }

    /// A pool of the given number of buffers, at least one, none of them made
    /// yet.
    pub fn new(buffers: usize) -> (r: PacketPool)
        requires
            buffers <= u32::MAX,
        ensures
            r.wf(),
            r@.capacity == if buffers > 0 {
                buffers as nat
            } else {
                1
            },
            r@.allocated == 0,
            r@.idle.len() == 0,
    {
        let capacity: usize = if buffers > 0 {
            buffers
        } else {
            1
        };
        let retained_limit: usize = if capacity < PACKET_POOL_RETAINED_MAX {
            capacity
        } else {
            PACKET_POOL_RETAINED_MAX
        };
        PacketPool { queue: queue_new(capacity), allocated: 0, retained: 0, retained_limit }
    }

    /// An empty packet, as long as the budget allows one.
    pub fn try_acquire(&mut self) -> (r: Option<PacketBuf>)
        requires
            old(self).wf(),
        ensures
            final(self).wf(),
            match r {
                Some(packet) => {
                    &&& old(self)@.acquire() == Some((final(self)@, packet@.bytes))
                    &&& packet.wf()
                    &&& packet@.len == 0
                },
                None => old(self)@.acquire() is None && final(self)@ == old(self)@,
            },
    {
        let ghost before = self@;
        let storage = match queue_pop(&mut self.queue) {
            Some(storage) => {
                self.retained = self.retained - 1;
                storage
            },
            None => {
                if self.allocated >= queue_capacity(&self.queue) {
                    assert(self@ =~= before);
                    return None;
                }
                self.allocated = self.allocated + 1;
                buffer_zeroed(PACKET_CAPACITY)
            },
        };
        assert(before.acquire()->Some_0.0 =~= self@);
        assert forall|i: int| 0 <= i < self@.idle.len() implies (#[trigger] self@.idle[i]).len()
            == PACKET_CAPACITY by {
            if before.idle.len() > 0 {
                assert(self@.idle[i] == before.idle[i + 1]);
            }
        }
        Some(PacketBuf { storage, len: 0 })
    }

    pub fn snapshot(&self) -> (r: PacketPoolSnapshot)
        requires
            self.wf(),
        ensures
            r.capacity == self@.capacity,
            r.allocated == self@.allocated,
            r.retained == self@.idle.len(),
    {
        PacketPoolSnapshot {
            capacity: queue_capacity(&self.queue),
            allocated: self.allocated,
            retained: self.retained,
        }
    }

    /// Takes a packet's buffer back.
    pub fn release(&mut self, packet: PacketBuf)
        requires
            old(self).wf(),
            old(self)@.out() > 0,
        ensures
            final(self).wf(),
            final(self)@ == old(self)@.release(packet@.bytes),
    {
        let ghost before = self@;
        let storage = packet.storage;
        let ghost bytes = buffer_bytes(storage);
        if buffer_len(&storage) != PACKET_CAPACITY {
            self.allocated = self.allocated - 1;
            assert(self@ =~= before.release(bytes));
            return;
        }
        if self.retained >= self.retained_limit {
            self.allocated = self.allocated - 1;
            assert(self@ =~= before.release(bytes));
            return;
        }
        self.retained = self.retained + 1;
        match queue_push(&mut self.queue, storage) {
            Ok(()) => {},
            Err(_) => {
                self.retained = self.retained - 1;
                self.allocated = self.allocated - 1;
            },
        }
        assert(self@ =~= before.release(bytes));
    }
}

/// Taking a buffer and giving it back leaves as many out as before, and a buffer
/// is to be had exactly while fewer are out than the capacity.
pub proof fn law_pool_recovers(pool: PoolModel, bytes: Seq<u8>)
    requires
        pool.wf(),
    ensures
        pool.acquire() is Some <==> pool.out() < pool.capacity,
        pool.acquire() is Some ==> {
            let taken = pool.acquire()->Some_0.0;
            &&& taken.wf()
            &&& taken.out() == pool.out() + 1
            &&& taken.release(bytes).wf()
            &&& taken.release(bytes).out() == pool.out()
        },
        pool.idle.len() <= PACKET_POOL_RETAINED_MAX,
{
    if pool.acquire() is Some {
        let taken = pool.acquire()->Some_0.0;
        assert forall|i: int| 0 <= i < taken.idle.len() implies (#[trigger] taken.idle[i]).len()
            == PACKET_CAPACITY by {
            if pool.idle.len() > 0 {
                assert(taken.idle[i] == pool.idle[i + 1]);
            }
        }
    }
}

/// A packet at the start of its buffer.
#[verifier::ext_equal]
pub struct PacketModel {
    pub bytes: Seq<u8>,
    pub len: nat,
}

impl PacketModel {
    pub open spec fn wf(self) -> bool {
        self.bytes.len() == PACKET_CAPACITY && self.len <= PACKET_CAPACITY
    }

    pub open spec fn data(self) -> Seq<u8> {
        self.bytes.take(self.len as int)
    }

    /// The packet after its length was set.
    pub open spec fn set_len(self, len: nat) -> PacketModel {
        if len <= PACKET_CAPACITY {
            PacketModel { len, ..self }
        } else {
            self
        }
    }

    /// The packet after it was replaced, if the new one fits.
    pub open spec fn copy_from(self, data: Seq<u8>) -> PacketModel {
        if data.len() <= PACKET_CAPACITY {
            PacketModel { bytes: data + self.bytes.skip(data.len() as int), len: data.len() }
        } else {
            self
        }
    }
}

/// What was copied in is the packet.
pub proof fn law_copy_reads_back(packet: PacketModel, data: Seq<u8>)
    requires
        packet.wf(),
        data.len() <= PACKET_CAPACITY,
    ensures
        packet.copy_from(data).wf(),
        packet.copy_from(data).data() == data,
{
    assert(packet.copy_from(data).data() =~= data);
}

/// A packet in a buffer of the pool.
pub struct PacketBuf {
    storage: BytesMut,
    len: usize,
}

impl View for PacketBuf {
    type V = PacketModel;

    closed spec fn view(&self) -> PacketModel {
        PacketModel { bytes: buffer_bytes(self.storage), len: self.len as nat }
    }
}

impl PacketBuf {
    pub open spec fn wf(&self) -> bool {
        self@.wf()
    }

    pub fn len(&self) -> (r: usize)
        ensures
            r == self@.len,
    {
        self.len
    }

    pub fn as_slice(&self) -> (r: &[u8])
        requires
            self.wf(),
        ensures
            r@ == self@.data(),
    {
        vstd::slice::slice_subrange(buffer_slice(&self.storage), 0, self.len)
    }

    /// The whole buffer, for writing.
    pub fn storage_mut(&mut self) -> (r: &mut [u8])
        requires
            old(self).wf(),
        ensures
            r@ == old(self)@.bytes,
            final(self).wf(),
            final(self)@ == (PacketModel { bytes: final(r)@, ..old(self)@ }),
    {
        buffer_slice_mut(&mut self.storage)
    }

    pub fn set_len(&mut self, len: usize) -> (r: bool)
        requires
            old(self).wf(),
        ensures
            r == (len <= PACKET_CAPACITY),
            final(self)@ == old(self)@.set_len(len as nat),
            final(self).wf(),
    {
        if len > PACKET_CAPACITY {
            return false;
        }
        self.len = len;
        true
    }

    pub fn copy_from(&mut self, data: &[u8]) -> (r: bool)
        requires
            old(self).wf(),
        ensures
            r == (data@.len() <= PACKET_CAPACITY),
            final(self)@ == old(self)@.copy_from(data@),
            final(self).wf(),
    {
        if data.len() > PACKET_CAPACITY {
            return false;
        }
        let ghost before = self@;
        put_bytes(buffer_slice_mut(&mut self.storage), 0, data);
        self.len = data.len();
        assert(self@ =~= before.copy_from(data@));
        true
    }
}

/// A packet in a buffer of its own.
pub struct PacketBuffer {
    bytes: Vec<u8>,
    len: usize,
}

impl View for PacketBuffer {
    type V = PacketModel;

    closed spec fn view(&self) -> PacketModel {
        PacketModel { bytes: self.bytes@, len: self.len as nat }
    }
}

impl PacketBuffer {
    pub open spec fn wf(&self) -> bool {
        self@.wf()
    }

    pub fn new() -> (r: PacketBuffer)
        ensures
            r.wf(),
            r@.len == 0,
            r@.bytes == Seq::new(PACKET_CAPACITY as nat, |i: int| 0u8),
    {
        let bytes: Vec<u8> = vec![0u8; PACKET_CAPACITY];
        let r = PacketBuffer { bytes, len: 0 };
        assert(r@.bytes =~= Seq::new(PACKET_CAPACITY as nat, |i: int| 0u8));
        r
    }

    pub fn capacity(&self) -> (r: usize)
        ensures
            r == PACKET_CAPACITY,
    {
        PACKET_CAPACITY
    }

    pub fn as_slice(&self) -> (r: &[u8])
        requires
            self.wf(),
        ensures
            r@ == self@.data(),
    {
        vstd::slice::slice_subrange(self.bytes.as_slice(), 0, self.len)
    }

    /// The packet, for writing.
    pub fn as_mut_slice(&mut self) -> (r: &mut [u8])
        requires
            old(self).wf(),
        ensures
            r@ == old(self)@.data(),
            final(self)@ == (PacketModel {
                bytes: final(r)@ + old(self)@.bytes.skip(old(self)@.len as int),
                ..old(self)@
            }),
            final(r)@.len() == r@.len() ==> final(self).wf(),
    {
        let len: usize = self.len;
        let (head, _) = self.bytes.as_mut_slice().split_at_mut(len);
        head
    }

    pub fn set_len(&mut self, len: usize) -> (r: bool)
        requires
            old(self).wf(),
        ensures
            r == (len <= PACKET_CAPACITY),
            final(self)@ == old(self)@.set_len(len as nat),
            final(self).wf(),
    {
        if len > PACKET_CAPACITY {
            return false;
        }
        self.len = len;
        true
    }

    pub fn copy_from(&mut self, data: &[u8]) -> (r: bool)
        requires
            old(self).wf(),
        ensures
            r == (data@.len() <= PACKET_CAPACITY),
            final(self)@ == old(self)@.copy_from(data@),
            final(self).wf(),
    {
        if data.len() > PACKET_CAPACITY {
            return false;
        }
        let ghost before = self@;
        put_bytes(self.bytes.as_mut_slice(), 0, data);
        self.len = data.len();
        assert(self@ =~= before.copy_from(data@));
        true
    }
}

impl Default for PacketBuffer {
    fn default() -> (r: PacketBuffer)
        ensures
            r.wf(),
            r@.len == 0,
            r@.bytes == Seq::new(PACKET_CAPACITY as nat, |i: int| 0u8),
    {
        PacketBuffer::new()
    }
}

/// Where an IPv4 packet goes.
pub open spec fn destination_spec(packet: Seq<u8>) -> Option<Seq<u8>> {
    if packet.len() >= 20 && packet[0] / 16 == 4 {
        Some(packet.subrange(16, 20))
    } else {
        None
    }
}

pub fn extract_dst_ipv4(packet: &[u8]) -> (r: Option<[u8; 4]>)
    ensures
        match r {
            Some(address) => destination_spec(packet@) == Some(address@),
            None => destination_spec(packet@) is None,
        },
{
    if packet.len() < 20 || packet[0] / 16 != 4 {
        return None;
    }
    let address: [u8; 4] = [packet[16], packet[17], packet[18], packet[19]];
    assert(address@ =~= packet@.subrange(16, 20));
    Some(address)
}

} // verus!
