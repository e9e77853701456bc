//! Packet buffers with room before and after the packet, and the bounded pool
//! that they come from.

use vstd::prelude::*;
use std::ops::Range;
use bytes::BytesMut;
use crossbeam_queue::ArrayQueue;
use crate::shared::buffers::{
    buffer_bytes, buffer_len, buffer_slice, buffer_slice_mut, buffer_zeroed, queue_buffers,
    queue_len, queue_new, queue_pop, queue_push, queue_room,
};

verus! {

pub const PACKET_HEADROOM: usize = 64;
pub const PACKET_CAPACITY: usize = 2304;
pub const PACKET_POOL_PER_WORKER: usize = 256;
pub const PACKET_POOL_SHARED: usize = 512;
pub const PACKET_POOL_RETAINED_MAX: usize = 2048;

/// The buffers that a number of workers need; at most what an index can count.
pub open spec fn packet_pool_size_spec(workers: int) -> int {
    let size = workers * PACKET_POOL_PER_WORKER + PACKET_POOL_SHARED;
    if size > usize::MAX {
        usize::MAX as int
    } else {
        size
    }
}

pub fn packet_pool_size(workers: usize) -> (r: usize)
    ensures
        r == packet_pool_size_spec(workers as int),
{
    if workers > usize::MAX / PACKET_POOL_PER_WORKER {
        usize::MAX
    } else {
        (workers * PACKET_POOL_PER_WORKER).saturating_add(PACKET_POOL_SHARED)
    }
}

/// What a pool is: how many buffers it may have out and idle together, how many
/// it has, and the idle ones.
#[verifier::ext_equal]
pub struct PoolModel {
    pub limit: nat,
    pub allocated: nat,
    pub idle: Seq<Seq<u8>>,
    pub idle_room: nat,
}

impl PoolModel {
    pub open spec fn wf(self) -> bool {
        &&& self.idle.len() <= self.allocated <= self.limit
        &&& 0 < self.limit <= usize::MAX
        &&& self.idle.len() <= self.idle_room
        &&& self.idle_room == if self.limit < PACKET_POOL_RETAINED_MAX {
            self.limit
        } else {
            PACKET_POOL_RETAINED_MAX as nat
        }
        &&& forall|i: int|
            0 <= i < self.idle.len() ==> (#[trigger] self.idle[i]).len() == PACKET_CAPACITY
    }

    /// The buffers that are out.
    pub open spec fn out(self) -> int {
        self.allocated - self.idle.len()
    }

    /// The buffers that can still be had.
    pub open spec fn available(self) -> int {
        self.limit - self.out()
    }

    /// A buffer is taken: an idle one, or a new one while the limit allows it.
    pub open spec fn acquire(self) -> Option<(PoolModel, Seq<u8>)> {
        if self.idle.len() > 0 {
            Some((PoolModel { idle: self.idle.skip(1), ..self }, self.idle[0]))
        } else if self.allocated < self.limit {
            Some(
                (
                    PoolModel { allocated: self.allocated + 1, ..self },
                    Seq::new(PACKET_CAPACITY as nat, |i: int| 0u8),
                ),
            )
        } else {
            None
        }
    }

    /// A buffer comes back: it is kept if it still has its size and there is
    /// room for it.
    pub open spec fn release(self, bytes: Seq<u8>) -> PoolModel {
        if bytes.len() == PACKET_CAPACITY && self.idle.len() < self.idle_room {
            PoolModel { idle: self.idle.push(bytes), ..self }
        } else {
            PoolModel { allocated: (self.allocated - 1) as nat, ..self }
        }
    }
}

/// A bounded pool of packet buffers.
pub struct PacketPool {
    queue: ArrayQueue<BytesMut>,
    allocated: usize,
    allocation_limit: usize,
}

impl View for PacketPool {
    type V = PoolModel;

    closed spec fn view(&self) -> PoolModel {
        PoolModel {
            limit: self.allocation_limit as nat,
            allocated: self.allocated as nat,
            idle: queue_buffers(self.queue),
            idle_room: queue_room(self.queue),
        }
    }
}

impl PacketPool {
    pub open spec fn wf(&self) -> bool {
        self@.wf()
    }

    /// A pool of the given number of buffers, at least one, none of them made
    /// yet.
    pub fn new(buffers: usize) -> (r: PacketPool)
        ensures
            r.wf(),
            r@.limit == if buffers > 0 {
                buffers as nat
            } else {
                1
            },
            r@.allocated == 0,
            r@.idle.len() == 0,
    {
        let capacity: usize = if buffers > 0 {
            buffers
        } else {
            1
        };
        let retained: usize = if capacity < PACKET_POOL_RETAINED_MAX {
            capacity
        } else {
            PACKET_POOL_RETAINED_MAX
        };
        PacketPool { queue: queue_new(retained), allocated: 0, allocation_limit: capacity }
    }

    /// An empty packet, as long as the budget allows one.
    pub fn try_acquire(&mut self) -> (r: Option<PacketBuf>)
        requires
            old(self).wf(),
        ensures
            final(self).wf(),
            match r {
                Some(packet) => {
                    &&& old(self)@.acquire() == Some((final(self)@, packet@.storage))
                    &&& packet.wf()
                    &&& packet@.start == PACKET_HEADROOM
                    &&& packet@.end == PACKET_HEADROOM
                },
                None => old(self)@.acquire() is None && final(self)@ == old(self)@,
            },
    {
        let ghost before = self@;
        let storage = match queue_pop(&mut self.queue) {
            Some(storage) => storage,
            None => {
                if self.allocated >= self.allocation_limit {
                    assert(self@ =~= before);
                    return None;
                }
                self.allocated = self.allocated + 1;
                buffer_zeroed(PACKET_CAPACITY)
            },
        };
        assert(before.acquire()->Some_0.0 =~= self@);
        assert forall|i: int| 0 <= i < self@.idle.len() implies (#[trigger] self@.idle[i]).len()
            == PACKET_CAPACITY by {
            if before.idle.len() > 0 {
                assert(self@.idle[i] == before.idle[i + 1]);
            }
        }
        Some(PacketBuf { storage, range: PACKET_HEADROOM..PACKET_HEADROOM })
    }

    /// The buffers that the pool may have at once.
    pub fn capacity(&self) -> (r: usize)
        ensures
            r == self@.limit,
    {
        self.allocation_limit
    }

    /// The buffers that can still be had.
    pub fn available(&self) -> (r: usize)
        requires
            self.wf(),
        ensures
            r == self@.available(),
    {
        self.allocation_limit - self.allocated + queue_len(&self.queue)
    }

    /// The buffers that exist.
    pub fn allocated(&self) -> (r: usize)
        ensures
            r == self@.allocated,
    {
        self.allocated
    }

    /// The idle buffers.
    pub fn retained(&self) -> (r: usize)
        ensures
            r == self@.idle.len(),
    {
        queue_len(&self.queue)
    }

    /// Takes a packet's buffer back.
    pub fn release(&mut self, packet: PacketBuf)
        requires
            old(self).wf(),
            old(self)@.out() > 0,
        ensures
            final(self)@ == old(self)@.release(packet@.storage),
            final(self).wf(),
    {
        let ghost before = self@;
        let storage = packet.storage;
        if buffer_len(&storage) != PACKET_CAPACITY {
            self.allocated = self.allocated - 1;
            assert(self@ =~= before.release(buffer_bytes(storage)));
            return;
        }
        let ghost bytes = buffer_bytes(storage);
        match queue_push(&mut self.queue, storage) {
            Ok(()) => {},
            Err(_) => {
                self.allocated = self.allocated - 1;
            },
        }
        assert(self@ =~= before.release(bytes));
    }
}

/// Taking a buffer and giving it back leaves as many available as before.
pub proof fn law_pool_recovers(pool: PoolModel, bytes: Seq<u8>)
    requires
        pool.wf(),
        pool.acquire() is Some,
    ensures
        pool.acquire()->Some_0.0.wf(),
        pool.acquire()->Some_0.0.available() == pool.available() - 1,
        pool.acquire()->Some_0.0.release(bytes).wf(),
        pool.acquire()->Some_0.0.release(bytes).available() == pool.available(),
{
    let taken = pool.acquire()->Some_0.0;
    assert forall|i: int| 0 <= i < taken.idle.len() implies (#[trigger] taken.idle[i]).len()
        == PACKET_CAPACITY by {
        if pool.idle.len() > 0 {
            assert(taken.idle[i] == pool.idle[i + 1]);
        }
    }
}

/// A buffer is to be had exactly as long as fewer are out than the budget.
pub proof fn law_budget_is_strict(pool: PoolModel)
    requires
        pool.wf(),
    ensures
        pool.acquire() is Some <==> pool.out() < pool.limit,
        pool.available() >= 0,
        pool.idle.len() <= PACKET_POOL_RETAINED_MAX,
{
}

/// A packet in its buffer: the bytes from `start` to `end`.
#[verifier::ext_equal]
pub struct PacketModel {
    pub storage: Seq<u8>,
    pub start: nat,
    pub end: nat,
}

impl PacketModel {
    pub open spec fn wf(self) -> bool {
        self.storage.len() == PACKET_CAPACITY && self.start <= self.end <= PACKET_CAPACITY
    }

    pub open spec fn bytes(self) -> Seq<u8> {
        self.storage.subrange(self.start as int, self.end as int)
    }

    pub open spec fn len(self) -> int {
        self.end - self.start
    }
}

/// Why a packet cannot be resized so.
#[derive(Clone, Copy, Debug, PartialEq, Eq, Structural)]
pub enum PacketError {
    ReadLength,
    Headroom,
    TailOverflow,
    TailCapacity,
    Trim,
    Truncate,
    Range,
}

impl PacketError {
    pub open spec fn text_spec(self) -> Seq<char> {
        match self {
            PacketError::ReadLength => "packet read length exceeds capacity"@,
            PacketError::Headroom => "packet prepend exceeds headroom"@,
            PacketError::TailOverflow => "packet tail length overflow"@,
            PacketError::TailCapacity => "packet tail exceeds capacity"@,
            PacketError::Trim => "packet trim exceeds length"@,
            PacketError::Truncate => "packet truncate exceeds length"@,
            PacketError::Range => "packet range is invalid"@,
        }
    }

    pub fn text(self) -> (r: &'static str)
        ensures
            r@ == self.text_spec(),
    {
        match self {
            PacketError::ReadLength => "packet read length exceeds capacity",
            PacketError::Headroom => "packet prepend exceeds headroom",
            PacketError::TailOverflow => "packet tail length overflow",
            PacketError::TailCapacity => "packet tail exceeds capacity",
            PacketError::Trim => "packet trim exceeds length",
            PacketError::Truncate => "packet truncate exceeds length",
            PacketError::Range => "packet range is invalid",
        }
    }
}

pub struct PacketBuf {
    storage: BytesMut,
    range: Range<usize>,
}

impl View for PacketBuf {
    type V = PacketModel;

    closed spec fn view(&self) -> PacketModel {
        PacketModel {
            storage: buffer_bytes(self.storage),
            start: self.range.start as nat,
            end: self.range.end as nat,
        }
    }
}

/// The storage with what stands from `start` to `end` replaced.
pub open spec fn patched(storage: Seq<u8>, start: int, end: int, part: Seq<u8>) -> Seq<u8> {
    storage.take(start) + part + storage.skip(end)
}

impl PacketBuf {
    pub open spec fn wf(&self) -> bool {
        self@.wf()
    }

    pub fn len(&self) -> (r: usize)
        requires
            self.wf(),
        ensures
            r == self@.len(),
    {
        self.range.end - self.range.start
    }

    pub fn is_empty(&self) -> (r: bool)
        requires
            self.wf(),
        ensures
            r == (self@.len() == 0),
    {
        self.range.end == self.range.start
    }

    pub fn as_slice(&self) -> (r: &[u8])
        requires
            self.wf(),
        ensures
            r@ == self@.bytes(),
    {
        vstd::slice::slice_subrange(buffer_slice(&self.storage), self.range.start, self.range.end)
    }

    /// The packet, for writing.
    pub fn as_mut_slice(&mut self) -> (r: &mut [u8])
        requires
            old(self).wf(),
        ensures
            r@ == old(self)@.bytes(),
            final(r)@.len() == r@.len() ==> final(self).wf(),
            final(self)@ == (PacketModel {
                storage: patched(
                    old(self)@.storage,
                    old(self)@.start as int,
                    old(self)@.end as int,
                    final(r)@,
                ),
                ..old(self)@
            }),
    {
        let start: usize = self.range.start;
        let end: usize = self.range.end;
        part_mut(&mut self.storage, start, end)
    }

    /// The room that a packet is read into.
    pub fn read_area(&mut self) -> (r: &mut [u8])
        requires
            old(self).wf(),
        ensures
            r@ == old(self)@.storage.skip(PACKET_HEADROOM as int),
            final(r)@.len() == r@.len() ==> final(self).wf(),
            final(self)@ == (PacketModel {
                storage: patched(
                    old(self)@.storage,
                    PACKET_HEADROOM as int,
                    PACKET_CAPACITY as int,
                    final(r)@,
                ),
                ..old(self)@
            }),
    {
        part_mut(&mut self.storage, PACKET_HEADROOM, PACKET_CAPACITY)
    }

    /// The packet is what was read: so many bytes after the headroom.
    pub fn set_read_len(&mut self, len: usize) -> (r: Result<(), PacketError>)
        requires
            old(self).wf(),
        ensures
            final(self).wf(),
            r == if len <= PACKET_CAPACITY - PACKET_HEADROOM {
                Ok::<(), PacketError>(())
            } else {
                Err(PacketError::ReadLength)
            },
            final(self)@ == if r is Ok {
                PacketModel {
                    start: PACKET_HEADROOM as nat,
                    end: (PACKET_HEADROOM + len) as nat,
                    ..old(self)@
                }
            } else {
                old(self)@
            },
    {
        if len > PACKET_CAPACITY - PACKET_HEADROOM {
            return Err(PacketError::ReadLength);
        }
        self.range = PACKET_HEADROOM..PACKET_HEADROOM + len;
        Ok(())
    }

    /// Makes the packet longer at its front; the new part, for writing.
    pub fn prepend(&mut self, len: usize) -> (r: Result<&mut [u8], PacketError>)
        requires
            old(self).wf(),
        ensures
            match r {
                Ok(part) => {
                    &&& len <= old(self)@.start
                    &&& part@ == old(self)@.storage.subrange(
                        old(self)@.start - len,
                        old(self)@.start as int,
                    )
                    &&& final(part)@.len() == len ==> final(self).wf()
                    &&& final(self)@ == (PacketModel {
                        start: (old(self)@.start - len) as nat,
                        storage: patched(
                            old(self)@.storage,
                            old(self)@.start - len,
                            old(self)@.start as int,
                            final(part)@,
                        ),
                        ..old(self)@
                    })
                },
                Err(e) => len > old(self)@.start && e == PacketError::Headroom && final(self)@
                    == old(self)@ && final(self).wf(),
            },
    {
        if len > self.range.start {
            return Err(PacketError::Headroom);
        }
        let end: usize = self.range.start;
        let start: usize = end - len;
        self.range = start..self.range.end;
        Ok(part_mut(&mut self.storage, start, end))
    }

    /// Makes the packet longer at its end; the new part, for writing.
    pub fn extend_tail(&mut self, len: usize) -> (r: Result<&mut [u8], PacketError>)
        requires
            old(self).wf(),
        ensures
            match r {
                Ok(part) => {
                    &&& old(self)@.end + len <= PACKET_CAPACITY
                    &&& part@ == old(self)@.storage.subrange(
                        old(self)@.end as int,
                        old(self)@.end + len,
                    )
                    &&& final(part)@.len() == len ==> final(self).wf()
                    &&& final(self)@ == (PacketModel {
                        end: (old(self)@.end + len) as nat,
                        storage: patched(
                            old(self)@.storage,
                            old(self)@.end as int,
                            old(self)@.end + len,
                            final(part)@,
                        ),
                        ..old(self)@
                    })
                },
                Err(e) => {
                    &&& old(self)@.end + len > PACKET_CAPACITY
                    &&& e == if old(self)@.end + len > usize::MAX {
                        PacketError::TailOverflow
                    } else {
                        PacketError::TailCapacity
                    }
                    &&& final(self)@ == old(self)@
                    &&& final(self).wf()
                },
            },
    {
        let end: usize = match self.range.end.checked_add(len) {
            Some(end) => end,
            None => {
                return Err(PacketError::TailOverflow);
            },
        };
        if end > PACKET_CAPACITY {
            return Err(PacketError::TailCapacity);
        }
        let start: usize = self.range.end;
        self.range = self.range.start..end;
        Ok(part_mut(&mut self.storage, start, end))
    }

    /// Drops bytes at the front.
    pub fn trim_front(&mut self, len: usize) -> (r: Result<(), PacketError>)
        requires
            old(self).wf(),
        ensures
            final(self).wf(),
            r == if len <= old(self)@.len() {
                Ok::<(), PacketError>(())
            } else {
                Err(PacketError::Trim)
            },
            final(self)@ == if r is Ok {
                PacketModel { start: old(self)@.start + len as nat, ..old(self)@ }
            } else {
                old(self)@
            },
    {
        if len > self.range.end - self.range.start {
            return Err(PacketError::Trim);
        }
        self.range = self.range.start + len..self.range.end;
        Ok(())
    }

    /// Keeps so many bytes at the front.
    pub fn truncate(&mut self, len: usize) -> (r: Result<(), PacketError>)
        requires
            old(self).wf(),
        ensures
            final(self).wf(),
            r == if len <= old(self)@.len() {
                Ok::<(), PacketError>(())
            } else {
                Err(PacketError::Truncate)
            },
            final(self)@ == if r is Ok {
                PacketModel { end: old(self)@.start + len as nat, ..old(self)@ }
            } else {
                old(self)@
            },
    {
        if len > self.range.end - self.range.start {
            return Err(PacketError::Truncate);
        }
        self.range = self.range.start..self.range.start + len;
        Ok(())
    }

    pub fn range(&self) -> (r: Range<usize>)
        ensures
            r.start == self@.start,
            r.end == self@.end,
    {
        self.range.start..self.range.end
    }

    /// The whole buffer, for writing.
    pub fn storage_mut(&mut self) -> (r: &mut BytesMut)
        ensures
            buffer_bytes(*r) == old(self)@.storage,
            final(self)@ == (PacketModel { storage: buffer_bytes(*final(r)), ..old(self)@ }),
    {
        &mut self.storage
    }

    pub fn set_range(&mut self, range: Range<usize>) -> (r: Result<(), PacketError>)
        requires
            old(self).wf(),
        ensures
            final(self).wf(),
            r == if range.start <= range.end && range.end <= PACKET_CAPACITY {
                Ok::<(), PacketError>(())
            } else {
                Err(PacketError::Range)
            },
            final(self)@ == if r is Ok {
                PacketModel {
                    start: range.start as nat,
                    end: range.end as nat,
                    ..old(self)@
                }
            } else {
                old(self)@
            },
    {
        if range.start > range.end || range.end > PACKET_CAPACITY {
            return Err(PacketError::Range);
        }
        self.range = range;
        Ok(())
    }
}

/// A part of a buffer, for writing.
fn part_mut(storage: &mut BytesMut, start: usize, end: usize) -> (r: &mut [u8])
    requires
        start <= end <= buffer_bytes(*old(storage)).len(),
    ensures
        r@ == buffer_bytes(*old(storage)).subrange(start as int, end as int),
        buffer_bytes(*final(storage)) == buffer_bytes(*old(storage)).take(start as int) + final(r)@
            + buffer_bytes(*old(storage)).skip(end as int),
{
    let all = buffer_slice_mut(storage);
    let (head, rest) = all.split_at_mut(start);
    let (part, _) = rest.split_at_mut(end - start);
    part
}

} // verus!
