//! Byte buffers of the `bytes` crate and the bounded queue of the
//! `crossbeam-queue` crate that idle ones wait in.

use vstd::prelude::*;
use bytes::BytesMut;
use crossbeam_queue::ArrayQueue;

verus! {

/// `bytes::BytesMut`: a growable byte buffer.
#[verifier::external_type_specification]
#[verifier::external_body]
pub struct ExBytesMut(bytes::BytesMut);

/// `crossbeam_queue::ArrayQueue`: a bounded first-in first-out queue.
#[verifier::external_type_specification]
#[verifier::external_body]
#[verifier::reject_recursive_types(T)]
pub struct ExArrayQueue<T>(crossbeam_queue::ArrayQueue<T>);

/// The bytes in a buffer.
pub uninterp spec fn buffer_bytes(buffer: bytes::BytesMut) -> Seq<u8>;

/// The bytes of the buffers in a queue, the oldest first.
pub uninterp spec fn queue_buffers(
    queue: crossbeam_queue::ArrayQueue<bytes::BytesMut>,
) -> Seq<Seq<u8>>;

/// The number of buffers that a queue can hold.
pub uninterp spec fn queue_room(queue: crossbeam_queue::ArrayQueue<bytes::BytesMut>) -> nat;

/// Calls `BytesMut::zeroed`: as many zero bytes as asked for.
#[verifier::external_body]
pub(crate) fn buffer_zeroed(len: usize) -> (r: BytesMut)
    requires
        len <= 0x1_0000,
    ensures
        buffer_bytes(r) == Seq::new(len as nat, |i: int| 0u8),
{
    BytesMut::zeroed(len)
}

/// Calls `BytesMut::len`: the number of bytes.
#[verifier::external_body]
pub(crate) fn buffer_len(buffer: &BytesMut) -> (r: usize)
    ensures
        r == buffer_bytes(*buffer).len(),
{
    buffer.len()
}

/// Calls `Deref::deref` of `BytesMut`: all the bytes.
#[verifier::external_body]
pub(crate) fn buffer_slice(buffer: &BytesMut) -> (r: &[u8])
    ensures
        r@ == buffer_bytes(*buffer),
{
    &buffer[..]
}

/// Calls `DerefMut::deref_mut` of `BytesMut`: all the bytes, for writing. What is
/// written there is what the buffer holds; their number cannot change.
#[verifier::external_body]
pub(crate) fn buffer_slice_mut(buffer: &mut BytesMut) -> (r: &mut [u8])
    ensures
        r@ == buffer_bytes(*old(buffer)),
        final(r)@.len() == r@.len(),
        buffer_bytes(*final(buffer)) == final(r)@,
{
    &mut buffer[..]
}

/// Calls `ArrayQueue::new`: an empty queue with the room asked for. It panics
/// without room, or with more than an index can count.
#[verifier::external_body]
pub(crate) fn queue_new(capacity: usize) -> (r: ArrayQueue<BytesMut>)
    requires
        0 < capacity <= u32::MAX,
    ensures
        queue_buffers(r).len() == 0,
        queue_room(r) == capacity,
{
    ArrayQueue::new(capacity)
}

/// Calls `ArrayQueue::capacity`: the room that the queue was made with.
#[verifier::external_body]
pub(crate) fn queue_capacity(queue: &ArrayQueue<BytesMut>) -> (r: usize)
    ensures
        r == queue_room(*queue),
{
    queue.capacity()
}

/// Calls `ArrayQueue::len`: the number of buffers in the queue.
#[verifier::external_body]
pub(crate) fn queue_len(queue: &ArrayQueue<BytesMut>) -> (r: usize)
    ensures
        r == queue_buffers(*queue).len(),
{
    queue.len()
}

/// Calls `ArrayQueue::pop`: takes the oldest buffer out, if there is one.
#[verifier::external_body]
pub(crate) fn queue_pop(queue: &mut ArrayQueue<BytesMut>) -> (r: Option<BytesMut>)
    ensures
        queue_room(*final(queue)) == queue_room(*old(queue)),
        match r {
            Some(buffer) => {
                &&& queue_buffers(*old(queue)).len() > 0
                &&& buffer_bytes(buffer) == queue_buffers(*old(queue))[0]
                &&& queue_buffers(*final(queue)) == queue_buffers(*old(queue)).skip(1)
            },
            None => queue_buffers(*old(queue)).len() == 0 && queue_buffers(*final(queue))
                == queue_buffers(*old(queue)),
        },
{
    queue.pop()
}

/// Calls `ArrayQueue::push`: puts a buffer in behind the others, and gives it
/// back where there is no room.
#[verifier::external_body]
pub(crate) fn queue_push(queue: &mut ArrayQueue<BytesMut>, buffer: BytesMut) -> (r: Result<
    (),
    BytesMut,
>)
    ensures
        queue_room(*final(queue)) == queue_room(*old(queue)),
        match r {
            Ok(()) => queue_buffers(*old(queue)).len() < queue_room(*old(queue)) && queue_buffers(
                *final(queue),
            ) == queue_buffers(*old(queue)).push(buffer_bytes(buffer)),
            Err(_) => queue_buffers(*old(queue)).len() >= queue_room(*old(queue))
                && queue_buffers(*final(queue)) == queue_buffers(*old(queue)),
        },
{
    queue.push(buffer)
}

} // verus!
