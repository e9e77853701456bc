use csqtt::client::packet::{
    packet_pool_size, PacketError, PacketPool, PACKET_CAPACITY, PACKET_HEADROOM,
    PACKET_POOL_RETAINED_MAX,
};

const GIB: u64 = 1024 * 1024 * 1024;
const KIB: u64 = 1024;
const RATE_PER_WORKER: u64 = 500 * KIB;
const DEADLINE_SECONDS: u64 = 51;

#[test]
fn headroom_and_pool_reuse() {
    let mut pool = PacketPool::new(1);
    assert_eq!(pool.available(), 1);
    assert_eq!(pool.allocated(), 0);
    assert_eq!(pool.retained(), 0);
    let mut packet = pool.try_acquire().unwrap();
    packet.read_area()[..4].copy_from_slice(b"data");
    packet.set_read_len(4).unwrap();
    packet.prepend(2).unwrap().copy_from_slice(b"hd");
    assert_eq!(packet.as_slice(), b"hddata");
    packet.trim_front(2).unwrap();
    assert_eq!(packet.as_slice(), b"data");
    pool.release(packet);
    assert_eq!(pool.try_acquire().unwrap().len(), 0);
}

#[test]
fn invalid_ranges_return_errors() {
    let mut pool = PacketPool::new(0);
    let mut packet = pool.try_acquire().unwrap();
    assert!(packet.set_read_len(PACKET_CAPACITY).is_err());
    assert!(packet.prepend(PACKET_HEADROOM + 1).is_err());
    assert!(packet.extend_tail(PACKET_CAPACITY).is_err());
    assert!(packet.trim_front(1).is_err());
    assert!(packet.truncate(1).is_err());
    let invalid_start = 9;
    let invalid_end = 8;
    assert!(packet.set_range(invalid_start..invalid_end).is_err());
    assert!(packet.set_range(0..PACKET_CAPACITY + 1).is_err());
}

#[test]
fn refusals_have_their_texts() {
    let mut pool = PacketPool::new(1);
    let mut packet = pool.try_acquire().unwrap();
    assert_eq!(
        packet.extend_tail(usize::MAX).unwrap_err(),
        PacketError::TailOverflow
    );
    assert_eq!(
        packet.set_read_len(PACKET_CAPACITY).unwrap_err().text(),
        "packet read length exceeds capacity"
    );
    assert_eq!(
        packet.prepend(PACKET_HEADROOM + 1).unwrap_err().text(),
        "packet prepend exceeds headroom"
    );
}

#[test]
fn maximum_read_area_is_accepted() {
    let mut pool = PacketPool::new(1);
    let mut packet = pool.try_acquire().unwrap();
    let maximum = PACKET_CAPACITY - PACKET_HEADROOM;
    packet.set_read_len(maximum).unwrap();
    assert_eq!(packet.len(), maximum);
}

#[test]
fn exact_headroom_and_tail_capacity_are_accepted() {
    let mut pool = PacketPool::new(1);
    let mut packet = pool.try_acquire().unwrap();
    packet
        .set_read_len(PACKET_CAPACITY - PACKET_HEADROOM)
        .unwrap();
    packet.prepend(PACKET_HEADROOM).unwrap();
    packet.extend_tail(0).unwrap();
    assert_eq!(packet.len(), PACKET_CAPACITY);
}

#[test]
fn packet_budget_is_strict_and_recovers_after_release() {
    let mut pool = PacketPool::new(2);
    let first = pool.try_acquire().unwrap();
    let second = pool.try_acquire().unwrap();
    assert!(pool.try_acquire().is_none());
    assert_eq!(pool.available(), 0);
    pool.release(first);
    let third = pool.try_acquire();
    assert!(third.is_some());
    pool.release(third.unwrap());
    pool.release(second);
    assert_eq!(pool.available(), 2);
}

#[test]
fn large_pool_retains_only_bounded_idle_storage() {
    let mut pool = PacketPool::new(PACKET_POOL_RETAINED_MAX * 2);
    let mut packets = Vec::new();
    for _ in 0..pool.capacity() {
        packets.push(pool.try_acquire().unwrap());
    }
    assert_eq!(pool.allocated(), pool.capacity());
    for packet in packets {
        pool.release(packet);
    }
    assert_eq!(pool.available(), pool.capacity());
    assert_eq!(pool.retained(), PACKET_POOL_RETAINED_MAX);
    assert_eq!(pool.allocated(), PACKET_POOL_RETAINED_MAX);
}

#[test]
fn production_pool_covers_all_bounded_worker_queues() {
    for (workers, expected) in [(9, 2_816), (27, 7_424), (108, 28_160), (126, 32_768)] {
        assert_eq!(packet_pool_size(workers), expected);
    }
}

#[test]
fn five_hundred_kib_rate_math_is_exact_for_all_requested_worker_counts() {
    let deadline_bytes = RATE_PER_WORKER * DEADLINE_SECONDS;
    assert_eq!(deadline_bytes * 9, 235_008_000);
    assert_eq!(deadline_bytes * 27, 705_024_000);
    assert!(deadline_bytes * 9 < GIB);
    assert!(deadline_bytes * 27 < GIB);
    assert!(deadline_bytes * 108 > GIB);
    assert!(deadline_bytes * 126 > GIB);
    assert_eq!(GIB.div_ceil(RATE_PER_WORKER * 9), 234);
    assert_eq!(GIB.div_ceil(RATE_PER_WORKER * 27), 78);
    assert_eq!(GIB.div_ceil(RATE_PER_WORKER * 108), 20);
    assert_eq!(GIB.div_ceil(RATE_PER_WORKER * 126), 17);
    assert_eq!(GIB.div_ceil(deadline_bytes), 42);
    assert_eq!(GIB.div_ceil(deadline_bytes).div_ceil(9) * 9, 45);
}
