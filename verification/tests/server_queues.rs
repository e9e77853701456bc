use csqtt::server::downlink_queue::{profile_for_active_paths, DownlinkQueue};
use csqtt::server::log_ring::{log_file_is_full, log_line, LogRing, LOG_RING_CAPACITY};
use csqtt::server::packet::{
    extract_dst_ipv4, packet_pool_size, PacketBuffer, PacketPool, PACKET_CAPACITY,
    PACKET_POOL_RETAINED_MAX,
};
use csqtt::server::tx_queue::TxQueue;
use csqtt::server::udp_supervisor::{
    bounded_delay, next_delay, RestartPolicy, Supervisor, SupervisorAction, UdpFailure,
};
use csqtt::shared::flow_frame::FrameHeader;
use csqtt::shared::striped_scheduler::PacketClass;

const MILLISECOND: u64 = 1_000_000;
const SECOND: u64 = 1_000_000_000;

fn packet(value: u8) -> [u8; 24] {
    [value; 24]
}

#[test]
fn packet_pool_is_bounded_and_recovers_buffers() {
    let mut pool = PacketPool::new(2);
    let first = pool.try_acquire().expect("first packet");
    let second = pool.try_acquire().expect("second packet");
    assert!(pool.try_acquire().is_none());
    assert_eq!(pool.snapshot().allocated, 2);
    pool.release(first);
    pool.release(second);
    let snapshot = pool.snapshot();
    assert_eq!(snapshot.capacity, 2);
    assert_eq!(snapshot.allocated, 2);
    assert_eq!(snapshot.retained, 2);
}

#[test]
fn packet_pool_discards_excess_idle_storage() {
    let capacity = PACKET_POOL_RETAINED_MAX + 8;
    let mut pool = PacketPool::new(capacity);
    let mut packets = Vec::new();
    for _ in 0..capacity {
        packets.push(pool.try_acquire().expect("packet pool capacity"));
    }
    for packet in packets {
        pool.release(packet);
    }
    let snapshot = pool.snapshot();
    assert_eq!(snapshot.retained, PACKET_POOL_RETAINED_MAX);
    assert_eq!(snapshot.allocated, PACKET_POOL_RETAINED_MAX);
}

#[test]
fn packets_hold_what_was_copied() {
    let mut pool = PacketPool::new(1);
    let mut packet = pool.try_acquire().unwrap();
    assert!(packet.copy_from(b"data"));
    assert_eq!(packet.as_slice(), b"data");
    assert!(!packet.copy_from(&[0; PACKET_CAPACITY + 1]));
    assert!(!packet.set_len(PACKET_CAPACITY + 1));
    let mut buffer = PacketBuffer::new();
    assert!(buffer.copy_from(b"more"));
    assert_eq!(buffer.as_slice(), b"more");
    assert_eq!(buffer.capacity(), PACKET_CAPACITY);
    assert!(packet_pool_size() > 0);
}

#[test]
fn destination_is_read_from_the_header() {
    let mut packet = [0u8; 20];
    packet[0] = 0x45;
    packet[16..20].copy_from_slice(&[10, 66, 67, 5]);
    assert_eq!(extract_dst_ipv4(&packet), Some([10, 66, 67, 5]));
    assert_eq!(extract_dst_ipv4(&packet[..19]), None);
    packet[0] = 0x60;
    assert_eq!(extract_dst_ipv4(&packet), None);
}

#[test]
fn profiles_cover_each_supported_worker_total() {
    for active_paths in [9, 18, 27, 36, 45, 54, 63, 72, 81, 90, 99, 108, 117, 126] {
        let profile = profile_for_active_paths(active_paths);
        assert_eq!(profile.latency_slots, 16);
        assert_eq!(profile.priority_slots, (active_paths * 2).max(32));
        assert_eq!(profile.bulk_slots, active_paths * 8);
    }
}

#[test]
fn bulk_ring_is_weighted_by_active_paths() {
    let mut queue = DownlinkQueue::default();
    queue.configure(2, 9);
    queue.configure(3, 18);
    for value in 0..27u8 {
        assert!(queue.enqueue(2, PacketClass::Bulk, &packet(value)));
        assert!(queue.enqueue(3, PacketClass::Bulk, &packet(value)));
    }
    let mut first = 0usize;
    let mut second = 0usize;
    for _ in 0..27 {
        let (key, packet) = queue.dequeue(PacketClass::Bulk).unwrap();
        queue.recycle(key, PacketClass::Bulk, packet);
        match key {
            2 => first += 1,
            3 => second += 1,
            _ => unreachable!(),
        }
    }
    assert_eq!(first, 9);
    assert_eq!(second, 18);
}

#[test]
fn lanes_have_independent_bulk_capacity() {
    let mut queue = DownlinkQueue::default();
    queue.configure(2, 9);
    queue.configure(3, 9);
    for value in 0..72u8 {
        assert!(queue.enqueue(2, PacketClass::Bulk, &packet(value)));
    }
    assert!(!queue.enqueue(2, PacketClass::Bulk, &packet(99)));
    assert!(queue.enqueue(3, PacketClass::Bulk, &packet(100)));
    assert_eq!(queue.pending_len(2, PacketClass::Bulk), 72);
    assert_eq!(queue.pending_len(3, PacketClass::Bulk), 1);
}

#[test]
fn shrinking_active_paths_discards_only_excess_packets_from_the_lane() {
    let mut queue = DownlinkQueue::default();
    queue.configure(5, 18);
    for value in 0..144u8 {
        assert!(queue.enqueue(5, PacketClass::Bulk, &packet(value)));
    }
    queue.configure(5, 9);
    assert_eq!(queue.pending_len(5, PacketClass::Bulk), 72);
}

#[test]
fn clearing_a_lane_keeps_its_reserved_slots_isolated() {
    let mut queue = DownlinkQueue::default();
    queue.configure(5, 18);
    queue.configure(6, 18);
    assert!(queue.enqueue(5, PacketClass::Bulk, &packet(1)));
    assert!(queue.enqueue(6, PacketClass::Bulk, &packet(2)));
    queue.clear(5);
    assert_eq!(queue.pending_len(5, PacketClass::Bulk), 0);
    assert_eq!(queue.pending_len(6, PacketClass::Bulk), 1);
    for value in 0..144u8 {
        assert!(queue.enqueue(5, PacketClass::Bulk, &packet(value)));
    }
}

#[test]
fn inactive_lane_rejects_packets_until_it_is_reactivated() {
    let mut queue = DownlinkQueue::default();
    assert!(!queue.enqueue(5, PacketClass::Bulk, &packet(1)));
    queue.configure(5, 18);
    assert!(queue.enqueue(5, PacketClass::Bulk, &packet(2)));
    queue.configure(5, 0);
    assert!(!queue.enqueue(5, PacketClass::Bulk, &packet(3)));
    queue.configure(5, 18);
    assert!(queue.enqueue(5, PacketClass::Bulk, &packet(4)));
}

#[test]
fn framed_packet_preserves_the_header_and_inner_payload() {
    let mut queue = DownlinkQueue::default();
    queue.configure(7, 9);
    let header = FrameHeader {
        sender_id: 1,
        flow_id: 2,
        sequence: 3,
    };
    assert!(queue.enqueue_framed(7, PacketClass::Bulk, header, &packet(8)));
    let (key, queued) = queue.dequeue(PacketClass::Bulk).unwrap();
    let (decoded, payload) = FrameHeader::decode(queued.as_slice()).unwrap();
    assert_eq!(key, 7);
    assert_eq!(decoded, header);
    assert_eq!(payload, packet(8));
    queue.recycle(key, PacketClass::Bulk, queued);
}

#[test]
fn requeued_packet_leaves_first() {
    let mut queue = DownlinkQueue::default();
    queue.configure(7, 9);
    assert!(queue.enqueue(7, PacketClass::Small, &packet(1)));
    assert!(queue.enqueue(7, PacketClass::Small, &packet(2)));
    let (key, first) = queue.dequeue(PacketClass::Small).unwrap();
    queue.requeue_front(key, PacketClass::Small, first);
    let (_, again) = queue.dequeue(PacketClass::Small).unwrap();
    assert_eq!(again.as_slice(), packet(1));
}

#[test]
fn invalid_initial_delay_is_bounded_by_cap() {
    let policy = RestartPolicy {
        initial_delay: 2 * SECOND,
        max_delay: 40 * MILLISECOND,
        reset_after: SECOND,
    };
    assert_eq!(
        bounded_delay(policy, policy.initial_delay),
        40 * MILLISECOND
    );
    assert_eq!(next_delay(policy, 40 * MILLISECOND), 40 * MILLISECOND);
}

#[test]
fn zero_policy_cannot_create_a_hot_loop() {
    let policy = RestartPolicy {
        initial_delay: 0,
        max_delay: 0,
        reset_after: 0,
    };
    assert_eq!(bounded_delay(policy, policy.initial_delay), MILLISECOND);
    assert_eq!(next_delay(policy, 0), MILLISECOND);
}

#[test]
fn rests_double_until_a_long_run_resets_them() {
    let policy = RestartPolicy {
        initial_delay: 100 * MILLISECOND,
        max_delay: 300 * MILLISECOND,
        reset_after: 10 * SECOND,
    };
    let mut supervisor = Supervisor::new(policy);
    assert_eq!(supervisor.start(false), SupervisorAction::Start);
    for expected in [100, 200, 300, 300] {
        assert_eq!(
            supervisor.ended(0, false),
            SupervisorAction::Rest {
                delay: expected * MILLISECOND
            }
        );
    }
    assert_eq!(
        supervisor.ended(10 * SECOND, false),
        SupervisorAction::Rest {
            delay: 100 * MILLISECOND
        }
    );
    assert_eq!(supervisor.ended(0, true), SupervisorAction::Stop);
    assert_eq!(supervisor.start(true), SupervisorAction::Stop);
    assert!(UdpFailure::Error("broken".to_owned()).text().contains("broken"));
}

#[test]
fn slots_are_conserved_and_classes_keep_their_order() {
    let mut queue = TxQueue::new(4);
    assert!(queue.offer(1, PacketClass::Bulk).is_ok());
    assert!(queue.offer(2, PacketClass::Small).is_ok());
    assert!(queue.offer(3, PacketClass::Medium).is_ok());
    assert!(queue.offer(4, PacketClass::Bulk).is_ok());
    assert_eq!(queue.offer(5, PacketClass::Small), Err(5));
    assert_eq!(queue.free_len() + queue.pending_len(), 4);
    assert!(!queue.has_free());
    let mut out = Vec::new();
    while let Some(item) = queue.pop() {
        out.push(item);
        assert_eq!(queue.free_len() + queue.pending_len(), 4);
    }
    assert_eq!(out, vec![2, 3, 1, 4]);
    assert_eq!(queue.front(), None);
}

#[test]
fn newest_lines_are_kept() {
    let mut ring = LogRing::new();
    for index in 0..LOG_RING_CAPACITY + 2 {
        ring.push(format!("{index}"));
    }
    assert_eq!(ring.len(), LOG_RING_CAPACITY);
    assert_eq!(ring.line(0).map(String::as_str), Some("2"));
    assert_eq!(ring.line(LOG_RING_CAPACITY - 1).map(String::as_str), Some("601"));
    assert_eq!(ring.line(LOG_RING_CAPACITY), None);
    assert_eq!(log_line("12:00", "INFO", "up"), "[12:00] [INFO] up");
    assert!(!log_file_is_full(0));
    assert!(log_file_is_full(u64::MAX));
}

#[test]
fn whole_round_is_shared_by_weight_from_any_place() {
    let mut queue = DownlinkQueue::default();
    queue.configure(1, 2);
    queue.configure(7, 3);
    for value in 0..20u8 {
        assert!(queue.enqueue(1, PacketClass::Bulk, &packet(value)));
        assert!(queue.enqueue(7, PacketClass::Bulk, &packet(value)));
    }
    for _ in 0..4 {
        let mut served = Vec::new();
        for _ in 0..5 {
            let (key, packet) = queue.dequeue(PacketClass::Bulk).unwrap();
            queue.recycle(key, PacketClass::Bulk, packet);
            served.push(key);
        }
        assert_eq!(served.iter().filter(|key| **key == 1).count(), 2);
        assert_eq!(served.iter().filter(|key| **key == 7).count(), 3);
        let (key, packet) = queue.dequeue(PacketClass::Bulk).unwrap();
        queue.requeue_front(key, PacketClass::Bulk, packet);
    }
}
