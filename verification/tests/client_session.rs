use std::collections::HashSet;

use csqtt::client::cause::{is_local_network_down, Cause, ErrorChain, IoKind};
use csqtt::client::packet::{PacketBuf, PacketPool};
use csqtt::client::replay::{ReplayProtection, ReplayWindow};
use csqtt::client::session::{
    build_registration_payload, config_step, config_timeout_ms, fill_packet, flush_plan,
    reader_action, select_turn_address, task_failure, tasks_to_stop,
    turn_endpoint_index, turn_path_key, wants_duplicate, writer_batch_can_extend, writer_next,
    writer_woken, ConfigAction, ConfigDeliveryState, ConfigEvent, FlushStep, InboundForm, ObfsMode,
    ReaderAction, RelayError, SessionConfig, SessionEnd, TaskEnd, TurnAllocateError, WriterAction,
    WriterEvent, WriterLanes, WORKER_BULK_CAPACITY, WORKER_LATENCY_CAPACITY,
    WORKER_PRIORITY_CAPACITY, WRITER_BULK_BATCH_LIMIT, WRITER_LATENCY_BATCH_LIMIT,
    WRITER_PRIORITY_BATCH_LIMIT,
};
use csqtt::client::session_flow::{failure_chain, SessionFailure};
use csqtt::client::shutdown::{disconnect_request, ShutdownCoordinator};
use csqtt::client::turn_endpoint::TurnTransportMode;
use csqtt::net::{IpAddress, SocketAddress};
use csqtt::shared::selective_fec::Budget;
use csqtt::shared::striped_scheduler::{
    PacketClass, BULK_DATAGRAM_BATCH, MEDIUM_DATAGRAM_BATCH, SMALL_DATAGRAM_BATCH,
};

fn config(transport: TurnTransportMode) -> SessionConfig {
    SessionConfig {
        id: 0,
        peer: SocketAddress::new(IpAddress::V4(0x7f00_0001), 46000),
        turn_host: None,
        turn_port: None,
        turn_transport: transport,
        local_port: "9000".to_owned(),
        device_id: "device".to_owned(),
        password: "password".to_owned(),
        generation: 0,
        turn_endpoint_cursor: 0,
        salt: String::new(),
        mode: ObfsMode::Audio,
        wrap_key: [0; 32],
        get_config: false,
        desired_count: 18,
        server_stream_repair: false,
    }
}

#[test]
fn transport_selection_skips_incompatible_turn_endpoints() {
    let addresses = vec![
        "turn:relay.example:3478?transport=udp".to_owned(),
        "turn:relay.example:3478?transport=tcp".to_owned(),
    ];
    let config = config(TurnTransportMode::TcpTls);
    let selected = select_turn_address(&addresses, &config).unwrap();
    assert_eq!(addresses[selected], "turn:relay.example:3478?transport=tcp");
}

#[test]
fn selection_needs_an_endpoint_of_the_transport() {
    let none: Vec<String> = Vec::new();
    assert_eq!(
        select_turn_address(&none, &config(TurnTransportMode::Udp)),
        Err(RelayError::NoAddresses)
    );
    let tcp = vec!["turn:relay.example:3478?transport=tcp".to_owned()];
    assert_eq!(
        select_turn_address(&tcp, &config(TurnTransportMode::Udp)),
        Err(RelayError::NoEndpoint)
    );
}

#[test]
fn path_key_names_the_relay() {
    let key = turn_path_key("turn:relay.example:3479", &config(TurnTransportMode::Udp)).unwrap();
    assert_eq!(key, "relay.example:3479");
}

#[test]
fn first_registration_announces_the_full_stream_set_before_the_feature_reply() {
    let mut config = config(TurnTransportMode::Udp);
    config.id = 1;
    config.generation = 7;
    config.salt = "generation-id".to_owned();
    config.get_config = true;
    config.desired_count = 9;
    assert_eq!(
        build_registration_payload(&config).as_slice(),
        b"GETCONF:9000|device|password|7|generation-id|1|9|CSQTT-WIRE-3"
    );
}

#[test]
fn shutdown_uses_the_most_recently_active_control_stream_once() {
    let mut shutdown = ShutdownCoordinator::new();
    shutdown.register(1);
    shutdown.register(2);
    shutdown.mark_activity(1);
    assert!(shutdown.begin_disconnect());
    assert!(!shutdown.begin_disconnect());
    let targets = shutdown.disconnect_targets();
    assert_eq!(shutdown.next_target(&targets, 0), Some(1));
    assert_eq!(
        disconnect_request("device", "salt"),
        b"DISCONNECT:device|salt".to_vec()
    );
    assert!(shutdown.observe_control_response(b"OK:disconnected"));
    assert_eq!(targets, vec![1, 2]);
    assert_eq!(shutdown.next_target(&targets, 1), None);
}

#[test]
fn shutdown_never_uses_a_dropped_control_stream() {
    let mut shutdown = ShutdownCoordinator::new();
    shutdown.register(1);
    shutdown.unregister(1);
    shutdown.register(2);
    assert!(shutdown.begin_disconnect());
    let targets = shutdown.disconnect_targets();
    assert_eq!(targets, vec![2]);
    assert_eq!(shutdown.next_target(&targets, 0), Some(2));
    assert!(shutdown.observe_control_response(b"OK:disconnected"));
}

#[derive(Clone, Copy, Default)]
struct ReplayCoverage {
    duplicate: usize,
    age_16383: usize,
    age_16384: usize,
    age_16385: usize,
    forward_small: usize,
    forward_large: usize,
}

impl ReplayCoverage {
    fn complete(self) -> bool {
        self.duplicate > 0
            && self.age_16383 > 0
            && self.age_16384 > 0
            && self.age_16385 > 0
            && self.forward_small > 0
            && self.forward_large > 0
    }
}

fn model_accept(
    highest: &mut Option<u64>,
    seen: &mut HashSet<u64>,
    counter: u64,
    model_window: u64,
) -> bool {
    match *highest {
        None => {
            *highest = Some(counter);
            seen.insert(counter);
            true
        }
        Some(current) if counter > current => {
            *highest = Some(counter);
            seen.retain(|value| counter - *value < model_window);
            seen.insert(counter);
            true
        }
        Some(current) if current - counter >= model_window => false,
        Some(_) => seen.insert(counter),
    }
}

fn replay_trace_matches(counters: &[u64], model_window: u64) -> bool {
    let mut window = ReplayWindow::default();
    let mut highest = None;
    let mut seen = HashSet::new();
    for &counter in counters {
        let expected = model_accept(&mut highest, &mut seen, counter, model_window);
        if window.accept(counter) != expected {
            return false;
        }
    }
    true
}

fn replay_trace_coverage(counters: &[u64]) -> ReplayCoverage {
    let mut highest = None;
    let mut seen = HashSet::new();
    let mut coverage = ReplayCoverage::default();
    for &counter in counters {
        if seen.contains(&counter) {
            coverage.duplicate += 1;
        }
        if let Some(current) = highest {
            if counter > current {
                let delta = counter - current;
                if delta < 16384 {
                    coverage.forward_small += 1;
                } else {
                    coverage.forward_large += 1;
                }
            } else {
                match current - counter {
                    16383 => coverage.age_16383 += 1,
                    16384 => coverage.age_16384 += 1,
                    16385 => coverage.age_16385 += 1,
                    _ => {}
                }
            }
        }
        model_accept(&mut highest, &mut seen, counter, 16384);
    }
    coverage
}

fn extend_rtp_reference(highest: u64, sequence: u16) -> u64 {
    let base = highest & !(u16::MAX as u64);
    let current = base | u64::from(sequence);
    let previous = current.checked_sub(1 << 16);
    let next = current.saturating_add(1 << 16);
    let mut selected = current;
    let mut distance = current.abs_diff(highest);
    if let Some(previous) = previous {
        let candidate_distance = previous.abs_diff(highest);
        if candidate_distance < distance {
            selected = previous;
            distance = candidate_distance;
        }
    }
    if next.abs_diff(highest) < distance {
        selected = next;
    }
    selected
}

fn rtp_trace_matches(sequences: &[u16]) -> bool {
    let mut window = ReplayWindow::default();
    let mut highest = None;
    let mut seen = HashSet::new();
    for &sequence in sequences {
        let extended = highest
            .map(|value| extend_rtp_reference(value, sequence))
            .unwrap_or(u64::from(sequence));
        let expected = model_accept(&mut highest, &mut seen, extended, 16384);
        if window.accept_rtp(sequence) != expected {
            return false;
        }
    }
    true
}

fn mix64(mut value: u64) -> u64 {
    value = value.wrapping_add(0x9e37_79b9_7f4a_7c15);
    value = (value ^ (value >> 30)).wrapping_mul(0xbf58_476d_1ce4_e5b9);
    value = (value ^ (value >> 27)).wrapping_mul(0x94d0_49bb_1331_11eb);
    value ^ (value >> 31)
}

fn deterministic_replay_trace(seed: u64, length: usize) -> Vec<u64> {
    let mut state = seed;
    let mut counters = Vec::with_capacity(length);
    let prefix = [1_000, 1_000, 1_001, 17_385, 1_002, 1_001, 1_000, 25_000];
    counters.extend(prefix.into_iter().take(length));
    let mut highest = (seed & 0xffff).max(counters.iter().copied().max().unwrap_or(0));
    for _ in counters.len()..length {
        state = mix64(state);
        let counter = match state % 8 {
            0 => highest,
            1 => highest.saturating_sub(16383),
            2 => highest.saturating_sub(16384),
            3 => highest.saturating_sub(16385),
            4 => highest.saturating_sub(state % 512),
            5 => {
                highest = highest.saturating_add(1 + (state >> 8) % 4);
                highest
            }
            6 => {
                highest = highest.saturating_add(16384 + (state >> 8) % 4_096);
                highest
            }
            _ => state & 0x0000_ffff_ffff_ffff,
        };
        highest = highest.max(counter);
        counters.push(counter);
    }
    counters
}

fn marked(pool: &mut PacketPool, mark: u8) -> PacketBuf {
    let mut packet = pool.try_acquire().expect("the pool has a buffer");
    packet.set_read_len(1).unwrap();
    packet.as_mut_slice()[0] = mark;
    packet
}

#[test]
fn writer_drains_latency_before_bulk() {
    let mut pool = PacketPool::new(512);
    let mut lanes = WriterLanes::new();
    for _ in 0..160 {
        lanes.latency.push_back(marked(&mut pool, 0));
        lanes.priority.push_back(marked(&mut pool, 1));
        lanes.bulk.push_back(marked(&mut pool, 2));
    }
    for _ in 0..160 {
        let packet = lanes.next_writer_packet().unwrap();
        assert_eq!(packet.packet.as_slice()[0], 0);
        assert_eq!(packet.class, PacketClass::Small);
    }
    let packet = lanes.next_writer_packet().unwrap();
    assert_eq!(packet.packet.as_slice()[0], 1);
    assert_eq!(packet.class, PacketClass::Medium);
    for _ in 1..160 {
        assert_eq!(
            lanes.next_writer_packet().unwrap().class,
            PacketClass::Medium
        );
    }
    let packet = lanes.next_writer_packet().unwrap();
    assert_eq!(packet.packet.as_slice()[0], 2);
    assert_eq!(packet.class, PacketClass::Bulk);
}

#[test]
fn worker_queues_hold_one_full_mmsg_batch_per_data_lane() {
    const TUN_MTU: u128 = 1_300;
    const BITS_PER_SECOND: u128 = 2_000_000;
    let buffered_us = WORKER_BULK_CAPACITY as u128 * TUN_MTU * 8 * 1_000_000 / BITS_PER_SECOND;
    assert!(buffered_us <= 700_000);
    assert_eq!(WORKER_LATENCY_CAPACITY, SMALL_DATAGRAM_BATCH);
    assert_eq!(WORKER_PRIORITY_CAPACITY, MEDIUM_DATAGRAM_BATCH);
    assert_eq!(WORKER_BULK_CAPACITY, BULK_DATAGRAM_BATCH);
}

#[test]
fn writer_uses_bulk_when_latency_is_empty() {
    let mut pool = PacketPool::new(4);
    let mut lanes = WriterLanes::new();
    lanes.bulk.push_back(marked(&mut pool, 1));
    let packet = lanes.next_writer_packet().unwrap();
    assert_eq!(packet.packet.as_slice()[0], 1);
    assert_eq!(packet.class, PacketClass::Bulk);
}

#[test]
fn writer_prefers_latency_when_both_queues_ready() {
    let mut pool = PacketPool::new(4);
    let mut lanes = WriterLanes::new();
    lanes.latency.push_back(marked(&mut pool, 0));
    lanes.priority.push_back(marked(&mut pool, 1));
    lanes.bulk.push_back(marked(&mut pool, 2));
    let packet = lanes.next_writer_packet().unwrap();
    assert_eq!(packet.packet.as_slice()[0], 0);
    assert_eq!(packet.class, PacketClass::Small);
}

#[test]
fn writer_batches_respect_priority_lanes() {
    assert_eq!(WRITER_LATENCY_BATCH_LIMIT, SMALL_DATAGRAM_BATCH);
    assert_eq!(WRITER_PRIORITY_BATCH_LIMIT, MEDIUM_DATAGRAM_BATCH);
    assert_eq!(WRITER_BULK_BATCH_LIMIT, BULK_DATAGRAM_BATCH);
    assert!(writer_batch_can_extend(PacketClass::Medium, false, true));
    assert!(!writer_batch_can_extend(PacketClass::Medium, true, false));
    assert!(writer_batch_can_extend(PacketClass::Bulk, false, false));
    assert!(!writer_batch_can_extend(PacketClass::Bulk, true, false));
    assert!(!writer_batch_can_extend(PacketClass::Bulk, false, true));
}

#[test]
fn writer_batch_keeps_to_one_lane() {
    let mut pool = PacketPool::new(64);
    let mut lanes = WriterLanes::new();
    for _ in 0..3 {
        lanes.latency.push_back(marked(&mut pool, 0));
    }
    lanes.bulk.push_back(marked(&mut pool, 2));
    let first = lanes.next_writer_packet().unwrap();
    let batch = lanes.writer_batch(first);
    assert_eq!(batch.len(), 3);
    assert!(batch.iter().all(|packet| packet.as_slice()[0] == 0));
    assert_eq!(lanes.bulk.len(), 1);
}

#[test]
fn replay_window_accepts_reordering_once_and_rejects_duplicates() {
    let mut window = ReplayWindow::default();
    assert!(window.accept(100));
    assert!(window.accept(102));
    assert!(window.accept(101));
    assert!(!window.accept(101));
    assert!(!window.accept(100));
    assert!(window.accept(230));
    assert!(!window.accept(102));
}

#[test]
fn replay_window_handles_rtp_wrap_and_late_packets() {
    let mut window = ReplayWindow::default();
    for sequence in [65_534, 65_535, 0, 2, 1, 3] {
        assert!(window.accept_rtp(sequence));
    }
    assert!(!window.accept_rtp(0));
    assert!(!window.accept_rtp(65_535));
    assert_eq!(window.highest, Some(65_539));
}

#[test]
fn replay_window_is_bounded_under_million_packet_attack() {
    let mut window = ReplayWindow::default();
    for counter in 0..1_000_000 {
        assert!(window.accept(counter));
        assert!(!window.accept(counter));
    }
    assert_eq!(std::mem::size_of_val(&window), 24);
}

#[test]
fn replay_window_matches_independent_set_model() {
    let mut state = 1u64;
    let counters: Vec<u64> = (0..5_000)
        .map(|_| {
            state = mix64(state);
            state & 0xffff_ffff
        })
        .collect();
    assert!(replay_trace_matches(&counters, 16384));
}

#[test]
fn rtp_replay_window_matches_independent_extended_sequence_model() {
    let mut state = 2u64;
    let sequences: Vec<u16> = (0..2_000)
        .map(|_| {
            state = mix64(state);
            state as u16
        })
        .collect();
    assert!(rtp_trace_matches(&sequences));
}

#[test]
fn replay_oracle_detects_window_off_by_one_mutation() {
    let counters = [100, 16484, 101];
    assert!(replay_trace_matches(&counters, 16384));
    assert!(!replay_trace_matches(&counters, 16383));
}

#[test]
fn deterministic_replay_fault_generator_is_reproducible_and_hits_boundaries() {
    let first = deterministic_replay_trace(0x1234_5678_9abc_def0, 4_096);
    let second = deterministic_replay_trace(0x1234_5678_9abc_def0, 4_096);
    let different = deterministic_replay_trace(0x1234_5678_9abc_def1, 4_096);
    assert_eq!(first, second);
    assert_ne!(first, different);
    assert!(first.windows(2).any(|pair| pair[0] == pair[1]));
    assert!(replay_trace_coverage(&first).complete());
    assert!(replay_trace_matches(&first, 16384));
}

#[test]
fn replay_coverage_oracle_rejects_each_missing_boundary() {
    let complete = ReplayCoverage {
        duplicate: 1,
        age_16383: 1,
        age_16384: 1,
        age_16385: 1,
        forward_small: 1,
        forward_large: 1,
    };
    assert!(complete.complete());
    for index in 0..6 {
        let mut mutated = complete;
        match index {
            0 => mutated.duplicate = 0,
            1 => mutated.age_16383 = 0,
            2 => mutated.age_16384 = 0,
            3 => mutated.age_16385 = 0,
            4 => mutated.forward_small = 0,
            _ => mutated.forward_large = 0,
        }
        assert!(!mutated.complete());
    }
}

#[test]
fn rtp_replay_reference_survives_multiple_wraps_duplicates_and_late_packets() {
    let mut sequence = 65_000u16;
    let mut trace = Vec::with_capacity(20_000);
    for index in 0..10_000 {
        sequence = sequence.wrapping_add(97);
        trace.push(sequence);
        if index % 7 == 0 {
            trace.push(sequence);
        }
        if index % 11 == 0 {
            trace.push(sequence.wrapping_sub(16383));
            trace.push(sequence.wrapping_sub(16384));
            trace.push(sequence.wrapping_sub(16385));
        }
    }
    assert!(rtp_trace_matches(&trace));
}

#[test]
fn packets_that_do_not_decrypt_never_authenticate() {
    let mut replay = ReplayProtection::default();
    assert!(!replay.authenticate_inbound(None));
    assert!(replay.authenticate_inbound(Some(7)));
    assert!(!replay.authenticate_inbound(Some(7)));
    assert!(!replay.authenticate_inbound(None));
    assert!(replay.authenticate_inbound(Some(8)));
}

#[test]
fn endpoint_rotation_is_local_cyclic_and_overflow_safe() {
    for endpoint_count in 1..=8 {
        for id in 1..=126 {
            let selected = (0..endpoint_count)
                .map(|cursor| turn_endpoint_index(id, cursor, endpoint_count))
                .collect::<HashSet<_>>();
            assert_eq!(selected.len(), endpoint_count);
            assert!(selected.iter().all(|endpoint| *endpoint < endpoint_count));
            assert_eq!(
                turn_endpoint_index(id, usize::MAX, endpoint_count),
                (id % endpoint_count + usize::MAX % endpoint_count) % endpoint_count
            );
        }
    }
}

#[test]
fn turn_allocate_error_exposes_nested_io_source() {
    let unreachable = || ErrorChain {
        causes: vec![Cause::Io { code: Some(101), kind: IoKind::Other }],
        message: "Network is unreachable (os error 101)".to_owned(),
        full: "Network is unreachable (os error 101)".to_owned(),
    };
    let error = TurnAllocateError(unreachable());
    assert_eq!(error.text(), "TURN Allocate: Network is unreachable (os error 101)");
    for chain in [
        error.into_chain(),
        failure_chain(&SessionFailure::Allocate, Some(unreachable())),
    ] {
        assert_eq!(chain.causes[0], Cause::TurnAllocate);
        assert!(chain
            .causes
            .iter()
            .any(|cause| matches!(cause, Cause::Io { code: Some(101), .. })));
        assert!(is_local_network_down(&chain));
    }
}

#[test]
fn turn_allocate_error_exposes_structured_stun_code() {
    let error = TurnAllocateError(ErrorChain {
        causes: vec![Cause::TurnRequest { stun_code: 486 }],
        message: "STUN error 486".to_owned(),
        full: "STUN error 486".to_owned(),
    });
    assert_eq!(error.stun_code(), Some(486));
}

#[test]
fn successful_config_delivery_is_sticky() {
    let mut state = ConfigDeliveryState { sent: false, in_flight: true };
    state.complete(true);
    assert!(state.sent);
    assert!(!state.in_flight);
}

#[test]
fn failed_config_delivery_can_be_retried() {
    let mut state = ConfigDeliveryState { sent: false, in_flight: true };
    state.complete(false);
    assert!(!state.sent);
    assert!(!state.in_flight);
}

#[test]
fn flush_sends_single_packets_and_runs_in_order() {
    let plan = flush_plan(&vec![false, false, true, false]);
    assert_eq!(
        plan,
        vec![
            FlushStep::Batch { from: 0, to: 2 },
            FlushStep::Packet { index: 2, duplicate: true },
            FlushStep::Batch { from: 3, to: 4 },
        ]
    );
}

#[test]
fn first_duplicate_is_within_the_budget() {
    let mut budget = Budget::new(0);
    let dns = [
        0x45u8, 0, 0, 40, 0, 0, 0, 0, 64, 17, 0, 0, 10, 0, 0, 1, 8, 8, 8, 8, 0x30, 0x39, 0, 53, 0,
        20, 0, 0, 1, 2, 3, 4, 5, 6, 7, 8, 9, 10, 11, 12,
    ];
    assert!(wants_duplicate(&mut budget, &dns, 0));
}

#[test]
fn packet_is_filled_whole_or_not_at_all() {
    let mut pool = PacketPool::new(1);
    let mut packet = pool.try_acquire().unwrap();
    assert!(fill_packet(&mut packet, b"control").is_ok());
    assert_eq!(packet.as_slice(), b"control");
    let huge = vec![0u8; 65_536];
    assert!(fill_packet(&mut packet, &huge).is_err());
}

#[test]
fn writer_takes_commands_before_packets() {
    assert_eq!(writer_next(true, true, false), WriterAction::HandleCommand);
    assert_eq!(writer_next(false, true, false), WriterAction::SendBatch);
    assert_eq!(writer_next(false, false, false), WriterAction::Wait);
    assert_eq!(writer_next(false, false, true), WriterAction::Stop);
    assert_eq!(
        writer_woken(WriterEvent::Cancelled, true, false),
        WriterAction::Stop
    );
}

#[test]
fn configuration_is_asked_for_three_times() {
    let (first, text) = config_step(0, true, ConfigEvent::Timeout);
    assert!(matches!(first, ConfigAction::Retry { timeout_ms } if timeout_ms == config_timeout_ms(1)));
    assert!(text.is_none());
    let (last, _) = config_step(2, true, ConfigEvent::Timeout);
    assert!(matches!(last, ConfigAction::Fail { .. }));
    let (done, config) = config_step(0, true, ConfigEvent::Config("conf".to_owned()));
    assert!(matches!(done, ConfigAction::Done { delivered: true, .. }));
    assert_eq!(config.as_deref(), Some("conf"));
    let (waits, _) = config_step(0, true, ConfigEvent::Unrelated);
    assert!(matches!(waits, ConfigAction::KeepWaiting));
    let (restart, _) = config_step(0, true, ConfigEvent::PanelRestart);
    assert!(matches!(restart, ConfigAction::ReportRestart));
    match config_step(0, true, ConfigEvent::Rejected("DENIED:wrong password".to_owned())).0 {
        ConfigAction::Fail { message, .. } => assert!(!message.text().is_empty()),
        _ => panic!("a refusal ends the session"),
    }
}

#[test]
fn reader_delivers_what_is_no_control_packet() {
    let mut shutdown = ShutdownCoordinator::new();
    let plain = InboundForm {
        panel_restart: false,
        stream_repair: false,
        stream_alive: false,
        control_response: false,
    };
    assert_eq!(
        reader_action(&mut shutdown, plain, b"data"),
        ReaderAction::Deliver
    );
    let restart = InboundForm { panel_restart: true, ..plain };
    assert_eq!(
        reader_action(&mut shutdown, restart, b""),
        ReaderAction::ReportRestart
    );
}

#[test]
fn ended_session_stops_what_still_runs() {
    assert_eq!(tasks_to_stop(SessionEnd::Writer), (false, true));
    assert_eq!(tasks_to_stop(SessionEnd::Reader), (true, false));
    assert_eq!(tasks_to_stop(SessionEnd::Cancelled), (true, true));
    assert!(task_failure(false, TaskEnd::Finished).is_none());
    assert!(task_failure(false, TaskEnd::Panicked).is_some());
}
