use csqtt::net::{IpAddress, SocketAddress};
use csqtt::server::dataplane::{
    command_budget_left, command_step, configured_shard_count, fanout_shard, settle, sharded_count, shutdown_result,
    status_text, terminal_failure, tun_budget_left, udp_budget, AfterRun, CommandKind, CommandStep, DataplaneConfig,
    DataplaneHandle, DataplaneLoop, LoopEvent, LoopFailure, Restarts, HEALTHY_UPTIME_MS,
    MAX_CONSECUTIVE_UDP_PASSES, MAX_DATAPLANE_SHARDS, RESTART_BACKOFF_INITIAL_MS,
    RESTART_BACKOFF_MAX_MS,
};
use csqtt::server::io_counters::{
    batch_syscall_unavailable, configured_udp_datagram_mode, IoCounters, UdpDatagramMode,
};
use csqtt::server::packet_sink::{PacketSink, Route, TunWrite};
use csqtt::server::pktinfo::{parse_ipv4_pktinfo_destination, write_ipv4_pktinfo_control};
use csqtt::server::router::{
    output_budget_left, refused_command, EndpointRoute, RemotePacketSink, Router, RouterCommand, RouterStep,
    WorkerContext, WorkerInput, WorkerOutput,
};
use csqtt::server::sockaddr::{
    socket_addr_to_storage, storage_to_socket_addr, IPV4_LENGTH, IPV6_LENGTH,
};
use csqtt::server::tokio_io::{
    is_tun_create_retryable, tun_create_delay, IoFailure, RecvOutcome, RecvStep, RxOutcome,
    SendOutcome, TokioIo, TunRead, TunStep, NO_BUFFERS,
};
use csqtt::shared::striped_scheduler::PacketClass;

fn local(port: u16) -> SocketAddress {
    SocketAddress::new(IpAddress::V4(0x7f00_0001), port)
}

fn drain<C>(router: &mut Router<C>) -> Vec<(usize, C)> {
    let mut delivered = Vec::new();
    loop {
        match router.next() {
            RouterStep::Idle => break,
            RouterStep::Applied => {}
            RouterStep::Deliver {
                endpoint,
                shard,
                command,
            } => {
                delivered.push((shard, command));
                router.delivered(endpoint, shard, None);
            }
        }
    }
    delivered
}

#[test]
fn router_migrates_before_routing_an_endpoint_to_its_owner() {
    let endpoint = EndpointRoute::new(local(46000), None);
    let mut router = Router::new(1);
    router.push(RouterCommand::Migrate {
        endpoint,
        shard: 0,
        command: 77u64,
    });
    let delivered = drain(&mut router);
    assert_eq!(router.pending_len(), 0);
    assert_eq!(router.endpoint_shard(local(46000), None), 0);
    assert_eq!(delivered, vec![(0, 77)]);
}

#[test]
fn refused_migration_waits_at_the_head() {
    let endpoint = EndpointRoute::new(local(46000), None);
    let mut router = Router::new(2);
    router.push(RouterCommand::Migrate {
        endpoint,
        shard: 1,
        command: 77u64,
    });
    match router.next() {
        RouterStep::Deliver {
            endpoint,
            shard,
            command,
        } => router.delivered(endpoint, shard, Some(command)),
        _ => panic!("migration command was not handed out"),
    }
    assert_eq!(router.pending_len(), 1);
    assert_eq!(drain(&mut router), vec![(1, 77)]);
    assert_eq!(router.endpoint_shard(local(46000), None), 1);
}

#[test]
fn router_keeps_tunnel_ownership_in_the_csqtt_subnet_only() {
    let mut router = Router::<u64>::new(4);
    router.push(RouterCommand::BindTunnel {
        ip: [10, 66, 67, 91],
        shard: 3,
    });
    router.push(RouterCommand::BindTunnel {
        ip: [192, 0, 2, 91],
        shard: 2,
    });
    drain(&mut router);
    let mut packet = [0u8; 20];
    packet[0] = 0x45;
    packet[16..20].copy_from_slice(&[10, 66, 67, 91]);
    assert_eq!(router.tunnel_shard(&packet), 3);
    assert_eq!(router.pending_len(), 0);
    assert!(matches!(
        router.route_tun(&packet),
        Some((3, WorkerInput::Tun { packet: held })) if held.as_slice() == packet
    ));
}

#[test]
fn remote_sink_transfers_the_prebuilt_packet_without_a_second_copy() {
    let mut sink = RemotePacketSink::new(2);
    let mut packet = sink.reserve().unwrap();
    let built = packet.copy_from(b"dataplane");
    let sent = sink.send_udp_with_duplicate_priority::<u8>(
        local(46000),
        None,
        false,
        PacketClass::Bulk,
        packet,
        built,
    );
    match sent {
        Some((WorkerOutput::Udp { buffer, .. }, None)) => {
            assert_eq!(buffer.as_slice(), b"dataplane")
        }
        _ => panic!("prebuilt UDP packet was not delivered"),
    }
}

#[test]
fn duplicated_packet_is_sent_twice() {
    let mut sink = RemotePacketSink::new(2);
    let mut packet = sink.reserve().unwrap();
    let built = packet.copy_from(b"twice");
    let sent = sink.send_udp_with_duplicate_priority::<u8>(
        local(46000),
        None,
        true,
        PacketClass::Small,
        packet,
        built,
    );
    match sent {
        Some((
            WorkerOutput::Udp { buffer, .. },
            Some(WorkerOutput::Udp { buffer: copy, .. }),
        )) => assert_eq!(buffer.as_slice(), copy.as_slice()),
        _ => panic!("packet was not duplicated"),
    }
    assert!(sink.reserve().is_none());
}

#[test]
fn workers_ask_for_their_own_shard() {
    let worker = WorkerContext::new(2, 4);
    assert_eq!((worker.shard_index(), worker.shard_count()), (2, 4));
    let endpoint = EndpointRoute::new(local(1), None);
    assert!(matches!(
        worker.bind_endpoint::<u8>(endpoint),
        WorkerOutput::Router(RouterCommand::BindEndpoint { shard: 2, .. })
    ));
    assert!(matches!(
        worker.bind_tunnel::<u8>([10, 66, 67, 1]),
        WorkerOutput::Router(RouterCommand::BindTunnel { shard: 2, .. })
    ));
    let output = worker.migrate(endpoint, 3, 9u8);
    assert_eq!(refused_command(output), Some(9));
    assert_eq!(refused_command(worker.bind_endpoint::<u8>(endpoint)), None);
}

#[test]
fn batch_syscall_errors_select_compatibility_mode() {
    for errno in [
        libc::ENOSYS,
        libc::EPERM,
        libc::EACCES,
        libc::EOPNOTSUPP,
        libc::EINVAL,
    ] {
        assert!(batch_syscall_unavailable(Some(errno)));
    }
    assert!(!batch_syscall_unavailable(Some(libc::ENOBUFS)));
    assert!(!batch_syscall_unavailable(None));
    assert_eq!(NO_BUFFERS, libc::ENOBUFS);
}

#[test]
fn datagram_mode_labels_identify_active_syscalls() {
    assert_eq!(UdpDatagramMode::Batch.label(), "recvmmsg/sendmmsg");
    assert_eq!(UdpDatagramMode::Compat.label(), "recvmsg/sendmsg");
}

#[test]
fn datagram_mode_is_configured_by_name() {
    assert_eq!(
        configured_udp_datagram_mode(None),
        (UdpDatagramMode::default(), false)
    );
    let (_, unknown) = configured_udp_datagram_mode(Some("nonsense"));
    assert!(unknown);
}

fn queued(io: &mut TokioIo, count: usize) {
    for _ in 0..count {
        let sink = io.with_sink();
        let mut packet = sink.reserve_udp().unwrap();
        let built = packet.copy_from(b"out");
        assert!(sink.send_udp_with_duplicate_priority(
            local(9),
            None,
            false,
            PacketClass::Bulk,
            packet,
            built
        ));
    }
}

#[test]
fn sent_datagrams_leave_the_queue_from_the_front() {
    let mut io = TokioIo::new(UdpDatagramMode::Batch);
    queued(&mut io, 3);
    assert_eq!(io.next_udp_batch(0, 1), Some(3));
    assert_eq!(io.next_udp_batch(1, 1), None);
    assert_eq!(io.udp_at(0).unwrap().packet.as_slice(), b"out");
    assert!(io.flush_udp_tx(3, SendOutcome::Sent(vec![3, 3])));
    assert_eq!(io.pending_udp_tx_len(), 1);
    let counters = io.counters_snapshot();
    assert_eq!(counters.udp_tx_packets, 2);
    assert_eq!(counters.udp_tx_bytes, 6);
    assert_eq!(counters.partial_sendmmsg, 1);
}

#[test]
fn refused_batch_call_switches_for_good() {
    let mut io = TokioIo::new(UdpDatagramMode::Batch);
    queued(&mut io, 2);
    let refused = IoFailure {
        code: Some(libc::ENOSYS),
        would_block: false,
    };
    assert!(io.flush_udp_tx(2, SendOutcome::Failed(refused)));
    assert_eq!(io.pending_udp_tx_len(), 2);
    assert_eq!(
        io.counters_snapshot().udp_datagram_mode,
        UdpDatagramMode::Compat
    );
    assert_eq!(io.receive_limit(64), 1);
    assert!(io.flush_udp_tx(1, SendOutcome::Failed(refused)));
    assert_eq!(io.pending_udp_tx_len(), 1);
    assert_eq!(io.counters_snapshot().udp_tx_errors, 1);
}

#[test]
fn blocked_send_keeps_the_queue() {
    let mut io = TokioIo::new(UdpDatagramMode::Batch);
    queued(&mut io, 2);
    let blocked = IoFailure {
        code: Some(libc::EAGAIN),
        would_block: true,
    };
    assert!(!io.flush_udp_tx(2, SendOutcome::Failed(blocked)));
    let starved = IoFailure {
        code: Some(libc::ENOBUFS),
        would_block: false,
    };
    assert!(!io.flush_udp_tx(2, SendOutcome::Failed(starved)));
    assert_eq!(io.pending_udp_tx_len(), 2);
    assert_eq!(io.counters_snapshot().udp_tx_enobufs, 1);
}

#[test]
fn received_datagrams_are_counted() {
    let mut io = TokioIo::new(UdpDatagramMode::Batch);
    assert_eq!(
        io.dispatch_udp_rx(RecvOutcome::Got(5)),
        RecvStep::Done(RxOutcome::Batch(5))
    );
    let blocked = IoFailure {
        code: Some(libc::EAGAIN),
        would_block: true,
    };
    assert_eq!(
        io.dispatch_udp_rx(RecvOutcome::Failed(blocked)),
        RecvStep::Done(RxOutcome::Drained)
    );
    let refused = IoFailure {
        code: Some(libc::ENOSYS),
        would_block: false,
    };
    assert_eq!(
        io.dispatch_udp_rx(RecvOutcome::Failed(refused)),
        RecvStep::Again
    );
    let arrival = io
        .arrival(
            false,
            10,
            Some(local(7)),
            &write_ipv4_pktinfo_control(0x0a00_0001),
        )
        .unwrap();
    assert_eq!(arrival.peer, local(7));
    assert_eq!(arrival.local_ip, Some(IpAddress::V4(0x0a00_0001)));
    assert!(io.arrival(true, 10, Some(local(7)), &[]).is_none());
    assert!(io.arrival(false, 10, None, &[]).is_none());
    assert_eq!(io.counters_snapshot().udp_rx_packets, 1);
    assert_eq!(io.counters_snapshot().udp_rx_bytes, 10);
}

#[test]
fn tunnel_end_is_told() {
    let mut io = TokioIo::new(UdpDatagramMode::Compat);
    assert_eq!(io.read_tun_rx(TunRead::Got(20)), TunStep::Packet);
    assert_eq!(io.read_tun_rx(TunRead::WouldBlock), TunStep::Nothing);
    assert_eq!(io.read_tun_rx(TunRead::Failed), TunStep::Failed);
    assert_eq!(io.read_tun_rx(TunRead::Got(0)), TunStep::EndOfFile);
    assert_eq!(io.counters_snapshot().tun_rx_bytes, 20);
}

#[test]
fn written_tunnel_packet_is_not_queued() {
    let mut sink = PacketSink::new(IoCounters::default());
    assert!(sink.tun_is_idle());
    assert!(sink.write_tun_priority(b"now", PacketClass::Bulk, Some(TunWrite::Done)));
    assert!(sink.tun_is_idle());
    assert!(sink.write_tun_priority(b"later", PacketClass::Bulk, Some(TunWrite::WouldBlock)));
    assert!(!sink.tun_is_idle());
    assert_eq!(sink.counters().tun_tx_packets, 1);
    assert_eq!(
        Route::of(local(5), Some(IpAddress::V4(3))),
        Route {
            peer: local(5),
            source: Some(3)
        }
    );
}

#[test]
fn failed_tunnel_write_ends_the_loop() {
    let mut io = TokioIo::new(UdpDatagramMode::Compat);
    assert!(settle(&mut io).is_ok());
    assert!(!io
        .with_sink()
        .write_tun_priority(b"lost", PacketClass::Bulk, Some(TunWrite::Failed)));
    assert!(matches!(settle(&mut io), Err(LoopFailure::TunWrite)));
}

#[test]
fn control_message_reads_back() {
    let control = write_ipv4_pktinfo_control(0x0102_0304);
    assert_eq!(
        control,
        vec![
            28, 0, 0, 0, 0, 0, 0, 0, 0, 0, 0, 0, 8, 0, 0, 0, 0, 0, 0, 0, 1, 2, 3, 4, 0, 0, 0, 0,
            0, 0, 0, 0
        ]
    );
    assert_eq!(parse_ipv4_pktinfo_destination(&control), Some(0x0102_0304));
    let mut received = control.clone();
    received[20..28].copy_from_slice(&[0, 0, 0, 0, 9, 8, 7, 6]);
    assert_eq!(parse_ipv4_pktinfo_destination(&received), Some(0x0908_0706));
    assert_eq!(parse_ipv4_pktinfo_destination(&[]), None);
}

#[test]
fn stored_addresses_read_back() {
    let four = socket_addr_to_storage(local(0x1234));
    assert_eq!(&four[..8], &[2, 0, 0x12, 0x34, 127, 0, 0, 1]);
    assert_eq!(
        storage_to_socket_addr(&four, IPV4_LENGTH),
        Some(local(0x1234))
    );
    let mut six = SocketAddress::new(IpAddress::V6(5), 9);
    six.scope_id = 3;
    six.flowinfo = 7;
    let stored = socket_addr_to_storage(six);
    assert_eq!(storage_to_socket_addr(&stored, IPV6_LENGTH), Some(six));
    assert_eq!(storage_to_socket_addr(&stored, IPV4_LENGTH), None);
}

#[test]
fn shards_are_counted_within_their_limit() {
    assert_eq!(configured_shard_count(None), configured_shard_count(Some("many")));
    assert_eq!(configured_shard_count(Some("3")), 3);
    assert!(configured_shard_count(Some("1000")) <= MAX_DATAPLANE_SHARDS);
    assert!(sharded_count(0) >= 1);
    assert_eq!(fanout_shard(7, 3), 1);
    let config = DataplaneConfig::new(local(5), "tun0", "10.66.67.1/24", Some("2"));
    assert_eq!(config.shards, 2);
    assert_eq!(config.tun_iface, "tun0");
}

#[test]
fn full_command_queue_refuses() {
    let mut handle = DataplaneHandle::new(32);
    assert!(handle.try_send(true).is_ok());
    assert_eq!(
        handle.try_send(false).unwrap_err().text(),
        "dataplane command queue is full"
    );
    let snapshot = handle.command_queue_snapshot();
    assert_eq!((snapshot.queued, snapshot.capacity), (1, 32));
    handle.taken();
    assert_eq!(handle.command_queue_snapshot().queued, 0);
    handle.shutdown(true);
    assert!(handle.is_ending());
    assert_eq!(DataplaneHandle::new(1).command_queue_snapshot().capacity, 16);
}

#[test]
fn shutdown_tells_the_first_failure() {
    assert_eq!(shutdown_result::<u8>(Ok(()), Ok(())), Ok(()));
    assert_eq!(shutdown_result(Ok(()), Err(2)), Err(2));
    assert!(shutdown_result(Err(1), Ok(())).is_err());
}

#[test]
fn restarts_are_paced() {
    let mut restarts = Restarts::new();
    assert_eq!(restarts.ended(false, true, 0), AfterRun::Stop);
    let mut restarts = Restarts::new();
    assert_eq!(restarts.ended(true, false, 0), AfterRun::Fail);
    let mut restarts = Restarts {
        first: false,
        backoff_ms: RESTART_BACKOFF_INITIAL_MS,
    };
    let mut last = 0;
    for _ in 0..10 {
        match restarts.ended(true, false, 0) {
            AfterRun::Rest(rest) => {
                assert!(rest >= last);
                assert!(rest <= RESTART_BACKOFF_MAX_MS);
                last = rest;
            }
            other => panic!("{other:?}"),
        }
        restarts.rested();
    }
    assert_eq!(last, RESTART_BACKOFF_MAX_MS);
    assert_eq!(
        restarts.ended(true, false, HEALTHY_UPTIME_MS),
        AfterRun::Rest(RESTART_BACKOFF_INITIAL_MS)
    );
}

#[test]
fn status_names_the_failure() {
    assert!(status_text(true, Some("broken")).contains("broken"));
    assert_ne!(status_text(true, None), status_text(false, None));
}

#[test]
fn datagrams_yield_to_the_tunnel() {
    let io = TokioIo::new(UdpDatagramMode::Batch);
    let mut turns = DataplaneLoop::new(io.counters_snapshot());
    assert!(turns.interests(&io).udp_read);
    for _ in 0..MAX_CONSECUTIVE_UDP_PASSES {
        turns.woken(LoopEvent::UdpReadable);
    }
    assert!(!turns.interests(&io).udp_read);
    turns.woken(LoopEvent::TunReadable);
    assert!(turns.interests(&io).udp_read);
}

#[test]
fn budgets_end() {
    assert_eq!(udp_budget(0), Some(128));
    assert_eq!(udp_budget(100), Some(28));
    assert_eq!(udp_budget(128), None);
    assert!(tun_budget_left(127));
    assert!(!tun_budget_left(128));
    assert_eq!(command_step(CommandKind::Logic, 0), CommandStep::Handle);
    assert_eq!(command_step(CommandKind::Shutdown, 0), CommandStep::Stop);
    assert_eq!(command_step(CommandKind::Closed, 0), CommandStep::Stop);
    assert_eq!(command_step(CommandKind::Empty, 0), CommandStep::Done);
}

#[test]
fn command_that_was_taken_is_never_passed_over() {
    assert!(command_budget_left(1));
    assert!(command_budget_left(4_096));
    assert!(!command_budget_left(4_097));
    for taken in [1, 4_096, 4_097, usize::MAX] {
        assert_eq!(command_step(CommandKind::Logic, taken), CommandStep::Handle);
        assert_eq!(command_step(CommandKind::Shutdown, taken), CommandStep::Stop);
        assert_eq!(command_step(CommandKind::Closed, taken), CommandStep::Done);
        assert_eq!(command_step(CommandKind::Empty, taken), CommandStep::Done);
    }
}

#[test]
fn server_ends_with_what_its_dataplane_said() {
    assert_eq!(
        terminal_failure(true, Some("tokio dataplane failed: x")),
        "tokio dataplane failed: x"
    );
    assert_eq!(
        terminal_failure(true, None),
        "io_uring dataplane stopped unexpectedly"
    );
    assert_eq!(
        terminal_failure(false, Some("x")),
        "io_uring dataplane status channel closed"
    );
}

#[test]
fn busy_tunnel_is_made_again_after_a_rest() {
    assert!(is_tun_create_retryable(Some(libc::EBUSY)));
    assert!(!is_tun_create_retryable(None));
    assert!(tun_create_delay(2) >= tun_create_delay(1));
}

#[test]
fn pass_looks_once_at_each_command_that_waits() {
    let mut router = Router::new(2);
    for port in [46001, 46002, 46003] {
        router.push(RouterCommand::Migrate {
            endpoint: EndpointRoute::new(local(port), None),
            shard: 1,
            command: port,
        });
    }
    let mut left = router.pending_len();
    let mut seen = Vec::new();
    while left != 0 {
        match router.pass_next(&mut left) {
            RouterStep::Deliver { endpoint, shard, command } => {
                seen.push(command);
                let refused = if command == 46002 { None } else { Some(command) };
                router.delivered(endpoint, shard, refused);
            }
            _ => panic!("a migration is delivered"),
        }
    }
    assert!(matches!(router.pass_next(&mut left), RouterStep::Idle));
    assert_eq!(seen, vec![46001, 46002, 46003]);
    assert_eq!(router.pending_len(), 2);
    assert_eq!(router.endpoint_shard(local(46002), None), 1);
    assert_eq!(router.endpoint_shard(local(46001), None), 0);
    assert_eq!(drain(&mut router), vec![(1, 46001), (1, 46003)]);
}

#[test]
fn worker_hands_out_a_bounded_share() {
    assert!(output_budget_left(255));
    assert!(!output_budget_left(256));
}
