use csqtt::server::perf::{
    parse_proc_stat, process_cpu_split_ns, process_thread_cpu_snapshot, ticks_to_ns, Counters,
    DataplaneCpu, Profiler, Snapshot, Stage, ThreadEntry, SAMPLE_INTERVAL,
};

fn proc_stat(name: &str, user_ticks: u64, system_ticks: u64) -> String {
    let mut stat = format!("42 ({name}) S");
    for _ in 0..10 {
        stat.push_str(" 0");
    }
    format!("{stat} {user_ticks} {system_ticks} 0 0")
}

#[test]
fn counter_delta_operations_increase() {
    let current = Counters {
        operations: 9,
        ..Counters::default()
    };
    let previous = Counters {
        operations: 4,
        ..Counters::default()
    };
    assert_eq!(current.delta(previous).operations, 5);
}

#[test]
fn counter_delta_operations_rolls_back_to_zero() {
    let current = Counters {
        operations: 4,
        ..Counters::default()
    };
    let previous = Counters {
        operations: 9,
        ..Counters::default()
    };
    assert_eq!(current.delta(previous).operations, 0);
}

#[test]
fn counter_delta_bytes_increase() {
    let current = Counters {
        bytes: 4096,
        ..Counters::default()
    };
    let previous = Counters {
        bytes: 1024,
        ..Counters::default()
    };
    assert_eq!(current.delta(previous).bytes, 3072);
}

#[test]
fn counter_delta_bytes_rolls_back_to_zero() {
    let current = Counters {
        bytes: 7,
        ..Counters::default()
    };
    let previous = Counters {
        bytes: 8,
        ..Counters::default()
    };
    assert_eq!(current.delta(previous).bytes, 0);
}

#[test]
fn counter_delta_samples_increase() {
    let current = Counters {
        samples: 72,
        ..Counters::default()
    };
    let previous = Counters {
        samples: 64,
        ..Counters::default()
    };
    assert_eq!(current.delta(previous).samples, 8);
}

#[test]
fn counter_delta_samples_rolls_back_to_zero() {
    let current = Counters {
        samples: 63,
        ..Counters::default()
    };
    let previous = Counters {
        samples: 64,
        ..Counters::default()
    };
    assert_eq!(current.delta(previous).samples, 0);
}

#[test]
fn counter_delta_cpu_increase() {
    let current = Counters {
        sampled_ns: 901,
        ..Counters::default()
    };
    let previous = Counters {
        sampled_ns: 900,
        ..Counters::default()
    };
    assert_eq!(current.delta(previous).sampled_ns, 1);
}

#[test]
fn counter_delta_cpu_rolls_back_to_zero() {
    let current = Counters {
        sampled_ns: 0,
        ..Counters::default()
    };
    let previous = Counters {
        sampled_ns: 1,
        ..Counters::default()
    };
    assert_eq!(current.delta(previous).sampled_ns, 0);
}

#[test]
fn counter_delta_wall_increase() {
    let current = Counters {
        sampled_wall_ns: 128,
        ..Counters::default()
    };
    let previous = Counters {
        sampled_wall_ns: 32,
        ..Counters::default()
    };
    assert_eq!(current.delta(previous).sampled_wall_ns, 96);
}

#[test]
fn counter_delta_wall_rolls_back_to_zero() {
    let current = Counters {
        sampled_wall_ns: 1,
        ..Counters::default()
    };
    let previous = Counters {
        sampled_wall_ns: 2,
        ..Counters::default()
    };
    assert_eq!(current.delta(previous).sampled_wall_ns, 0);
}

#[test]
fn counter_merge_operations_adds() {
    let left = Counters {
        operations: 19,
        ..Counters::default()
    };
    let right = Counters {
        operations: 23,
        ..Counters::default()
    };
    assert_eq!(left.add(right).operations, 42);
}

#[test]
fn counter_merge_operations_saturates() {
    let left = Counters {
        operations: u64::MAX,
        ..Counters::default()
    };
    let right = Counters {
        operations: 1,
        ..Counters::default()
    };
    assert_eq!(left.add(right).operations, u64::MAX);
}

#[test]
fn counter_merge_bytes_adds() {
    let left = Counters {
        bytes: 12_000,
        ..Counters::default()
    };
    let right = Counters {
        bytes: 34_000,
        ..Counters::default()
    };
    assert_eq!(left.add(right).bytes, 46_000);
}

#[test]
fn counter_merge_bytes_saturates() {
    let left = Counters {
        bytes: u64::MAX - 1,
        ..Counters::default()
    };
    let right = Counters {
        bytes: 2,
        ..Counters::default()
    };
    assert_eq!(left.add(right).bytes, u64::MAX);
}

#[test]
fn counter_merge_samples_adds() {
    let left = Counters {
        samples: 63,
        ..Counters::default()
    };
    let right = Counters {
        samples: 1,
        ..Counters::default()
    };
    assert_eq!(left.add(right).samples, 64);
}

#[test]
fn counter_merge_samples_saturates() {
    let left = Counters {
        samples: u64::MAX,
        ..Counters::default()
    };
    let right = Counters {
        samples: 64,
        ..Counters::default()
    };
    assert_eq!(left.add(right).samples, u64::MAX);
}

#[test]
fn counter_merge_cpu_adds() {
    let left = Counters {
        sampled_ns: 55,
        ..Counters::default()
    };
    let right = Counters {
        sampled_ns: 89,
        ..Counters::default()
    };
    assert_eq!(left.add(right).sampled_ns, 144);
}

#[test]
fn counter_merge_cpu_saturates() {
    let left = Counters {
        sampled_ns: u64::MAX - 7,
        ..Counters::default()
    };
    let right = Counters {
        sampled_ns: 8,
        ..Counters::default()
    };
    assert_eq!(left.add(right).sampled_ns, u64::MAX);
}

#[test]
fn counter_merge_wall_adds() {
    let left = Counters {
        sampled_wall_ns: 250,
        ..Counters::default()
    };
    let right = Counters {
        sampled_wall_ns: 750,
        ..Counters::default()
    };
    assert_eq!(left.add(right).sampled_wall_ns, 1000);
}

#[test]
fn counter_merge_wall_saturates() {
    let left = Counters {
        sampled_wall_ns: u64::MAX,
        ..Counters::default()
    };
    let right = Counters {
        sampled_wall_ns: 1,
        ..Counters::default()
    };
    assert_eq!(left.add(right).sampled_wall_ns, u64::MAX);
}

#[test]
fn snapshot_delta_dispatch() {
    let current = Snapshot {
        dispatch: Counters {
            operations: 21,
            bytes: 2100,
            samples: 21,
            sampled_ns: 210,
            sampled_wall_ns: 420,
        },
        ..Snapshot::default()
    };
    let previous = Snapshot {
        dispatch: Counters {
            operations: 13,
            bytes: 1300,
            samples: 13,
            sampled_ns: 130,
            sampled_wall_ns: 260,
        },
        ..Snapshot::default()
    };
    let delta = current.delta(previous).dispatch;
    assert_eq!(delta.operations, 8);
    assert_eq!(delta.bytes, 800);
    assert_eq!(delta.samples, 8);
    assert_eq!(delta.sampled_ns, 80);
    assert_eq!(delta.sampled_wall_ns, 160);
}

#[test]
fn snapshot_delta_udp_rx() {
    let current = Snapshot {
        udp_rx: Counters {
            operations: 21,
            bytes: 2100,
            samples: 21,
            sampled_ns: 210,
            sampled_wall_ns: 420,
        },
        ..Snapshot::default()
    };
    let previous = Snapshot {
        udp_rx: Counters {
            operations: 13,
            bytes: 1300,
            samples: 13,
            sampled_ns: 130,
            sampled_wall_ns: 260,
        },
        ..Snapshot::default()
    };
    let delta = current.delta(previous).udp_rx;
    assert_eq!(delta.operations, 8);
    assert_eq!(delta.bytes, 800);
    assert_eq!(delta.samples, 8);
    assert_eq!(delta.sampled_ns, 80);
    assert_eq!(delta.sampled_wall_ns, 160);
}

#[test]
fn snapshot_delta_tun_rx() {
    let current = Snapshot {
        tun_rx: Counters {
            operations: 21,
            bytes: 2100,
            samples: 21,
            sampled_ns: 210,
            sampled_wall_ns: 420,
        },
        ..Snapshot::default()
    };
    let previous = Snapshot {
        tun_rx: Counters {
            operations: 13,
            bytes: 1300,
            samples: 13,
            sampled_ns: 130,
            sampled_wall_ns: 260,
        },
        ..Snapshot::default()
    };
    let delta = current.delta(previous).tun_rx;
    assert_eq!(delta.operations, 8);
    assert_eq!(delta.bytes, 800);
    assert_eq!(delta.samples, 8);
    assert_eq!(delta.sampled_ns, 80);
    assert_eq!(delta.sampled_wall_ns, 160);
}

#[test]
fn snapshot_delta_route_replay() {
    let current = Snapshot {
        route_replay: Counters {
            operations: 21,
            bytes: 2100,
            samples: 21,
            sampled_ns: 210,
            sampled_wall_ns: 420,
        },
        ..Snapshot::default()
    };
    let previous = Snapshot {
        route_replay: Counters {
            operations: 13,
            bytes: 1300,
            samples: 13,
            sampled_ns: 130,
            sampled_wall_ns: 260,
        },
        ..Snapshot::default()
    };
    let delta = current.delta(previous).route_replay;
    assert_eq!(delta.operations, 8);
    assert_eq!(delta.bytes, 800);
    assert_eq!(delta.samples, 8);
    assert_eq!(delta.sampled_ns, 80);
    assert_eq!(delta.sampled_wall_ns, 160);
}

#[test]
fn snapshot_delta_tun_write() {
    let current = Snapshot {
        tun_write: Counters {
            operations: 21,
            bytes: 2100,
            samples: 21,
            sampled_ns: 210,
            sampled_wall_ns: 420,
        },
        ..Snapshot::default()
    };
    let previous = Snapshot {
        tun_write: Counters {
            operations: 13,
            bytes: 1300,
            samples: 13,
            sampled_ns: 130,
            sampled_wall_ns: 260,
        },
        ..Snapshot::default()
    };
    let delta = current.delta(previous).tun_write;
    assert_eq!(delta.operations, 8);
    assert_eq!(delta.bytes, 800);
    assert_eq!(delta.samples, 8);
    assert_eq!(delta.sampled_ns, 80);
    assert_eq!(delta.sampled_wall_ns, 160);
}

#[test]
fn snapshot_delta_udp_queue() {
    let current = Snapshot {
        udp_queue: Counters {
            operations: 21,
            bytes: 2100,
            samples: 21,
            sampled_ns: 210,
            sampled_wall_ns: 420,
        },
        ..Snapshot::default()
    };
    let previous = Snapshot {
        udp_queue: Counters {
            operations: 13,
            bytes: 1300,
            samples: 13,
            sampled_ns: 130,
            sampled_wall_ns: 260,
        },
        ..Snapshot::default()
    };
    let delta = current.delta(previous).udp_queue;
    assert_eq!(delta.operations, 8);
    assert_eq!(delta.bytes, 800);
    assert_eq!(delta.samples, 8);
    assert_eq!(delta.sampled_ns, 80);
    assert_eq!(delta.sampled_wall_ns, 160);
}

#[test]
fn snapshot_delta_flush() {
    let current = Snapshot {
        flush: Counters {
            operations: 21,
            bytes: 2100,
            samples: 21,
            sampled_ns: 210,
            sampled_wall_ns: 420,
        },
        ..Snapshot::default()
    };
    let previous = Snapshot {
        flush: Counters {
            operations: 13,
            bytes: 1300,
            samples: 13,
            sampled_ns: 130,
            sampled_wall_ns: 260,
        },
        ..Snapshot::default()
    };
    let delta = current.delta(previous).flush;
    assert_eq!(delta.operations, 8);
    assert_eq!(delta.bytes, 800);
    assert_eq!(delta.samples, 8);
    assert_eq!(delta.sampled_ns, 80);
    assert_eq!(delta.sampled_wall_ns, 160);
}

#[test]
fn snapshot_delta_bookkeeping() {
    let current = Snapshot {
        bookkeeping: Counters {
            operations: 21,
            bytes: 2100,
            samples: 21,
            sampled_ns: 210,
            sampled_wall_ns: 420,
        },
        ..Snapshot::default()
    };
    let previous = Snapshot {
        bookkeeping: Counters {
            operations: 13,
            bytes: 1300,
            samples: 13,
            sampled_ns: 130,
            sampled_wall_ns: 260,
        },
        ..Snapshot::default()
    };
    let delta = current.delta(previous).bookkeeping;
    assert_eq!(delta.operations, 8);
    assert_eq!(delta.bytes, 800);
    assert_eq!(delta.samples, 8);
    assert_eq!(delta.sampled_ns, 80);
    assert_eq!(delta.sampled_wall_ns, 160);
}

#[test]
fn snapshot_merge_dispatch() {
    let left = Snapshot {
        dispatch: Counters {
            operations: 3,
            bytes: 30,
            samples: 3,
            sampled_ns: 300,
            sampled_wall_ns: 3000,
        },
        ..Snapshot::default()
    };
    let right = Snapshot {
        dispatch: Counters {
            operations: 4,
            bytes: 40,
            samples: 4,
            sampled_ns: 400,
            sampled_wall_ns: 4000,
        },
        ..Snapshot::default()
    };
    let merged = left.merge(right).dispatch;
    assert_eq!(merged.operations, 7);
    assert_eq!(merged.bytes, 70);
    assert_eq!(merged.samples, 7);
    assert_eq!(merged.sampled_ns, 700);
    assert_eq!(merged.sampled_wall_ns, 7000);
}

#[test]
fn snapshot_merge_udp_rx() {
    let left = Snapshot {
        udp_rx: Counters {
            operations: 3,
            bytes: 30,
            samples: 3,
            sampled_ns: 300,
            sampled_wall_ns: 3000,
        },
        ..Snapshot::default()
    };
    let right = Snapshot {
        udp_rx: Counters {
            operations: 4,
            bytes: 40,
            samples: 4,
            sampled_ns: 400,
            sampled_wall_ns: 4000,
        },
        ..Snapshot::default()
    };
    let merged = left.merge(right).udp_rx;
    assert_eq!(merged.operations, 7);
    assert_eq!(merged.bytes, 70);
    assert_eq!(merged.samples, 7);
    assert_eq!(merged.sampled_ns, 700);
    assert_eq!(merged.sampled_wall_ns, 7000);
}

#[test]
fn snapshot_merge_tun_rx() {
    let left = Snapshot {
        tun_rx: Counters {
            operations: 3,
            bytes: 30,
            samples: 3,
            sampled_ns: 300,
            sampled_wall_ns: 3000,
        },
        ..Snapshot::default()
    };
    let right = Snapshot {
        tun_rx: Counters {
            operations: 4,
            bytes: 40,
            samples: 4,
            sampled_ns: 400,
            sampled_wall_ns: 4000,
        },
        ..Snapshot::default()
    };
    let merged = left.merge(right).tun_rx;
    assert_eq!(merged.operations, 7);
    assert_eq!(merged.bytes, 70);
    assert_eq!(merged.samples, 7);
    assert_eq!(merged.sampled_ns, 700);
    assert_eq!(merged.sampled_wall_ns, 7000);
}

#[test]
fn snapshot_merge_route_replay() {
    let left = Snapshot {
        route_replay: Counters {
            operations: 3,
            bytes: 30,
            samples: 3,
            sampled_ns: 300,
            sampled_wall_ns: 3000,
        },
        ..Snapshot::default()
    };
    let right = Snapshot {
        route_replay: Counters {
            operations: 4,
            bytes: 40,
            samples: 4,
            sampled_ns: 400,
            sampled_wall_ns: 4000,
        },
        ..Snapshot::default()
    };
    let merged = left.merge(right).route_replay;
    assert_eq!(merged.operations, 7);
    assert_eq!(merged.bytes, 70);
    assert_eq!(merged.samples, 7);
    assert_eq!(merged.sampled_ns, 700);
    assert_eq!(merged.sampled_wall_ns, 7000);
}

#[test]
fn snapshot_merge_tun_write() {
    let left = Snapshot {
        tun_write: Counters {
            operations: 3,
            bytes: 30,
            samples: 3,
            sampled_ns: 300,
            sampled_wall_ns: 3000,
        },
        ..Snapshot::default()
    };
    let right = Snapshot {
        tun_write: Counters {
            operations: 4,
            bytes: 40,
            samples: 4,
            sampled_ns: 400,
            sampled_wall_ns: 4000,
        },
        ..Snapshot::default()
    };
    let merged = left.merge(right).tun_write;
    assert_eq!(merged.operations, 7);
    assert_eq!(merged.bytes, 70);
    assert_eq!(merged.samples, 7);
    assert_eq!(merged.sampled_ns, 700);
    assert_eq!(merged.sampled_wall_ns, 7000);
}

#[test]
fn snapshot_merge_udp_queue() {
    let left = Snapshot {
        udp_queue: Counters {
            operations: 3,
            bytes: 30,
            samples: 3,
            sampled_ns: 300,
            sampled_wall_ns: 3000,
        },
        ..Snapshot::default()
    };
    let right = Snapshot {
        udp_queue: Counters {
            operations: 4,
            bytes: 40,
            samples: 4,
            sampled_ns: 400,
            sampled_wall_ns: 4000,
        },
        ..Snapshot::default()
    };
    let merged = left.merge(right).udp_queue;
    assert_eq!(merged.operations, 7);
    assert_eq!(merged.bytes, 70);
    assert_eq!(merged.samples, 7);
    assert_eq!(merged.sampled_ns, 700);
    assert_eq!(merged.sampled_wall_ns, 7000);
}

#[test]
fn snapshot_merge_flush() {
    let left = Snapshot {
        flush: Counters {
            operations: 3,
            bytes: 30,
            samples: 3,
            sampled_ns: 300,
            sampled_wall_ns: 3000,
        },
        ..Snapshot::default()
    };
    let right = Snapshot {
        flush: Counters {
            operations: 4,
            bytes: 40,
            samples: 4,
            sampled_ns: 400,
            sampled_wall_ns: 4000,
        },
        ..Snapshot::default()
    };
    let merged = left.merge(right).flush;
    assert_eq!(merged.operations, 7);
    assert_eq!(merged.bytes, 70);
    assert_eq!(merged.samples, 7);
    assert_eq!(merged.sampled_ns, 700);
    assert_eq!(merged.sampled_wall_ns, 7000);
}

#[test]
fn snapshot_merge_bookkeeping() {
    let left = Snapshot {
        bookkeeping: Counters {
            operations: 3,
            bytes: 30,
            samples: 3,
            sampled_ns: 300,
            sampled_wall_ns: 3000,
        },
        ..Snapshot::default()
    };
    let right = Snapshot {
        bookkeeping: Counters {
            operations: 4,
            bytes: 40,
            samples: 4,
            sampled_ns: 400,
            sampled_wall_ns: 4000,
        },
        ..Snapshot::default()
    };
    let merged = left.merge(right).bookkeeping;
    assert_eq!(merged.operations, 7);
    assert_eq!(merged.bytes, 70);
    assert_eq!(merged.samples, 7);
    assert_eq!(merged.sampled_ns, 700);
    assert_eq!(merged.sampled_wall_ns, 7000);
}

#[test]
fn proc_stat_parses_server_thread() {
    let stat = proc_stat("csqtt", 41, 9);
    assert_eq!(parse_proc_stat(&stat), Some(("csqtt".to_owned(), 41, 9)));
}

#[test]
fn proc_stat_parses_dataplane_thread() {
    let stat = proc_stat("dataplane fast path", 87, 12);
    assert_eq!(parse_proc_stat(&stat), Some(("dataplane fast path".to_owned(), 87, 12)));
}

#[test]
fn proc_stat_parses_parenthesis_in_thread_name() {
    let stat = proc_stat("worker) 7", 5, 6);
    assert_eq!(parse_proc_stat(&stat), Some(("worker) 7".to_owned(), 5, 6)));
}

#[test]
fn proc_stat_parses_unicode_thread_name() {
    let stat = proc_stat("поток-обработчик", 11, 13);
    assert_eq!(parse_proc_stat(&stat), Some(("поток-обработчик".to_owned(), 11, 13)));
}

#[test]
fn profiler_fast_path_has_an_explicit_mode_contract() {
    let mut watched = Profiler::new(true);
    watched.refresh_enabled(1);
    assert!(watched.enabled());
    let started = watched.begin(Stage::Dispatch, 120, 10);
    assert!(started.is_some());
    watched.finish(Stage::Dispatch, started, 25);
    let snapshot = watched.snapshot();
    assert_eq!(snapshot.dispatch.operations, 1);
    assert_eq!(snapshot.dispatch.bytes, 120);
    assert_eq!(snapshot.dispatch.samples, 1);
    assert_eq!(snapshot.dispatch.sampled_ns, 15);
    let mut plain = Profiler::new(false);
    plain.refresh_enabled(1);
    assert!(!plain.enabled());
    let started = plain.begin(Stage::Dispatch, 120, 10);
    assert!(started.is_none());
    plain.finish(Stage::Dispatch, started, 25);
    assert_eq!(plain.snapshot(), Snapshot::default());
}

#[test]
fn tick_conversion_preserves_cpu_ordering() {
    let (small_user, small_system) = ticks_to_ns(12, 7, 100).unwrap();
    let (large_user, large_system) = ticks_to_ns(13, 8, 100).unwrap();
    assert!(large_user >= small_user);
    assert!(large_system >= small_system);
    assert_eq!((small_user, small_system), (120_000_000, 70_000_000));
}

#[test]
fn tick_conversion_saturates_at_u64_limit() {
    let (user, system) = ticks_to_ns(u64::MAX, u64::MAX, 100).unwrap();
    assert_eq!(user, u64::MAX);
    assert_eq!(system, u64::MAX);
    assert_eq!(ticks_to_ns(1, 1, 0), None);
}

#[test]
fn every_sixty_fourth_operation_is_timed() {
    let mut profiler = Profiler::new(true);
    profiler.refresh_enabled(1);
    let mut timed = 0;
    for _ in 0..SAMPLE_INTERVAL * 2 {
        if profiler.begin(Stage::Flush, 1, 0).is_some() {
            timed += 1;
        }
    }
    assert_eq!(timed, 2);
    assert_eq!(profiler.snapshot().flush.operations, 128);
}

#[test]
fn merged_figures_come_apart_again() {
    let left = Snapshot {
        flush: Counters {
            operations: 3,
            bytes: 9,
            ..Counters::default()
        },
        ..Snapshot::default()
    };
    let right = Snapshot {
        flush: Counters {
            operations: 4,
            bytes: 1,
            ..Counters::default()
        },
        ..Snapshot::default()
    };
    assert_eq!(left.merge(right).delta(right), left);
}

#[test]
fn published_figures_need_a_watcher() {
    let mut profiler = Profiler::new(true);
    assert!(profiler.publish_dataplane().is_none());
    profiler.refresh_enabled(1);
    assert!(profiler.publish_dataplane().is_some());
    assert!(profiler.publish_protocol().is_some());
    let mut cpu = DataplaneCpu {
        cpu_ns: 0,
        sequence: 4,
    };
    cpu.publish_dataplane_cpu(77);
    assert_eq!((cpu.cpu_ns, cpu.sequence), (77, 5));
}

#[test]
fn threads_without_figures_are_left_out() {
    let entries = vec![
        ThreadEntry {
            name: "7".to_owned(),
            stat: Some(proc_stat("a", 1, 2)),
        },
        ThreadEntry {
            name: "x".to_owned(),
            stat: Some(proc_stat("b", 1, 2)),
        },
        ThreadEntry {
            name: "9".to_owned(),
            stat: None,
        },
    ];
    let threads = process_thread_cpu_snapshot(&entries, 100);
    assert_eq!(threads.len(), 1);
    assert_eq!(threads[0].tid, 7);
    assert_eq!(threads[0].name, "a");
    assert_eq!(threads[0].user_ns, 10_000_000);
    let stat = proc_stat("a", 1, 2);
    assert_eq!(
        process_cpu_split_ns(Some(&stat), 100),
        (10_000_000, 20_000_000)
    );
    assert_eq!(process_cpu_split_ns(None, 100), (0, 0));
}

#[test]
fn batches_count_their_operations() {
    let mut profiler = Profiler::new(true);
    profiler.refresh_enabled(1);
    for (operations, samples) in [(5, 5), (4, 5)] {
        let before = profiler.snapshot().udp_rx.operations;
        let started = profiler.begin(Stage::UdpRx, 100, 7);
        profiler.expand_batch(Stage::UdpRx, operations, 20, started.is_some());
        let after = profiler.snapshot();
        assert_eq!(after.udp_rx.operations, before + operations);
        assert_eq!(after.udp_rx.samples, samples);
        assert_eq!(after.udp_rx.sampled_ns, 0);
        assert_eq!(after.tun_rx, Counters::default());
    }
    let before = profiler.snapshot();
    assert_eq!(before.udp_rx.bytes, 240);
    profiler.expand_batch(Stage::UdpRx, 1, 0, true);
    profiler.expand_batch(Stage::UdpRx, 0, 0, true);
    assert_eq!(profiler.snapshot(), before);
}
