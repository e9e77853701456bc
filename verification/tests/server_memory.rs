use csqtt::server::io_counters::{IoCounters, UdpDatagramMode};
use csqtt::server::memory_metrics::{
    available_memory_bytes, collect_cgroup_v1, collect_cgroup_v2, collect_metric_frame,
    collect_runtime_memory, collect_socket_memory, fixed_buffer_memory, mapping_memory_snapshot,
    multiply, parse_process_memory, parse_smaps_rollup, total, CgroupMemory, GroupFilesOne,
    GroupFilesTwo, MetricFrame, PersistentStorage, ProcessMemory, ProxyBudget, ProxyStats, RuntimeGauges,
    SmapsRollup, SocketTables,
};
use csqtt::server::proc_text::{
    cgroup_directory, cgroup_location, limit_text, memory_group, number_text, own_socket_inodes,
    parse_hex_pair, parse_socket_table, proc_kib, socket_inode, GroupVersion, StatTable,
};
use std::collections::BTreeSet;

fn socket_table_row(queue: &str, inode: u64) -> String {
    format!(
        "sl local_address rem_address st tx_queue rx_queue tr tm->when retrnsmt uid timeout inode\n  0: 0100007F:0001 00000000:0000 07 {queue} 00:00000000 00000000 0 0 {inode}\n"
    )
}

#[test]
fn proc_kib_reads_standard_kib() {
    assert_eq!(proc_kib("VmRSS: 4096 kB\n", "VmRSS:"), Some(4096));
}

#[test]
fn proc_kib_reads_whitespace_delimited_value() {
    assert_eq!(proc_kib("Threads:\t12\n", "Threads:"), Some(12));
}

#[test]
fn proc_kib_ignores_similar_field_names() {
    assert_eq!(proc_kib("VmRSSPeak: 9 kB\n", "VmRSS:"), None);
}

#[test]
fn proc_kib_rejects_non_numeric_value() {
    assert_eq!(proc_kib("VmRSS: unknown kB\n", "VmRSS:"), None);
}

#[test]
fn proc_kib_rejects_missing_value() {
    assert_eq!(proc_kib("VmRSS:\n", "VmRSS:"), None);
}

#[test]
fn proc_kib_finds_later_matching_line() {
    assert_eq!(proc_kib("Name: csqtt\nVmSwap: 55 kB\n", "VmSwap:"), Some(55));
}

#[test]
fn proc_kib_recovers_after_invalid_duplicate() {
    assert_eq!(proc_kib("VmRSS: bad kB\nVmRSS: 99 kB\n", "VmRSS:"), Some(99));
}

#[test]
fn proc_kib_is_case_sensitive() {
    assert_eq!(proc_kib("vmrss: 77 kB\n", "VmRSS:"), None);
}

#[test]
fn process_memory_reads_rss() {
    let snapshot = parse_process_memory("VmRSS: 101 kB\n");
    assert!(snapshot.available);
    assert_eq!(snapshot.rss_kib, 101);
}

#[test]
fn process_memory_reads_peak_rss() {
    let snapshot = parse_process_memory("VmHWM: 102 kB\n");
    assert!(snapshot.available);
    assert_eq!(snapshot.peak_rss_kib, 102);
}

#[test]
fn process_memory_reads_anonymous() {
    let snapshot = parse_process_memory("RssAnon: 103 kB\n");
    assert!(snapshot.available);
    assert_eq!(snapshot.anonymous_kib, 103);
}

#[test]
fn process_memory_reads_file_backed() {
    let snapshot = parse_process_memory("RssFile: 104 kB\n");
    assert!(snapshot.available);
    assert_eq!(snapshot.file_kib, 104);
}

#[test]
fn process_memory_reads_shared_memory() {
    let snapshot = parse_process_memory("RssShmem: 105 kB\n");
    assert!(snapshot.available);
    assert_eq!(snapshot.shmem_kib, 105);
}

#[test]
fn process_memory_reads_thread_count() {
    let snapshot = parse_process_memory("Threads: 106\n");
    assert!(snapshot.available);
    assert_eq!(snapshot.threads, 106);
}

#[test]
fn smaps_reads_rss() {
    let snapshot = parse_smaps_rollup("Rss: 201 kB\n");
    assert!(snapshot.available);
    assert_eq!(snapshot.rss_kib, 201);
}

#[test]
fn smaps_reads_pss() {
    let snapshot = parse_smaps_rollup("Pss: 202 kB\n");
    assert!(snapshot.available);
    assert_eq!(snapshot.pss_kib, 202);
}

#[test]
fn smaps_reads_anonymous_pss() {
    let snapshot = parse_smaps_rollup("Pss_Anon: 203 kB\n");
    assert!(snapshot.available);
    assert_eq!(snapshot.pss_anon_kib, 203);
}

#[test]
fn smaps_reads_file_pss() {
    let snapshot = parse_smaps_rollup("Pss_File: 204 kB\n");
    assert!(snapshot.available);
    assert_eq!(snapshot.pss_file_kib, 204);
}

#[test]
fn smaps_reads_swap() {
    let snapshot = parse_smaps_rollup("Swap: 205 kB\n");
    assert!(snapshot.available);
    assert_eq!(snapshot.swap_kib, 205);
}

#[test]
fn smaps_reads_swap_pss() {
    let snapshot = parse_smaps_rollup("SwapPss: 206 kB\n");
    assert!(snapshot.available);
    assert_eq!(snapshot.swap_pss_kib, 206);
}

#[test]
fn hex_pair_reads_zero_values() {
    assert_eq!(parse_hex_pair("00000000:00000000"), Some((0, 0)));
}

#[test]
fn hex_pair_reads_max_values() {
    assert_eq!(parse_hex_pair("FFFFFFFFFFFFFFFF:10"), Some((u64::MAX, 16)));
}

#[test]
fn hex_pair_rejects_missing_separator() {
    assert_eq!(parse_hex_pair("00000001"), None);
}

#[test]
fn hex_pair_rejects_invalid_hex() {
    assert_eq!(parse_hex_pair("00000001:not-hex"), None);
}

#[test]
fn smaps_rollup_keeps_pss_and_anonymous_semantics_separate() {
    let snapshot = parse_smaps_rollup(
        "Rss:                100 kB\nPss:                 80 kB\nPss_Anon:            40 kB\nPss_File:            30 kB\nPss_Shmem:           10 kB\nAnonymous:           55 kB\nPrivate_Clean:        3 kB\nPrivate_Dirty:        4 kB\nShared_Clean:         5 kB\nShared_Dirty:         6 kB\nSwap:                 7 kB\nSwapPss:              8 kB\n",
    );
    assert_eq!(snapshot.pss_kib, 80);
    assert_eq!(snapshot.pss_anon_kib, 40);
    assert_eq!(snapshot.pss_file_kib, 30);
    assert_eq!(snapshot.pss_shmem_kib, 10);
    assert_eq!(snapshot.anonymous_kib, 55);
    assert_eq!(snapshot.private_kib, 7);
    assert_eq!(snapshot.shared_kib, 11);
}

#[test]
fn socket_queue_parser_uses_own_socket_inode_and_hex_values() {
    let table = "sl local_address rem_address st tx_queue rx_queue tr tm->when retrnsmt uid timeout inode\n  0: 0100007F:0001 00000000:0000 07 0000000A:0000000B 00:00000000 00000000 0 0 12345\n";
    let mut inodes = BTreeSet::new();
    inodes.insert(12_345);
    assert_eq!(parse_socket_table(table, &inodes), (1, 10, 11));
}

#[test]
fn mapping_snapshot_sorts_larger_file_mapping_first() {
    let snapshot = mapping_memory_snapshot(
        &ProcessMemory {
            file_kib: 90,
            anonymous_kib: 40,
            ..ProcessMemory::default()
        },
        &SmapsRollup {
            pss_file_kib: 80,
            pss_anon_kib: 30,
            private_kib: 50,
            anonymous_kib: 40,
            shared_kib: 7,
            ..SmapsRollup::default()
        },
    );
    assert_eq!(snapshot.categories.len(), 2);
    assert_eq!(snapshot.categories[0].category, "file-backed-mappings");
    assert_eq!(snapshot.categories[1].category, "anonymous-mappings");
}

#[test]
fn mapping_snapshot_sorts_larger_anonymous_mapping_first() {
    let snapshot = mapping_memory_snapshot(
        &ProcessMemory {
            file_kib: 2,
            anonymous_kib: 99,
            ..ProcessMemory::default()
        },
        &SmapsRollup {
            pss_file_kib: 1,
            pss_anon_kib: 88,
            ..SmapsRollup::default()
        },
    );
    assert_eq!(snapshot.categories[0].category, "anonymous-mappings");
}

#[test]
fn mapping_snapshot_skips_empty_categories() {
    let snapshot = mapping_memory_snapshot(&ProcessMemory::default(), &SmapsRollup::default());
    assert!(snapshot.available);
    assert!(snapshot.categories.is_empty());
}

#[test]
fn mapping_snapshot_keeps_file_shared_and_private_values() {
    let snapshot = mapping_memory_snapshot(
        &ProcessMemory {
            file_kib: 7,
            ..ProcessMemory::default()
        },
        &SmapsRollup {
            pss_file_kib: 5,
            private_kib: 11,
            shared_kib: 13,
            ..SmapsRollup::default()
        },
    );
    let file = &snapshot.categories[0];
    assert_eq!(file.private_kib, 11);
    assert_eq!(file.shared_kib, 13);
}

#[test]
fn mapping_snapshot_caps_anonymous_private_at_private_total() {
    let snapshot = mapping_memory_snapshot(
        &ProcessMemory {
            anonymous_kib: 20,
            ..ProcessMemory::default()
        },
        &SmapsRollup {
            pss_anon_kib: 10,
            anonymous_kib: 20,
            private_kib: 12,
            ..SmapsRollup::default()
        },
    );
    assert_eq!(snapshot.categories[0].private_kib, 12);
}

#[test]
fn mapping_snapshot_uses_saturating_file_private_subtraction() {
    let snapshot = mapping_memory_snapshot(
        &ProcessMemory {
            file_kib: 20,
            ..ProcessMemory::default()
        },
        &SmapsRollup {
            pss_file_kib: 20,
            anonymous_kib: 99,
            private_kib: 3,
            ..SmapsRollup::default()
        },
    );
    assert_eq!(snapshot.categories[0].private_kib, 0);
}

#[test]
fn socket_table_ignores_foreign_inode() {
    let inodes = BTreeSet::from([1]);
    assert_eq!(
        parse_socket_table(&socket_table_row("0000000A:0000000B", 2), &inodes),
        (0, 0, 0)
    );
}

#[test]
fn socket_table_accumulates_multiple_owned_rows() {
    let mut inodes = BTreeSet::from([11, 22]);
    let table = format!(
        "{}  1: 0100007F:0002 00000000:0000 07 00000003:00000004 00:00000000 00000000 0 0 22\n",
        socket_table_row("00000001:00000002", 11)
    );
    assert_eq!(parse_socket_table(&table, &inodes), (2, 4, 6));
    inodes.clear();
}

#[test]
fn socket_table_rejects_malformed_queue_for_owned_inode() {
    let inodes = BTreeSet::from([9]);
    assert_eq!(
        parse_socket_table(&socket_table_row("not-a-queue", 9), &inodes),
        (0, 0, 0)
    );
}

#[test]
fn socket_table_accepts_inode_at_compatibility_column() {
    let table = "sl local_address rem_address st tx_queue rx_queue tr tm->when retrnsmt uid timeout inode\n  0: 0100007F:0001 00000000:0000 07 0000000A:0000000B 00:00000000 00000000 0 0 ignored 77\n";
    let inodes = BTreeSet::from([77]);
    assert_eq!(parse_socket_table(table, &inodes), (1, 10, 11));
}

#[test]
fn cgroup_directory_joins_absolute_style_relative_path() {
    assert_eq!(
        cgroup_directory("/sys/fs/cgroup", "/system.slice/csqtt.service"),
        Some("/sys/fs/cgroup/system.slice/csqtt.service".to_owned())
    );
}

#[test]
fn cgroup_directory_joins_empty_relative_path() {
    assert_eq!(
        cgroup_directory("/sys/fs/cgroup", ""),
        Some("/sys/fs/cgroup".to_owned())
    );
}

#[test]
fn cgroup_directory_rejects_parent_traversal() {
    assert_eq!(
        cgroup_directory("/sys/fs/cgroup", "a/../b"),
        None
    );
}

#[test]
fn cgroup_directory_rejects_current_directory_component() {
    assert_eq!(cgroup_directory("/sys/fs/cgroup", "a/./b"), None);
}

#[test]
fn numbers_and_limits_are_read() {
    assert_eq!(number_text(&Some(" 12\n".to_owned())), Some(12));
    assert_eq!(number_text(&None), None);
    assert_eq!(limit_text(&Some("max\n".to_owned())), None);
    assert_eq!(limit_text(&Some("4096\n".to_owned())), Some(4096));
}

#[test]
fn stat_tables_are_read_by_either_name() {
    let table = StatTable::parse(&Some("anon 10\nfile bad\nrss 3\n".to_owned()));
    assert!(!table.is_empty());
    assert_eq!(table.get("anon"), Some(10));
    assert_eq!(table.get("file"), None);
    assert_eq!(table.stat_value("total_rss", "rss"), 3);
    assert!(StatTable::parse(&None).is_empty());
}

#[test]
fn memory_group_is_found_in_either_version() {
    assert!(matches!(
        memory_group("0::/system.slice\n"),
        Some((GroupVersion::Two, path)) if path == "/system.slice"
    ));
    assert!(matches!(
        memory_group("5:cpu,memory:/old\n"),
        Some((GroupVersion::One, path)) if path == "/old"
    ));
    assert!(memory_group("5:cpu:/old\n").is_none());
    assert!(matches!(
        cgroup_location("0::/a\n"),
        Some((GroupVersion::Two, path)) if path == "/sys/fs/cgroup/a"
    ));
}

#[test]
fn own_sockets_are_those_of_open_files() {
    assert_eq!(socket_inode("socket:[77]"), Some(77));
    assert_eq!(socket_inode("pipe:[77]"), None);
    let targets = vec![
        "socket:[7]".to_owned(),
        "/dev/null".to_owned(),
        "socket:[9]".to_owned(),
    ];
    assert_eq!(own_socket_inodes(&targets), (2, BTreeSet::from([7, 9])));
}

#[test]
fn private_pages_are_split_between_files_and_the_rest() {
    let snapshot = mapping_memory_snapshot(
        &ProcessMemory {
            file_kib: 5,
            anonymous_kib: 5,
            ..ProcessMemory::default()
        },
        &SmapsRollup {
            pss_file_kib: 4,
            pss_anon_kib: 3,
            private_kib: 10,
            anonymous_kib: 6,
            ..SmapsRollup::default()
        },
    );
    let private: u64 = snapshot
        .categories
        .iter()
        .map(|category| category.private_kib)
        .sum();
    assert_eq!(private, 10);
}

#[test]
fn groups_report_what_their_files_hold() {
    let two = collect_cgroup_v2(&GroupFilesTwo {
        current: Some("100\n".to_owned()),
        stat: Some("anon 60\nfile 30\n".to_owned()),
        peak: Some("120\n".to_owned()),
        max: Some("max\n".to_owned()),
        swap_current: None,
        swap_max: Some("5\n".to_owned()),
    });
    assert!(two.available);
    assert_eq!(two.current_bytes, 100);
    assert_eq!(two.anon_bytes, 60);
    assert_eq!(two.file_bytes, 30);
    assert_eq!(two.max_bytes, None);
    assert_eq!(two.swap_max_bytes, Some(5));
    let one = collect_cgroup_v1(&GroupFilesOne {
        usage: Some("7".to_owned()),
        stat: None,
        max_usage: None,
        limit: Some("9".to_owned()),
        memsw_usage: None,
        memsw_limit: None,
    });
    assert_eq!(one.current_bytes, 7);
    assert_eq!(one.max_bytes, Some(9));
}

#[test]
fn available_memory_is_the_smaller_room() {
    let meminfo = Some("MemTotal: 9 kB\nMemAvailable: 2 kB\n".to_owned());
    assert_eq!(
        available_memory_bytes(&meminfo, &CgroupMemory::default()),
        Some(2048)
    );
    let group = CgroupMemory {
        available: true,
        current_bytes: 900,
        max_bytes: Some(1_000),
        ..CgroupMemory::default()
    };
    assert_eq!(available_memory_bytes(&meminfo, &group), Some(100));
}

#[test]
fn socket_queues_are_summed_over_both_versions() {
    let memory = collect_socket_memory(
        3,
        &BTreeSet::from([5]),
        &SocketTables {
            udp: Some(socket_table_row("00000001:00000002", 5)),
            udp6: Some(socket_table_row("00000003:00000004", 5)),
            tcp: None,
            tcp6: None,
        },
    );
    assert_eq!(memory.socket_fds, 3);
    assert_eq!(memory.udp_sockets, 2);
    assert_eq!(memory.udp_tx_queue_bytes, 4);
    assert_eq!(memory.udp_rx_queue_bytes, 6);
    assert_eq!(memory.tcp_sockets, 0);
}

#[test]
fn products_and_sums_stop_at_the_largest_number() {
    assert_eq!(multiply(6, 7), 42);
    assert_eq!(multiply(u64::MAX, 2), u64::MAX);
    assert_eq!(total(&vec![1, 2, 3]), 6);
}

#[test]
fn fixed_buffers_follow_the_datagram_mode() {
    let counters = IoCounters::default();
    let memory = fixed_buffer_memory(&counters);
    assert_eq!(memory.packet_capacity_bytes, 1600);
    assert_eq!(memory.udp_rx_mode, UdpDatagramMode::default().label());
    assert_eq!(
        memory.udp_rx_payload_bytes,
        memory.udp_rx_slots * memory.udp_rx_slot_bytes
    );
}

fn gauges() -> RuntimeGauges {
    RuntimeGauges {
        allocator: "system".to_owned(),
        log_line_capacities: vec![10, 20],
        log_ring_metadata_capacity_bytes: 5,
        log_entry_limit: 600,
        public_sessions: 1,
        public_session_capacity: 2,
        hot_sessions: 3,
        hot_session_capacity: 4,
        hot_session_limit: 5,
        max_stream_workers_per_device: 6,
        engine_epochs: 7,
        device_epochs: 8,
        device_epoch_capacity: 9,
        derived_key_capacities: vec![32],
        web_session_key_capacities: vec![16, 16],
        web_session_limit: 10,
        login_limit_key_capacities: Vec::new(),
        login_limit_limit: 11,
        dpi_entries: 12,
        dpi_entry_capacity: 13,
        dpi_retained_bytes: 14,
        stream_repairs: 15,
        stream_inventory: 16,
        dataplane_commands_queued: 17,
        dataplane_command_capacity: 18,
        local_proxy_active: true,
        memory_trim_count: 19,
        memory_trim_last_unix: 20,
    }
}

#[test]
fn runtime_memory_counts_what_it_is_told() {
    let stats = ProxyStats {
        tcp_active: 1,
        udp_active: 2,
        tcp_limit: 3,
        udp_limit: 4,
        tcp_buffer_allocated: 2,
        tcp_buffer_retained: 1,
        udp_normal_buffer_allocated: 3,
        udp_normal_buffer_retained: 1,
        udp_jumbo_buffer_allocated: 1,
        udp_jumbo_buffer_retained: 0,
        opening_buffer_allocated_bytes: 9,
    };
    let budget = ProxyBudget {
        tcp_relay_bytes_per_session: 100,
        udp_normal_buffer_bytes: 10,
        udp_jumbo_buffer_bytes: 50,
        udp_response_bytes_at_limit: 7,
    };
    assert_eq!(budget.payload(2, 3, 1), 180);
    assert_eq!(budget.upper_bound(3), 307);
    let runtime = collect_runtime_memory(&gauges(), &stats, &budget);
    assert_eq!(runtime.log_entries, 2);
    assert_eq!(runtime.log_string_capacity_bytes, 30);
    assert_eq!(runtime.derived_keys, 1);
    assert_eq!(runtime.derived_key_string_capacity_bytes, 32);
    assert_eq!(runtime.web_sessions, 2);
    assert_eq!(runtime.login_limits, 0);
    let frame = collect_metric_frame(
        5,
        6,
        ProcessMemory::default(),
        SmapsRollup::default(),
        CgroupMemory::default(),
        collect_socket_memory(
            0,
            &BTreeSet::new(),
            &SocketTables {
                udp: None,
                udp6: None,
                tcp: None,
                tcp6: None,
            },
        ),
        PersistentStorage::default(),
        &IoCounters::default(),
        runtime,
    );
    assert_eq!(frame.timestamp_ms, 5);
    assert_eq!(frame.pid, 6);
    assert_eq!(frame.error, "");
}

#[test]
fn empty_frame_holds_nothing() {
    let frame = MetricFrame::default();
    assert_eq!((frame.timestamp_ms, frame.pid), (0, 0));
    assert!(frame.error.is_empty());
    assert!(!frame.process.available && !frame.cgroup.available);
    assert_eq!(frame.storage.log_file_bytes, 0);
    assert!(frame.runtime.allocator.is_empty());
}
