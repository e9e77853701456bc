use csqtt::server::host_cpu::{
    cpu_percentage, parse_cpu_total, parse_host_cpu, parse_process_cpu, CpuMeter, CpuSnapshot,
};
use csqtt::server::perf::{Counters, Snapshot, ThreadCpuSnapshot};
use csqtt::server::proxy_monitor::{
    pause_length, HealthNote, LogLevel, ProxyAction, ProxyLog, ProxyMonitor, RouteState,
    FIRST_WAIT, HEALTH_INTERVAL, PORT_CHECK,
};
use csqtt::server::settings::{
    certificate_names, cli_command, main_device, main_password, normalize_dns, option_command,
    runtime_dns, service_step, uses_legacy_directory, CliCommand, DnsSettingError, ServiceStep,
};
use csqtt::server::dpi::{dpi_direction, dpi_payload, dpi_time};
use csqtt::server::stats_line::{stats_line, uptime, StatsFigures};
use csqtt::server::syscalls_monitor::{
    iowq_text, multishot_label, thread_frames, thread_shares, uring_mode_label, CryptoPerf, MonitorCounters, Sample,
    SyscallsMonitor,
};

#[test]
fn dns_override_accepts_one_or_two_ipv4_addresses() {
    assert_eq!(normalize_dns("8.8.8.8").unwrap(), "8.8.8.8");
    assert_eq!(
        normalize_dns(" 8.8.8.8, 8.8.4.4 ").unwrap(),
        "8.8.8.8,8.8.4.4"
    );
}

#[test]
fn dns_override_rejects_invalid_or_excess_addresses() {
    assert!(normalize_dns("").is_err());
    assert!(normalize_dns("example.org").is_err());
    assert!(normalize_dns("1.1.1.1,1.0.0.1,8.8.8.8").is_err());
}

#[test]
fn refused_name_servers_say_why() {
    assert_eq!(
        normalize_dns("1.1.1.1,1.0.0.1,8.8.8.8"),
        Err(DnsSettingError::Count)
    );
    assert_eq!(
        normalize_dns("example.org"),
        Err(DnsSettingError::Invalid("example.org".to_owned()))
    );
}

#[test]
fn name_servers_come_from_the_first_place_that_has_them() {
    assert_eq!(runtime_dns(Some("8.8.8.8"), "1.0.0.1", "").unwrap(), "8.8.8.8");
    assert_eq!(runtime_dns(Some(" "), "1.0.0.1", "").unwrap(), "1.0.0.1");
    assert_eq!(runtime_dns(None, "", "9.9.9.9").unwrap(), "9.9.9.9");
    assert_eq!(runtime_dns(None, "", "").unwrap(), "1.1.1.1");
    assert_eq!(
        runtime_dns(Some("bad"), "1.0.0.1", ""),
        Err(DnsSettingError::Invalid("bad".to_owned()))
    );
    assert_eq!(
        runtime_dns(None, "", "1.1.1.1,2.2.2.2,3.3.3.3"),
        Err(DnsSettingError::Count)
    );
}

#[test]
fn password_and_device_come_from_the_first_place_that_has_them() {
    assert_eq!(main_password("a", "b", "c").as_deref(), Some("a"));
    assert_eq!(main_password("", "b", "c").as_deref(), Some("b"));
    assert_eq!(main_password("", "", "c").as_deref(), Some("c"));
    assert_eq!(main_password("", "", ""), None);
    assert_eq!(main_device("", Some(""), "c"), "");
    assert_eq!(main_device("", None, "c"), "c");
}

#[test]
fn commands_are_read_from_the_arguments() {
    let command = |args: &[&str]| {
        let args = args.iter().map(|arg| (*arg).to_owned()).collect::<Vec<_>>();
        cli_command(&args)
    };
    assert_eq!(command(&[]), CliCommand::Serve);
    assert_eq!(command(&["csqtt"]), CliCommand::Help);
    assert_eq!(command(&["csqtt", "-h"]), CliCommand::Help);
    assert_eq!(command(&["csqtt", "--io-uring-probe"]), CliCommand::Probe);
    assert_eq!(command(&["csqtt", "start"]), CliCommand::Start);
    assert_eq!(command(&["csqtt", "stop"]), CliCommand::Stop);
    assert_eq!(command(&["csqtt", "restart"]), CliCommand::Restart);
    assert_eq!(command(&["csqtt", "syscalls"]), CliCommand::Syscalls);
    assert_eq!(command(&["csqtt", "perf"]), CliCommand::PerfUsage);
    assert_eq!(command(&["csqtt", "perf", "all"]), CliCommand::Perf);
    assert_eq!(command(&["csqtt", "--listen", "x"]), CliCommand::Serve);
    assert_eq!(
        option_command(false, true, false, false, 0),
        CliCommand::Stop
    );
    assert_eq!(service_step(false, false, true), ServiceStep::CallManager);
    assert_eq!(service_step(false, false, false), ServiceStep::RefuseUser);
    assert!(uses_legacy_directory(true, false, true));
    assert!(!uses_legacy_directory(true, true, true));
    assert_eq!(
        certificate_names(Some(" host "), Some([10, 2, 0, 254])),
        vec!["localhost", "127.0.0.1", "host", "10.2.0.254"]
    );
    assert_eq!(
        certificate_names(Some(" \n"), Some([127, 0, 0, 1])),
        vec!["localhost", "127.0.0.1"]
    );
}

#[test]
fn parses_linux_cpu_counters_and_process_name_with_spaces() {
    let host = "cpu  100 2 30 400 10 0 0 0 0 0\ncpu0 50 1 15 200\ncpu1 50 1 15 200\n";
    assert_eq!(parse_host_cpu(host), Some((542, 2)));
    let process = "77 (csqtt worker) R 1 2 3 4 5 6 7 8 9 10 11 12 13 14";
    assert_eq!(parse_process_cpu(process), Some(23));
}

#[test]
fn calculates_process_cpu_in_one_core_percent() {
    let previous = CpuSnapshot {
        total: 2_000,
        process: 100,
        cores: 4,
    };
    let current = CpuSnapshot {
        total: 2_100,
        process: 120,
        cores: 4,
    };
    assert_eq!(cpu_percentage(previous, current), Some(80));
}

#[test]
fn meter_keeps_the_share_between_two_looks() {
    assert_eq!(parse_cpu_total("cpu 1 2 3 4"), Some(10));
    assert_eq!(parse_cpu_total("cpu 1 2 3"), None);
    assert_eq!(parse_cpu_total("cpu 1 x 3 4"), None);
    let stat = |ticks: u64| format!("1 (a) R 1 2 3 4 5 6 7 8 9 10 {ticks} 0 0 0");
    let mut meter = CpuMeter::new();
    meter.sample("cpu 100 0 0 100\ncpu0 1\n", &stat(0));
    meter.sample("cpu 150 0 0 150\ncpu0 1\n", &stat(25));
    assert_eq!(meter.percent, 25);
    assert_eq!(meter.cores, 1);
}

#[test]
fn figures_are_one_line_of_json() {
    let figures = StatsFigures {
        timestamp: 100,
        started: 40,
        active: 1,
        total: 2,
        up_bytes: 3,
        down_bytes: 4,
        passwords: 5,
        devices: 6,
    };
    assert_eq!(
        stats_line(&figures),
        "{\"active\":1,\"devices\":6,\"down_bytes\":4,\"passwords\":5,\"timestamp\":100,\"total\":2,\"transport\":\"rtp-aead\",\"tunnel\":\"userspace-tun\",\"up_bytes\":3,\"uptime\":60}"
    );
    assert_eq!(uptime(10, 20), -10);
    assert_eq!(uptime(i64::MAX, -1), i64::MAX);
    let read: serde_json::Value = serde_json::from_str(&stats_line(&figures)).unwrap();
    assert_eq!(read["uptime"], 60);
}

#[test]
fn silent_port_is_looked_at_less_often() {
    let mut monitor = ProxyMonitor::new();
    assert_eq!(monitor.wait_ms, FIRST_WAIT);
    assert!(matches!(
        monitor.observe(true, RouteState::Absent),
        ProxyAction::CheckPort
    ));
    let mut waits = Vec::new();
    for look in 0..15 {
        let action = monitor.port_checked(1080, false, false);
        assert!(matches!(
            action,
            ProxyAction::ReportSilent { port: 1080, first } if first == (look % 5 == 0)
        ));
        waits.push(monitor.wait_ms);
    }
    assert_eq!(waits[0], PORT_CHECK);
    assert_eq!(waits[4], 30_000);
    assert_eq!(waits[9], 90_000);
    assert_eq!(waits[14], 120_000);
    assert_eq!(pause_length(7), 120_000);
    assert!(matches!(
        monitor.port_checked(1080, false, true),
        ProxyAction::Connect(1080)
    ));
    monitor.connected(true);
    assert_eq!(monitor.wait_ms, HEALTH_INTERVAL);
}

#[test]
fn second_failed_probe_removes_the_route() {
    let mut monitor = ProxyMonitor::new();
    assert!(matches!(
        monitor.port_checked(1080, true, true),
        ProxyAction::Probe
    ));
    assert_eq!(monitor.probe_failed(), (1, false));
    assert_eq!(monitor.probe_failed(), (2, true));
    assert_eq!(monitor.probe_failed(), (1, false));
    monitor.probe_answered();
    assert_eq!(monitor.probe_failed(), (1, false));
    assert!(matches!(
        monitor.port_checked(1080, true, false),
        ProxyAction::RemoveSilent(1080)
    ));
    assert!(matches!(
        monitor.observe(true, RouteState::Stale),
        ProxyAction::RemoveStale
    ));
    assert!(matches!(
        monitor.observe(false, RouteState::Current),
        ProxyAction::Disable { remove_route: true }
    ));
}

#[test]
fn proxy_lines_have_their_texts() {
    assert_eq!(
        ProxyLog::ProbeFailed(1, "no answer".to_owned()).text(),
        "Local SOCKS5 health check failed (1/2): no answer"
    );
    assert_eq!(ProxyLog::Removed.level(), LogLevel::Warning);
    assert_eq!(LogLevel::Error.as_str(), "ERROR");
    assert_eq!(
        HealthNote::PortSilent(1080).text().as_deref(),
        Some("Порт 1080 не отвечает")
    );
    assert_eq!(HealthNote::Clear.text(), None);
}

fn counters() -> MonitorCounters {
    MonitorCounters {
        udp_rx_packets: 0,
        udp_rx_bytes: 0,
        udp_rx_errors: 0,
        udp_rx_enobufs: 0,
        udp_tx_packets: 0,
        udp_tx_bytes: 0,
        udp_tx_errors: 0,
        udp_tx_drops: 0,
        tun_rx_packets: 0,
        tun_rx_bytes: 0,
        tun_rx_errors: 0,
        tun_tx_packets: 0,
        tun_tx_bytes: 0,
        tun_tx_errors: 0,
        tun_tx_drops: 0,
        sqe_submissions: 0,
        cqe_completions: 0,
        udp_rx_rearms: 0,
        tun_rx_rearms: 0,
        free_udp_tx_slots: 0,
        free_tun_tx_slots: 0,
        cq_min_wait_usec: 0,
        cq_wait_batch: 0,
        cq_capacity: 0,
        cq_overflow: 0,
        udp_rx_multishot: 0,
        udp_rx_buffer_count: 0,
        tun_fixed_buffers: 0,
        iowq_bounded_limit: 0,
        iowq_unbounded_limit: 0,
        uring_mode: 0,
    }
}

fn sample(now_ns: u64, packets: u64, thread_ns: u64) -> Sample {
    let none = Counters::default();
    Sample {
        now_ns,
        timestamp_ms: 7,
        counters: MonitorCounters {
            udp_rx_packets: packets,
            ..counters()
        },
        crypto: packets * 2,
        crypto_perf: CryptoPerf {
            chacha: none,
            srtp: none,
            unwrap_crypto: none,
            wrap_crypto: none,
        },
        dataplane_perf: Snapshot::default(),
        protocol_perf: Snapshot::default(),
        process_cpu_ns: thread_ns * 2,
        process_user_cpu_ns: thread_ns,
        process_system_cpu_ns: thread_ns,
        dataplane_cpu_ns: thread_ns,
        dataplane_sequence: now_ns,
        dataplane_tid: 3,
        threads: vec![ThreadCpuSnapshot {
            tid: 3,
            name: "dataplane".to_owned(),
            user_ns: thread_ns,
            system_ns: 0,
        }],
        all_active: true,
        active_sessions: 1,
    }
}

#[test]
fn unwatched_figures_are_not_told() {
    let mut monitor = SyscallsMonitor::new();
    assert!(monitor.sample(0, sample(0, 0, 0)).is_none());
    assert!(monitor.sample(1, sample(1_000_000_000, 5, 10)).is_none());
    let frame = monitor.sample(1, sample(2_000_000_000, 12, 30)).unwrap();
    assert_eq!(frame.io.udp_rx_pps, 7);
    assert_eq!(frame.sample_window_ns, 1_000_000_000);
    assert_eq!(frame.crypto_ops_s, 14);
    assert_eq!(frame.threads.len(), 1);
    assert_eq!(frame.threads[0].user_cpu_ns, 20);
    let shares = thread_shares(&frame);
    assert_eq!(
        shares.dataplane_ns + shares.other_threads_ns + shares.unattributed_ns,
        frame.process_cpu_ns
    );
    assert!(monitor.sample(0, sample(3_000_000_000, 12, 30)).is_none());
    assert!(monitor.sample(1, sample(4_000_000_000, 12, 30)).is_none());
}

#[test]
fn idle_second_is_silent() {
    let same = counters();
    let rates = same.rates(same);
    assert_eq!(rates.udp_rx_pps, 0);
    assert_eq!(rates.tun_tx_bps, 0);
    let threads = sample(0, 0, 9).threads;
    let frames = thread_frames(&threads, &threads);
    assert!(frames.iter().all(|frame| frame.user_cpu_ns == 0));
    assert_ne!(uring_mode_label(0), uring_mode_label(1));
}

#[test]
fn kernel_queues_are_shown_in_words() {
    assert_eq!(multishot_label(1), "активен");
    assert_eq!(multishot_label(0), "fallback");
    assert_eq!(iowq_text(4, 0), "4/0");
    assert_eq!(iowq_text(0, 16), "0/16");
    assert_eq!(iowq_text(0, 0), "не поддерживается ядром");
}

#[test]
fn packets_are_shown_with_the_time_of_day() {
    assert_eq!(dpi_time(0), "00:00:00");
    assert_eq!(dpi_time(1_431_648_000_999), "00:00:00");
    assert_eq!(dpi_time(1_431_734_399_000), "23:59:59");
    assert_eq!(dpi_time(45_296_000), "12:34:56");
    assert_eq!(dpi_time(8_210_266_876_799_999), "23:59:59");
    assert_eq!(dpi_time(8_210_266_880_400_000), "00:00:00");
    assert_eq!(dpi_time(8_210_266_900_000_000), "00:00:00");
    assert_eq!(dpi_time(u64::MAX), "00:00:00");
}

#[test]
fn packets_are_shown_by_their_way_and_payload() {
    assert_eq!(dpi_direction("INBOUND"), "\x1b[1;32m▲ INBOUND \x1b[0m");
    assert_eq!(dpi_direction("OUTBOUND"), "\x1b[1;34m▼ OUTBOUND\x1b[0m");
    assert_eq!(dpi_direction(""), "\x1b[1;34m▼ OUTBOUND\x1b[0m");
    assert_eq!(dpi_payload(111, "x"), "\x1b[1;33mRTP-Audio (PT=111)\x1b[0m");
    assert_eq!(dpi_payload(96, "x"), "\x1b[1;35mRTP-Video (PT=96)\x1b[0m");
    assert_eq!(dpi_payload(0, "STUN"), "\x1b[1;36mSTUN\x1b[0m");
}
