use csqtt::client::auth::TurnCredentials;
use csqtt::client::cause::{
    is_local_network_down, is_remote_tcp_stream_reset, is_transport_timeout,
    is_turn_allocation_mismatch, is_turn_allocation_quota, should_invalidate_turn_credentials,
    turn_allocate_stun_code, turn_stun_code, Cause, ErrorChain, IoKind,
};
use csqtt::client::credentials::{
    quota_rotation_delay, same_turn_credentials, AllocationMismatch, CredentialCache,
    QuotaRotation, GROUPS_PER_CREDENTIAL, WORKERS_PER_CREDENTIAL, WORKERS_PER_GROUP,
};
use csqtt::client::pacing::{
    should_refresh_configuration_after_full_outage, ConfigFlightGuard, HashAvailability, PauseGate,
    RecoveryLogGate, WorkerStartPacer, WORKER_START_INTERVAL_MS,
};
use csqtt::client::session::ConfigDeliveryState;
use csqtt::client::turn_endpoint::TurnTransportMode;
use csqtt::client::worker::{
    assign_groups, credential_cohort_index, credential_stream_id, group_hash_index,
    group_worker_ids, parse_hashes, tcp_stream_retry_delay, worker_restart,
    worker_retry_delay_with_jitter, FetchStep, Fetched, GroupCredentials, SessionReport, TcpPhase,
    WorkerAction, WorkerLog, WorkerState, WorkerTaskEnd,
};

fn told(message: &str) -> ErrorChain {
    ErrorChain {
        causes: vec![Cause::Other],
        message: message.to_owned(),
        full: message.to_owned(),
    }
}

fn system(code: i32, kind: IoKind) -> ErrorChain {
    let message = format!("os error (os error {code})");
    ErrorChain {
        causes: vec![Cause::Io { code: Some(code), kind }],
        message: message.clone(),
        full: message,
    }
}

fn refused(code: i32) -> ErrorChain {
    ErrorChain {
        causes: vec![Cause::TurnRequest { stun_code: code }],
        message: format!("TURN request failed: STUN error {code}"),
        full: format!("TURN request failed: STUN error {code}"),
    }
}

fn credentials(username: &str, password: &str) -> TurnCredentials {
    TurnCredentials {
        username: username.to_owned(),
        password: password.to_owned(),
        server_addresses: vec!["turn.example:3478".to_owned()],
    }
}

#[test]
fn parses_and_deduplicates_vk_hashes() {
    assert_eq!(
        parse_hashes("abc, https://vk.com/call/join/def?x=1;abc"),
        vec!["abc", "def"]
    );
}

#[test]
fn rejects_unrelated_http_urls() {
    assert!(parse_hashes("https://example.com/not-a-call").is_empty());
}

#[test]
fn every_credential_cohort_is_shared_by_at_most_two_complete_groups() {
    for group_id in 1..=18 {
        let workers: Vec<_> = group_worker_ids(group_id).collect();
        assert_eq!(workers.len(), WORKERS_PER_GROUP);
    }
    for groups_per_hash in 1usize..=18 {
        let cohorts = groups_per_hash.div_ceil(GROUPS_PER_CREDENTIAL);
        for cohort_index in 0..cohorts {
            let assigned = (0..groups_per_hash)
                .filter(|group_index| credential_cohort_index(*group_index) == cohort_index)
                .count();
            assert!((1..=GROUPS_PER_CREDENTIAL).contains(&assigned));
            assert!(assigned * WORKERS_PER_GROUP <= WORKERS_PER_CREDENTIAL);
            assert_eq!(
                credential_stream_id(cohort_index + 1),
                (cohort_index + 1) * 100
            );
        }
    }
}

#[test]
fn worker_groups_are_evenly_distributed_for_every_supported_hash_count() {
    for hash_count in 1..=6 {
        for groups in 1usize..=18 {
            let mut counts = vec![0usize; hash_count];
            for group_index in 0..groups {
                counts[group_hash_index(group_index, hash_count)] += 1;
            }
            assert_eq!(counts.iter().sum::<usize>(), groups);
            let minimum = counts.iter().copied().min().unwrap();
            let maximum = counts.iter().copied().max().unwrap();
            assert!(maximum - minimum <= 1);
        }
    }
}

#[test]
fn fifty_four_workers_use_twenty_seven_workers_per_each_of_two_hashes() {
    let groups = 54 / WORKERS_PER_GROUP;
    let mut groups_by_hash = [0usize; 2];
    let mut cohorts_by_hash = [0usize; 2];
    for group_index in 0..groups {
        let hash_index = group_hash_index(group_index, groups_by_hash.len());
        let group_index_for_hash = groups_by_hash[hash_index];
        groups_by_hash[hash_index] += 1;
        cohorts_by_hash[hash_index] =
            cohorts_by_hash[hash_index].max(credential_cohort_index(group_index_for_hash) + 1);
    }
    assert_eq!(groups_by_hash, [3, 3]);
    assert_eq!(cohorts_by_hash, [2, 2]);
    assert_eq!(
        groups_by_hash.map(|groups| groups * WORKERS_PER_GROUP),
        [27, 27]
    );
}

#[test]
fn six_groups_on_two_hashes_share_four_credentials() {
    let assigned = assign_groups(6, 2);
    let hashes: Vec<usize> = assigned.iter().map(|a| a.hash_index).collect();
    assert_eq!(hashes, vec![0, 1, 0, 1, 0, 1]);
    let ids: Vec<usize> = assigned.iter().map(|a| a.credential_id).collect();
    assert_eq!(ids[0], ids[2]);
    assert_eq!(ids[1], ids[3]);
    assert_ne!(ids[0], ids[4]);
    assert_ne!(ids[0], ids[1]);
}

#[test]
fn unavailable_hash_stops_only_its_own_worker_groups() {
    let root_cancelled = false;
    let mut unavailable = HashAvailability::new();
    let healthy = HashAvailability::new();
    unavailable.mark_unavailable();
    assert!(unavailable.unavailable);
    assert!(unavailable.stops(root_cancelled));
    assert!(!healthy.unavailable);
    assert!(!healthy.stops(root_cancelled));
}

#[test]
fn config_flight_is_globally_exclusive_and_released_by_drop() {
    let mut state = ConfigDeliveryState { sent: false, in_flight: false };
    let first = ConfigFlightGuard::acquire(&mut state);
    assert!(first.acquired);
    let second = ConfigFlightGuard::acquire(&mut state);
    assert!(!second.acquired);
    first.release(&mut state);
    let third = ConfigFlightGuard::acquire(&mut state);
    assert!(third.acquired);
}

#[test]
fn delivered_config_prevents_new_flight() {
    let mut state = ConfigDeliveryState { sent: true, in_flight: false };
    let guard = ConfigFlightGuard::acquire(&mut state);
    assert!(!guard.acquired);
    assert!(!state.in_flight);
}

#[test]
fn full_outage_reopens_single_configuration_flight() {
    assert!(should_refresh_configuration_after_full_outage(
        true, true, 0, false
    ));
    assert!(!should_refresh_configuration_after_full_outage(
        false, true, 0, false
    ));
    assert!(!should_refresh_configuration_after_full_outage(
        true, false, 0, false
    ));
    assert!(!should_refresh_configuration_after_full_outage(
        true, true, 1, false
    ));
    assert!(!should_refresh_configuration_after_full_outage(
        true, true, 0, true
    ));

    let mut state = ConfigDeliveryState { sent: true, in_flight: false };
    if should_refresh_configuration_after_full_outage(true, true, 0, false) {
        state.sent = false;
    }
    let guard = ConfigFlightGuard::acquire(&mut state);
    assert!(guard.acquired);
}

#[test]
fn global_worker_start_pacer_spaces_all_126_starts_by_100_milliseconds() {
    let started = 5_000u64;
    let mut pacer = WorkerStartPacer::new(started, WORKER_START_INTERVAL_MS);
    let mut starts = Vec::with_capacity(126);
    for _ in 0..126 {
        let at = pacer.scheduled(started);
        pacer.started(at);
        starts.push(at);
    }
    assert_eq!(starts[0], started);
    assert_eq!(starts[125] - started, 12_500);
    assert!(starts
        .windows(2)
        .all(|pair| pair[1] - pair[0] == WORKER_START_INTERVAL_MS));
}

#[test]
fn cancelled_queued_reconnect_does_not_consume_the_next_slot() {
    let mut pacer = WorkerStartPacer::new(1_000, WORKER_START_INTERVAL_MS);
    let first = pacer.scheduled(1_000);
    pacer.started(first);
    let queued = pacer.scheduled(1_000);
    assert_eq!(queued, 1_100);
    let next = pacer.scheduled(1_000);
    assert_eq!(next - first, WORKER_START_INTERVAL_MS);
}

#[test]
fn isolated_reconnect_after_idle_starts_immediately() {
    let mut pacer = WorkerStartPacer::new(1_000, WORKER_START_INTERVAL_MS);
    let first = pacer.scheduled(1_000);
    pacer.started(first);
    assert_eq!(pacer.scheduled(61_000), 61_000);
}

#[test]
fn pause_gate_blocks_new_work_until_resume() {
    let mut gate = PauseGate::new();
    assert!(!gate.is_paused());
    assert!(gate.set_paused(true));
    assert!(!gate.set_paused(true));
    assert!(gate.is_paused());
    assert!(gate.set_paused(false));
    assert!(!gate.is_paused());
}

#[test]
fn worker_retry_delay_is_bounded_and_caps_at_4250_milliseconds() {
    for (attempt, minimum_ms) in [
        (0, 250),
        (1, 250),
        (2, 500),
        (3, 1_000),
        (4, 2_000),
        (5, 4_000),
        (16, 4_000),
        (usize::MAX, 4_000),
    ] {
        assert_eq!(worker_retry_delay_with_jitter(attempt, 0), minimum_ms);
        assert_eq!(
            worker_retry_delay_with_jitter(attempt, u64::MAX),
            minimum_ms + 250
        );
    }
}

#[test]
fn worker_retry_delay_is_monotonic_for_every_jitter_value() {
    for jitter_ms in 0..=250 {
        let delays: Vec<_> = (1..=32)
            .map(|attempt| worker_retry_delay_with_jitter(attempt, jitter_ms))
            .collect();
        assert!(delays.windows(2).all(|window| window[0] <= window[1]));
        assert_eq!(delays[0], 250 + jitter_ms);
        assert_eq!(delays[4], 4_000 + jitter_ms);
        assert_eq!(delays[31], 4_000 + jitter_ms);
    }
}

#[test]
fn tcp_stream_reset_uses_the_short_capped_retry_ladder() {
    let delays: Vec<_> = (1..=8).map(tcp_stream_retry_delay).collect();
    assert_eq!(
        delays,
        vec![100, 300, 500, 800, 1_500, 1_500, 1_500, 1_500]
    );
}

#[test]
fn tcp_stream_reset_is_distinguished_from_a_local_route_failure() {
    let reset = system(104, IoKind::ConnectionReset);
    assert!(is_remote_tcp_stream_reset(
        &reset,
        "turn stream read failed: connection reset by peer (os error 104)"
    ));
    let route = system(101, IoKind::Other);
    assert!(!is_remote_tcp_stream_reset(
        &route,
        "turn stream read failed: network is unreachable (os error 101)"
    ));
}

#[test]
fn recovery_log_gate_coalesces_storms_without_losing_counts() {
    let mut gate = RecoveryLogGate::new();
    assert_eq!(gate.observe(0), Some(1));
    for now in 1..10_000 {
        assert_eq!(gate.observe(now), None);
    }
    assert_eq!(gate.observe(10_000), Some(10_000));
    for _ in 0..100_000 {
        assert_eq!(gate.observe(10_001), None);
    }
    assert_eq!(gate.observe(20_000), Some(100_001));
}

#[test]
fn turn_credentials_are_invalidated_after_exhausted_auth_but_not_quota_rejection() {
    let error = told("TURN Allocate failed: unauthorized; STUN error 401");
    assert!(should_invalidate_turn_credentials(
        &error,
        "turn allocate failed: unauthorized; stun error 401"
    ));
    let error = told("TURN Allocate failed: wrong credentials; STUN error 441");
    assert!(should_invalidate_turn_credentials(
        &error,
        "turn allocate failed: wrong credentials; stun error 441"
    ));
    let error = refused(438);
    assert!(should_invalidate_turn_credentials(
        &error,
        "turn refresh failed: stun error 438"
    ));
    let error = told("TURN Allocate failed: Allocation Quota Reached; STUN error 486");
    assert!(!should_invalidate_turn_credentials(
        &error,
        "turn allocate failed: allocation quota reached; stun error 486"
    ));
    let error = told("TURN ChannelBind hard timeout");
    assert!(!should_invalidate_turn_credentials(
        &error,
        "turn channelbind hard timeout"
    ));
    let error = told("TURN Allocate hard timeout");
    assert!(!should_invalidate_turn_credentials(
        &error,
        "turn allocate hard timeout"
    ));
    let error = told("TURN Allocate failed: Unknown Attribute; STUN error 420");
    assert!(!should_invalidate_turn_credentials(
        &error,
        "turn allocate failed: unknown attribute; stun error 420"
    ));
    let error = told("TURN Allocate failed: Insufficient Capacity; STUN error 508");
    assert!(!should_invalidate_turn_credentials(
        &error,
        "turn allocate failed: insufficient capacity; stun error 508"
    ));
}

#[test]
fn allocation_quota_is_recognized_structurally() {
    let error = told("TURN Allocate failed: STUN error 486");
    assert!(is_turn_allocation_quota(
        &error,
        "turn allocate failed: stun error 486"
    ));
}

#[test]
fn codes_are_found_in_the_causes() {
    let chain = ErrorChain {
        causes: vec![
            Cause::Other,
            Cause::TurnAllocate,
            Cause::Io { code: None, kind: IoKind::Other },
            Cause::TurnRequest { stun_code: 486 },
        ],
        message: "TURN Allocate failed".to_owned(),
        full: "TURN Allocate failed".to_owned(),
    };
    assert_eq!(turn_stun_code(&chain), Some(486));
    assert_eq!(turn_allocate_stun_code(&chain), Some(486));
    assert!(is_turn_allocation_quota(&chain, ""));
    assert_eq!(turn_allocate_stun_code(&refused(486)), None);
    assert_eq!(turn_stun_code(&told("nothing")), None);
}

#[test]
fn credential_identity_includes_secret_and_not_only_turn_addresses() {
    let first = credentials("first", "secret-a");
    let same = first.clone();
    let replacement = credentials("second", "secret-b");
    assert!(same_turn_credentials(&first, &same));
    assert!(!same_turn_credentials(&first, &replacement));
}

#[test]
fn credential_cache_never_reuses_a_credential_after_eighteen_allocate_attempts() {
    let mut cache = CredentialCache::default();
    cache.store(credentials("first", "secret-a"));
    for _ in 0..WORKERS_PER_CREDENTIAL {
        let lease = cache.reserve().expect("allocation slot must be available");
        cache.record_allocation(&lease);
    }
    assert!(cache.has_current());
    assert!(cache.reserve().is_none());
    assert!(!cache.has_current());
}

#[test]
fn quota_rotation_is_bounded_and_resets_after_successful_allocate() {
    let first = credentials("first", "secret-a");
    let second = credentials("second", "secret-b");
    let third = credentials("third", "secret-c");
    let mut cache = CredentialCache::default();
    cache.store(first.clone());
    let first_lease = cache.reserve().unwrap();
    assert!(matches!(
        cache.rotate_after_quota(&first_lease),
        QuotaRotation::Rotated(delay) if delay == 100
    ));
    assert!(cache.store(second.clone()));
    let second_lease = cache.reserve().unwrap();
    assert!(matches!(
        cache.rotate_after_quota(&second_lease),
        QuotaRotation::Rotated(delay) if delay == 300
    ));
    assert_eq!(
        (0..8).map(quota_rotation_delay).collect::<Vec<_>>(),
        vec![100, 300, 500, 800, 1_500, 1_500, 1_500, 1_500]
    );
    assert!(cache.store(third));
    let successful_lease = cache.reserve().unwrap();
    cache.record_allocation(&successful_lease);
    let reset_lease = cache.reserve().unwrap();
    assert!(matches!(
        cache.rotate_after_quota(&reset_lease),
        QuotaRotation::Rotated(delay) if delay == 100
    ));
}

#[test]
fn quota_rejected_credentials_are_never_reused() {
    let rejected = credentials("first", "secret-a");
    let fresh = credentials("second", "secret-b");
    let mut cache = CredentialCache::default();
    assert!(cache.store(rejected.clone()));
    let rejected_lease = cache.reserve().unwrap();
    assert!(matches!(
        cache.rotate_after_quota(&rejected_lease),
        QuotaRotation::Rotated(_)
    ));
    assert!(!cache.store(rejected));
    assert!(cache.store(fresh));
}

#[test]
fn allocation_mismatch_retries_once_then_rotates_and_resets_after_allocate() {
    let first = credentials("first", "secret-a");
    let second = credentials("second", "secret-b");
    let mut cache = CredentialCache::default();
    cache.store(first);
    let first_attempt = cache.reserve().unwrap();
    assert!(matches!(
        cache.retry_after_mismatch(&first_attempt),
        AllocationMismatch::RetryCurrent
    ));
    let retry_attempt = cache.reserve().unwrap();
    assert!(matches!(
        cache.retry_after_mismatch(&retry_attempt),
        AllocationMismatch::Rotated
    ));
    cache.store(second);
    let successful_attempt = cache.reserve().unwrap();
    cache.record_allocation(&successful_attempt);
    let next_attempt = cache.reserve().unwrap();
    assert!(matches!(
        cache.retry_after_mismatch(&next_attempt),
        AllocationMismatch::RetryCurrent
    ));
}

#[test]
fn stale_lease_leaves_the_new_credentials_alone() {
    let mut cache = CredentialCache::default();
    cache.store(credentials("first", "secret-a"));
    let lease = cache.reserve().unwrap();
    assert!(cache.invalidate(&lease));
    cache.store(credentials("second", "secret-b"));
    assert!(!cache.invalidate(&lease));
    assert_eq!(cache.rotate_after_quota(&lease), QuotaRotation::Replaced);
    assert_eq!(cache.retry_after_mismatch(&lease), AllocationMismatch::Replaced);
    assert!(cache.has_current());
}

#[test]
fn allocation_mismatch_classifier_accepts_437_and_channelbind_400_only() {
    let error = refused(437);
    assert!(is_turn_allocation_mismatch(
        &error,
        "turn refresh failed: stun error 437"
    ));
    let error = refused(400);
    assert!(is_turn_allocation_mismatch(
        &error,
        "turn channelbind failed: stun error 400"
    ));
    assert!(!is_turn_allocation_mismatch(
        &error,
        "turn allocate failed: stun error 400"
    ));
}

#[test]
fn local_network_classifier_uses_io_codes_and_not_generic_timeouts() {
    assert!(is_local_network_down(&system(101, IoKind::Other)));
    assert!(is_local_network_down(&told(
        "writer: Network is unreachable (os error 101)"
    )));
    assert!(!is_local_network_down(&told(
        "reader: read udp 127.0.0.1:3478: i/o timeout"
    )));
    assert!(!is_local_network_down(&told("PEER_LIVENESS_TIMEOUT")));
    assert!(!is_local_network_down(&told("connect failed (os error 10061)")));
    assert!(!is_local_network_down(&told(
        "connect timed out (os error 10060)"
    )));
}

#[test]
fn transport_timeout_classifier_ignores_non_timeout_turn_errors() {
    assert!(is_transport_timeout("turn refresh transaction timeout"));
    assert!(is_transport_timeout("reader: i/o timeout"));
    assert!(is_transport_timeout("operation timed out"));
    assert!(!is_transport_timeout("turn channelbind: stun error 438"));
    assert!(!is_transport_timeout("turn allocate: stun error 486"));
}

fn report(ready: bool) -> SessionReport {
    SessionReport {
        allocation_started: true,
        was_ready: ready,
        active_connections: 3,
        cancelled: false,
        unavailable: false,
        paused: false,
        transport: TurnTransportMode::Udp,
        renewed: false,
    }
}

#[test]
fn failed_session_waits_longer_each_time_until_it_was_ready() {
    let mut cache = CredentialCache::default();
    cache.store(credentials("first", "secret-a"));
    let lease = cache.reserve().unwrap();
    let mut state = WorkerState::new();
    let mut flight = ConfigDeliveryState { sent: true, in_flight: false };
    let mut delays = Vec::new();
    for _ in 0..3 {
        let guard = ConfigFlightGuard::acquire(&mut flight);
        let verdict = state.after_session_with(
            &mut cache,
            &mut flight,
            guard,
            &lease,
            report(false),
            &Some(told("reader failed")),
            0,
        );
        match verdict.action {
            WorkerAction::Sleep { delay_ms } => delays.push(delay_ms),
            _ => panic!("a failed session is followed by a rest"),
        }
    }
    assert_eq!(delays, vec![250, 500, 1_000]);
}

#[test]
fn quota_refusal_rotates_the_credentials() {
    let mut cache = CredentialCache::default();
    cache.store(credentials("first", "secret-a"));
    let lease = cache.reserve().unwrap();
    let mut state = WorkerState::new();
    let mut flight = ConfigDeliveryState { sent: true, in_flight: false };
    let guard = ConfigFlightGuard::acquire(&mut flight);
    let verdict = state.after_session_with(
        &mut cache,
        &mut flight,
        guard,
        &lease,
        report(false),
        &Some(told("TURN Allocate failed: Allocation Quota Reached; STUN error 486")),
        0,
    );
    assert_eq!(verdict.log, WorkerLog::QuotaRotated);
    assert!(!cache.has_current());
    assert!(!cache.store(credentials("first", "secret-a")));
}

#[test]
fn cancelled_worker_stops() {
    let mut cache = CredentialCache::default();
    cache.store(credentials("first", "secret-a"));
    let lease = cache.reserve().unwrap();
    let mut state = WorkerState::new();
    let mut flight = ConfigDeliveryState { sent: false, in_flight: false };
    let guard = ConfigFlightGuard::acquire(&mut flight);
    let mut ended = report(true);
    ended.cancelled = true;
    let verdict =
        state.after_session_with(&mut cache, &mut flight, guard, &lease, ended, &None, 7);
    assert_eq!(verdict.action, WorkerAction::Stop);
    assert!(!flight.in_flight);
}

#[test]
fn endpoint_cursor_moves_on_with_every_session() {
    let mut state = WorkerState::new();
    let first = state.next_endpoint();
    let second = state.next_endpoint();
    assert_eq!(second, first + 1);
}

#[test]
fn drawn_jitter_stays_within_its_bounds() {
    let mut cache = CredentialCache::default();
    cache.store(credentials("first", "secret-a"));
    let lease = cache.reserve().unwrap();
    let mut state = WorkerState::new();
    let mut flight = ConfigDeliveryState { sent: true, in_flight: false };
    let guard = ConfigFlightGuard::acquire(&mut flight);
    let verdict = state.after_session(
        &mut cache,
        &mut flight,
        guard,
        &lease,
        report(false),
        &Some(told("reader failed")),
    );
    match verdict.action {
        WorkerAction::Sleep { delay_ms } => assert!((250..=500).contains(&delay_ms)),
        _ => panic!("a failed session is followed by a rest"),
    }
}

fn group() -> GroupCredentials {
    GroupCredentials {
        credential_id: 1,
        hash: "abc".to_owned(),
        cache: CredentialCache::default(),
        failures: 0,
        availability: HashAvailability::new(),
    }
}

#[test]
fn fetched_credentials_are_shared() {
    let mut group = group();
    assert!(group.try_get().is_none());
    let step = group.fetched_with(Fetched::Credentials(credentials("first", "secret-a")), 0);
    assert!(matches!(step, FetchStep::Use { .. }));
    assert_eq!(group.try_get().unwrap().value.username, "first");
}

#[test]
fn unavailable_call_ends_the_fetching() {
    let mut group = group();
    let step = group.fetched_with(Fetched::CallUnavailable(951), 0);
    assert_eq!(step, FetchStep::Unavailable { code: 951 });
    assert!(group.is_unavailable());
    assert!(group.try_get().is_none());
}

#[test]
fn failed_fetches_are_counted() {
    let mut group = group();
    assert!(matches!(group.fetched_with(Fetched::Failed, 0), FetchStep::Failed { .. }));
    assert!(matches!(group.fetched(Fetched::Failed), FetchStep::Failed { .. }));
    assert_eq!(group.failures, 2);
}

#[test]
fn repeated_credentials_are_told_apart() {
    let mut group = group();
    let first = credentials("first", "secret-a");
    assert!(matches!(
        group.fetched_with(Fetched::Credentials(first.clone()), 0),
        FetchStep::Use { .. }
    ));
    let lease = group.try_get().unwrap();
    assert!(matches!(
        group.cache.rotate_after_quota(&lease),
        QuotaRotation::Rotated(_)
    ));
    assert!(matches!(
        group.fetched_with(Fetched::Credentials(first), 0),
        FetchStep::Repeated { .. }
    ));
}

#[test]
fn panicked_worker_is_started_anew() {
    assert!(worker_restart(WorkerTaskEnd::Panicked, false).is_some());
    assert!(worker_restart(WorkerTaskEnd::Panicked, true).is_none());
    assert!(worker_restart(WorkerTaskEnd::Cancelled, true).is_none());
}

#[test]
fn fetches_back_off_and_start_anew() {
    let mut group = group();
    for base in [100, 200, 400, 800, 1_600, 3_000, 3_000] {
        assert_eq!(
            group.fetched_with(Fetched::Failed, 199),
            FetchStep::Failed { delay_ms: base + 99 }
        );
    }
    group.fetched_with(Fetched::Credentials(credentials("first", "secret-a")), 0);
    assert_eq!(
        group.fetched_with(Fetched::Failed, 0),
        FetchStep::Failed { delay_ms: 100 }
    );
}

#[test]
fn lists_of_hashes_join() {
    let first = parse_hashes("abc;def");
    let second = parse_hashes("def\nghi#x");
    assert_eq!(first, vec!["abc", "def"]);
    assert_eq!(second, vec!["def", "ghi"]);
    assert_eq!(parse_hashes("abc;def,def\nghi#x"), vec!["abc", "def", "ghi"]);
}

#[test]
fn socket_failures_and_tcp_phases_are_told() {
    let mut cache = CredentialCache::default();
    cache.store(credentials("first", "secret-a"));
    let lease = cache.reserve().unwrap();
    let mut flight = ConfigDeliveryState { sent: true, in_flight: false };
    for (was_ready, transport, message, phase, socket) in [
        (true, TurnTransportMode::TcpTls, "cannot create socket", Some(TcpPhase::Active), true),
        (false, TurnTransportMode::TcpTls, "os error 29", Some(TcpPhase::Creating), true),
        (false, TurnTransportMode::TcpTls, "Broken pipe", None, false),
        (true, TurnTransportMode::Udp, "reader failed", None, false),
    ] {
        let guard = ConfigFlightGuard::acquire(&mut flight);
        let mut ended = report(was_ready);
        ended.transport = transport;
        let error = Some(told(message));
        let mut state = WorkerState::new();
        let verdict =
            state.after_session_with(&mut cache, &mut flight, guard, &lease, ended, &error, 0);
        assert_eq!(verdict.tcp_phase, phase);
        assert_eq!(verdict.socket_retry, socket);
    }
}
