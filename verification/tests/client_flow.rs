use csqtt::client::auth::TurnCredentials;
use csqtt::client::cause::{
    is_turn_allocation_mismatch, is_turn_allocation_quota, Cause, ErrorChain,
};
use csqtt::client::credentials::{CredentialCache, CredentialLease};
use csqtt::client::session::{
    ConfigDeliveryState, ConfigEvent, TaskEnd, CONNECT_CANCEL_GRACE_MS, SESSION_SHUTDOWN_GRACE_MS,
};
use csqtt::client::session_flow::{
    failure_chain, SessionAction, SessionEnding, SessionEvent, SessionFailure, SessionFlow,
    SessionOutcome, SessionStage,
};
use csqtt::client::shutdown::{LeaveEvent, LeaveStep, LeaveTaking, ShutdownCoordinator};
use csqtt::client::worker::WorkerState;
use csqtt::client::worker_flow::{LaunchAction, LaunchEvent, LaunchStage, WorkerLaunch};

const IDLE: ConfigDeliveryState = ConfigDeliveryState { sent: false, in_flight: false };
const ASKING: ConfigDeliveryState = ConfigDeliveryState { sent: false, in_flight: true };

fn ending(action: SessionAction) -> SessionEnding {
    match action {
        SessionAction::End(ending) => ending,
        _ => panic!("the session goes on"),
    }
}

fn failure(ending: &SessionEnding) -> String {
    match &ending.outcome {
        SessionOutcome::Failed(failure) => failure.text(),
        SessionOutcome::Finished(_) => panic!("the session has not failed"),
    }
}

fn bound(get_config: bool, flight: &mut ConfigDeliveryState) -> SessionFlow {
    let mut flow = SessionFlow::start(get_config);
    assert!(matches!(flow.step(flight, SessionEvent::Connected), SessionAction::Bind));
    assert!(matches!(
        flow.step(flight, SessionEvent::ChannelBound),
        SessionAction::Ask { timeout_ms: 750 }
    ));
    flow
}

fn running(flight: &mut ConfigDeliveryState) -> SessionFlow {
    let mut flow = bound(true, flight);
    let answer = ConfigEvent::Config("a:b:stream-v1".to_owned());
    match flow.step(flight, SessionEvent::Heard(answer)) {
        SessionAction::Run { config, stream_repair } => {
            assert_eq!(config.as_deref(), Some("a:b:stream-v1"));
            assert!(stream_repair);
        }
        _ => panic!("the session runs"),
    }
    flow
}

#[test]
fn configured_session_tells_what_it_delivered() {
    let mut flight = ASKING;
    let mut flow = running(&mut flight);
    assert_eq!(flight, ConfigDeliveryState { sent: true, in_flight: false });
    assert!(matches!(
        flow.step(&mut flight, SessionEvent::Cancelled),
        SessionAction::TakeLeave { within_ms: Some(SESSION_SHUTDOWN_GRACE_MS) }
    ));
    assert_eq!(flow.stage, SessionStage::Leaving);
    assert!(matches!(
        flow.step(&mut flight, SessionEvent::Writer { failed: true }),
        SessionAction::Ignore
    ));
    let end = ending(flow.step(&mut flight, SessionEvent::Left));
    assert!(matches!(end.outcome, SessionOutcome::Finished(true)));
    assert!(end.release && end.stop_writer && end.stop_reader);
    assert_eq!(flow.stage, SessionStage::Over);
    assert!(matches!(
        flow.step(&mut flight, SessionEvent::Connected),
        SessionAction::Ignore
    ));
}

#[test]
fn failed_session_gives_its_allocation_back() {
    let mut flight = IDLE;
    let mut flow = SessionFlow::start(false);
    let end = ending(flow.step(&mut flight, SessionEvent::NotConnected));
    assert!(!end.release);
    assert!(matches!(end.outcome, SessionOutcome::Failed(SessionFailure::Allocate)));
    assert_eq!(failure(&end), "TURN Allocate: ");

    let mut flow = SessionFlow::start(false);
    flow.step(&mut flight, SessionEvent::Connected);
    let end = ending(flow.step(&mut flight, SessionEvent::ChannelRefused));
    assert!(end.release);
    assert_eq!(failure(&end), "TURN ChannelBind обязателен");

    let mut flight = ASKING;
    let mut flow = bound(true, &mut flight);
    let end = ending(flow.step(&mut flight, SessionEvent::NotSent));
    assert!(end.release && !flight.in_flight && !flight.sent);
    assert_eq!(failure(&end), "отправка GETCONF");

    let mut flight = ASKING;
    let mut flow = bound(true, &mut flight);
    let end = ending(flow.step(&mut flight, SessionEvent::NotReceived));
    assert_eq!(failure(&end), "GETCONF чтение ответа конфига");

    let mut flight = ASKING;
    let mut flow = running(&mut flight);
    let end = ending(flow.step(&mut flight, SessionEvent::Repair));
    assert_eq!(failure(&end), "TARGET_REPAIR");
    assert!(end.release && end.stop_writer && end.stop_reader);

    let mut flight = ASKING;
    let mut flow = running(&mut flight);
    let end = ending(flow.step(&mut flight, SessionEvent::Reader { failed: true }));
    assert!(end.stop_writer && !end.stop_reader && end.release);
    assert!(matches!(end.outcome, SessionOutcome::Failed(SessionFailure::Reader)));
    assert_eq!(failure(&end), "");

    let mut flight = ASKING;
    let mut flow = running(&mut flight);
    let end = ending(flow.step(&mut flight, SessionEvent::Writer { failed: true }));
    assert!(matches!(end.outcome, SessionOutcome::Failed(SessionFailure::Writer)));

    let mut flight = ASKING;
    let mut flow = running(&mut flight);
    let end = ending(flow.step(&mut flight, SessionEvent::Writer { failed: false }));
    assert!(!end.stop_writer && end.stop_reader);
    assert!(matches!(end.outcome, SessionOutcome::Finished(true)));
}

#[test]
fn session_asks_for_its_configuration_three_times() {
    let mut flight = ASKING;
    let mut flow = bound(true, &mut flight);
    assert!(matches!(
        flow.step(&mut flight, SessionEvent::Heard(ConfigEvent::PanelRestart)),
        SessionAction::ReportRestart
    ));
    assert!(matches!(
        flow.step(&mut flight, SessionEvent::Heard(ConfigEvent::Unrelated)),
        SessionAction::KeepWaiting
    ));
    for wait in [1_500, 3_000] {
        assert!(matches!(
            flow.step(&mut flight, SessionEvent::Heard(ConfigEvent::Timeout)),
            SessionAction::Ask { timeout_ms } if timeout_ms == wait
        ));
    }
    let end = ending(flow.step(&mut flight, SessionEvent::Heard(ConfigEvent::Timeout)));
    assert_eq!(end.report, Some("handshake_timeout"));
    assert!(!flight.in_flight);

    let mut flight = ASKING;
    let mut flow = bound(true, &mut flight);
    let answer = ConfigEvent::Rejected("FATAL_AUTH".to_owned());
    let end = ending(flow.step(&mut flight, SessionEvent::Heard(answer)));
    assert_eq!(end.report, Some("handshake_rejected"));
    assert_eq!(failure(&end), "FATAL_AUTH");
}

#[test]
fn session_that_does_not_ask_for_all_keeps_the_right_of_others() {
    let mut flight = ASKING;
    let mut flow = bound(false, &mut flight);
    assert!(matches!(
        flow.step(&mut flight, SessionEvent::Heard(ConfigEvent::NoConfig)),
        SessionAction::Run { config: None, stream_repair: false }
    ));
    assert_eq!(flight, ASKING);
    flow.step(&mut flight, SessionEvent::Cancelled);
    let end = ending(flow.step(&mut flight, SessionEvent::Left));
    assert!(matches!(end.outcome, SessionOutcome::Finished(false)));
}

#[test]
fn stopped_session_has_not_failed() {
    let mut flight = IDLE;
    for (event, release) in [(SessionEvent::Connected, true), (SessionEvent::NotConnected, false)] {
        let mut flow = SessionFlow::start(false);
        assert!(matches!(
            flow.step(&mut flight, SessionEvent::Cancelled),
            SessionAction::AwaitRelay { grace_ms: CONNECT_CANCEL_GRACE_MS }
        ));
        let end = ending(flow.step(&mut flight, event));
        assert_eq!(end.release, release);
        assert!(matches!(end.outcome, SessionOutcome::Finished(false)));
    }
    let mut flow = SessionFlow::start(false);
    flow.step(&mut flight, SessionEvent::Connected);
    let end = ending(flow.step(&mut flight, SessionEvent::Cancelled));
    assert!(end.release && matches!(end.outcome, SessionOutcome::Finished(false)));

    let mut flow = bound(false, &mut flight);
    assert!(matches!(
        flow.step(&mut flight, SessionEvent::Cancelled),
        SessionAction::AwaitTask { grace_ms: SESSION_SHUTDOWN_GRACE_MS }
    ));
    assert!(matches!(
        flow.step(&mut flight, SessionEvent::Cancelled),
        SessionAction::Ignore
    ));
    let gone = SessionEvent::Task { end: TaskEnd::Overdue };
    let end = ending(flow.step(&mut flight, gone));
    assert!(end.release && matches!(end.outcome, SessionOutcome::Finished(false)));

    let mut flow = bound(false, &mut flight);
    let gone = SessionEvent::Task { end: TaskEnd::Panicked };
    let end = ending(flow.step(&mut flight, gone));
    assert_eq!(failure(&end), "паника сессии изолирована: ");
}

#[test]
fn leaving_session_is_given_up_after_its_grace() {
    for (end, text) in [
        (TaskEnd::Panicked, Some("session panicked during graceful shutdown: ")),
        (TaskEnd::Stopped, Some("session stopped during graceful shutdown: ")),
        (TaskEnd::Overdue, None),
    ] {
        let mut flight = ASKING;
        let mut flow = running(&mut flight);
        flow.step(&mut flight, SessionEvent::Cancelled);
        let ended = ending(flow.step(&mut flight, SessionEvent::Task { end }));
        assert!(ended.release);
        match text {
            Some(text) => assert_eq!(failure(&ended), text),
            None => assert!(matches!(ended.outcome, SessionOutcome::Finished(false))),
        }
    }
    let mut flight = ASKING;
    let mut flow = bound(true, &mut flight);
    flow.step(&mut flight, SessionEvent::Cancelled);
    flow.step(&mut flight, SessionEvent::Heard(ConfigEvent::NoConfig));
    assert!(matches!(
        flow.step(&mut flight, SessionEvent::Cancelled),
        SessionAction::TakeLeave { within_ms: None }
    ));
}

fn beneath(code: i32) -> ErrorChain {
    ErrorChain {
        causes: vec![Cause::Other, Cause::TurnRequest { stun_code: code }],
        message: "relay".to_owned(),
        full: format!("relay: STUN error {code}"),
    }
}

#[test]
fn failures_are_handed_to_the_worker_with_their_causes() {
    let refused = failure_chain(&SessionFailure::Allocate, Some(beneath(486)));
    assert_eq!(refused.message, "TURN Allocate: relay: STUN error 486");
    assert_eq!(
        refused.full,
        "TURN Allocate: relay: STUN error 486: relay: STUN error 486"
    );
    assert_eq!(
        refused.causes,
        vec![Cause::TurnAllocate, Cause::Other, Cause::TurnRequest { stun_code: 486 }]
    );
    assert!(is_turn_allocation_quota(&refused, ""));

    for failure in [SessionFailure::Writer, SessionFailure::Reader] {
        let broken = failure_chain(&failure, Some(beneath(486)));
        assert_eq!(broken.message, "relay");
        assert_eq!(broken.full, "relay: STUN error 486");
        assert!(!is_turn_allocation_quota(&broken, "relay"));
    }

    let unbound = failure_chain(&SessionFailure::ChannelBind, Some(beneath(400)));
    assert_eq!(unbound.message, "TURN ChannelBind обязателен");
    assert_eq!(unbound.full, "TURN ChannelBind обязателен: relay: STUN error 400");
    assert_eq!(
        unbound.causes,
        vec![Cause::Other, Cause::Other, Cause::TurnRequest { stun_code: 400 }]
    );
    assert!(is_turn_allocation_mismatch(&unbound, "turn channelbind"));

    let gone = failure_chain(&SessionFailure::Task("паника: "), Some(beneath(1)));
    assert_eq!(gone.message, "паника: relay");
    assert_eq!(gone.causes, vec![Cause::Other]);

    let repair = SessionOutcome::Failed(SessionFailure::Repair).error(None).unwrap();
    assert_eq!(repair.message, "TARGET_REPAIR");
    assert!(SessionOutcome::Finished(true).error(Some(beneath(1))).is_none());
    let alone = failure_chain(&SessionFailure::Allocate, None);
    assert_eq!(alone.causes, vec![Cause::TurnAllocate]);
}

fn cohort() -> (CredentialCache, CredentialLease) {
    let mut cache = CredentialCache::default();
    cache.store(TurnCredentials {
        username: "u".to_owned(),
        password: "p".to_owned(),
        server_addresses: vec!["turn.example:3478".to_owned()],
    });
    let lease = cache.reserve().unwrap();
    (cache, lease)
}

fn shares_left(cache: &mut CredentialCache) -> usize {
    let mut left = 0;
    while cache.reserve().is_some() {
        left += 1;
    }
    left
}

#[test]
fn worker_reaches_its_session() {
    let (mut cache, lease) = cohort();
    let mut launch = WorkerLaunch::new();
    let mut state = WorkerState::new();
    let mut flight = IDLE;
    let go_on = || LaunchEvent::Waited { go_on: true };
    assert_eq!(
        launch.step(&mut cache, false, &mut state, &mut flight, go_on()),
        LaunchAction::Ask
    );
    let nothing = LaunchEvent::Asked { lease: None, cancelled: false };
    assert_eq!(
        launch.step(&mut cache, false, &mut state, &mut flight, nothing),
        LaunchAction::Ask
    );
    let asked = LaunchEvent::Asked { lease: Some(lease), cancelled: false };
    assert_eq!(
        launch.step(&mut cache, false, &mut state, &mut flight, asked),
        LaunchAction::AwaitTurn
    );
    assert_eq!(
        launch.step(&mut cache, false, &mut state, &mut flight, go_on()),
        LaunchAction::AwaitResume
    );
    assert_eq!(
        launch.step(&mut cache, false, &mut state, &mut flight, go_on()),
        LaunchAction::Run { get_config: true, cursor: 0 }
    );
    assert_eq!(state.endpoint_cursor, 1);
    assert_eq!(flight, ASKING);
    assert!(!launch.allocation_started());
    let started = LaunchEvent::AllocationStarted { started: true };
    launch.step(&mut cache, false, &mut state, &mut flight, started);
    assert!(launch.allocation_started());
    for action in [LaunchAction::ReportRecovery, LaunchAction::Ignore] {
        let allocated = LaunchEvent::Allocated { allocated: true };
        assert_eq!(
            launch.step(&mut cache, false, &mut state, &mut flight, allocated),
            action
        );
    }
    assert_eq!(
        launch.stage,
        LaunchStage::Running { get_config: true, started: Some(true), allocated: Some(true) }
    );
}

#[test]
fn worker_that_stops_gives_its_share_back() {
    for waits in 0..2 {
        let (mut cache, lease) = cohort();
        let mut launch = WorkerLaunch { stage: LaunchStage::Pacing, lease: Some(lease) };
        let mut state = WorkerState::new();
        let mut flight = IDLE;
        for _ in 0..waits {
            let event = LaunchEvent::Waited { go_on: true };
            launch.step(&mut cache, false, &mut state, &mut flight, event);
        }
        let event = LaunchEvent::Waited { go_on: false };
        assert_eq!(
            launch.step(&mut cache, false, &mut state, &mut flight, event),
            LaunchAction::Stop
        );
        assert_eq!(launch.stage, LaunchStage::Stopped);
        assert_eq!(flight, IDLE);
        assert_eq!(shares_left(&mut cache), 18);
    }
}

#[test]
fn worker_of_a_useless_hash_stops() {
    let (mut cache, _) = cohort();
    let mut state = WorkerState::new();
    let mut flight = IDLE;
    let mut launch = WorkerLaunch::new();
    let event = LaunchEvent::Waited { go_on: true };
    assert_eq!(
        launch.step(&mut cache, true, &mut state, &mut flight, event),
        LaunchAction::Stop
    );
    for (unavailable, cancelled) in [(true, false), (false, true)] {
        let mut launch = WorkerLaunch { stage: LaunchStage::Asking, lease: None };
        let event = LaunchEvent::Asked { lease: None, cancelled };
        assert_eq!(
            launch.step(&mut cache, unavailable, &mut state, &mut flight, event),
            LaunchAction::Stop
        );
    }
}

#[test]
fn unanswered_leave_goes_to_the_next_stream() {
    let mut shared = ShutdownCoordinator::new();
    for id in [1, 2, 3] {
        shared.register(id);
    }
    let (mut leave, step) = LeaveTaking::begin(&mut shared);
    assert_eq!(step, LeaveStep::Send { stream: 3, timeout_ms: 300 });
    let (mut follower, follow) = LeaveTaking::begin(&mut shared);
    assert_eq!(follow, LeaveStep::Follow { timeout_ms: 2_000 });
    assert_eq!(
        leave.step(&mut shared, LeaveEvent::Sent { delivered: false }),
        LeaveStep::Send { stream: 2, timeout_ms: 300 }
    );
    assert_eq!(leave.step(&mut shared, LeaveEvent::Waited), LeaveStep::Ignore);
    assert_eq!(
        leave.step(&mut shared, LeaveEvent::Sent { delivered: true }),
        LeaveStep::AwaitAnswer { timeout_ms: 350 }
    );
    assert!(!shared.is_completed());
    assert_eq!(leave.step(&mut shared, LeaveEvent::Waited), LeaveStep::Done);
    assert!(shared.is_completed());
    assert_eq!(follower.step(&mut shared, LeaveEvent::Waited), LeaveStep::Done);
    assert_eq!(follower.step(&mut shared, LeaveEvent::Waited), LeaveStep::Ignore);
}

#[test]
fn answered_leave_ends_at_once() {
    let mut shared = ShutdownCoordinator::new();
    shared.register(1);
    shared.register(2);
    let (mut leave, _) = LeaveTaking::begin(&mut shared);
    leave.step(&mut shared, LeaveEvent::Sent { delivered: true });
    assert!(shared.observe_control_response(b"DENIED:gone"));
    assert_eq!(leave.step(&mut shared, LeaveEvent::Waited), LeaveStep::Done);

    let mut alone = ShutdownCoordinator::new();
    let (_, step) = LeaveTaking::begin(&mut alone);
    assert_eq!(step, LeaveStep::Done);
    assert!(alone.is_completed());
}
