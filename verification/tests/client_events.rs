use csqtt::client::events::{encode_event, Events, NETWORK_TIMEOUT_BURST_WINDOW};

const MILLISECOND: u64 = 1_000_000;

#[test]
fn no_payload_lifecycle_events_are_json_objects() {
    assert_eq!(encode_event("READY", "{}"), "__CSQTT_EVENT__|READY|{}");
    assert_eq!(encode_event("STOPPED", "{}"), "__CSQTT_EVENT__|STOPPED|{}");
    assert_eq!(
        encode_event("ACTIVE_ZERO", "{}"),
        "__CSQTT_EVENT__|ACTIVE_ZERO|{}"
    );
}

#[test]
fn fatal_error_event_keeps_the_code_and_message() {
    let events = Events::new(true);
    assert_eq!(
        events
            .error("handshake_timeout", "FATAL_HANDSHAKE: no response", true)
            .as_deref(),
        Some(
            "__CSQTT_EVENT__|ERROR|{\"code\":\"handshake_timeout\",\"fatal\":true,\"message\":\"FATAL_HANDSHAKE: no response\"}"
        )
    );
}

#[test]
fn panel_restart_is_deduplicated_across_workers() {
    let mut events = Events::new(true);
    assert!(events.panel_restart().is_some());
    assert!(events.panel_restart().is_none());
}

#[test]
fn network_suspect_requires_a_timeout_burst_and_resets_after_recovery() {
    let mut events = Events::new(true);
    for _ in 0..5 {
        assert!(events.network_timeout(0).is_none());
    }
    assert!(events.network_timeout(0).is_some());
    assert!(events.network_timeout(0).is_none());
    events.network_recovered();
    for _ in 0..5 {
        assert!(events.network_timeout(0).is_none());
    }
    assert!(events.network_timeout(0).is_some());
}

#[test]
fn sparse_turn_timeouts_do_not_become_a_network_outage() {
    let mut events = Events::new(true);
    assert!(events.network_timeout(0).is_none());
    let later = NETWORK_TIMEOUT_BURST_WINDOW + MILLISECOND;
    for _ in 0..5 {
        assert!(events.network_timeout(later).is_none());
    }
    assert!(events.network_timeout(later).is_some());
}

#[test]
fn call_unavailable_is_deduplicated_per_hash() {
    let mut events = Events::new(true);
    assert!(events.call_unavailable("dead-call", 951).is_some());
    assert!(events.call_unavailable("dead-call", 951).is_none());
    assert!(events.call_unavailable("other-call", 951).is_some());
    assert!(events.call_unavailable("other-call", 951).is_none());
}

#[test]
fn texts_are_quoted_as_json() {
    let events = Events::new(true);
    assert_eq!(
        events.error("c", "a \"b\"\n\\", false).as_deref(),
        Some("__CSQTT_EVENT__|ERROR|{\"code\":\"c\",\"fatal\":false,\"message\":\"a \\\"b\\\"\\n\\\\\"}")
    );
    assert_eq!(
        events.config("x\ty").as_deref(),
        Some("__CSQTT_EVENT__|CONFIG|{\"config\":\"x\\ty\"}")
    );
}

#[test]
fn unwanted_events_are_not_told() {
    let mut events = Events::from_setting(Some("0"));
    assert!(!events.enabled());
    assert!(events.stopped().is_none());
    assert!(events.panel_restart().is_none());
    assert!(Events::from_setting(Some("1")).stopped().is_some());
}

#[test]
fn control_characters_are_written_as_numbers() {
    let events = Events::new(true);
    assert_eq!(
        events.config("\u{1}\u{1f}\u{7f}я\u{8}\u{c}\r").as_deref(),
        Some("__CSQTT_EVENT__|CONFIG|{\"config\":\"\\u0001\\u001f\u{7f}я\\b\\f\\r\"}")
    );
}

#[test]
fn what_is_told_takes_one_line() {
    let events = Events::new(true);
    let text = "one\ntwo\r\nthree";
    for line in [events.config(text), events.error("code", text, true)] {
        let line = line.unwrap();
        assert!(!line.contains('\n') && !line.contains('\r'));
        assert!(line.contains("one\\ntwo\\r\\nthree"));
    }
}

#[test]
fn progress_and_the_last_path_are_told() {
    let events = Events::new(true);
    assert_eq!(
        events.progress("captcha").as_deref(),
        Some("__CSQTT_EVENT__|PROGRESS|{\"kind\":\"captcha\"}")
    );
    assert_eq!(
        events.active_zero().as_deref(),
        Some("__CSQTT_EVENT__|ACTIVE_ZERO|{}")
    );
}
