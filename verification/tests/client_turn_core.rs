use csqtt::client::stun::{
    Message, ATTR_ERROR_CODE, ATTR_LIFETIME, ATTR_MESSAGE_INTEGRITY, ATTR_NONCE, ATTR_REALM,
    ATTR_REQUESTED_ADDRESS_FAMILY, ATTR_REQUESTED_TRANSPORT, ATTR_XOR_PEER_ADDRESS,
    ATTR_XOR_RELAYED_ADDRESS,
};
use csqtt::client::stun_build::{
    decode_xor_address, encode_xor_address, verify_integrity, MessageBuilder, XorAddressError,
};
use csqtt::client::turn_core::{
    allocation_refresh_deadline, native_status_text, retry_delay, NativeAddress, NativeCore,
    NativeEvent,
};
use csqtt::client::turn_model::{
    CoreError, CsqttTurnProfile, Operation, TurnControlTransport, ALLOCATION_REFRESH,
    CHANNEL_NUMBER, EVENT_CHANNEL_REBIND_EXHAUSTED, EVENT_REQUEST_COMPLETE,
    MAX_CHANNEL_MAINTENANCE_FAILURES, MAX_TRANSMISSIONS, METHOD_ALLOCATE, METHOD_CHANNEL_BIND,
    METHOD_CREATE_PERMISSION, METHOD_REFRESH, MILLISECOND, REQUESTED_ALLOCATION_LIFETIME_SECS,
    RESULT_AUTHENTICATION, RESULT_TIMEOUT, SECOND, STATE_DEALLOCATING, STATE_DESTROYING,
    STATE_READY,
};
use csqtt::net::{IpAddress, SocketAddress};

const NOW: u64 = 1_000 * SECOND;

fn local(port: u16) -> SocketAddress {
    SocketAddress::new(IpAddress::V4(0x7f00_0001), port)
}

fn create() -> NativeCore {
    match NativeCore::create(local(3478), "user", "pass", local(9000)) {
        Ok(core) => core,
        Err(error) => panic!("{error:?}"),
    }
}

fn pull(core: &mut NativeCore) -> Vec<u8> {
    let mut wire = [0u8; 1024];
    let (length, _) = core.pull_control(&mut wire).unwrap().unwrap();
    wire[..length].to_vec()
}

fn transaction_of(packet: &[u8]) -> [u8; 12] {
    match Message::decode(packet) {
        Ok(message) => message.transaction(),
        Err(error) => panic!("{error:?}"),
    }
}

fn decoded(packet: &[u8]) -> Message<'_> {
    match Message::decode(packet) {
        Ok(message) => message,
        Err(error) => panic!("{error:?}"),
    }
}

fn ready_core() -> (NativeCore, [u8; 16]) {
    ready_core_with_lifetime(600)
}

fn ready_core_with_lifetime(lifetime: u32) -> (NativeCore, [u8; 16]) {
    let mut core = match NativeCore::create_with_profile(
        local(3478),
        "user",
        "pass",
        local(9000),
        CsqttTurnProfile::pjnath_compat(),
    ) {
        Ok(core) => core,
        Err(error) => panic!("{error:?}"),
    };
    core.start_allocation(NOW).unwrap();
    let initial = pull(&mut core);
    let challenge = MessageBuilder::with_transaction(0x0113, transaction_of(&initial))
        .attribute(ATTR_ERROR_CODE, &[0, 0, 4, 1])
        .attribute(ATTR_REALM, b"realm")
        .attribute(ATTR_NONCE, b"nonce")
        .finish()
        .unwrap();
    assert_eq!(core.input_stun(&challenge, NOW), 0);
    let authenticated = pull(&mut core);
    let key = core.key.unwrap();
    let success = MessageBuilder::with_transaction(0x0103, transaction_of(&authenticated))
        .xor_address(ATTR_XOR_RELAYED_ADDRESS, local(50000))
        .attribute(ATTR_LIFETIME, &lifetime.to_be_bytes())
        .finish_authenticated(&key)
        .unwrap();
    assert_eq!(core.input_stun(&success, NOW), 0);
    assert_eq!(core.state, STATE_READY);
    (core, key)
}

fn complete_empty_success(core: &mut NativeCore, method: u16, key: &[u8; 16]) {
    let request = pull(core);
    assert_eq!(decoded(&request).method(), method);
    let success = MessageBuilder::with_transaction(0x0100 | method, transaction_of(&request))
        .finish_authenticated(key)
        .unwrap();
    assert_eq!(core.input_stun(&success, NOW), 0);
}

fn bind_ready_channel(core: &mut NativeCore, key: &[u8; 16]) {
    core.start_permission(NOW).unwrap();
    core.start_channel(NOW).unwrap();
    complete_empty_success(core, METHOD_CREATE_PERMISSION as u16, key);
    complete_empty_success(core, METHOD_CHANNEL_BIND as u16, key);
    assert_eq!(core.channel, Some(CHANNEL_NUMBER));
}

fn drain_events(core: &mut NativeCore) {
    while core.pull_event().is_some() {}
}

#[test]
fn request_has_fingerprint_and_expected_allocate_attributes() {
    let mut core = create();
    core.start_allocation(NOW).unwrap();
    let wire = pull(&mut core);
    let message = decoded(&wire);
    assert_eq!(message.method(), METHOD_ALLOCATE as u16);
    assert_eq!(message.fingerprint_valid(), Some(true));
    assert_eq!(
        message.attribute(ATTR_REQUESTED_TRANSPORT).unwrap(),
        [17, 0, 0, 0]
    );
    assert_eq!(
        message.attribute(ATTR_REQUESTED_ADDRESS_FAMILY).unwrap(),
        [1, 0, 0, 0]
    );
    assert_eq!(
        message.attribute(ATTR_LIFETIME).unwrap(),
        REQUESTED_ALLOCATION_LIFETIME_SECS.to_be_bytes()
    );
}

#[test]
fn native_layout_remains_stable() {
    assert_eq!(std::mem::size_of::<NativeAddress>(), 20);
    assert_eq!(std::mem::align_of::<NativeAddress>(), 2);
    assert_eq!(std::mem::size_of::<NativeEvent>(), 52);
    assert_eq!(std::mem::align_of::<NativeEvent>(), 4);
}

#[test]
fn stale_nonce_retries_with_the_same_realm_and_new_transaction() {
    let mut core = create();
    core.start_allocation(NOW).unwrap();
    let initial = pull(&mut core);
    let challenge = MessageBuilder::with_transaction(0x0113, transaction_of(&initial))
        .attribute(ATTR_ERROR_CODE, &[0, 0, 4, 1])
        .attribute(ATTR_REALM, b"realm")
        .attribute(ATTR_NONCE, b"nonce-1")
        .finish()
        .unwrap();
    assert_eq!(core.input_stun(&challenge, NOW), 0);
    let authenticated = pull(&mut core);
    assert_eq!(
        decoded(&authenticated).attribute(ATTR_NONCE).unwrap(),
        b"nonce-1"
    );
    drain_events(&mut core);
    let first_authenticated_transaction = transaction_of(&authenticated);
    let key = core.key.unwrap();
    let stale = MessageBuilder::with_transaction(0x0113, first_authenticated_transaction)
        .attribute(ATTR_ERROR_CODE, &[0, 0, 4, 38])
        .attribute(ATTR_NONCE, b"nonce-2")
        .finish()
        .unwrap();
    assert_eq!(core.input_stun(&stale, NOW), 0);
    assert!(core.pull_event().is_none());
    let wire = pull(&mut core);
    let retried = decoded(&wire);
    assert_ne!(retried.transaction(), first_authenticated_transaction);
    assert_eq!(retried.attribute(ATTR_REALM).unwrap(), b"realm");
    assert_eq!(retried.attribute(ATTR_NONCE).unwrap(), b"nonce-2");
    assert!(verify_integrity(&retried, &Some(key)));
    assert!(!verify_integrity(&retried, &Some([0; 16])));
    assert!(!verify_integrity(&retried, &None));
}

#[test]
fn fingerprinted_unverified_allocation_mismatch_destroys_allocation() {
    let (mut core, _) = ready_core();
    core.start_operation(Operation::Refresh, true, 0, NOW).unwrap();
    let refresh = pull(&mut core);
    let mismatch = MessageBuilder::with_transaction(0x0114, transaction_of(&refresh))
        .attribute(ATTR_ERROR_CODE, &[0, 0, 4, 37])
        .finish()
        .unwrap();
    assert_eq!(core.input_stun(&mismatch, NOW), 0);
    assert_eq!(core.state, STATE_DESTROYING);
}

#[test]
fn channel_bind_bad_request_destroys_allocation() {
    let (mut core, key) = ready_core();
    core.start_channel(NOW).unwrap();
    let bind = pull(&mut core);
    let bad_request = MessageBuilder::with_transaction(0x0119, transaction_of(&bind))
        .attribute(ATTR_ERROR_CODE, &[0, 0, 4, 0])
        .finish_authenticated(&key)
        .unwrap();
    assert_eq!(core.input_stun(&bad_request, NOW), 0);
    assert_eq!(core.state, STATE_DESTROYING);
}

#[test]
fn retransmission_schedule_matches_the_previous_pjnath_configuration() {
    let mut core = create();
    core.start_allocation(NOW).unwrap();
    pull(&mut core);
    for expected in [400, 800, 1600, 1600, 1600, 1600] {
        let deadline = core.pending[0].next_attempt;
        core.expire_transactions(deadline);
        assert_eq!(
            core.pending[0].next_attempt - deadline,
            expected * MILLISECOND
        );
        assert_eq!(core.controls.len(), 1);
        core.controls.clear();
    }
    let timeout = core.pending[0].next_attempt;
    core.expire_transactions(timeout);
    assert!(core.pending.is_empty());
    assert!(core.events.iter().any(|event| {
        event.kind == EVENT_REQUEST_COMPLETE
            && event.method == METHOD_ALLOCATE
            && event.status == RESULT_TIMEOUT
    }));
}

#[test]
fn stream_transport_sends_a_control_request_once() {
    let mut core = match NativeCore::create_with_transport(
        local(3478),
        "user",
        "pass",
        local(9000),
        TurnControlTransport::Stream,
    ) {
        Ok(core) => core,
        Err(error) => panic!("{error:?}"),
    };
    core.start_allocation(NOW).unwrap();
    pull(&mut core);
    let deadline = core.pending[0].next_attempt;
    core.expire_transactions(deadline);
    assert!(core.pending.is_empty());
    assert!(core.controls.is_empty());
    assert!(core.events.iter().any(|event| {
        event.kind == EVENT_REQUEST_COMPLETE
            && event.method == METHOD_ALLOCATE
            && event.status == RESULT_TIMEOUT
    }));
}

#[test]
fn lifecycle_timers_emit_refresh_and_maintenance_requests() {
    let (mut core, key) = ready_core();
    bind_ready_channel(&mut core, &key);
    drain_events(&mut core);
    core.allocation_refresh = Some(NOW);
    core.maintenance_refresh = Some(NOW);
    core.keepalive = Some(NOW + SECOND);
    core.poll(NOW).unwrap();
    let mut wire = [0u8; 1024];
    let mut requests = Vec::new();
    while let Some((length, _)) = core.pull_control(&mut wire).unwrap() {
        let request = decoded(&wire[..length]);
        requests.push((
            request.method(),
            request.transaction(),
            wire[..length].to_vec(),
        ));
    }
    assert_eq!(requests.len(), 3);
    assert_eq!(requests[0].0, METHOD_REFRESH as u16);
    assert_eq!(requests[1].0, METHOD_CREATE_PERMISSION as u16);
    assert_eq!(requests[2].0, METHOD_CHANNEL_BIND as u16);
    let refresh = decoded(&requests[0].2);
    assert_eq!(
        refresh.attribute(ATTR_LIFETIME).unwrap(),
        REQUESTED_ALLOCATION_LIFETIME_SECS.to_be_bytes()
    );
    assert!(refresh.attribute(ATTR_MESSAGE_INTEGRITY).is_some());
    let permission = decoded(&requests[1].2);
    assert!(permission.attribute(ATTR_XOR_PEER_ADDRESS).is_some());
    assert!(permission.attribute(ATTR_MESSAGE_INTEGRITY).is_some());
    let refresh_success = MessageBuilder::with_transaction(0x0104, requests[0].1)
        .attribute(ATTR_LIFETIME, &7_200u32.to_be_bytes())
        .finish_authenticated(&key)
        .unwrap();
    let permission_success = MessageBuilder::with_transaction(0x0108, requests[1].1)
        .finish_authenticated(&key)
        .unwrap();
    let channel_success = MessageBuilder::with_transaction(0x0109, requests[2].1)
        .finish_authenticated(&key)
        .unwrap();
    assert_eq!(core.input_stun(&refresh_success, NOW), 0);
    assert_eq!(core.input_stun(&permission_success, NOW), 0);
    assert_eq!(core.input_stun(&channel_success, NOW), 0);
    let allocation_delay = core.allocation_refresh.unwrap() - NOW;
    let maintenance_delay = core.maintenance_refresh.unwrap() - NOW;
    assert!(allocation_delay >= 299 * SECOND);
    assert!(allocation_delay <= 300 * SECOND);
    assert!(maintenance_delay >= 174 * SECOND);
    assert!(maintenance_delay <= 175 * SECOND);
    assert!(core.permission_retry.is_none());
    assert!(core.channel_retry.is_none());
}

#[test]
fn channel_bind_success_does_not_change_maintenance_deadline() {
    let (mut core, key) = ready_core();
    bind_ready_channel(&mut core, &key);
    let maintenance_deadline = NOW + 3 * SECOND;
    core.maintenance_refresh = Some(maintenance_deadline);
    core.start_channel(NOW).unwrap();
    complete_empty_success(&mut core, METHOD_CHANNEL_BIND as u16, &key);
    assert_eq!(core.maintenance_refresh, Some(maintenance_deadline));
}

fn exhaust(core: &mut NativeCore) {
    for _ in 0..MAX_TRANSMISSIONS {
        let Some(deadline) = core.pending.first().map(|pending| pending.next_attempt) else {
            break;
        };
        core.expire_transactions(deadline);
        core.controls.clear();
    }
}

#[test]
fn permission_timeout_keeps_maintenance_deadline() {
    let (mut core, key) = ready_core();
    bind_ready_channel(&mut core, &key);
    let maintenance_deadline = NOW + 175 * SECOND;
    core.maintenance_refresh = Some(maintenance_deadline);
    core.start_permission(NOW).unwrap();
    pull(&mut core);
    exhaust(&mut core);
    assert_eq!(core.maintenance_refresh, Some(maintenance_deadline));
    assert!(core.permission_retry.is_some());
}

#[test]
fn keepalive_uses_valid_channel_data_framing() {
    let (mut core, key) = ready_core();
    bind_ready_channel(&mut core, &key);
    drain_events(&mut core);
    core.keepalive = Some(NOW);
    core.allocation_refresh = Some(NOW + SECOND);
    core.maintenance_refresh = Some(NOW + SECOND);
    core.poll(NOW).unwrap();
    assert_eq!(pull(&mut core), vec![0x40, 0, 0, 1, 0xff, 0, 0, 0]);
}

#[test]
fn ten_minute_allocation_lifetime_keeps_short_maintenance_refreshes() {
    let (mut core, key) = ready_core_with_lifetime(600);
    bind_ready_channel(&mut core, &key);
    drain_events(&mut core);
    let allocation_delay = core.allocation_refresh.unwrap() - NOW;
    let maintenance_delay = core.maintenance_refresh.unwrap() - NOW;
    assert!(allocation_delay >= 299 * SECOND);
    assert!(allocation_delay <= 300 * SECOND);
    assert!(maintenance_delay >= 174 * SECOND);
    assert!(maintenance_delay <= 175 * SECOND);
}

#[test]
fn long_scheduler_pause_retransmits_once_and_rebases_the_deadline() {
    let (mut core, key) = ready_core();
    core.start_channel(NOW).unwrap();
    pull(&mut core);
    let wake = NOW + 11 * 60 * 60 * SECOND;
    core.expire_transactions(wake);
    assert_eq!(core.pending[0].transmissions, 2);
    assert_eq!(core.pending[0].next_attempt - wake, 400 * MILLISECOND);
    assert_eq!(core.controls.len(), 1);
    let request = pull(&mut core);
    let response = MessageBuilder::with_transaction(0x0109, transaction_of(&request))
        .finish_authenticated(&key)
        .unwrap();
    assert_eq!(core.input_stun(&response, wake), 0);
}

#[test]
fn maintenance_timeout_keeps_allocation_alive_and_schedules_retry() {
    let (mut core, key) = ready_core();
    bind_ready_channel(&mut core, &key);
    core.start_channel(NOW).unwrap();
    pull(&mut core);
    exhaust(&mut core);
    assert_eq!(core.state, STATE_READY);
    assert!(core.pending.is_empty());
    assert!(core.controls.is_empty());
    assert!(core.relay.is_some());
    assert_eq!(core.channel, Some(CHANNEL_NUMBER));
    assert!(core.allocation_refresh.is_some());
    assert!(core.allocation_expires_at.is_some());
    assert!(core.channel_retry.is_some());
    assert!(core.keepalive.is_some());
    assert!(core.events.iter().any(|event| {
        event.kind == EVENT_REQUEST_COMPLETE
            && event.method == METHOD_CHANNEL_BIND
            && event.status == RESULT_TIMEOUT
    }));
}

#[test]
fn repeated_channel_maintenance_timeouts_recreate_only_the_allocation() {
    let (mut core, key) = ready_core();
    bind_ready_channel(&mut core, &key);
    drain_events(&mut core);
    for attempt in 1..=MAX_CHANNEL_MAINTENANCE_FAILURES {
        core.start_channel(NOW).unwrap();
        pull(&mut core);
        exhaust(&mut core);
        if attempt < MAX_CHANNEL_MAINTENANCE_FAILURES {
            assert_eq!(core.state, STATE_READY);
            assert_eq!(core.channel, Some(CHANNEL_NUMBER));
            assert_eq!(core.channel_failures, attempt);
            assert!(core.channel_retry.is_some());
        } else {
            assert_eq!(core.state, STATE_DESTROYING);
            assert!(core.pending.is_empty());
            assert!(core.controls.is_empty());
            assert!(core.relay.is_some());
            assert!(core.allocation_expires_at.is_some());
            assert!(core.events.iter().any(|event| {
                event.kind == EVENT_CHANNEL_REBIND_EXHAUSTED && event.status == RESULT_TIMEOUT
            }));
        }
    }
    core.graceful_shutdown(NOW).unwrap();
    assert_eq!(core.state, STATE_DEALLOCATING);
    let wire = pull(&mut core);
    let deallocate = decoded(&wire);
    assert_eq!(deallocate.method(), METHOD_REFRESH as u16);
    assert_eq!(
        deallocate.attribute(ATTR_LIFETIME).unwrap(),
        0u32.to_be_bytes()
    );
}

#[test]
fn allocation_refresh_deadline_is_three_hundred_seconds_or_half_the_lifetime() {
    let now = NOW;
    assert_eq!(
        allocation_refresh_deadline(now, Some(86_400), ALLOCATION_REFRESH) - now,
        300 * SECOND
    );
    assert_eq!(
        allocation_refresh_deadline(now, Some(7_200), ALLOCATION_REFRESH) - now,
        300 * SECOND
    );
    assert_eq!(
        allocation_refresh_deadline(now, None, ALLOCATION_REFRESH) - now,
        300 * SECOND
    );
    assert_eq!(
        allocation_refresh_deadline(now, Some(600), ALLOCATION_REFRESH) - now,
        300 * SECOND
    );
    assert_eq!(
        allocation_refresh_deadline(now, Some(60), ALLOCATION_REFRESH) - now,
        30 * SECOND
    );
    assert_eq!(
        allocation_refresh_deadline(now, Some(1), ALLOCATION_REFRESH) - now,
        500 * MILLISECOND
    );
}

#[test]
fn invalid_integrity_keeps_the_existing_transaction_for_retransmission() {
    let (mut core, _) = ready_core();
    core.start_channel(NOW).unwrap();
    let request = pull(&mut core);
    let response = MessageBuilder::with_transaction(0x0109, transaction_of(&request))
        .finish()
        .unwrap();
    assert_eq!(core.input_stun(&response, NOW), RESULT_AUTHENTICATION);
    assert_eq!(core.pending.len(), 1);
    assert_eq!(core.pending[0].transaction, transaction_of(&request));
    let deadline = core.pending[0].next_attempt;
    core.expire_transactions(deadline);
    assert_eq!(core.pending.len(), 1);
    assert_eq!(core.controls.len(), 1);
}

#[test]
fn key_is_the_digest_of_user_realm_and_password() {
    let (_, key) = ready_core();
    assert_eq!(
        key,
        [
            0x84, 0x93, 0xfb, 0xc5, 0x3b, 0xa5, 0x82, 0xfb, 0x4c, 0x04, 0x4c, 0x45, 0x6b, 0xdc,
            0x40, 0xeb
        ]
    );
}

#[test]
fn closed_core_takes_no_calls() {
    let (mut core, _) = ready_core();
    core.force_destroy(0);
    assert!(matches!(
        core.start_channel(NOW),
        Err(CoreError::Status { .. })
    ));
    assert_eq!(core.state, STATE_DESTROYING);
    assert!(core.pending.is_empty());
    assert!(create().relay_address().is_err());
}

#[test]
fn relay_address_is_the_one_that_was_given() {
    let (core, _) = ready_core();
    assert_eq!(core.relay_address(), Ok(local(50000)));
}

#[test]
fn xor_addresses_read_back() {
    let transaction = [7u8; 12];
    for address in [
        local(3478),
        SocketAddress::new(IpAddress::V6(0x2001_0db8 << 96 | 5), 443),
    ] {
        let value = encode_xor_address(address, &transaction);
        assert_eq!(decode_xor_address(&value, &transaction), Ok(address));
    }
    let encoded = encode_xor_address(local(3478), &transaction);
    assert_eq!(encoded, vec![0, 1, 0x2c, 0x84, 0x5e, 0x12, 0xa4, 0x43]);
    assert_eq!(
        decode_xor_address(&[0, 3, 0, 0], &transaction),
        Err(XorAddressError::Family)
    );
    assert_eq!(
        decode_xor_address(&[0, 1], &transaction),
        Err(XorAddressError::Malformed)
    );
}

#[test]
fn event_addresses_read_back() {
    let address = SocketAddress::new(IpAddress::V6(1), 9);
    assert_eq!(
        NativeAddress::from_socket_addr(address).to_socket_addr(),
        Ok(address)
    );
}

#[test]
fn retries_grow_to_half_a_minute() {
    assert_eq!(retry_delay(1), SECOND);
    assert_eq!(retry_delay(2), 2 * SECOND);
    assert_eq!(retry_delay(200), 30 * SECOND);
}

#[test]
fn statuses_have_their_texts() {
    assert_eq!(native_status_text(0), "success (0)");
    assert_eq!(native_status_text(RESULT_TIMEOUT), "request timeout (-6)");
    assert_eq!(native_status_text(77), "TURN status 77");
}

#[test]
fn signed_message_has_its_bytes() {
    let mut key = [0u8; 16];
    for (index, byte) in key.iter_mut().enumerate() {
        *byte = index as u8;
    }
    let message = MessageBuilder::with_transaction(0x0103, [7; 12])
        .finish_authenticated(&key)
        .unwrap();
    assert_eq!(
        message,
        vec![
            0x01, 0x03, 0x00, 0x20, 0x21, 0x12, 0xa4, 0x42, 0x07, 0x07, 0x07, 0x07,
            0x07, 0x07, 0x07, 0x07, 0x07, 0x07, 0x07, 0x07, 0x00, 0x08, 0x00, 0x14,
            0xd4, 0xd4, 0x8e, 0xda, 0xa0, 0xdc, 0x77, 0xcc, 0x57, 0xae, 0x8a, 0x2f,
            0xbf, 0x04, 0xce, 0x74, 0x57, 0xbe, 0x60, 0xf3, 0x80, 0x28, 0x00, 0x04,
            0x39, 0x49, 0x44, 0xe6,
        ]
    );
    let decoded = decoded(&message);
    assert!(verify_integrity(&decoded, &Some(key)));
    assert_eq!(decoded.fingerprint_valid(), Some(true));
}
