use csqtt::client::auth::{
    check_fatal_call, check_ok_error, check_vk_error, classify_vk_hash_error, error_code,
    load_credentials, parse_turn_credentials, query_escape, AuthFailure, CallUnavailable,
    VkHashCheck,
};
use csqtt::client::auth_flow::{
    browser_headers, form_headers, hash_unavailable, legacy_rest, outcome_of, outcome_told,
    rest_between, AuthAction, AuthMode, AuthOutcome, AuthStage, BrowserProfile, CallsFlow, CaptchaRefusal, HashFlow, Header,
    Identity, LegacyFlow, LegacyNext, LegacyStep, SolvedCaptcha, VkAuth, CAPTCHA_LOCKOUT_SECONDS,
    HASH_REST_MAX_MS, HASH_REST_MIN_MS,
};
use csqtt::client::json::{decode_response, json_number, json_string, JsonError};
use serde_json::Value;

fn json(text: &str) -> Value {
    serde_json::from_str(text).unwrap()
}

fn find<'a>(headers: &'a [Header], name: &str) -> Option<&'a str> {
    headers
        .iter()
        .find(|header| header.name == name)
        .map(|header| header.value.as_str())
}

fn empty_profile() -> BrowserProfile {
    BrowserProfile {
        user_agent: String::new(),
        sec_ch_ua: String::new(),
        sec_ch_ua_mobile: String::new(),
        sec_ch_ua_platform: String::new(),
    }
}

fn identity() -> Identity {
    Identity {
        link: "abc".to_owned(),
        name: "Анна".to_owned(),
        device_id: "dev".to_owned(),
        ok_device_id: "ok".to_owned(),
    }
}

#[test]
fn query_escape_matches_go() {
    assert_eq!(query_escape("x y*~тест"), "x+y%2A~%D1%82%D0%B5%D1%81%D1%82");
}

#[test]
fn error_code_matches_go_number_and_string_values() {
    assert_eq!(error_code(Some(&json("951"))), 951);
    assert_eq!(error_code(Some(&json("\"954\""))), 954);
    assert_eq!(error_code(Some(&json("14.0"))), 14);
    assert_eq!(error_code(None), 0);
    assert_eq!(error_code(Some(&json("\"many\""))), 0);
}

#[test]
fn hash_check_accepts_captcha_without_solving_it() {
    let response =
        json(r#"{"error": {"error_code": 14, "error_msg": "Captcha needed"}}"#);
    assert_eq!(
        classify_vk_hash_error(&response).unwrap(),
        Some(VkHashCheck::Valid)
    );
}

#[test]
fn hash_check_rejects_dead_call_link() {
    let response =
        json(r#"{"error": {"error_code": 9008, "error_msg": "invalid call join link"}}"#);
    assert_eq!(
        classify_vk_hash_error(&response).unwrap(),
        Some(VkHashCheck::Invalid {
            code: 9008,
            message: "invalid call join link".to_owned()
        })
    );
}

#[test]
fn hash_check_rejects_call_not_found_951() {
    let response =
        json(r#"{"error": {"error_code": 951, "error_msg": "Call not found"}}"#);
    assert_eq!(
        classify_vk_hash_error(&response).unwrap(),
        Some(VkHashCheck::Invalid {
            code: 951,
            message: "Call not found".to_owned()
        })
    );
}

#[test]
fn hash_check_rejects_call_not_found_text_with_unknown_code() {
    let response = json(
        r#"{"error": {"error_code": 1, "error_msg": "Requested call not found for this link"}}"#,
    );
    assert_eq!(
        classify_vk_hash_error(&response).unwrap(),
        Some(VkHashCheck::Invalid {
            code: 1,
            message: "Requested call not found for this link".to_owned()
        })
    );
}

#[test]
fn hash_check_keeps_transient_vk_errors_unclassified() {
    let response =
        json(r#"{"error": {"error_code": 6, "error_msg": "Too many requests"}}"#);
    assert!(classify_vk_hash_error(&response).is_err());
}

#[test]
fn ok_join_call_not_found_is_non_retryable() {
    let response = json(r#"{"error_code": 951, "error_msg": "Call not found"}"#);
    let error = check_ok_error(&response).unwrap_err();
    assert!(matches!(error, AuthFailure::Unavailable(_)));
}

#[test]
fn browser_headers_omit_user_agent_when_profile_has_no_override() {
    let profile = empty_profile();
    let headers = browser_headers(&profile).unwrap();
    assert!(
        find(&headers, "user-agent").is_none(),
        "UA should not be set in browser_headers when profile.user_agent is empty"
    );
    assert!(find(&headers, "accept-language").is_some());
    assert!(find(&headers, "dnt").is_some());
}

#[test]
fn invalid_saved_profile_header_returns_error() {
    let profile = BrowserProfile {
        user_agent: "valid\r\ninjected: value".into(),
        ..empty_profile()
    };
    assert!(browser_headers(&profile).is_none());
}

#[test]
fn saved_profile_headers_are_carried() {
    let profile = BrowserProfile {
        user_agent: "Mozilla/5.0".into(),
        sec_ch_ua_platform: "\"Linux\"".into(),
        ..empty_profile()
    };
    let headers = browser_headers(&profile).unwrap();
    assert_eq!(find(&headers, "user-agent"), Some("Mozilla/5.0"));
    assert_eq!(find(&headers, "sec-ch-ua-platform"), Some("\"Linux\""));
    assert_eq!(find(&headers, "sec-ch-ua"), None);
    assert_eq!(headers.len(), 5);
    assert_eq!(find(&form_headers(), "origin"), Some("https://vk.ru"));
}

#[test]
fn turn_credentials_keep_all_standard_turn_endpoints_from_mixed_vk_list() {
    let credentials = parse_turn_credentials(&json(
        r#"{
            "turn_server": {
                "username": "user",
                "credential": "pass",
                "urls": [
                    "turn:udp-one.example:3478?transport=udp",
                    "turn:tcp.example:3478?transport=tcp",
                    "turns:tls.example:5349?transport=tcp",
                    "udp-two.example:3478",
                    "TURN:udp-three.example:3478?TRANSPORT=UDP"
                ]
            }
        }"#,
    ))
    .unwrap();
    assert_eq!(
        credentials
            .server_addresses
            .iter()
            .map(AsRef::as_ref)
            .collect::<Vec<&str>>(),
        vec![
            "turn:udp-one.example:3478?transport=udp",
            "turn:tcp.example:3478?transport=tcp",
            "turns:tls.example:5349?transport=tcp",
            "udp-two.example:3478",
            "TURN:udp-three.example:3478?TRANSPORT=UDP"
        ]
    );
}

#[test]
fn turn_credentials_accept_tcp_tls_only_turn_lists() {
    let result = parse_turn_credentials(&json(
        r#"{
            "turn_server": {
                "username": "user",
                "credential": "pass",
                "urls": [
                    "turn:tcp.example:3478?transport=tcp",
                    "turns:tls.example:5349"
                ]
            }
        }"#,
    ));
    assert!(result.is_ok());
}

#[test]
fn incomplete_credentials_are_refused() {
    assert!(matches!(
        parse_turn_credentials(&json("{}")),
        Err(AuthFailure::NoServer)
    ));
    assert!(matches!(
        parse_turn_credentials(&json(r#"{"turn_server": {}}"#)),
        Err(AuthFailure::NoUsername)
    ));
    assert!(matches!(
        parse_turn_credentials(&json(r#"{"turn_server": {"username": "u"}}"#)),
        Err(AuthFailure::NoCredential)
    ));
    assert!(matches!(
        parse_turn_credentials(&json(
            r#"{"turn_server": {"username": "u", "credential": "c"}}"#
        )),
        Err(AuthFailure::NoUrls)
    ));
    assert!(matches!(
        parse_turn_credentials(&json(
            r#"{"turn_server": {"username": "u", "credential": "c", "urls": [1]}}"#
        )),
        Err(AuthFailure::NoAddresses)
    ));
}

#[test]
fn vk_errors_are_told_apart() {
    assert!(check_vk_error(&json("{}")).is_ok());
    assert!(matches!(
        check_vk_error(&json(r#"{"error": {"error_code": 14}}"#)),
        Err(AuthFailure::Captcha)
    ));
    assert!(matches!(
        check_vk_error(&json(r#"{"error": {"error_code": 6, "error_msg": "slow"}}"#)),
        Err(AuthFailure::Api { code: 6, .. })
    ));
    assert!(matches!(
        check_ok_error(&json(r#"{"error_code": 5, "error_msg": "no"}"#)),
        Err(AuthFailure::OkApi { code: 5, .. })
    ));
    let failure = check_fatal_call(&json(
        r#"{"error": {"error_code": 951, "error_msg": "Call not found"}}"#,
    ))
    .unwrap_err();
    assert_eq!(outcome_of(&failure), AuthOutcome::Unavailable);
    assert_eq!(outcome_of(&AuthFailure::CaptchaWait), AuthOutcome::CaptchaWait);
    assert_eq!(outcome_of(&AuthFailure::NoUrls), AuthOutcome::Failed);
}

#[test]
fn failures_have_their_texts() {
    let text = |failure: AuthFailure| failure.text();
    assert_eq!(
        text(AuthFailure::Api {
            code: 6,
            message: "Too many requests".to_owned(),
        })
        .as_deref(),
        Some("VK API error: error_code=6 Too many requests")
    );
    assert_eq!(
        text(AuthFailure::OkApi {
            code: -5,
            message: String::new(),
        })
        .as_deref(),
        Some("OK CDN API error: error_code=-5 ")
    );
    assert_eq!(
        text(AuthFailure::Answer(JsonError::Missing("secret".to_owned()))).as_deref(),
        Some("missing key secret")
    );
    assert_eq!(
        text(AuthFailure::Answer(JsonError::NotText)).as_deref(),
        Some("expected string")
    );
    assert_eq!(
        text(AuthFailure::Answer(JsonError::NotNumber)).as_deref(),
        Some("expected number")
    );
    assert_eq!(
        text(AuthFailure::NoServer).as_deref(),
        Some("missing turn_server in response")
    );
    assert_eq!(
        text(AuthFailure::NoUsername).as_deref(),
        Some("missing username in turn_server")
    );
    assert_eq!(
        text(AuthFailure::NoCredential).as_deref(),
        Some("missing credential in turn_server")
    );
    assert_eq!(
        text(AuthFailure::NoUrls).as_deref(),
        Some("missing or empty urls in turn_server")
    );
    assert_eq!(
        text(AuthFailure::NoAddresses).as_deref(),
        Some("no valid TURN addresses found")
    );
    assert_eq!(
        text(AuthFailure::CaptchaWait).as_deref(),
        Some("CAPTCHA_WAIT_REQUIRED")
    );
    assert_eq!(text(AuthFailure::Captcha), None);
    let call = CallUnavailable {
        code: 954,
        message: String::new(),
    };
    assert_eq!(
        text(AuthFailure::Unavailable(call)).as_deref(),
        Some("VK call is unavailable (error_code=954)")
    );
}

#[test]
fn words_of_a_failure_can_ask_to_wait() {
    assert_eq!(outcome_told("CAPTCHA_WAIT_REQUIRED: slow"), AuthOutcome::CaptchaWait);
    assert_eq!(outcome_told("captcha"), AuthOutcome::Failed);
    let failure = AuthFailure::Api {
        code: 1,
        message: "see CAPTCHA_WAIT_REQUIRED".to_owned(),
    };
    assert_eq!(outcome_of(&failure), AuthOutcome::CaptchaWait);
    let failure = AuthFailure::OkApi {
        code: 1,
        message: "wait".to_owned(),
    };
    assert_eq!(outcome_of(&failure), AuthOutcome::Failed);
}

#[test]
fn unavailable_call_has_its_text() {
    let told = CallUnavailable {
        code: 951,
        message: "Call not found".to_owned(),
    };
    assert_eq!(
        told.text(),
        "VK returns error: Call not found (error_code=951)"
    );
    let silent = CallUnavailable {
        code: -3,
        message: String::new(),
    };
    assert_eq!(silent.text(), "VK call is unavailable (error_code=-3)");
}

#[test]
fn clients_are_those_named_then_those_listed_then_the_known() {
    let ids = |list: &[&str], environment: Option<&str>| {
        let named = list.iter().map(|id| (*id).to_owned()).collect::<Vec<_>>();
        load_credentials(&named, environment)
            .into_iter()
            .map(|client| client.client_id)
            .collect::<Vec<_>>()
    };
    assert_eq!(ids(&["6287487"], Some("1:a")), vec!["6287487"]);
    assert_eq!(ids(&["unknown"], Some("1:a, 2:b,3")), vec!["1", "2"]);
    assert!(!ids(&[], None).is_empty());
}

#[test]
fn answers_are_read_along_a_path() {
    let value = json(r#"{"a": {"b": "text", "n": 7}}"#);
    assert_eq!(json_string(&value, &["a", "b"]).unwrap(), "text");
    assert_eq!(json_number(&value, &["a", "n"]).unwrap(), 7);
    assert!(matches!(
        json_string(&value, &["a", "x"]),
        Err(JsonError::Missing(key)) if key == "x"
    ));
    assert!(matches!(
        json_string(&value, &["a", "n"]),
        Err(JsonError::NotText)
    ));
    assert!(matches!(
        json_number(&value, &["a", "b"]),
        Err(JsonError::NotNumber)
    ));
}

#[test]
fn unreadable_answer_is_told_by_its_beginning() {
    assert_eq!(decode_response(b"{\"a\":1}").unwrap(), json(r#"{"a":1}"#));
    let long = vec![b'x'; 500];
    assert_eq!(decode_response(&long).unwrap_err(), vec![b'x'; 200]);
    assert_eq!(decode_response(b"no").unwrap_err(), b"no".to_vec());
}

#[test]
fn anonymous_way_takes_five_answers() {
    let identity = identity();
    let mut flow = CallsFlow::new();
    assert!(flow.request(&identity).contains("abc"));
    let token = json(r#"{"response": {"token": "t"}}"#);
    assert!(flow.answer(&token).unwrap().is_none());
    let preview = json(r#"{"response": {"user_id": 5, "secret": "s"}}"#);
    assert!(flow.answer(&preview).unwrap().is_none());
    assert!(flow.answer(&token).unwrap().is_none());
    let login = json(r#"{"session_key": "k"}"#);
    assert!(flow.answer(&login).unwrap().is_none());
    let join = json(
        r#"{"turn_server": {"username": "u", "credential": "c", "urls": ["turn:a:1"]}}"#,
    );
    let credentials = flow.answer(&join).unwrap().unwrap();
    assert_eq!(credentials.username, "u");
    assert_eq!(credentials.password, "c");
}

#[test]
fn browser_way_asks_for_a_captcha_three_times() {
    let mut flow = LegacyFlow::new();
    assert!(matches!(
        flow.answer(&json(r#"{"data": {"access_token": "t"}}"#)),
        Ok(LegacyNext::Continue)
    ));
    flow.preview_failed();
    assert!(matches!(
        flow.answer(&json(r#"{"error": {"error_code": 14}}"#)),
        Ok(LegacyNext::Captcha)
    ));
    assert_eq!(flow.captcha("", "s"), Err(CaptchaRefusal::NotACaptcha));
    for _ in 0..3 {
        assert_eq!(flow.captcha("uri", "session"), Ok(()));
    }
    assert_eq!(flow.captcha("uri", "session"), Err(CaptchaRefusal::Exhausted));
    flow.solved(SolvedCaptcha {
        sid: "1".to_owned(),
        success: "yes".to_owned(),
        timestamp: "2".to_owned(),
        attempt: "3".to_owned(),
    });
    assert!(matches!(
        flow.answer(&json(r#"{"response": {"token": "c"}}"#)),
        Ok(LegacyNext::Continue)
    ));
    assert!(matches!(
        flow.answer(&json(r#"{"session_key": "k"}"#)),
        Ok(LegacyNext::Continue)
    ));
    assert!(matches!(
        flow.answer(&json(
            r#"{"turn_server": {"username": "u", "credential": "c", "urls": ["turn:a:1"]}}"#
        )),
        Ok(LegacyNext::Done(_))
    ));
}

#[test]
fn hash_is_checked_in_two_steps() {
    let mut flow = HashFlow::new();
    assert_eq!(
        flow.answer(&json(r#"{"response": {"token": "t"}}"#)).unwrap(),
        None
    );
    assert!(flow.request(&identity()).contains("abc"));
    assert_eq!(
        flow.answer(&json(r#"{"response": {"user_id": 5, "secret": "s"}}"#))
            .unwrap(),
        Some(VkHashCheck::Valid)
    );
    assert_eq!(
        hash_unavailable(None),
        VkHashCheck::Unavailable {
            message: "VK client credentials are unavailable".to_owned()
        }
    );
}

#[test]
fn asking_starts_with_the_mode_and_ends() {
    let calls = VkAuth::new("anything", &Vec::new(), None);
    assert_eq!(calls.mode, AuthMode::VkCalls);
    let mut auth = VkAuth::new("AUTO_JS", &Vec::new(), None);
    assert_eq!(auth.mode, AuthMode::AutoJs);
    let mut action = auth.start(100);
    let mut steps = 0;
    while let AuthAction::Try { stage, .. } = action {
        action = auth.next(stage, AuthOutcome::Failed, 100);
        steps += 1;
        assert!(steps < 100);
    }
    assert_eq!(action, AuthAction::GiveUp);
}

#[test]
fn missing_captcha_answer_locks_everything_out() {
    let mut auth = VkAuth::new("legacy", &Vec::new(), None);
    let action = auth.next(AuthStage::Legacy { attempt: 0 }, AuthOutcome::CaptchaWait, 1_000);
    assert!(!matches!(action, AuthAction::Finish));
    assert_eq!(auth.captcha_lockout_until, 1_000 + CAPTCHA_LOCKOUT_SECONDS);
    assert_eq!(auth.start(1_010), AuthAction::LockedOut);
}

#[test]
fn rests_stay_between_their_ends() {
    assert_eq!(rest_between(100, 200, 0), 100);
    assert_eq!(rest_between(100, 200, 100), 200);
    assert_eq!(rest_between(100, 200, 101), 100);
}

#[test]
fn steps_of_a_browser_are_spaced() {
    assert_eq!(legacy_rest(LegacyStep::Token), (100, 150));
    assert_eq!(legacy_rest(LegacyStep::Preview), (200, 400));
    assert_eq!(legacy_rest(LegacyStep::Join), (0, 0));
    assert_eq!((HASH_REST_MIN_MS, HASH_REST_MAX_MS), (180, 260));
}
