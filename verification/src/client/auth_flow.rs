//! The ways to credentials of relays: which one is tried when, what each asks
//! for, and what it makes of the answers.

use vstd::prelude::*;
use vstd::utf8::encode_utf8;
use serde_json::Value;
use crate::client::auth::{
    check_fatal_call, check_ok_error, check_vk_error, classify_vk_hash_error, credentials_spec,
    failure_text, fatal_spec, load_credentials, ok_error_spec, pairs, parse_turn_credentials, texts,
    vk_error_spec, AuthFailure, CredentialsModel, FailureModel, TurnCredentials, VkCredentials,
    VkHashCheck,
};
use crate::client::auth_requests::{
    calls_call_token_url, calls_call_token_url_spec, calls_preview_url, calls_preview_url_spec,
    calls_token_url, calls_token_url_spec, legacy_anonymous_body, legacy_anonymous_body_spec,
    legacy_anonymous_url, legacy_anonymous_url_spec, legacy_captcha_body, legacy_captcha_body_spec,
    legacy_join_body, legacy_join_body_spec, legacy_login_body, legacy_login_body_spec,
    legacy_preview_body, legacy_preview_body_spec, legacy_preview_url, legacy_preview_url_spec,
    legacy_session_data, legacy_session_data_spec, legacy_token_body, legacy_token_body_spec,
    ok_join_url, ok_join_url_spec, ok_login_url, ok_login_url_spec, ok_session_data,
    ok_session_data_spec,
};
use crate::client::json::{
    at_path, json_get, json_held, json_number, json_string, Json, JsonError,
};
use crate::client::turn_core::random_transaction;
use crate::text::{
    chars_of, contains, copy_text, has_text, lower, lower_spec, push_text, spells, string_of_vec,
    views,
};
use crate::wire::read_u32;

verus! {

/// How long nothing is tried after a captcha that could not be solved, in
/// seconds.
pub const CAPTCHA_LOCKOUT_SECONDS: i64 = 60;
pub const LEGACY_ATTEMPTS: usize = 4;
pub const CALLS_ATTEMPTS: usize = 2;
pub const CAPTCHA_ATTEMPTS: usize = 3;

#[derive(Clone, Copy, Debug, PartialEq, Eq, Structural)]
pub enum AuthMode {
    AutoJs,
    Legacy,
    VkCalls,
}

pub open spec fn mode_spec(mode: Seq<char>) -> AuthMode {
    if lower_spec(mode) == "auto_js"@ {
        AuthMode::AutoJs
    } else if lower_spec(mode) == "legacy"@ {
        AuthMode::Legacy
    } else {
        AuthMode::VkCalls
    }
}

/// Who asks for credentials, and how.
pub struct VkAuth {
    pub mode: AuthMode,
    pub credentials: Vec<VkCredentials>,
    /// The time until which nothing is tried, in seconds.
    pub captcha_lockout_until: i64,
}

/// The ids of clients between commas.
pub open spec fn ids_text(list: Seq<(Seq<char>, Seq<char>)>) -> Seq<char>
    decreases list.len(),
{
    if list.len() == 0 {
        Seq::empty()
    } else if list.len() == 1 {
        list[0].0
    } else {
        ids_text(list.drop_last()) + ", "@ + list.last().0
    }
}

impl VkAuth {
    pub fn new(mode: &str, client_ids: &Vec<String>, environment: Option<&str>) -> (r: VkAuth)
        ensures
            r.mode == mode_spec(mode@),
            pairs(r.credentials@) == crate::client::auth::clients_spec(
                texts(client_ids@),
                match environment {
                    Some(value) => Some(value@),
                    None => None,
                },
            ),
            r.credentials@.len() > 0,
            r.captcha_lockout_until == 0,
    {
        let chars = chars_of(mode);
        let name = lower(chars.as_slice());
        let mode = if spells(name.as_slice(), "auto_js") {
            AuthMode::AutoJs
        } else if spells(name.as_slice(), "legacy") {
            AuthMode::Legacy
        } else {
            AuthMode::VkCalls
        };
        let credentials = load_credentials(client_ids, environment);
        assert(pairs(credentials@).len() == credentials@.len());
        VkAuth { mode, credentials, captcha_lockout_until: 0 }
    }

    /// The clients that are used, by their ids.
    pub fn client_ids(&self) -> (r: String)
        ensures
            r@ == ids_text(pairs(self.credentials@)),
    {
        let ghost all = pairs(self.credentials@);
        let mut out: Vec<char> = Vec::new();
        let mut i: usize = 0;
        assert(out@ =~= ids_text(all.take(0)));
        while i < self.credentials.len()
            invariant
                i <= self.credentials@.len(),
                all == pairs(self.credentials@),
                out@ == ids_text(all.take(i as int)),
            decreases self.credentials@.len() - i,
        {
            assert(all.take(i + 1).drop_last() =~= all.take(i as int));
            assert(all.take(i + 1).last() == all[i as int]);
            if i > 0 {
                push_text(&mut out, ", ");
            }
            let ghost before = out@;
            push_text(&mut out, self.credentials[i].client_id.as_str());
            i = i + 1;
            assert(out@ =~= ids_text(all.take(i as int)));
        }
        assert(all.take(i as int) =~= all);
        string_of_vec(&out)
    }
}

// ---------------------------------------------------------------------------
// Which way is tried
// ---------------------------------------------------------------------------

/// What is being tried; attempts count from zero.
#[derive(Clone, Copy, Debug, PartialEq, Eq, Structural)]
pub enum AuthStage {
    /// The accounts that the browser is logged in with.
    Broker,
    /// The anonymous way after the accounts failed.
    CallsAfterBroker { attempt: usize },
    /// The anonymous way first.
    Calls { attempt: usize },
    /// The way of a browser, with one of the clients.
    Legacy { attempt: usize },
}

/// How an attempt ended.
#[derive(Clone, Copy, Debug, PartialEq, Eq, Structural)]
pub enum AuthOutcome {
    Success,
    /// There is no such call.
    Unavailable,
    /// A captcha could not be solved.
    CaptchaWait,
    Failed,
}

#[derive(Clone, Copy, Debug, PartialEq, Eq, Structural)]
pub enum AuthAction {
    Try { stage: AuthStage, delay_ms: u64 },
    Finish,
    /// The last failure is the answer.
    GiveUp,
    /// Nothing is tried while a captcha locks everything out.
    LockedOut,
}

pub open spec fn start_spec(mode: AuthMode, locked: bool) -> AuthAction {
    if mode == AuthMode::AutoJs {
        AuthAction::Try { stage: AuthStage::Broker, delay_ms: 0 }
    } else if locked {
        AuthAction::LockedOut
    } else if mode == AuthMode::VkCalls {
        AuthAction::Try { stage: AuthStage::Calls { attempt: 0 }, delay_ms: 0 }
    } else {
        AuthAction::Try { stage: AuthStage::Legacy { attempt: 0 }, delay_ms: 0 }
    }
}

/// What follows an attempt that ended in some way. Between two rounds over the
/// clients, and between two anonymous attempts, there is a rest that is drawn by
/// chance.
pub open spec fn next_spec(
    stage: AuthStage,
    outcome: AuthOutcome,
    clients: int,
    random: u64,
) -> AuthAction {
    let calls_rest = (300 + random % 201) as u64;
    if outcome == AuthOutcome::Success {
        AuthAction::Finish
    } else {
        match stage {
            AuthStage::Broker => AuthAction::Try {
                stage: AuthStage::CallsAfterBroker { attempt: 0 },
                delay_ms: 0,
            },
            AuthStage::CallsAfterBroker { attempt } => if outcome == AuthOutcome::Unavailable
                || attempt + 1 >= CALLS_ATTEMPTS {
                AuthAction::GiveUp
            } else {
                AuthAction::Try {
                    stage: AuthStage::CallsAfterBroker { attempt: (attempt + 1) as usize },
                    delay_ms: calls_rest,
                }
            },
            AuthStage::Calls { attempt } => if outcome == AuthOutcome::Unavailable {
                AuthAction::GiveUp
            } else if attempt + 1 < CALLS_ATTEMPTS {
                AuthAction::Try {
                    stage: AuthStage::Calls { attempt: (attempt + 1) as usize },
                    delay_ms: calls_rest,
                }
            } else {
                AuthAction::Try { stage: AuthStage::Legacy { attempt: 0 }, delay_ms: 0 }
            },
            AuthStage::Legacy { attempt } => if outcome == AuthOutcome::Unavailable || outcome
                == AuthOutcome::CaptchaWait || attempt + 1 >= LEGACY_ATTEMPTS {
                AuthAction::GiveUp
            } else {
                AuthAction::Try {
                    stage: AuthStage::Legacy { attempt: (attempt + 1) as usize },
                    delay_ms: if attempt as int % clients == clients - 1 {
                        (900 + random % 900) as u64
                    } else {
                        0
                    },
                }
            },
        }
    }
}

impl VkAuth {
    /// What is tried first.
    pub fn start(&self, now_seconds: i64) -> (r: AuthAction)
        ensures
            r == start_spec(self.mode, now_seconds < self.captcha_lockout_until),
    {
        match self.mode {
            AuthMode::AutoJs => AuthAction::Try { stage: AuthStage::Broker, delay_ms: 0 },
            AuthMode::VkCalls => if now_seconds < self.captcha_lockout_until {
                AuthAction::LockedOut
            } else {
                AuthAction::Try { stage: AuthStage::Calls { attempt: 0 }, delay_ms: 0 }
            },
            AuthMode::Legacy => if now_seconds < self.captcha_lockout_until {
                AuthAction::LockedOut
            } else {
                AuthAction::Try { stage: AuthStage::Legacy { attempt: 0 }, delay_ms: 0 }
            },
        }
    }

    /// The client that a browser's attempt is made with.
    pub fn legacy_client(&self, attempt: usize) -> (r: usize)
        requires
            self.credentials@.len() > 0,
        ensures
            r == attempt as int % self.credentials@.len() as int,
            r < self.credentials@.len(),
    {
        attempt % self.credentials.len()
    }

    /// What is tried next, for a given random number.
    pub fn next_with(
        &mut self,
        stage: AuthStage,
        outcome: AuthOutcome,
        now_seconds: i64,
        random: u64,
    ) -> (r: AuthAction)
        requires
            stage is Legacy ==> old(self).credentials@.len() > 0,
            now_seconds <= i64::MAX - CAPTCHA_LOCKOUT_SECONDS,
        ensures
            r == next_spec(stage, outcome, old(self).credentials@.len() as int, random),
            final(self).mode == old(self).mode,
            final(self).credentials == old(self).credentials,
            final(self).captcha_lockout_until == if stage is Legacy && outcome
                == AuthOutcome::CaptchaWait {
                now_seconds + CAPTCHA_LOCKOUT_SECONDS
            } else {
                old(self).captcha_lockout_until as int
            },
    {
        if outcome == AuthOutcome::Success {
            return AuthAction::Finish;
        }
        let calls_rest: u64 = 300 + random % 201;
        match stage {
            AuthStage::Broker => AuthAction::Try {
                stage: AuthStage::CallsAfterBroker { attempt: 0 },
                delay_ms: 0,
            },
            AuthStage::CallsAfterBroker { attempt } => {
                if outcome == AuthOutcome::Unavailable || attempt >= CALLS_ATTEMPTS - 1 {
                    AuthAction::GiveUp
                } else {
                    AuthAction::Try {
                        stage: AuthStage::CallsAfterBroker { attempt: attempt + 1 },
                        delay_ms: calls_rest,
                    }
                }
            },
            AuthStage::Calls { attempt } => {
                if outcome == AuthOutcome::Unavailable {
                    AuthAction::GiveUp
                } else if attempt < CALLS_ATTEMPTS - 1 {
                    AuthAction::Try {
                        stage: AuthStage::Calls { attempt: attempt + 1 },
                        delay_ms: calls_rest,
                    }
                } else {
                    AuthAction::Try { stage: AuthStage::Legacy { attempt: 0 }, delay_ms: 0 }
                }
            },
            AuthStage::Legacy { attempt } => {
                if outcome == AuthOutcome::CaptchaWait {
                    self.captcha_lockout_until = now_seconds + CAPTCHA_LOCKOUT_SECONDS;
                    return AuthAction::GiveUp;
                }
                if outcome == AuthOutcome::Unavailable || attempt >= LEGACY_ATTEMPTS - 1 {
                    return AuthAction::GiveUp;
                }
                let clients: usize = self.credentials.len();
                AuthAction::Try {
                    stage: AuthStage::Legacy { attempt: attempt + 1 },
                    delay_ms: if attempt % clients == clients - 1 {
                        900 + random % 900
                    } else {
                        0
                    },
                }
            },
        }
    }

    /// What is tried next; a rest is drawn by chance.
    pub fn next(&mut self, stage: AuthStage, outcome: AuthOutcome, now_seconds: i64) -> (r:
        AuthAction)
        requires
            stage is Legacy ==> old(self).credentials@.len() > 0,
            now_seconds <= i64::MAX - CAPTCHA_LOCKOUT_SECONDS,
        ensures
            exists|random: u64|
                r == #[trigger] next_spec(
                    stage,
                    outcome,
                    old(self).credentials@.len() as int,
                    random,
                ),
            final(self).mode == old(self).mode,
            final(self).credentials == old(self).credentials,
            final(self).captcha_lockout_until == if stage is Legacy && outcome
                == AuthOutcome::CaptchaWait {
                now_seconds + CAPTCHA_LOCKOUT_SECONDS
            } else {
                old(self).captcha_lockout_until as int
            },
    {
        let bytes = random_transaction();
        let random: u64 = read_u32(bytes.as_slice(), 0) as u64;
        self.next_with(stage, outcome, now_seconds, random)
    }
}

/// How many attempts a stage has before it at most, itself among them.
pub open spec fn attempts_left(stage: AuthStage) -> int {
    match stage {
        AuthStage::Broker => 3,
        AuthStage::CallsAfterBroker { attempt } => 2 - attempt,
        AuthStage::Calls { attempt } => 6 - attempt,
        AuthStage::Legacy { attempt } => 4 - attempt,
    }
}

/// A stage that asking for credentials can come to.
pub open spec fn possible(stage: AuthStage) -> bool {
    match stage {
        AuthStage::Broker => true,
        AuthStage::CallsAfterBroker { attempt } => attempt < CALLS_ATTEMPTS,
        AuthStage::Calls { attempt } => attempt < CALLS_ATTEMPTS,
        AuthStage::Legacy { attempt } => attempt < LEGACY_ATTEMPTS,
    }
}

/// Every attempt that follows another leaves fewer before it, so asking for
/// credentials ends, after six attempts at most; and where there is no such call
/// no way is tried that asks for it again.
pub proof fn law_asking_ends(stage: AuthStage, outcome: AuthOutcome, clients: int, random: u64)
    requires
        possible(stage),
    ensures
        0 < attempts_left(stage) <= 6,
        match next_spec(stage, outcome, clients, random) {
            AuthAction::Try { stage: next, delay_ms } => attempts_left(next) < attempts_left(
                stage,
            ) && possible(next) && delay_ms < 1_800,
            _ => true,
        },
        outcome == AuthOutcome::Unavailable && !(stage is Broker) ==> next_spec(
            stage,
            outcome,
            clients,
            random,
        ) == AuthAction::GiveUp,
{
}

/// How an attempt ended of whose failure only the words are known: it asks to
/// wait for a captcha where they say so.
pub open spec fn told_outcome(text: Seq<char>) -> AuthOutcome {
    if has_text(text, "CAPTCHA_WAIT_REQUIRED"@) {
        AuthOutcome::CaptchaWait
    } else {
        AuthOutcome::Failed
    }
}

pub fn outcome_told(text: &str) -> (r: AuthOutcome)
    ensures
        r == told_outcome(text@),
{
    let chars = chars_of(text);
    if contains(chars.as_slice(), "CAPTCHA_WAIT_REQUIRED") {
        AuthOutcome::CaptchaWait
    } else {
        AuthOutcome::Failed
    }
}

/// How an attempt that failed ended. What an answer says of itself, or a key
/// that it lacks, is read as well.
pub fn outcome_of(failure: &AuthFailure) -> (r: AuthOutcome)
    ensures
        r == match failure.model() {
            FailureModel::Unavailable { .. } => AuthOutcome::Unavailable,
            FailureModel::CaptchaWait => AuthOutcome::CaptchaWait,
            FailureModel::Api { .. } | FailureModel::OkApi { .. } | FailureModel::Missing(
                _,
            ) => told_outcome(failure_text(failure.model())->0),
            _ => AuthOutcome::Failed,
        },
{
    match failure {
        AuthFailure::Unavailable(_) => AuthOutcome::Unavailable,
        AuthFailure::CaptchaWait => AuthOutcome::CaptchaWait,
        AuthFailure::Api { .. } | AuthFailure::OkApi { .. } | AuthFailure::Answer(
            JsonError::Missing(_),
        ) => match failure.text() {
            Some(text) => outcome_told(text.as_str()),
            None => AuthOutcome::Failed,
        },
        _ => AuthOutcome::Failed,
    }
}

/// A rest between two times, for a given random number, in milliseconds.
pub fn rest_between(minimum_ms: u64, maximum_ms: u64, random: u64) -> (r: u64)
    requires
        minimum_ms <= maximum_ms < u64::MAX,
    ensures
        r == minimum_ms + random % (maximum_ms - minimum_ms + 1) as u64,
        minimum_ms <= r <= maximum_ms,
{
    minimum_ms + random % (maximum_ms - minimum_ms + 1)
}

// ---------------------------------------------------------------------------
// The anonymous way
// ---------------------------------------------------------------------------

#[derive(Clone, Copy, Debug, PartialEq, Eq, Structural)]
pub enum CallsStep {
    Token,
    Preview,
    CallToken,
    Login,
    Join,
}

/// What has been found out so far.
#[verifier::ext_equal]
pub struct CallsModel {
    pub step: CallsStep,
    pub token: Seq<char>,
    pub user_id: i64,
    pub secret: Seq<char>,
    pub call_token: Seq<char>,
    pub session_key: Seq<char>,
}

/// Who asks.
#[verifier::ext_equal]
pub struct IdentityModel {
    pub link: Seq<char>,
    pub name: Seq<char>,
    pub device_id: Seq<char>,
    pub ok_device_id: Seq<char>,
}

pub struct Identity {
    pub link: String,
    pub name: String,
    pub device_id: String,
    pub ok_device_id: String,
}

impl View for Identity {
    type V = IdentityModel;

    open spec fn view(&self) -> IdentityModel {
        IdentityModel {
            link: self.link@,
            name: self.name@,
            device_id: self.device_id@,
            ok_device_id: self.ok_device_id@,
        }
    }
}

/// Where a step asks.
pub open spec fn calls_request_spec(identity: IdentityModel, calls: CallsModel) -> Seq<char> {
    match calls.step {
        CallsStep::Token => calls_token_url_spec(
            identity.link,
            identity.device_id,
            identity.name,
        ),
        CallsStep::Preview => calls_preview_url_spec(
            identity.link,
            identity.device_id,
            calls.token,
        ),
        CallsStep::CallToken => calls_call_token_url_spec(
            identity.link,
            identity.device_id,
            calls.token,
            identity.name,
            calls.user_id,
            calls.secret,
        ),
        CallsStep::Login => ok_login_url_spec(ok_session_data_spec(identity.ok_device_id)),
        CallsStep::Join => ok_join_url_spec(identity.link, calls.call_token, calls.session_key),
    }
}

/// The text at a path of an answer.
pub open spec fn text_at(response: Json, path: Seq<Seq<char>>) -> Result<Seq<char>, FailureModel> {
    match at_path(response, path) {
        Ok(value) => match value.text() {
            Some(text) => Ok(text),
            None => Err(FailureModel::NotText),
        },
        Err(key) => Err(FailureModel::Missing(key)),
    }
}

pub open spec fn number_at(response: Json, path: Seq<Seq<char>>) -> Result<i64, FailureModel> {
    match at_path(response, path) {
        Ok(value) => match value.truncated() {
            Some(number) => Ok(number),
            None => Err(FailureModel::NotNumber),
        },
        Err(key) => Err(FailureModel::Missing(key)),
    }
}

pub open spec fn token_path() -> Seq<Seq<char>> {
    seq!["response"@, "token"@]
}

/// What an answer leads to: more that is known, or credentials.
pub open spec fn calls_answer_spec(calls: CallsModel, response: Json) -> Result<
    (CallsModel, Option<CredentialsModel>),
    FailureModel,
> {
    match calls.step {
        CallsStep::Token => match text_at(response, token_path()) {
            Ok(token) => Ok((CallsModel { step: CallsStep::Preview, token, ..calls }, None)),
            Err(e) => Err(e),
        },
        CallsStep::Preview => match vk_error_spec(response) {
            Some(e) => Err(e),
            None => match number_at(response, seq!["response"@, "user_id"@]) {
                Err(e) => Err(e),
                Ok(user_id) => match text_at(response, seq!["response"@, "secret"@]) {
                    Err(e) => Err(e),
                    Ok(secret) => Ok(
                        (CallsModel { step: CallsStep::CallToken, user_id, secret, ..calls }, None),
                    ),
                },
            },
        },
        CallsStep::CallToken => match vk_error_spec(response) {
            Some(e) => Err(e),
            None => match text_at(response, token_path()) {
                Ok(call_token) => Ok(
                    (CallsModel { step: CallsStep::Login, call_token, ..calls }, None),
                ),
                Err(e) => Err(e),
            },
        },
        CallsStep::Login => match text_at(response, seq!["session_key"@]) {
            Ok(session_key) => Ok((CallsModel { step: CallsStep::Join, session_key, ..calls }, None)),
            Err(e) => Err(e),
        },
        CallsStep::Join => match ok_error_spec(response) {
            Some(e) => Err(e),
            None => match credentials_spec(response) {
                Ok(credentials) => Ok((calls, Some(credentials))),
                Err(e) => Err(e),
            },
        },
    }
}

pub struct CallsFlow {
    pub step: CallsStep,
    pub token: String,
    pub user_id: i64,
    pub secret: String,
    pub call_token: String,
    pub session_key: String,
}

impl View for CallsFlow {
    type V = CallsModel;

    open spec fn view(&self) -> CallsModel {
        CallsModel {
            step: self.step,
            token: self.token@,
            user_id: self.user_id,
            secret: self.secret@,
            call_token: self.call_token@,
            session_key: self.session_key@,
        }
    }
}

fn text_in(response: &Value, path: &[&str]) -> (r: Result<String, AuthFailure>)
    ensures
        match (r, text_at(json_held(*response), views(path@))) {
            (Ok(text), Ok(wanted)) => text@ == wanted,
            (Err(e), Err(wanted)) => e.model() == wanted,
            _ => false,
        },
{
    match json_string(response, path) {
        Ok(text) => Ok(copy_text(text)),
        Err(e) => Err(AuthFailure::Answer(e)),
    }
}

fn token_in(response: &Value) -> (r: Result<String, AuthFailure>)
    ensures
        match (r, text_at(json_held(*response), token_path())) {
            (Ok(text), Ok(wanted)) => text@ == wanted,
            (Err(e), Err(wanted)) => e.model() == wanted,
            _ => false,
        },
{
    let path: [&str; 2] = ["response", "token"];
    assert(views(path@) =~= token_path());
    text_in(response, path.as_slice())
}

fn session_key_in(response: &Value) -> (r: Result<String, AuthFailure>)
    ensures
        match (r, text_at(json_held(*response), seq!["session_key"@])) {
            (Ok(text), Ok(wanted)) => text@ == wanted,
            (Err(e), Err(wanted)) => e.model() == wanted,
            _ => false,
        },
{
    let path: [&str; 1] = ["session_key"];
    assert(views(path@) =~= seq!["session_key"@]);
    text_in(response, path.as_slice())
}

fn number_in(response: &Value, path: &[&str]) -> (r: Result<i64, AuthFailure>)
    ensures
        match (r, number_at(json_held(*response), views(path@))) {
            (Ok(number), Ok(wanted)) => number == wanted,
            (Err(e), Err(wanted)) => e.model() == wanted,
            _ => false,
        },
{
    match json_number(response, path) {
        Ok(number) => Ok(number),
        Err(e) => Err(AuthFailure::Answer(e)),
    }
}

impl CallsFlow {
    pub fn new() -> (r: CallsFlow)
        ensures
            r@ == (CallsModel {
                step: CallsStep::Token,
                token: Seq::empty(),
                user_id: 0,
                secret: Seq::empty(),
                call_token: Seq::empty(),
                session_key: Seq::empty(),
            }),
    {
        CallsFlow {
            step: CallsStep::Token,
            token: String::new(),
            user_id: 0,
            secret: String::new(),
            call_token: String::new(),
            session_key: String::new(),
        }
    }

    /// Where to ask next.
    pub fn request(&self, identity: &Identity) -> (r: String)
        ensures
            r@ == calls_request_spec(identity@, self@),
    {
        match self.step {
            CallsStep::Token => calls_token_url(
                identity.link.as_str(),
                identity.device_id.as_str(),
                identity.name.as_str(),
            ),
            CallsStep::Preview => calls_preview_url(
                identity.link.as_str(),
                identity.device_id.as_str(),
                self.token.as_str(),
            ),
            CallsStep::CallToken => calls_call_token_url(
                identity.link.as_str(),
                identity.device_id.as_str(),
                self.token.as_str(),
                identity.name.as_str(),
                self.user_id,
                self.secret.as_str(),
            ),
            CallsStep::Login => ok_login_url(
                ok_session_data(identity.ok_device_id.as_str()).as_str(),
            ),
            CallsStep::Join => ok_join_url(
                identity.link.as_str(),
                self.call_token.as_str(),
                self.session_key.as_str(),
            ),
        }
    }

    /// Takes an answer; the credentials, after the last one.
    pub fn answer(&mut self, response: &Value) -> (r: Result<Option<TurnCredentials>, AuthFailure>)
        ensures
            match (r, calls_answer_spec(old(self)@, json_held(*response))) {
                (Ok(Some(credentials)), Ok((next, Some(model)))) => {
                    &&& credentials@ == model
                    &&& final(self)@ == next
                },
                (Ok(None), Ok((next, None))) => final(self)@ == next,
                (Err(e), Err(wanted)) => e.model() == wanted && final(self)@ == old(self)@,
                _ => false,
            },
    {
        match self.step {
            CallsStep::Token => match token_in(response) {
                Ok(token) => {
                    self.token = token;
                    self.step = CallsStep::Preview;
                    Ok(None)
                },
                Err(e) => Err(e),
            },
            CallsStep::Preview => {
                if let Err(e) = check_vk_error(response) {
                    return Err(e);
                }
                let user_path: [&str; 2] = ["response", "user_id"];
                assert(views(user_path@) =~= seq!["response"@, "user_id"@]);
                let user_id: i64 = match number_in(response, user_path.as_slice()) {
                    Ok(user_id) => user_id,
                    Err(e) => {
                        return Err(e);
                    },
                };
                let secret_path: [&str; 2] = ["response", "secret"];
                assert(views(secret_path@) =~= seq!["response"@, "secret"@]);
                let secret = match text_in(response, secret_path.as_slice()) {
                    Ok(secret) => secret,
                    Err(e) => {
                        return Err(e);
                    },
                };
                self.user_id = user_id;
                self.secret = secret;
                self.step = CallsStep::CallToken;
                Ok(None)
            },
            CallsStep::CallToken => {
                if let Err(e) = check_vk_error(response) {
                    return Err(e);
                }
                match token_in(response) {
                    Ok(token) => {
                        self.call_token = token;
                        self.step = CallsStep::Login;
                        Ok(None)
                    },
                    Err(e) => Err(e),
                }
            },
            CallsStep::Login => match session_key_in(response) {
                Ok(session_key) => {
                    self.session_key = session_key;
                    self.step = CallsStep::Join;
                    Ok(None)
                },
                Err(e) => Err(e),
            },
            CallsStep::Join => {
                if let Err(e) = check_ok_error(response) {
                    return Err(e);
                }
                match parse_turn_credentials(response) {
                    Ok(credentials) => Ok(Some(credentials)),
                    Err(e) => Err(e),
                }
            },
        }
    }
}

// ---------------------------------------------------------------------------
// The way of a browser
// ---------------------------------------------------------------------------

#[derive(Clone, Copy, Debug, PartialEq, Eq, Structural)]
pub enum LegacyStep {
    Token,
    Preview,
    Anonymous,
    Login,
    Join,
}

#[verifier::ext_equal]
pub struct LegacyModel {
    pub step: LegacyStep,
    pub token: Seq<char>,
    pub call_token: Seq<char>,
    pub session_key: Seq<char>,
    pub captcha_attempts: nat,
    /// What stands for a captcha that was solved.
    pub solved: Option<SolvedModel>,
}

#[verifier::ext_equal]
pub struct SolvedModel {
    pub sid: Seq<char>,
    pub success: Seq<char>,
    pub timestamp: Seq<char>,
    pub attempt: Seq<char>,
}

/// What a solved captcha is answered with.
pub struct SolvedCaptcha {
    pub sid: String,
    pub success: String,
    pub timestamp: String,
    pub attempt: String,
}

impl View for SolvedCaptcha {
    type V = SolvedModel;

    open spec fn view(&self) -> SolvedModel {
        SolvedModel {
            sid: self.sid@,
            success: self.success@,
            timestamp: self.timestamp@,
            attempt: self.attempt@,
        }
    }
}

/// The attempt that a captcha's solution names: at least the first.
pub open spec fn attempt_text(attempt: Seq<char>) -> Seq<char> {
    if attempt.len() == 0 || attempt == "0"@ {
        "1"@
    } else {
        attempt
    }
}

/// Where a step asks, and with what.
pub open spec fn legacy_request_spec(
    identity: IdentityModel,
    client: (Seq<char>, Seq<char>),
    flow: LegacyModel,
) -> (Seq<char>, Seq<char>) {
    match flow.step {
        LegacyStep::Token => (
            "https://login.vk.ru/?act=get_anonym_token"@,
            legacy_token_body_spec(client.0, client.1),
        ),
        LegacyStep::Preview => (
            legacy_preview_url_spec(client.0),
            legacy_preview_body_spec(identity.link, flow.token),
        ),
        LegacyStep::Anonymous => (
            legacy_anonymous_url_spec(client.0),
            match flow.solved {
                Some(solved) => legacy_captcha_body_spec(
                    identity.link,
                    identity.name,
                    solved.sid,
                    solved.success,
                    solved.timestamp,
                    attempt_text(solved.attempt),
                    flow.token,
                ),
                None => legacy_anonymous_body_spec(identity.link, identity.name, flow.token),
            },
        ),
        LegacyStep::Login => (
            "https://calls.okcdn.ru/fb.do"@,
            legacy_login_body_spec(legacy_session_data_spec(identity.ok_device_id)),
        ),
        LegacyStep::Join => (
            "https://calls.okcdn.ru/fb.do"@,
            legacy_join_body_spec(identity.link, flow.call_token, flow.session_key),
        ),
    }
}

/// What an answer leads to.
pub enum LegacyNext<T> {
    /// Ask on.
    Continue,
    /// A captcha is to be solved first.
    Captcha,
    Done(T),
}

pub open spec fn legacy_answer_spec(flow: LegacyModel, response: Json) -> Result<
    (LegacyModel, LegacyNext<CredentialsModel>),
    FailureModel,
> {
    match flow.step {
        LegacyStep::Token => match text_at(response, seq!["data"@, "access_token"@]) {
            Ok(token) => Ok(
                (LegacyModel { step: LegacyStep::Preview, token, ..flow }, LegacyNext::Continue),
            ),
            Err(e) => Err(e),
        },
        LegacyStep::Preview => match fatal_spec(response) {
            Some(e) => Err(e),
            None => Ok((LegacyModel { step: LegacyStep::Anonymous, ..flow }, LegacyNext::Continue)),
        },
        LegacyStep::Anonymous => if response.get("error"@) is Some {
            match fatal_spec(response) {
                Some(e) => Err(e),
                None => Ok((flow, LegacyNext::Captcha)),
            }
        } else {
            match text_at(response, token_path()) {
                Ok(call_token) => Ok(
                    (
                        LegacyModel { step: LegacyStep::Login, call_token, ..flow },
                        LegacyNext::Continue,
                    ),
                ),
                Err(e) => Err(e),
            }
        },
        LegacyStep::Login => match text_at(response, seq!["session_key"@]) {
            Ok(session_key) => Ok(
                (LegacyModel { step: LegacyStep::Join, session_key, ..flow }, LegacyNext::Continue),
            ),
            Err(e) => Err(e),
        },
        LegacyStep::Join => match credentials_spec(response) {
            Ok(credentials) => Ok((flow, LegacyNext::Done(credentials))),
            Err(e) => Err(e),
        },
    }
}

pub struct LegacyFlow {
    pub step: LegacyStep,
    pub token: String,
    pub call_token: String,
    pub session_key: String,
    pub captcha_attempts: usize,
    pub solved: Option<SolvedCaptcha>,
}

impl View for LegacyFlow {
    type V = LegacyModel;

    open spec fn view(&self) -> LegacyModel {
        LegacyModel {
            step: self.step,
            token: self.token@,
            call_token: self.call_token@,
            session_key: self.session_key@,
            captcha_attempts: self.captcha_attempts as nat,
            solved: match self.solved {
                Some(solved) => Some(solved@),
                None => None,
            },
        }
    }
}

impl LegacyFlow {
    pub fn new() -> (r: LegacyFlow)
        ensures
            r@ == (LegacyModel {
                step: LegacyStep::Token,
                token: Seq::empty(),
                call_token: Seq::empty(),
                session_key: Seq::empty(),
                captcha_attempts: 0,
                solved: None,
            }),
    {
        LegacyFlow {
            step: LegacyStep::Token,
            token: String::new(),
            call_token: String::new(),
            session_key: String::new(),
            captcha_attempts: 0,
            solved: None,
        }
    }

    /// Where to ask next, and with what.
    pub fn request(&self, identity: &Identity, client: &VkCredentials) -> (r: (String, String))
        ensures
            (r.0@, r.1@) == legacy_request_spec(
                identity@,
                (client.client_id@, client.client_secret@),
                self@,
            ),
    {
        let id = client.client_id.as_str();
        match self.step {
            LegacyStep::Token => (
                copy_text("https://login.vk.ru/?act=get_anonym_token"),
                legacy_token_body(id, client.client_secret.as_str()),
            ),
            LegacyStep::Preview => (
                legacy_preview_url(id),
                legacy_preview_body(identity.link.as_str(), self.token.as_str()),
            ),
            LegacyStep::Anonymous => {
                let body = match &self.solved {
                    Some(solved) => {
                        let chars = chars_of(solved.attempt.as_str());
                        let attempt = if chars.len() == 0 || spells(chars.as_slice(), "0") {
                            "1"
                        } else {
                            solved.attempt.as_str()
                        };
                        legacy_captcha_body(
                            identity.link.as_str(),
                            identity.name.as_str(),
                            solved.sid.as_str(),
                            solved.success.as_str(),
                            solved.timestamp.as_str(),
                            attempt,
                            self.token.as_str(),
                        )
                    },
                    None => legacy_anonymous_body(
                        identity.link.as_str(),
                        identity.name.as_str(),
                        self.token.as_str(),
                    ),
                };
                (legacy_anonymous_url(id), body)
            },
            LegacyStep::Login => (
                copy_text("https://calls.okcdn.ru/fb.do"),
                legacy_login_body(legacy_session_data(identity.ok_device_id.as_str()).as_str()),
            ),
            LegacyStep::Join => (
                copy_text("https://calls.okcdn.ru/fb.do"),
                legacy_join_body(
                    identity.link.as_str(),
                    self.call_token.as_str(),
                    self.session_key.as_str(),
                ),
            ),
        }
    }

    /// Takes an answer.
    pub fn answer(&mut self, response: &Value) -> (r: Result<
        LegacyNext<TurnCredentials>,
        AuthFailure,
    >)
        ensures
            match (r, legacy_answer_spec(old(self)@, json_held(*response))) {
                (Ok(LegacyNext::Continue), Ok((next, LegacyNext::Continue))) => final(self)@ == next,
                (Ok(LegacyNext::Captcha), Ok((next, LegacyNext::Captcha))) => final(self)@ == next,
                (Ok(LegacyNext::Done(credentials)), Ok((next, LegacyNext::Done(model)))) => {
                    &&& credentials@ == model
                    &&& final(self)@ == next
                },
                (Err(e), Err(wanted)) => e.model() == wanted && final(self)@ == old(self)@,
                _ => false,
            },
    {
        match self.step {
            LegacyStep::Token => {
                let path: [&str; 2] = ["data", "access_token"];
                assert(views(path@) =~= seq!["data"@, "access_token"@]);
                match text_in(response, path.as_slice()) {
                    Ok(token) => {
                        self.token = token;
                        self.step = LegacyStep::Preview;
                        Ok(LegacyNext::Continue)
                    },
                    Err(e) => Err(e),
                }
            },
            LegacyStep::Preview => {
                if let Err(e) = check_fatal_call(response) {
                    return Err(e);
                }
                self.step = LegacyStep::Anonymous;
                Ok(LegacyNext::Continue)
            },
            LegacyStep::Anonymous => {
                if json_get(response, "error").is_some() {
                    if let Err(e) = check_fatal_call(response) {
                        return Err(e);
                    }
                    return Ok(LegacyNext::Captcha);
                }
                match token_in(response) {
                    Ok(token) => {
                        self.call_token = token;
                        self.step = LegacyStep::Login;
                        Ok(LegacyNext::Continue)
                    },
                    Err(e) => Err(e),
                }
            },
            LegacyStep::Login => match session_key_in(response) {
                Ok(session_key) => {
                    self.session_key = session_key;
                    self.step = LegacyStep::Join;
                    Ok(LegacyNext::Continue)
                },
                Err(e) => Err(e),
            },
            LegacyStep::Join => match parse_turn_credentials(response) {
                Ok(credentials) => Ok(LegacyNext::Done(credentials)),
                Err(e) => Err(e),
            },
        }
    }

    /// The call could not be looked at, which does no harm.
    pub fn preview_failed(&mut self)
        ensures
            final(self)@ == (LegacyModel {
                step: if old(self)@.step == LegacyStep::Preview {
                    LegacyStep::Anonymous
                } else {
                    old(self)@.step
                },
                ..old(self)@
            }),
    {
        if self.step == LegacyStep::Preview {
            self.step = LegacyStep::Anonymous;
        }
    }

    /// Whether a captcha is to be solved: it must be one that can be, and the
    /// third must have been the last.
    pub fn captcha(&mut self, redirect_uri: &str, session_token: &str) -> (r: Result<
        (),
        CaptchaRefusal,
    >)
        ensures
            r == if redirect_uri@.len() == 0 || session_token@.len() == 0 {
                Err::<(), CaptchaRefusal>(CaptchaRefusal::NotACaptcha)
            } else if old(self)@.captcha_attempts >= CAPTCHA_ATTEMPTS {
                Err(CaptchaRefusal::Exhausted)
            } else {
                Ok(())
            },
            final(self)@ == if r is Ok {
                LegacyModel {
                    captcha_attempts: old(self)@.captcha_attempts + 1,
                    ..old(self)@
                }
            } else {
                old(self)@
            },
    {
        if chars_of(redirect_uri).len() == 0 || chars_of(session_token).len() == 0 {
            return Err(CaptchaRefusal::NotACaptcha);
        }
        if self.captcha_attempts >= CAPTCHA_ATTEMPTS {
            return Err(CaptchaRefusal::Exhausted);
        }
        self.captcha_attempts = self.captcha_attempts + 1;
        Ok(())
    }

    /// A captcha was solved.
    pub fn solved(&mut self, captcha: SolvedCaptcha)
        ensures
            final(self)@ == (LegacyModel { solved: Some(captcha@), ..old(self)@ }),
    {
        self.solved = Some(captcha);
    }
}

/// The least and the longest rest after a step, in milliseconds.
pub fn legacy_rest(step: LegacyStep) -> (r: (u64, u64))
    ensures
        r == match step {
            LegacyStep::Token | LegacyStep::Anonymous | LegacyStep::Login => (100u64, 150u64),
            LegacyStep::Preview => (200u64, 400u64),
            LegacyStep::Join => (0u64, 0u64),
        },
        r.0 <= r.1 < u64::MAX,
{
    match step {
        LegacyStep::Token => (100, 150),
        LegacyStep::Preview => (200, 400),
        LegacyStep::Anonymous => (100, 150),
        LegacyStep::Login => (100, 150),
        LegacyStep::Join => (0, 0),
    }
}

#[derive(Clone, Copy, Debug, PartialEq, Eq, Structural)]
pub enum CaptchaRefusal {
    NotACaptcha,
    Exhausted,
}

// ---------------------------------------------------------------------------
// Checking a hash
// ---------------------------------------------------------------------------

#[derive(Clone, Copy, Debug, PartialEq, Eq, Structural)]
pub enum HashStep {
    Token,
    Preview,
}

/// What is known of a hash that is being checked.
pub struct HashFlow {
    pub step: HashStep,
    pub token: String,
}

/// A verdict as plain values.
pub enum HashVerdict {
    Valid,
    Invalid { code: i64, message: Seq<char> },
}

/// What an answer says of a hash: a verdict, or a token to go on with.
pub open spec fn hash_answer_spec(step: HashStep, response: Json) -> Result<
    (Option<HashVerdict>, Option<Seq<char>>),
    FailureModel,
> {
    match response.get("error"@) {
        Some(error) => {
            let code = crate::client::auth::answer_code(error);
            let message = crate::client::auth::message_spec(error);
            if crate::client::auth::fatal_error(code, message) {
                Ok((Some(HashVerdict::Invalid { code, message }), None))
            } else if code == 14 {
                Ok((Some(HashVerdict::Valid), None))
            } else {
                Err(FailureModel::Api { code, message })
            }
        },
        None => match step {
            HashStep::Token => match text_at(response, token_path()) {
                Ok(token) => Ok((None, Some(token))),
                Err(e) => Err(e),
            },
            HashStep::Preview => match number_at(response, seq!["response"@, "user_id"@]) {
                Err(e) => Err(e),
                Ok(_) => match text_at(response, seq!["response"@, "secret"@]) {
                    Err(e) => Err(e),
                    Ok(_) => Ok((Some(HashVerdict::Valid), None)),
                },
            },
        },
    }
}

impl HashFlow {
    pub fn new() -> (r: HashFlow)
        ensures
            r.step == HashStep::Token,
            r.token@ == Seq::<char>::empty(),
    {
        HashFlow { step: HashStep::Token, token: String::new() }
    }

    pub fn request(&self, identity: &Identity) -> (r: String)
        ensures
            r@ == match self.step {
                HashStep::Token => calls_token_url_spec(
                    identity@.link,
                    identity@.device_id,
                    identity@.name,
                ),
                HashStep::Preview => calls_preview_url_spec(
                    identity@.link,
                    identity@.device_id,
                    self.token@,
                ),
            },
    {
        match self.step {
            HashStep::Token => calls_token_url(
                identity.link.as_str(),
                identity.device_id.as_str(),
                identity.name.as_str(),
            ),
            HashStep::Preview => calls_preview_url(
                identity.link.as_str(),
                identity.device_id.as_str(),
                self.token.as_str(),
            ),
        }
    }

    /// Takes an answer; the verdict, once there is one.
    pub fn answer(&mut self, response: &Value) -> (r: Result<Option<VkHashCheck>, AuthFailure>)
        ensures
            match (r, hash_answer_spec(old(self).step, json_held(*response))) {
                (Ok(Some(VkHashCheck::Valid)), Ok((Some(HashVerdict::Valid), None))) =>
                    *final(self) == *old(self),
                (
                    Ok(Some(VkHashCheck::Invalid { code, message })),
                    Ok((Some(HashVerdict::Invalid { code: c, message: m }), None)),
                ) => code == c && message@ == m && *final(self) == *old(self),
                (Ok(None), Ok((None, Some(token)))) => final(self).step == HashStep::Preview
                    && final(self).token@ == token,
                (Err(e), Err(wanted)) => e.model() == wanted && *final(self) == *old(self),
                _ => false,
            },
    {
        match classify_vk_hash_error(response) {
            Ok(Some(verdict)) => {
                return Ok(Some(verdict));
            },
            Ok(None) => {},
            Err(e) => {
                return Err(e);
            },
        }
        match self.step {
            HashStep::Token => match token_in(response) {
                Ok(token) => {
                    self.token = token;
                    self.step = HashStep::Preview;
                    Ok(None)
                },
                Err(e) => Err(e),
            },
            HashStep::Preview => {
                let user_path: [&str; 2] = ["response", "user_id"];
                assert(views(user_path@) =~= seq!["response"@, "user_id"@]);
                if let Err(e) = number_in(response, user_path.as_slice()) {
                    return Err(e);
                }
                let secret_path: [&str; 2] = ["response", "secret"];
                assert(views(secret_path@) =~= seq!["response"@, "secret"@]);
                if let Err(e) = text_in(response, secret_path.as_slice()) {
                    return Err(e);
                }
                Ok(Some(VkHashCheck::Valid))
            },
        }
    }
}

/// Attempts at a hash before it counts as out of reach.
pub const HASH_ATTEMPTS: usize = 2;

/// The least and the longest rest between two of them, in milliseconds.
pub const HASH_REST_MIN_MS: u64 = 180;
pub const HASH_REST_MAX_MS: u64 = 260;

/// What is said of a hash after attempts that all failed, the last with this
/// message.
pub fn hash_unavailable(last_error: Option<String>) -> (r: VkHashCheck)
    ensures
        r is Unavailable,
        r->Unavailable_message@ == match last_error {
            Some(message) => message@,
            None => "VK client credentials are unavailable"@,
        },
{
    match last_error {
        Some(message) => VkHashCheck::Unavailable { message },
        None => VkHashCheck::Unavailable {
            message: copy_text("VK client credentials are unavailable"),
        },
    }
}

// ---------------------------------------------------------------------------
// Headers
// ---------------------------------------------------------------------------

/// What a browser says of itself.
pub struct BrowserProfile {
    pub user_agent: String,
    pub sec_ch_ua: String,
    pub sec_ch_ua_mobile: String,
    pub sec_ch_ua_platform: String,
}

pub struct Header {
    pub name: &'static str,
    pub value: String,
}

pub open spec fn header_views(list: Seq<Header>) -> Seq<(Seq<char>, Seq<char>)> {
    Seq::new(list.len(), |i: int| (list[i].name@, list[i].value@))
}

/// The bytes that may stand in a header.
pub open spec fn header_bytes(bytes: Seq<u8>) -> bool {
    forall|i: int|
        0 <= i < bytes.len() ==> (#[trigger] bytes[i] >= 32 && bytes[i] != 127) || bytes[i] == 9
}

/// Calls `HeaderValue::from_str` of the `http` crate, as the `primp` crate
/// offers it: a value is refused exactly where it holds a control character
/// other than a tab.
#[verifier::external_body]
fn header_accepts(value: &str) -> (r: bool)
    ensures
        r == header_bytes(encode_utf8(value@)),
{
    primp::header::HeaderValue::from_str(value).is_ok()
}

/// A header that is left out where it has nothing to say.
pub open spec fn optional_header(name: Seq<char>, value: Seq<char>) -> Seq<
    (Seq<char>, Seq<char>),
> {
    if value.len() == 0 {
        Seq::empty()
    } else {
        seq![(name, value)]
    }
}

/// The headers of a browser.
pub open spec fn browser_headers_spec(profile: BrowserProfile) -> Seq<(Seq<char>, Seq<char>)> {
    optional_header("user-agent"@, profile.user_agent@) + optional_header(
        "sec-ch-ua"@,
        profile.sec_ch_ua@,
    ) + optional_header("sec-ch-ua-mobile"@, profile.sec_ch_ua_mobile@) + optional_header(
        "sec-ch-ua-platform"@,
        profile.sec_ch_ua_platform@,
    ) + seq![
        ("accept"@, "*/*"@),
        ("accept-language"@, "ru-RU,ru;q=0.9,en-US;q=0.8,en;q=0.7"@),
        ("dnt"@, "1"@),
    ]
}

/// Every part of a profile may stand in a header.
pub open spec fn profile_accepted(profile: BrowserProfile) -> bool {
    &&& header_bytes(encode_utf8(profile.user_agent@))
    &&& header_bytes(encode_utf8(profile.sec_ch_ua@))
    &&& header_bytes(encode_utf8(profile.sec_ch_ua_mobile@))
    &&& header_bytes(encode_utf8(profile.sec_ch_ua_platform@))
}

fn push_header(list: &mut Vec<Header>, name: &'static str, value: &str)
    ensures
        header_views(final(list)@) == header_views(old(list)@).push((name@, value@)),
{
    let ghost before = list@;
    list.push(Header { name, value: copy_text(value) });
    assert(header_views(list@) =~= header_views(before).push((name@, value@)));
}

fn push_optional(list: &mut Vec<Header>, name: &'static str, value: &String) -> (r: bool)
    ensures
        r == (value@.len() == 0 || header_bytes(encode_utf8(value@))),
        r ==> header_views(final(list)@) == header_views(old(list)@) + optional_header(
            name@,
            value@,
        ),
{
    if chars_of(value.as_str()).len() == 0 {
        assert(header_views(list@) =~= header_views(list@) + optional_header(name@, value@));
        return true;
    }
    if !header_accepts(value.as_str()) {
        return false;
    }
    let ghost before = header_views(list@);
    push_header(list, name, value.as_str());
    assert(header_views(list@) =~= before + optional_header(name@, value@));
    true
}

proof fn lemma_nothing_is_accepted(text: Seq<char>)
    requires
        text.len() == 0,
    ensures
        header_bytes(encode_utf8(text)),
{
    assert(text =~= Seq::<char>::empty());
    reveal_with_fuel(vstd::utf8::encode_utf8, 2);
}

/// The headers that requests of a browser carry; nothing where a part of the
/// profile may not stand in a header.
pub fn browser_headers(profile: &BrowserProfile) -> (r: Option<Vec<Header>>)
    ensures
        match r {
            Some(list) => profile_accepted(*profile) && header_views(list@)
                == browser_headers_spec(*profile),
            None => !profile_accepted(*profile),
        },
{
    let mut list: Vec<Header> = Vec::new();
    proof {
        if profile.user_agent@.len() == 0 {
            lemma_nothing_is_accepted(profile.user_agent@);
        }
        if profile.sec_ch_ua@.len() == 0 {
            lemma_nothing_is_accepted(profile.sec_ch_ua@);
        }
        if profile.sec_ch_ua_mobile@.len() == 0 {
            lemma_nothing_is_accepted(profile.sec_ch_ua_mobile@);
        }
        if profile.sec_ch_ua_platform@.len() == 0 {
            lemma_nothing_is_accepted(profile.sec_ch_ua_platform@);
        }
    }
    if !push_optional(&mut list, "user-agent", &profile.user_agent) {
        return None;
    }
    if !push_optional(&mut list, "sec-ch-ua", &profile.sec_ch_ua) {
        return None;
    }
    if !push_optional(&mut list, "sec-ch-ua-mobile", &profile.sec_ch_ua_mobile) {
        return None;
    }
    if !push_optional(&mut list, "sec-ch-ua-platform", &profile.sec_ch_ua_platform) {
        return None;
    }
    push_header(&mut list, "accept", "*/*");
    push_header(&mut list, "accept-language", "ru-RU,ru;q=0.9,en-US;q=0.8,en;q=0.7");
    push_header(&mut list, "dnt", "1");
    assert(header_views(list@) =~= browser_headers_spec(*profile));
    Some(list)
}

/// The headers that a form is sent with besides those of the browser.
pub fn form_headers() -> (r: Vec<Header>)
    ensures
        header_views(r@) == seq![
            ("content-type"@, "application/x-www-form-urlencoded"@),
            ("origin"@, "https://vk.ru"@),
            ("referer"@, "https://vk.ru/"@),
            ("sec-fetch-site"@, "same-site"@),
            ("sec-fetch-mode"@, "cors"@),
            ("sec-fetch-dest"@, "empty"@),
            ("priority"@, "u=1, i"@),
        ],
{
    let mut list: Vec<Header> = Vec::new();
    push_header(&mut list, "content-type", "application/x-www-form-urlencoded");
    push_header(&mut list, "origin", "https://vk.ru");
    push_header(&mut list, "referer", "https://vk.ru/");
    push_header(&mut list, "sec-fetch-site", "same-site");
    push_header(&mut list, "sec-fetch-mode", "cors");
    push_header(&mut list, "sec-fetch-dest", "empty");
    push_header(&mut list, "priority", "u=1, i");
    assert(header_views(list@) =~= seq![
        ("content-type"@, "application/x-www-form-urlencoded"@),
        ("origin"@, "https://vk.ru"@),
        ("referer"@, "https://vk.ru/"@),
        ("sec-fetch-site"@, "same-site"@),
        ("sec-fetch-mode"@, "cors"@),
        ("sec-fetch-dest"@, "empty"@),
        ("priority"@, "u=1, i"@),
    ]);
    list
}

} // verus!
