//! How a client comes by the credentials of relays.

use vstd::prelude::*;
use vstd::utf8::encode_utf8;
use serde_json::Value;
use crate::client::json::{
    json_get, json_held, json_integer, json_list, json_text, json_truncated, Json, JsonError,
};
use crate::client::turn_endpoint::{is_supported_turn_uri, uri_spec};
use crate::text::{
    chars_of, contains, copy_text, decimal_i64, has_text, join_texts, joined, lower, lower_spec, parse_i64,
    parse_signed, pieces, push_chars, push_text, signed_decimal, spells, split, split_once,
    split_once_spec, split_spec, string_of, string_of_vec, trim, trimmed, views, CharClass,
};

verus! {

/// What a relay wants to hear, and where relays are.
#[derive(Debug)]
pub struct TurnCredentials {
    pub username: String,
    pub password: String,
    pub server_addresses: Vec<String>,
}

#[verifier::ext_equal]
pub struct CredentialsModel {
    pub username: Seq<char>,
    pub password: Seq<char>,
    pub server_addresses: Seq<Seq<char>>,
}

/// The views of a list of texts.
pub open spec fn texts(list: Seq<String>) -> Seq<Seq<char>> {
    Seq::new(list.len(), |i: int| list[i]@)
}

impl View for TurnCredentials {
    type V = CredentialsModel;

    open spec fn view(&self) -> CredentialsModel {
        CredentialsModel {
            username: self.username@,
            password: self.password@,
            server_addresses: texts(self.server_addresses@),
        }
    }
}

pub fn copy_texts(list: &Vec<String>) -> (r: Vec<String>)
    ensures
        texts(r@) == texts(list@),
{
    let mut r: Vec<String> = Vec::new();
    let mut i: usize = 0;
    while i < list.len()
        invariant
            i <= list@.len(),
            texts(r@) == texts(list@).take(i as int),
        decreases list@.len() - i,
    {
        let ghost before = r@;
        r.push(list[i].clone());
        assert(texts(r@) =~= texts(before).push(list@[i as int]@));
        i = i + 1;
        assert(texts(r@) =~= texts(list@).take(i as int));
    }
    assert(texts(r@) =~= texts(list@));
    r
}

impl Clone for TurnCredentials {
    fn clone(&self) -> (r: TurnCredentials)
        ensures
            r@ == self@,
    {
        TurnCredentials {
            username: self.username.clone(),
            password: self.password.clone(),
            server_addresses: copy_texts(&self.server_addresses),
        }
    }
}

// ---------------------------------------------------------------------------
// Failures
// ---------------------------------------------------------------------------

/// A call that cannot be joined.
#[derive(Debug)]
pub struct CallUnavailable {
    pub code: i64,
    pub message: String,
}

pub open spec fn unavailable_text(code: i64, message: Seq<char>) -> Seq<char> {
    if message.len() == 0 {
        "VK call is unavailable (error_code="@ + signed_decimal(code as int) + ")"@
    } else {
        "VK returns error: "@ + message + " (error_code="@ + signed_decimal(code as int) + ")"@
    }
}

impl CallUnavailable {
    /// What is said of the call.
    pub fn text(&self) -> (r: String)
        ensures
            r@ == unavailable_text(self.code, self.message@),
    {
        let message = chars_of(self.message.as_str());
        let mut out: Vec<char> = Vec::new();
        if message.len() == 0 {
            push_text(&mut out, "VK call is unavailable (error_code=");
        } else {
            push_text(&mut out, "VK returns error: ");
            push_chars(&mut out, message.as_slice());
            push_text(&mut out, " (error_code=");
        }
        push_chars(&mut out, decimal_i64(self.code).as_slice());
        push_text(&mut out, ")");
        assert(out@ =~= unavailable_text(self.code, self.message@));
        string_of_vec(&out)
    }
}

/// What was found out of a hash.
#[derive(Debug, PartialEq, Eq)]
pub enum VkHashCheck {
    Valid,
    Invalid { code: i64, message: String },
    Unavailable { message: String },
}

/// Why no credentials were had.
#[derive(Debug)]
pub enum AuthFailure {
    Unavailable(CallUnavailable),
    /// A captcha stands in the way.
    Captcha,
    Api { code: i64, message: String },
    OkApi { code: i64, message: String },
    Answer(JsonError),
    NoServer,
    NoUsername,
    NoCredential,
    NoUrls,
    NoAddresses,
    CaptchaWait,
}

/// A failure as plain values.
pub enum FailureModel {
    Unavailable { code: i64, message: Seq<char> },
    Captcha,
    Api { code: i64, message: Seq<char> },
    OkApi { code: i64, message: Seq<char> },
    Missing(Seq<char>),
    NotText,
    NotNumber,
    NoServer,
    NoUsername,
    NoCredential,
    NoUrls,
    NoAddresses,
    CaptchaWait,
}

impl AuthFailure {
    pub open spec fn model(self) -> FailureModel {
        match self {
            AuthFailure::Unavailable(call) => FailureModel::Unavailable {
                code: call.code,
                message: call.message@,
            },
            AuthFailure::Captcha => FailureModel::Captcha,
            AuthFailure::Api { code, message } => FailureModel::Api { code, message: message@ },
            AuthFailure::OkApi { code, message } => FailureModel::OkApi { code, message: message@ },
            AuthFailure::Answer(JsonError::Missing(key)) => FailureModel::Missing(key@),
            AuthFailure::Answer(JsonError::NotText) => FailureModel::NotText,
            AuthFailure::Answer(JsonError::NotNumber) => FailureModel::NotNumber,
            AuthFailure::NoServer => FailureModel::NoServer,
            AuthFailure::NoUsername => FailureModel::NoUsername,
            AuthFailure::NoCredential => FailureModel::NoCredential,
            AuthFailure::NoUrls => FailureModel::NoUrls,
            AuthFailure::NoAddresses => FailureModel::NoAddresses,
            AuthFailure::CaptchaWait => FailureModel::CaptchaWait,
        }
    }

    /// What is said of the failure. A captcha that stands in the way is
    /// described by whoever reads captchas.
    pub fn text(&self) -> (r: Option<String>)
        ensures
            match r {
                Some(text) => failure_text(self.model()) == Some(text@),
                None => failure_text(self.model()) is None,
            },
    {
        match self {
            AuthFailure::Unavailable(call) => Some(call.text()),
            AuthFailure::Captcha => None,
            AuthFailure::Api { code, message } => Some(
                coded_text("VK API error: error_code=", *code, message.as_str()),
            ),
            AuthFailure::OkApi { code, message } => Some(
                coded_text("OK CDN API error: error_code=", *code, message.as_str()),
            ),
            AuthFailure::Answer(JsonError::Missing(key)) => {
                let parts: [&str; 2] = ["missing key ", key.as_str()];
                assert(views(parts@) =~= seq!["missing key "@, key@]);
                Some(join_texts(parts.as_slice()))
            },
            AuthFailure::Answer(JsonError::NotText) => Some(copy_text("expected string")),
            AuthFailure::Answer(JsonError::NotNumber) => Some(copy_text("expected number")),
            AuthFailure::NoServer => Some(copy_text("missing turn_server in response")),
            AuthFailure::NoUsername => Some(copy_text("missing username in turn_server")),
            AuthFailure::NoCredential => Some(copy_text("missing credential in turn_server")),
            AuthFailure::NoUrls => Some(copy_text("missing or empty urls in turn_server")),
            AuthFailure::NoAddresses => Some(copy_text("no valid TURN addresses found")),
            AuthFailure::CaptchaWait => Some(copy_text("CAPTCHA_WAIT_REQUIRED")),
        }
    }
}

/// An error with its number, and what it says.
pub open spec fn coded_spec(start: Seq<char>, code: i64, message: Seq<char>) -> Seq<char> {
    joined(seq![start, signed_decimal(code as int), " "@, message])
}

fn coded_text(start: &str, code: i64, message: &str) -> (r: String)
    ensures
        r@ == coded_spec(start@, code, message@),
{
    let number = string_of_vec(&decimal_i64(code));
    let parts: [&str; 4] = [start, number.as_str(), " ", message];
    assert(views(parts@) =~= seq![start@, number@, " "@, message@]);
    join_texts(parts.as_slice())
}

/// What is said of a failure; nothing of a captcha.
pub open spec fn failure_text(failure: FailureModel) -> Option<Seq<char>> {
    match failure {
        FailureModel::Unavailable { code, message } => Some(unavailable_text(code, message)),
        FailureModel::Captcha => None,
        FailureModel::Api { code, message } => Some(
            coded_spec("VK API error: error_code="@, code, message),
        ),
        FailureModel::OkApi { code, message } => Some(
            coded_spec("OK CDN API error: error_code="@, code, message),
        ),
        FailureModel::Missing(key) => Some(joined(seq!["missing key "@, key])),
        FailureModel::NotText => Some("expected string"@),
        FailureModel::NotNumber => Some("expected number"@),
        FailureModel::NoServer => Some("missing turn_server in response"@),
        FailureModel::NoUsername => Some("missing username in turn_server"@),
        FailureModel::NoCredential => Some("missing credential in turn_server"@),
        FailureModel::NoUrls => Some("missing or empty urls in turn_server"@),
        FailureModel::NoAddresses => Some("no valid TURN addresses found"@),
        FailureModel::CaptchaWait => Some("CAPTCHA_WAIT_REQUIRED"@),
    }
}

// ---------------------------------------------------------------------------
// Answers
// ---------------------------------------------------------------------------

/// The code that an answer gives, as a number or as text; zero without one.
pub open spec fn code_spec(value: Option<Json>) -> i64 {
    match value {
        Some(json) => match json {
            Json::Number(number) => match number.integer {
                Some(code) => code,
                None => number.truncated,
            },
            Json::Text(text) => match parse_signed(text) {
                Some(code) => code as i64,
                None => 0,
            },
            _ => 0,
        },
        None => 0,
    }
}

/// The view of an optional value.
pub open spec fn held(value: Option<&Value>) -> Option<Json> {
    match value {
        Some(value) => Some(json_held(*value)),
        None => None,
    }
}

pub fn error_code(value: Option<&Value>) -> (r: i64)
    ensures
        r == code_spec(held(value)),
{
    match value {
        Some(value) => {
            if let Some(code) = json_integer(value) {
                return code;
            }
            if let Some(code) = json_truncated(value) {
                return code;
            }
            if let Some(text) = json_text(value) {
                let chars = chars_of(text);
                return match parse_i64(chars.as_slice()) {
                    Some(code) => code,
                    None => 0,
                };
            }
            0
        },
        None => 0,
    }
}

pub open spec fn text_or_nothing(value: Option<Json>) -> Seq<char> {
    match value {
        Some(json) => match json.text() {
            Some(text) => text,
            None => Seq::empty(),
        },
        None => Seq::empty(),
    }
}

/// What an error says of itself.
pub open spec fn message_spec(error: Json) -> Seq<char> {
    match error.get("error_msg"@) {
        Some(value) => text_or_nothing(Some(value)),
        None => text_or_nothing(error.get("message"@)),
    }
}

fn text_of(value: Option<&Value>) -> (r: String)
    ensures
        r@ == text_or_nothing(held(value)),
{
    match value {
        Some(value) => match json_text(value) {
            Some(text) => copy_text(text),
            None => {
                let r = String::new();
                assert(r@ =~= Seq::<char>::empty());
                r
            },
        },
        None => {
            let r = String::new();
            assert(r@ =~= Seq::<char>::empty());
            r
        },
    }
}

pub fn vk_error_message(error: &Value) -> (r: String)
    ensures
        r@ == message_spec(json_held(*error)),
{
    match json_get(error, "error_msg") {
        Some(value) => text_of(Some(value)),
        None => text_of(json_get(error, "message")),
    }
}

pub open spec fn fatal_code(code: i64) -> bool {
    code == 951 || code == 954 || 9000 <= code <= 9999
}

pub fn is_fatal_call_code(code: i64) -> (r: bool)
    ensures
        r == fatal_code(code),
{
    code == 951 || code == 954 || (9000 <= code && code <= 9999)
}

/// The error says that there is no such call.
pub open spec fn fatal_error(code: i64, message: Seq<char>) -> bool {
    let name = lower_spec(trimmed(message));
    fatal_code(code) || has_text(name, "call not found"@) || has_text(
        name,
        "invalid call join link"@,
    )
}

pub fn is_fatal_call_error(code: i64, message: &str) -> (r: bool)
    ensures
        r == fatal_error(code, message@),
{
    let all = chars_of(message);
    let name = lower(trim(all.as_slice()));
    is_fatal_call_code(code) || contains(name.as_slice(), "call not found") || contains(
        name.as_slice(),
        "invalid call join link",
    )
}

/// The code of the error in an answer.
pub open spec fn answer_code(error: Json) -> i64 {
    code_spec(error.get("error_code"@))
}

/// Whether an answer says that there is no such call.
pub open spec fn fatal_spec(response: Json) -> Option<FailureModel> {
    match response.get("error"@) {
        Some(error) => if fatal_error(answer_code(error), message_spec(error)) {
            Some(
                FailureModel::Unavailable {
                    code: answer_code(error),
                    message: message_spec(error),
                },
            )
        } else {
            None
        },
        None => None,
    }
}

pub fn check_fatal_call(response: &Value) -> (r: Result<(), AuthFailure>)
    ensures
        match r {
            Ok(()) => fatal_spec(json_held(*response)) is None,
            Err(e) => fatal_spec(json_held(*response)) == Some(e.model()),
        },
{
    match json_get(response, "error") {
        Some(error) => {
            let code: i64 = error_code(json_get(error, "error_code"));
            let message = vk_error_message(error);
            if is_fatal_call_error(code, message.as_str()) {
                return Err(AuthFailure::Unavailable(CallUnavailable { code, message }));
            }
            Ok(())
        },
        None => Ok(()),
    }
}

/// What is wrong with an answer, if anything.
pub open spec fn vk_error_spec(response: Json) -> Option<FailureModel> {
    match response.get("error"@) {
        Some(error) => match fatal_spec(response) {
            Some(failure) => Some(failure),
            None => if answer_code(error) == 14 {
                Some(FailureModel::Captcha)
            } else {
                Some(
                    FailureModel::Api {
                        code: answer_code(error),
                        message: text_or_nothing(error.get("error_msg"@)),
                    },
                )
            },
        },
        None => None,
    }
}

pub fn check_vk_error(response: &Value) -> (r: Result<(), AuthFailure>)
    ensures
        match r {
            Ok(()) => vk_error_spec(json_held(*response)) is None,
            Err(e) => vk_error_spec(json_held(*response)) == Some(e.model()),
        },
{
    match json_get(response, "error") {
        Some(error) => {
            if let Err(e) = check_fatal_call(response) {
                return Err(e);
            }
            let code: i64 = error_code(json_get(error, "error_code"));
            if code == 14 {
                return Err(AuthFailure::Captcha);
            }
            Err(AuthFailure::Api { code, message: text_of(json_get(error, "error_msg")) })
        },
        None => Ok(()),
    }
}

/// What is wrong with an answer that carries its error at the top.
pub open spec fn ok_error_spec(response: Json) -> Option<FailureModel> {
    let code = answer_code(response);
    let message = message_spec(response);
    if code == 0 {
        None
    } else if fatal_error(code, message) {
        Some(FailureModel::Unavailable { code, message })
    } else {
        Some(FailureModel::OkApi { code, message })
    }
}

pub fn check_ok_error(response: &Value) -> (r: Result<(), AuthFailure>)
    ensures
        match r {
            Ok(()) => ok_error_spec(json_held(*response)) is None,
            Err(e) => ok_error_spec(json_held(*response)) == Some(e.model()),
        },
{
    let code: i64 = error_code(json_get(response, "error_code"));
    if code == 0 {
        return Ok(());
    }
    let message = vk_error_message(response);
    if is_fatal_call_error(code, message.as_str()) {
        return Err(AuthFailure::Unavailable(CallUnavailable { code, message }));
    }
    Err(AuthFailure::OkApi { code, message })
}

/// What an answer says of a hash: nothing without an error, that it is dead, or
/// that it is good, where only a captcha stands in the way; other errors say
/// nothing for good.
pub fn classify_vk_hash_error(response: &Value) -> (r: Result<Option<VkHashCheck>, AuthFailure>)
    ensures
        match json_held(*response).get("error"@) {
            None => r == Ok::<Option<VkHashCheck>, AuthFailure>(None),
            Some(error) => {
                let code = answer_code(error);
                let message = message_spec(error);
                if fatal_error(code, message) {
                    &&& r matches Ok(Some(VkHashCheck::Invalid { code: c, message: m }))
                    &&& c == code
                    &&& m@ == message
                } else if code == 14 {
                    r == Ok::<Option<VkHashCheck>, AuthFailure>(Some(VkHashCheck::Valid))
                } else {
                    &&& r is Err
                    &&& (r->Err_0).model() == (FailureModel::Api { code, message })
                }
            },
        },
{
    match json_get(response, "error") {
        Some(error) => {
            let code: i64 = error_code(json_get(error, "error_code"));
            let message = vk_error_message(error);
            if is_fatal_call_error(code, message.as_str()) {
                return Ok(Some(VkHashCheck::Invalid { code, message }));
            }
            if code == 14 {
                return Ok(Some(VkHashCheck::Valid));
            }
            Err(AuthFailure::Api { code, message })
        },
        None => Ok(None),
    }
}

/// The addresses of relays among the items of a list, trimmed.
pub open spec fn relay_urls(items: Seq<Json>) -> Seq<Seq<char>>
    decreases items.len(),
{
    if items.len() == 0 {
        Seq::empty()
    } else {
        let before = relay_urls(items.drop_last());
        match items.last().text() {
            Some(text) => if uri_spec(trimmed(text)) is Ok {
                before.push(trimmed(text))
            } else {
                before
            },
            None => before,
        }
    }
}

pub open spec fn credentials_spec(response: Json) -> Result<CredentialsModel, FailureModel> {
    match response.get("turn_server"@) {
        None => Err(FailureModel::NoServer),
        Some(turn) => {
            let username = match turn.get("username"@) {
                Some(value) => value.text(),
                None => None,
            };
            let password = match turn.get("credential"@) {
                Some(value) => value.text(),
                None => None,
            };
            let urls = match turn.get("urls"@) {
                Some(value) => value.list(),
                None => None,
            };
            match (username, password, urls) {
                (None, _, _) => Err(FailureModel::NoUsername),
                (_, None, _) => Err(FailureModel::NoCredential),
                (_, _, None) => Err(FailureModel::NoUrls),
                (Some(username), Some(password), Some(items)) => if relay_urls(items).len()
                    == 0 {
                    Err(FailureModel::NoAddresses)
                } else {
                    Ok(
                        CredentialsModel {
                            username,
                            password,
                            server_addresses: relay_urls(items),
                        },
                    )
                },
            }
        },
    }
}

fn relay_addresses(items: &Vec<Value>, Ghost(model): Ghost<Seq<Json>>) -> (r: Vec<String>)
    requires
        model.len() == items@.len(),
        forall|i: int| 0 <= i < items@.len() ==> json_held(#[trigger] items@[i]) == model[i],
    ensures
        texts(r@) == relay_urls(model),
{
    let mut r: Vec<String> = Vec::new();
    let mut i: usize = 0;
    assert(texts(r@) =~= relay_urls(model.take(0)));
    while i < items.len()
        invariant
            i <= items@.len(),
            model.len() == items@.len(),
            forall|k: int| 0 <= k < items@.len() ==> json_held(#[trigger] items@[k]) == model[k],
            texts(r@) == relay_urls(model.take(i as int)),
        decreases items@.len() - i,
    {
        assert(model.take(i + 1).drop_last() =~= model.take(i as int));
        assert(json_held(items@[i as int]) == model[i as int]);
        if let Some(text) = json_text(&items[i]) {
            let chars = chars_of(text);
            let address = string_of(trim(chars.as_slice()));
            if is_supported_turn_uri(address.as_str()) {
                let ghost before = r@;
                r.push(address);
                assert(texts(r@) =~= texts(before).push(address@));
            }
        }
        i = i + 1;
    }
    assert(model.take(i as int) =~= model);
    r
}

/// The credentials that an answer holds.
pub fn parse_turn_credentials(response: &Value) -> (r: Result<TurnCredentials, AuthFailure>)
    ensures
        match (r, credentials_spec(json_held(*response))) {
            (Ok(credentials), Ok(model)) => credentials@ == model,
            (Err(e), Err(model)) => e.model() == model,
            _ => false,
        },
{
    let turn = match json_get(response, "turn_server") {
        Some(turn) => turn,
        None => {
            return Err(AuthFailure::NoServer);
        },
    };
    let username = match json_get(turn, "username") {
        Some(value) => match json_text(value) {
            Some(text) => copy_text(text),
            None => {
                return Err(AuthFailure::NoUsername);
            },
        },
        None => {
            return Err(AuthFailure::NoUsername);
        },
    };
    let password = match json_get(turn, "credential") {
        Some(value) => match json_text(value) {
            Some(text) => copy_text(text),
            None => {
                return Err(AuthFailure::NoCredential);
            },
        },
        None => {
            return Err(AuthFailure::NoCredential);
        },
    };
    let urls = match json_get(turn, "urls") {
        Some(urls) => urls,
        None => {
            return Err(AuthFailure::NoUrls);
        },
    };
    match json_list(urls) {
        Some(items) => {
            let server_addresses = relay_addresses(items, Ghost(json_held(*urls).list()->0));
            assert(texts(server_addresses@).len() == server_addresses@.len());
            if server_addresses.len() == 0 {
                return Err(AuthFailure::NoAddresses);
            }
            Ok(TurnCredentials { username, password, server_addresses })
        },
        None => Err(AuthFailure::NoUrls),
    }
}

// ---------------------------------------------------------------------------
// Escaping
// ---------------------------------------------------------------------------

pub open spec fn hex_char(n: int) -> char {
    if n < 10 {
        (48 + n) as char
    } else {
        (55 + n) as char
    }
}

/// A byte as it stands in the query of an address.
pub open spec fn escape_byte(byte: u8) -> Seq<char> {
    if byte == 32 {
        seq!['+']
    } else if (97 <= byte <= 122) || (65 <= byte <= 90) || (48 <= byte <= 57) || byte == 45
        || byte == 95 || byte == 46 || byte == 126 {
        seq![byte as char]
    } else {
        seq!['%', hex_char(byte as int / 16), hex_char(byte as int % 16)]
    }
}

pub open spec fn escape_bytes(bytes: Seq<u8>) -> Seq<char>
    decreases bytes.len(),
{
    if bytes.len() == 0 {
        Seq::empty()
    } else {
        escape_bytes(bytes.drop_last()) + escape_byte(bytes.last())
    }
}

/// Text as it stands in the query of an address.
pub open spec fn escape_spec(text: Seq<char>) -> Seq<char> {
    escape_bytes(encode_utf8(text))
}

fn hex_digit(n: u8) -> (r: char)
    requires
        n < 16,
    ensures
        r == hex_char(n as int),
{
    if n < 10 {
        (48 + n) as char
    } else {
        (55 + n) as char
    }
}

pub fn query_escape(value: &str) -> (r: String)
    ensures
        r@ == escape_spec(value@),
{
    let bytes = value.as_bytes();
    let mut out: Vec<char> = Vec::new();
    let mut i: usize = 0;
    while i < bytes.len()
        invariant
            i <= bytes@.len(),
            bytes@ == encode_utf8(value@),
            out@ == escape_bytes(bytes@.take(i as int)),
        decreases bytes@.len() - i,
    {
        let ghost before = out@;
        let byte: u8 = bytes[i];
        assert(bytes@.take(i + 1).drop_last() =~= bytes@.take(i as int));
        if byte == 32 {
            out.push('+');
        } else if (97 <= byte && byte <= 122) || (65 <= byte && byte <= 90) || (48 <= byte && byte
            <= 57) || byte == 45 || byte == 95 || byte == 46 || byte == 126 {
            out.push(byte as char);
        } else {
            out.push('%');
            out.push(hex_digit(byte / 16));
            out.push(hex_digit(byte % 16));
        }
        assert(out@ =~= before + escape_byte(byte));
        i = i + 1;
    }
    assert(bytes@.take(i as int) =~= bytes@);
    string_of_vec(&out)
}

/// An escaped text holds only characters that need no escape, so escaping is
/// never ambiguous about where a value ends.
pub proof fn law_escaped_text_is_plain(bytes: Seq<u8>)
    ensures
        forall|i: int|
            0 <= i < escape_bytes(bytes).len() ==> {
                let c = #[trigger] escape_bytes(bytes)[i];
                c != '&' && c != '=' && c != '?' && c != '#' && c != ' '
            },
    decreases bytes.len(),
{
    if bytes.len() > 0 {
        law_escaped_text_is_plain(bytes.drop_last());
        let before = escape_bytes(bytes.drop_last());
        let last = escape_byte(bytes.last());
        let all = escape_bytes(bytes);
        assert forall|i: int| 0 <= i < all.len() implies {
            let c = #[trigger] all[i];
            c != '&' && c != '=' && c != '?' && c != '#' && c != ' '
        } by {
            if i < before.len() {
                assert(all[i] == before[i]);
            } else {
                assert(all[i] == last[i - before.len()]);
            }
        }
    }
}

// ---------------------------------------------------------------------------
// Clients
// ---------------------------------------------------------------------------

/// Under which name anonymous tokens are asked for.
#[derive(Debug)]
pub struct VkCredentials {
    pub client_id: String,
    pub client_secret: String,
}

pub open spec fn pairs(list: Seq<VkCredentials>) -> Seq<(Seq<char>, Seq<char>)> {
    Seq::new(list.len(), |i: int| (list[i].client_id@, list[i].client_secret@))
}

pub open spec fn known_secret(id: Seq<char>) -> Option<Seq<char>> {
    if id == "8202606"@ {
        Some("lMRsTiMCyPnp5vfoldmn"@)
    } else if id == "6287487"@ {
        Some("MuAxFaKDYDOICzGnEOhp"@)
    } else {
        None
    }
}

/// The known clients among those named.
pub open spec fn known_clients(ids: Seq<Seq<char>>) -> Seq<(Seq<char>, Seq<char>)>
    decreases ids.len(),
{
    if ids.len() == 0 {
        Seq::empty()
    } else {
        let before = known_clients(ids.drop_last());
        match known_secret(trimmed(ids.last())) {
            Some(secret) => before.push((trimmed(ids.last()), secret)),
            None => before,
        }
    }
}

/// The clients that a list of pairs names.
pub open spec fn listed_clients(items: Seq<Seq<char>>) -> Seq<(Seq<char>, Seq<char>)>
    decreases items.len(),
{
    if items.len() == 0 {
        Seq::empty()
    } else {
        let before = listed_clients(items.drop_last());
        match split_once_spec(trimmed(items.last()), ':') {
            Some((id, secret)) => if trimmed(id).len() > 0 && trimmed(secret).len() > 0 {
                before.push((trimmed(id), trimmed(secret)))
            } else {
                before
            },
            None => before,
        }
    }
}

pub open spec fn default_clients() -> Seq<(Seq<char>, Seq<char>)> {
    seq![
        ("8202606"@, "lMRsTiMCyPnp5vfoldmn"@),
        ("6287487"@, "MuAxFaKDYDOICzGnEOhp"@),
    ]
}

/// The clients to use: the known ones of those named, else those that the
/// environment lists, else the usual ones.
pub open spec fn clients_spec(
    ids: Seq<Seq<char>>,
    environment: Option<Seq<char>>,
) -> Seq<(Seq<char>, Seq<char>)> {
    if known_clients(ids).len() > 0 {
        known_clients(ids)
    } else {
        match environment {
            Some(value) => {
                let listed = listed_clients(split_spec(value, CharClass::Is(',')));
                if listed.len() > 0 {
                    listed
                } else {
                    default_clients()
                }
            },
            None => default_clients(),
        }
    }
}

fn push_client(list: &mut Vec<VkCredentials>, id: &[char], secret: &[char])
    ensures
        pairs(final(list)@) == pairs(old(list)@).push((id@, secret@)),
{
    let ghost before = list@;
    list.push(VkCredentials { client_id: string_of(id), client_secret: string_of(secret) });
    assert(pairs(list@) =~= pairs(before).push((id@, secret@)));
}

fn known(ids: &Vec<String>) -> (r: Vec<VkCredentials>)
    ensures
        pairs(r@) == known_clients(texts(ids@)),
{
    let ghost all = texts(ids@);
    let mut r: Vec<VkCredentials> = Vec::new();
    let mut i: usize = 0;
    assert(pairs(r@) =~= known_clients(all.take(0)));
    while i < ids.len()
        invariant
            i <= ids@.len(),
            all == texts(ids@),
            pairs(r@) == known_clients(all.take(i as int)),
        decreases ids@.len() - i,
    {
        assert(all.take(i + 1).drop_last() =~= all.take(i as int));
        assert(all.take(i + 1).last() == ids@[i as int]@);
        let chars = chars_of(ids[i].as_str());
        let id = trim(chars.as_slice());
        if spells(id, "8202606") {
            let secret = chars_of("lMRsTiMCyPnp5vfoldmn");
            push_client(&mut r, id, secret.as_slice());
        } else if spells(id, "6287487") {
            let secret = chars_of("MuAxFaKDYDOICzGnEOhp");
            push_client(&mut r, id, secret.as_slice());
        }
        i = i + 1;
    }
    assert(all.take(i as int) =~= all);
    r
}

fn listed(value: &str) -> (r: Vec<VkCredentials>)
    ensures
        pairs(r@) == listed_clients(split_spec(value@, CharClass::Is(','))),
{
    let chars = chars_of(value);
    let items = split(chars.as_slice(), CharClass::Is(','));
    let ghost all = pieces(items@);
    let mut r: Vec<VkCredentials> = Vec::new();
    let mut i: usize = 0;
    assert(pairs(r@) =~= listed_clients(all.take(0)));
    while i < items.len()
        invariant
            i <= items@.len(),
            all == pieces(items@),
            pairs(r@) == listed_clients(all.take(i as int)),
        decreases items@.len() - i,
    {
        assert(all.take(i + 1).drop_last() =~= all.take(i as int));
        assert(all.take(i + 1).last() == items@[i as int]@);
        if let Some((id, secret)) = split_once(trim(items[i].as_slice()), ':') {
            let id = trim(id);
            let secret = trim(secret);
            if id.len() > 0 && secret.len() > 0 {
                push_client(&mut r, id, secret);
            }
        }
        i = i + 1;
    }
    assert(all.take(i as int) =~= all);
    r
}

pub fn load_credentials(client_ids: &Vec<String>, environment: Option<&str>) -> (r: Vec<
    VkCredentials,
>)
    ensures
        pairs(r@) == clients_spec(
            texts(client_ids@),
            match environment {
                Some(value) => Some(value@),
                None => None,
            },
        ),
{
    let named = known(client_ids);
    assert(pairs(named@).len() == named@.len());
    if named.len() > 0 {
        return named;
    }
    if let Some(value) = environment {
        let others = listed(value);
        assert(pairs(others@).len() == others@.len());
        if others.len() > 0 {
            return others;
        }
    }
    let mut r: Vec<VkCredentials> = Vec::new();
    push_client(
        &mut r,
        chars_of("8202606").as_slice(),
        chars_of("lMRsTiMCyPnp5vfoldmn").as_slice(),
    );
    push_client(
        &mut r,
        chars_of("6287487").as_slice(),
        chars_of("MuAxFaKDYDOICzGnEOhp").as_slice(),
    );
    assert(pairs(r@) =~= default_clients());
    r
}

/// There is always a client to ask as.
pub proof fn law_some_client_is_left(ids: Seq<Seq<char>>, environment: Option<Seq<char>>)
    ensures
        clients_spec(ids, environment).len() > 0,
{
}

} // verus!
