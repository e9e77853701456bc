//! What the words and codes of the service mean.

use vstd::prelude::*;
use crate::client::auth::{
    clients_spec, default_clients, fatal_code, fatal_error, known_clients, listed_clients,
    message_spec, ok_error_spec, relay_urls, vk_error_spec, FailureModel,
};
use crate::client::auth_flow::{
    browser_headers_spec, hash_answer_spec, mode_spec, told_outcome, AuthMode, AuthOutcome,
    BrowserProfile, HashStep, HashVerdict,
};
use crate::client::json::Json;
use crate::client::turn_endpoint::uri_spec;
use crate::text::{
    has_text, lower_spec, occurs_at, split_once_spec, split_spec, trimmed, CharClass,
};

verus! {

/// A call is dead by its code, or by what is said of it in any letters.
pub proof fn law_dead_calls_are_known(
    code: i64,
    message: Seq<char>,
    before: Seq<char>,
    after: Seq<char>,
)
    ensures
        fatal_code(951),
        fatal_code(954),
        9_000 <= code <= 9_999 ==> fatal_code(code),
        fatal_code(code) ==> code == 951 || code == 954 || (9_000 <= code <= 9_999),
        lower_spec(trimmed(message)) == before + "call not found"@ + after ==> fatal_error(
            code,
            message,
        ),
        lower_spec(trimmed(message)) == before + "invalid call join link"@ + after ==> fatal_error(
            code,
            message,
        ),
        fatal_code(code) ==> fatal_error(code, message),
{
    lemma_inside(before, "call not found"@, after);
    lemma_inside(before, "invalid call join link"@, after);
}

proof fn lemma_inside(before: Seq<char>, word: Seq<char>, after: Seq<char>)
    ensures
        has_text(before + word + after, word),
{
    let text = before + word + after;
    let n = before.len() as int;
    assert(text.subrange(n, n + word.len()) =~= word);
    assert(occurs_at(text, word, n));
}

/// The message of an error is that of the service, or else the plain one.
pub proof fn law_messages_are_read(error: Json, text: Seq<char>)
    ensures
        error.get("error_msg"@) == Some(Json::Text(text)) ==> message_spec(error) == text,
        error.get("error_msg"@) is None && error.get("message"@) == Some(Json::Text(text))
            ==> message_spec(error) == text,
        error.get("error_msg"@) is None && error.get("message"@) is None ==> message_spec(
            error,
        ).len() == 0,
{
}

/// An answer without an error is none; one whose code asks for a captcha is that,
/// where the call is not dead.
pub proof fn law_answers_without_errors(answer: Json, code: i64)
    ensures
        answer.get("error"@) is None ==> vk_error_spec(answer) is None,
        answer.get("error"@) is Some ==> vk_error_spec(answer) is Some,
        answer.get("error_code"@) is None ==> ok_error_spec(answer) is None,
        (answer.get("error_code"@) matches Some(Json::Number(number)) && number.integer == Some(
            code,
        )) && code != 0 ==> ok_error_spec(answer) is Some,
        (answer.get("error_code"@) matches Some(Json::Number(number)) && number.integer == Some(
            0i64,
        )) ==> ok_error_spec(answer) is None,
        (answer.get("error_code"@) matches Some(Json::Number(number)) && number.integer == Some(
            code,
        )) && fatal_code(code) ==> (ok_error_spec(answer) matches Some(
            FailureModel::Unavailable { code: told, .. },
        ) && told == code),
{
}

/// The way is chosen by its name, in any letters; any other name means the calls of
/// the service.
pub proof fn law_ways_are_named(name: Seq<char>)
    ensures
        lower_spec(name) == "auto_js"@ ==> mode_spec(name) == AuthMode::AutoJs,
        lower_spec(name) == "legacy"@ ==> mode_spec(name) == AuthMode::Legacy,
        lower_spec(name) != "auto_js"@ && lower_spec(name) != "legacy"@ ==> mode_spec(name)
            == AuthMode::VkCalls,
{
    reveal_strlit("auto_js");
    reveal_strlit("legacy");
    assert("auto_js"@.len() == 7 && "legacy"@.len() == 6);
}

/// A failure asks for a captcha where its words do, wherever they stand.
pub proof fn law_captcha_is_asked_for(before: Seq<char>, after: Seq<char>)
    ensures
        told_outcome(before + "CAPTCHA_WAIT_REQUIRED"@ + after) == AuthOutcome::CaptchaWait,
        told_outcome(Seq::empty()) == AuthOutcome::Failed,
{
    reveal_strlit("CAPTCHA_WAIT_REQUIRED");
    lemma_inside(before, "CAPTCHA_WAIT_REQUIRED"@, after);
}

/// A hash is good where the service goes on with it or asks for a captcha, and not
/// where its call is dead; any other error decides nothing.
pub proof fn law_hash_is_judged(step: HashStep, answer: Json, error: Json, code: i64, message: Seq<char>)
    requires
        answer.get("error"@) == Some(error),
        error.get("error_code"@) matches Some(Json::Number(number)) && number.integer == Some(code),
        error.get("error_msg"@) == Some(Json::Text(message)),
    ensures
        fatal_error(code, message) ==> hash_answer_spec(step, answer) == Ok::<
            (Option<HashVerdict>, Option<Seq<char>>),
            FailureModel,
        >((Some(HashVerdict::Invalid { code, message }), None)),
        code == 14 && !fatal_error(code, message) ==> hash_answer_spec(step, answer) == Ok::<
            (Option<HashVerdict>, Option<Seq<char>>),
            FailureModel,
        >((Some(HashVerdict::Valid), None)),
        code != 14 && !fatal_error(code, message) ==> hash_answer_spec(step, answer) is Err,
{
}

/// The clients that were named are used, then those of the environment, then the
/// usual two.
pub proof fn law_named_clients_come_first(ids: Seq<Seq<char>>, environment: Seq<char>)
    ensures
        known_clients(ids).len() > 0 ==> clients_spec(ids, Some(environment)) == known_clients(ids),
        known_clients(ids).len() > 0 ==> clients_spec(ids, None) == known_clients(ids),
        known_clients(ids).len() == 0 ==> clients_spec(ids, None) == default_clients(),
        known_clients(ids).len() == 0 && listed_clients(
            split_spec(environment, CharClass::Is(',')),
        ).len() > 0 ==> clients_spec(ids, Some(environment)) == listed_clients(
            split_spec(environment, CharClass::Is(',')),
        ),
        default_clients().len() == 2,
{
}

/// A client of the environment is its name and its secret with a colon between them,
/// with any space around them; without either it is none.
pub proof fn law_listed_clients_are_read(
    items: Seq<Seq<char>>,
    item: Seq<char>,
    id: Seq<char>,
    secret: Seq<char>,
)
    requires
        split_once_spec(trimmed(item), ':') == Some((id, secret)),
    ensures
        trimmed(id).len() > 0 && trimmed(secret).len() > 0 ==> listed_clients(items.push(item))
            == listed_clients(items).push((trimmed(id), trimmed(secret))),
        trimmed(id).len() == 0 || trimmed(secret).len() == 0 ==> listed_clients(items.push(item))
            == listed_clients(items),
{
    assert(items.push(item).drop_last() =~= items);
}

/// A browser says who it is where it says anything, and always what it takes.
pub proof fn law_browser_headers(profile: BrowserProfile)
    ensures
        ({
            let all = browser_headers_spec(profile);
            let n = all.len() as int;
            &&& n >= 3
            &&& all[n - 3] == ("accept"@, "*/*"@)
            &&& all[n - 2].0 == "accept-language"@
            &&& all[n - 1] == ("dnt"@, "1"@)
            &&& profile.user_agent@.len() > 0 ==> all[0] == ("user-agent"@, profile.user_agent@)
            &&& profile.user_agent@.len() > 0 && profile.sec_ch_ua@.len() > 0
                && profile.sec_ch_ua_mobile@.len() > 0 && profile.sec_ch_ua_platform@.len() > 0
                ==> {
                &&& n == 7
                &&& all[1] == ("sec-ch-ua"@, profile.sec_ch_ua@)
                &&& all[2] == ("sec-ch-ua-mobile"@, profile.sec_ch_ua_mobile@)
                &&& all[3] == ("sec-ch-ua-platform"@, profile.sec_ch_ua_platform@)
            }
            &&& profile.user_agent@.len() == 0 && profile.sec_ch_ua@.len() == 0
                && profile.sec_ch_ua_mobile@.len() == 0 && profile.sec_ch_ua_platform@.len() == 0
                ==> n == 3
        }),
{
}

/// Relays keep the order in which the answer names them.
pub proof fn law_relays_keep_their_order(items: Seq<Json>, text: Seq<char>, other: Json)
    ensures
        uri_spec(trimmed(text)) is Ok ==> relay_urls(items.push(Json::Text(text))) == relay_urls(
            items,
        ).push(trimmed(text)),
        uri_spec(trimmed(text)) is Err ==> relay_urls(items.push(Json::Text(text))) == relay_urls(
            items,
        ),
        other.text() is None ==> relay_urls(items.push(other)) == relay_urls(items),
{
    assert(items.push(Json::Text(text)).drop_last() =~= items);
    assert(items.push(other).drop_last() =~= items);
}

} // verus!
