//! What signing in comes to, from the first request to the credentials.

use vstd::prelude::*;
use crate::client::auth::{
    credentials_spec, escape_byte, escape_bytes, escape_spec, hex_char, relay_urls, CredentialsModel,
    FailureModel,
};
use crate::client::auth_flow::{
    calls_answer_spec, calls_request_spec, legacy_answer_spec, legacy_request_spec, next_spec,
    start_spec, AuthAction, AuthMode, AuthOutcome, AuthStage, CallsModel, CallsStep, IdentityModel,
    LegacyModel, LegacyNext, LegacyStep, SolvedModel,
};
use crate::client::json::{at_path, Json};
use crate::client::turn_endpoint::uri_spec;
use crate::text::{joined, signed_decimal, trimmed};

verus! {

/// The entry of an answer under a key of a key.
pub open spec fn entry(answer: Json, outer: Seq<char>, inner: Seq<char>) -> Option<Json> {
    match answer.get(outer) {
        Some(value) => value.get(inner),
        None => None,
    }
}

proof fn lemma_two_keys(answer: Json, outer: Seq<char>, inner: Seq<char>)
    requires
        entry(answer, outer, inner) is Some,
    ensures
        at_path(answer, seq![outer, inner]) == Ok::<Json, Seq<char>>(
            entry(answer, outer, inner)->0,
        ),
{
    let path = seq![outer, inner];
    assert(path.skip(1) =~= seq![inner]);
    assert(path.skip(1).skip(1) =~= Seq::<Seq<char>>::empty());
    reveal_with_fuel(at_path, 3);
}

proof fn lemma_one_key(answer: Json, key: Seq<char>)
    requires
        answer.get(key) is Some,
    ensures
        at_path(answer, seq![key]) == Ok::<Json, Seq<char>>(answer.get(key)->0),
{
    assert(seq![key].skip(1) =~= Seq::<Seq<char>>::empty());
    reveal_with_fuel(at_path, 2);
}

/// The address of a call as it stands in a query.
pub open spec fn escaped_link(link: Seq<char>) -> Seq<char> {
    escape_spec("https://vk.com/call/join/"@ + link)
}

/// The anonymous way from its first request to its last. Each token goes where it
/// belongs: that of the first answer into the second and third requests, the
/// user and the secret of the second into the third, and the token of the third
/// and the key of the fourth into the fifth, which joins the call.
pub proof fn law_anonymous_way(
    start: CallsModel,
    identity: IdentityModel,
    answers: (Json, Json, Json, Json),
    token: Seq<char>,
    user_id: i64,
    secret: Seq<char>,
    call_token: Seq<char>,
    session_key: Seq<char>,
)
    requires
        start.step == CallsStep::Token,
        entry(answers.0, "response"@, "token"@) == Some(Json::Text(token)),
        answers.1.get("error"@) is None,
        entry(answers.1, "response"@, "user_id"@) matches Some(Json::Number(n)) && n.truncated
            == user_id,
        entry(answers.1, "response"@, "secret"@) == Some(Json::Text(secret)),
        answers.2.get("error"@) is None,
        entry(answers.2, "response"@, "token"@) == Some(Json::Text(call_token)),
        answers.3.get("session_key"@) == Some(Json::Text(session_key)),
    ensures
        calls_request_spec(identity, start) == joined(
            seq![
                "https://api.vk.me/method/auth.getAnonymToken?v=5.276&client_id=8093730&link="@,
                escaped_link(identity.link),
                "&device_id="@,
                identity.device_id,
                "&anonymName="@,
                escape_spec(identity.name),
                "&lang=en"@,
            ],
        ),
        calls_answer_spec(start, answers.0) matches Ok((a, None)) && {
            &&& calls_request_spec(identity, a) == joined(
                seq![
                    "https://api.vk.me/method/messages.getCallPreview?v=5.276&anonymous_token="@,
                    escape_spec(token),
                    "&device_id="@,
                    identity.device_id,
                    "&extended=1&fields=first_name,last_name,photo_200&lang=en&link="@,
                    escaped_link(identity.link),
                ],
            )
            &&& calls_answer_spec(a, answers.1) matches Ok((b, None)) && {
                &&& calls_request_spec(identity, b) == joined(
                    seq![
                        "https://api.vk.me/method/messages.getAnonymCallToken?v=5.276&anonymous_token="@,
                        escape_spec(token),
                        "&device_id="@,
                        identity.device_id,
                        "&link="@,
                        escaped_link(identity.link),
                        "&name="@,
                        escape_spec(identity.name),
                        "&user_id="@,
                        signed_decimal(user_id as int),
                        "&secret="@,
                        escape_spec(secret),
                        "&lang=en"@,
                    ],
                )
                &&& calls_answer_spec(b, answers.2) matches Ok((c, None)) && {
                    &&& calls_request_spec(identity, c) == joined(
                        seq![
                            "https://calls.okcdn.ru/fb.do?session_data="@,
                            escape_spec(
                                joined(
                                    seq![
                                        "{\"version\":2,\"device_id\":\""@,
                                        identity.ok_device_id,
                                        "\",\"client_version\":\"1.0.1\"}"@,
                                    ],
                                ),
                            ),
                            "&method=auth.anonymLogin&format=JSON&application_key=CGMMEJLGDIHBABABA"@,
                        ],
                    )
                    &&& calls_answer_spec(c, answers.3) matches Ok((d, None))
                        && calls_request_spec(identity, d) == "https://calls.okcdn.ru/fb.do?joinLink="@
                        + identity.link + "&isVideo=false&protocolVersion=5&anonymToken="@
                        + call_token
                        + "&method=vchat.joinConversationByLink&format=JSON&application_key=CGMMEJLGDIHBABABA&session_key="@
                        + session_key
                }
            }
        },
{
    lemma_two_keys(answers.0, "response"@, "token"@);
    lemma_two_keys(answers.1, "response"@, "user_id"@);
    lemma_two_keys(answers.1, "response"@, "secret"@);
    lemma_two_keys(answers.2, "response"@, "token"@);
    lemma_one_key(answers.3, "session_key"@);
    lemma_join_two("https://vk.com/call/join/"@, identity.link);
    lemma_join_six(
        "https://calls.okcdn.ru/fb.do?joinLink="@,
        identity.link,
        "&isVideo=false&protocolVersion=5&anonymToken="@,
        call_token,
        "&method=vchat.joinConversationByLink&format=JSON&application_key=CGMMEJLGDIHBABABA&session_key="@,
        session_key,
    );
}

proof fn lemma_join_two(a: Seq<char>, b: Seq<char>)
    ensures
        joined(seq![a, b]) == a + b,
{
    assert(seq![a, b].drop_last() =~= seq![a]);
    assert(seq![a].drop_last() =~= Seq::<Seq<char>>::empty());
    reveal_with_fuel(joined, 3);
    assert(joined(seq![a, b]) =~= a + b);
}

proof fn lemma_join_six(
    a: Seq<char>,
    b: Seq<char>,
    c: Seq<char>,
    d: Seq<char>,
    e: Seq<char>,
    f: Seq<char>,
)
    ensures
        joined(seq![a, b, c, d, e, f]) == a + b + c + d + e + f,
{
    lemma_join_two(a, b);
    assert(seq![a, b, c].drop_last() =~= seq![a, b]);
    assert(seq![a, b, c, d].drop_last() =~= seq![a, b, c]);
    assert(seq![a, b, c, d, e].drop_last() =~= seq![a, b, c, d]);
    assert(seq![a, b, c, d, e, f].drop_last() =~= seq![a, b, c, d, e]);
    assert(joined(seq![a, b, c]) == a + b + c);
    assert(joined(seq![a, b, c, d]) == a + b + c + d);
    assert(joined(seq![a, b, c, d, e]) == a + b + c + d + e);
}

/// Texts stand one after another in the order in which they are given.
pub proof fn law_texts_are_joined_in_order(a: Seq<Seq<char>>, b: Seq<Seq<char>>, text: Seq<char>)
    ensures
        joined(a + b) == joined(a) + joined(b),
        joined(seq![text]) == text,
        joined(Seq::empty()) == Seq::<char>::empty(),
    decreases b.len(),
{
    assert(seq![text].drop_last() =~= Seq::<Seq<char>>::empty());
    reveal_with_fuel(joined, 2);
    assert(joined(seq![text]) =~= text);
    if b.len() == 0 {
        assert(a + b =~= a);
        assert(joined(a) + joined(b) =~= joined(a));
    } else {
        law_texts_are_joined_in_order(a, b.drop_last(), text);
        assert((a + b).drop_last() =~= a + b.drop_last());
        assert(joined(a + b) =~= joined(a) + joined(b));
    }
}

/// The way of a browser from its first request to its last, without a captcha.
/// The token of the first answer goes into the second and third requests, the
/// token of the third and the key of the fourth go into the fifth.
pub proof fn law_way_of_a_browser(
    start: LegacyModel,
    identity: IdentityModel,
    client: (Seq<char>, Seq<char>),
    answers: (Json, Json, Json, Json),
    token: Seq<char>,
    call_token: Seq<char>,
    session_key: Seq<char>,
)
    requires
        start.step == LegacyStep::Token,
        start.solved is None,
        entry(answers.0, "data"@, "access_token"@) == Some(Json::Text(token)),
        answers.1.get("error"@) is None,
        answers.2.get("error"@) is None,
        entry(answers.2, "response"@, "token"@) == Some(Json::Text(call_token)),
        answers.3.get("session_key"@) == Some(Json::Text(session_key)),
    ensures
        legacy_request_spec(identity, client, start) == (
            "https://login.vk.ru/?act=get_anonym_token"@,
            joined(
                seq![
                    "client_id="@,
                    client.0,
                    "&token_type=messages&client_secret="@,
                    client.1,
                    "&version=1&app_id="@,
                    client.0,
                ],
            ),
        ),
        legacy_answer_spec(start, answers.0) matches Ok((a, LegacyNext::Continue)) && {
            &&& legacy_request_spec(identity, client, a) == (
                "https://api.vk.ru/method/calls.getCallPreview?v=5.275&client_id="@ + client.0,
                joined(
                    seq![
                        "vk_join_link=https://vk.com/call/join/"@,
                        identity.link,
                        "&fields=photo_200&access_token="@,
                        token,
                    ],
                ),
            )
            &&& legacy_answer_spec(a, answers.1) matches Ok((b, LegacyNext::Continue)) && {
                &&& legacy_request_spec(identity, client, b) == (
                    "https://api.vk.ru/method/calls.getAnonymousToken?v=5.275&client_id="@
                        + client.0,
                    joined(
                        seq![
                            "vk_join_link=https://vk.com/call/join/"@,
                            identity.link,
                            "&name="@,
                            escape_spec(identity.name),
                            "&access_token="@,
                            token,
                        ],
                    ),
                )
                &&& legacy_answer_spec(b, answers.2) matches Ok((c, LegacyNext::Continue)) && {
                    &&& legacy_request_spec(identity, client, c) == (
                        "https://calls.okcdn.ru/fb.do"@,
                        joined(
                            seq![
                                "session_data="@,
                                escape_spec(
                                    joined(
                                        seq![
                                            "{\"version\":2,\"device_id\":\""@,
                                            identity.ok_device_id,
                                            "\",\"client_version\":1.1,\"client_type\":\"SDK_JS\"}"@,
                                        ],
                                    ),
                                ),
                                "&method=auth.anonymLogin&format=JSON&application_key=CGMMEJLGDIHBABABA"@,
                            ],
                        ),
                    )
                    &&& legacy_answer_spec(c, answers.3) matches Ok((d, LegacyNext::Continue))
                        && legacy_request_spec(identity, client, d) == (
                        "https://calls.okcdn.ru/fb.do"@,
                        "joinLink="@ + identity.link
                            + "&isVideo=false&protocolVersion=5&capabilities=2F7F&anonymToken="@
                            + call_token
                            + "&method=vchat.joinConversationByLink&format=JSON&application_key=CGMMEJLGDIHBABABA&session_key="@
                            + session_key,
                    )
                }
            }
        },
{
    lemma_two_keys(answers.0, "data"@, "access_token"@);
    lemma_two_keys(answers.2, "response"@, "token"@);
    lemma_one_key(answers.3, "session_key"@);
    lemma_join_two("https://api.vk.ru/method/calls.getCallPreview?v=5.275&client_id="@, client.0);
    lemma_join_two(
        "https://api.vk.ru/method/calls.getAnonymousToken?v=5.275&client_id="@,
        client.0,
    );
    lemma_join_six(
        "joinLink="@,
        identity.link,
        "&isVideo=false&protocolVersion=5&capabilities=2F7F&anonymToken="@,
        call_token,
        "&method=vchat.joinConversationByLink&format=JSON&application_key=CGMMEJLGDIHBABABA&session_key="@,
        session_key,
    );
}

/// A captcha keeps the flow where it is, and what solved it goes into the next
/// request with the token that was had; an attempt that is not named is the
/// first.
pub proof fn law_solved_captcha_is_told(
    flow: LegacyModel,
    identity: IdentityModel,
    client: (Seq<char>, Seq<char>),
    answer: Json,
    solved: SolvedModel,
)
    requires
        flow.step == LegacyStep::Anonymous,
        answer.get("error"@) matches Some(error) && error.get("error_code"@) matches Some(
            Json::Number(code),
        ) && code.integer == Some(14i64) && error.get("error_msg"@) is None && error.get(
            "message"@,
        ) is None,
    ensures
        legacy_answer_spec(flow, answer) == Ok::<
            (LegacyModel, LegacyNext<CredentialsModel>),
            FailureModel,
        >((flow, LegacyNext::Captcha)),
        legacy_request_spec(
            identity,
            client,
            (LegacyModel { solved: Some(solved), ..flow }),
        ).1 == joined(
            seq![
                "vk_join_link=https://vk.com/call/join/"@,
                identity.link,
                "&name="@,
                escape_spec(identity.name),
                "&captcha_key=&captcha_sid="@,
                solved.sid,
                "&is_sound_captcha=0&success_token="@,
                escape_spec(solved.success),
                "&captcha_ts="@,
                solved.timestamp,
                "&captcha_attempt="@,
                if solved.attempt.len() == 0 || solved.attempt == "0"@ {
                    "1"@
                } else {
                    solved.attempt
                },
                "&access_token="@,
                flow.token,
            ],
        ),
{
    lemma_no_words();
}

/// Nothing that is said of an error is not the name of a fatal one.
proof fn lemma_no_words()
    ensures
        forall|code: i64|
            #![trigger crate::client::auth::fatal_error(code, Seq::<char>::empty())]
            crate::client::auth::fatal_error(code, Seq::<char>::empty())
                == crate::client::auth::fatal_code(code),
{
    let none = Seq::<char>::empty();
    let name = crate::text::lower_spec(trimmed(none));
    assert(trimmed(none) =~= none);
    assert(name.len() == 0);
    reveal_strlit("call not found");
    reveal_strlit("invalid call join link");
    assert forall|i: int| !crate::text::occurs_at(name, "call not found"@, i) by {}
    assert forall|i: int| !crate::text::occurs_at(name, "invalid call join link"@, i) by {}
}

/// The codes of a call that cannot be joined.
pub open spec fn is_dead(code: i64) -> bool {
    code == 951 || code == 954 || 9000 <= code <= 9999
}

/// An answer that says, by its code, that there is no such call ends each way
/// with that code and what it says, at whatever step it is looked at; a captcha
/// in the anonymous way ends it as such, and any other code is told.
pub proof fn law_dead_call_ends_the_way(
    calls: CallsModel,
    flow: LegacyModel,
    answer: Json,
    code: i64,
    message: Seq<char>,
)
    requires
        answer.get("error"@) matches Some(error) && error.get("error_code"@) matches Some(
            Json::Number(number),
        ) && number.integer == Some(code) && error.get("error_msg"@) == Some(Json::Text(message)),
    ensures
        is_dead(code) && (calls.step == CallsStep::Preview || calls.step == CallsStep::CallToken)
            ==> calls_answer_spec(calls, answer) == Err::<
            (CallsModel, Option<CredentialsModel>),
            FailureModel,
        >(FailureModel::Unavailable { code, message }),
        is_dead(code) && (flow.step == LegacyStep::Preview || flow.step == LegacyStep::Anonymous)
            ==> legacy_answer_spec(flow, answer) == Err::<
            (LegacyModel, LegacyNext<CredentialsModel>),
            FailureModel,
        >(FailureModel::Unavailable { code, message }),
        !is_dead(code) && message.len() == 0 && (calls.step == CallsStep::Preview || calls.step
            == CallsStep::CallToken) ==> calls_answer_spec(calls, answer) == Err::<
            (CallsModel, Option<CredentialsModel>),
            FailureModel,
        >(
            if code == 14 {
                FailureModel::Captcha
            } else {
                FailureModel::Api { code, message }
            },
        ),
{
    lemma_no_words();
    if message.len() == 0 {
        assert(message =~= Seq::<char>::empty());
    }
}

/// An item of a list is, between spaces, the address of a relay.
pub open spec fn names_relay(item: Json, url: Seq<char>) -> bool {
    item matches Json::Text(text) && url == trimmed(text) && uri_spec(url) is Ok
}

proof fn lemma_urls(items: Seq<Json>)
    ensures
        forall|url: Seq<char>|
            #[trigger] relay_urls(items).contains(url) <==> exists|i: int|
                0 <= i < items.len() && names_relay(#[trigger] items[i], url),
    decreases items.len(),
{
    let all = relay_urls(items);
    if items.len() == 0 {
    } else {
        let before = relay_urls(items.drop_last());
        lemma_urls(items.drop_last());
        let n = items.len() - 1;
        assert(items.last() == items[n]);
        assert forall|url: Seq<char>|
            #[trigger] all.contains(url) <==> exists|i: int|
                0 <= i < items.len() && names_relay(#[trigger] items[i], url) by {
            let here = names_relay(items[n], url);
            assert(all.contains(url) <==> before.contains(url) || here) by {
                if before.contains(url) {
                    let k = choose|k: int| 0 <= k < before.len() && before[k] == url;
                    assert(all[k] == url);
                }
                if here {
                    assert(all[before.len() as int] == url);
                }
                if all.contains(url) && !here {
                    let k = choose|k: int| 0 <= k < all.len() && all[k] == url;
                    assert(k < before.len());
                    assert(before[k] == url);
                }
            }
            if before.contains(url) {
                let i = choose|i: int|
                    0 <= i < items.drop_last().len() && names_relay(#[trigger] items.drop_last()[i], url);
                assert(items[i] == items.drop_last()[i]);
            }
            if exists|i: int|
                0 <= i < items.len() && names_relay(#[trigger] items[i], url) {
                let i = choose|i: int|
                    0 <= i < items.len() && names_relay(#[trigger] items[i], url);
                if i < n {
                    assert(items.drop_last()[i] == items[i]);
                }
            }
        }
    }
}

/// The last answer gives the name and the password that it holds, and every
/// address in it that is one of a relay, trimmed; without any it gives nothing.
pub proof fn law_credentials_are_those_of_the_answer(
    answer: Json,
    username: Seq<char>,
    password: Seq<char>,
    items: Seq<Json>,
)
    requires
        entry(answer, "turn_server"@, "username"@) == Some(Json::Text(username)),
        entry(answer, "turn_server"@, "credential"@) == Some(Json::Text(password)),
        entry(answer, "turn_server"@, "urls"@) == Some(Json::List(items)),
    ensures
        match credentials_spec(answer) {
            Ok(credentials) => {
                &&& credentials.username == username
                &&& credentials.password == password
                &&& credentials.server_addresses.len() > 0
                &&& forall|url: Seq<char>|
                    #[trigger] credentials.server_addresses.contains(url) <==> exists|i: int|
                        0 <= i < items.len() && names_relay(#[trigger] items[i], url)
            },
            Err(_) => forall|i: int|
                0 <= i < items.len() && #[trigger] items[i] is Text ==> uri_spec(
                    trimmed(items[i]->Text_0),
                ) is Err,
        },
{
    lemma_urls(items);
    if relay_urls(items).len() == 0 {
        assert forall|i: int| 0 <= i < items.len() && #[trigger] items[i] is Text implies uri_spec(
            trimmed(items[i]->Text_0),
        ) is Err by {
            if uri_spec(trimmed(items[i]->Text_0)) is Ok {
                let url = trimmed(items[i]->Text_0);
                assert(names_relay(items[i], url));
                assert(relay_urls(items).contains(url));
            }
        }
    }
}

// ---------------------------------------------------------------------------
// Escaping
// ---------------------------------------------------------------------------

/// The value of a hexadecimal digit in upper case.
pub open spec fn hex_value(c: char) -> int {
    if '0' <= c <= '9' {
        c as u32 - 48
    } else {
        c as u32 - 55
    }
}

/// What a server makes of an escaped query.
pub open spec fn unescaped(s: Seq<char>) -> Seq<u8>
    decreases s.len(),
{
    if s.len() == 0 {
        Seq::empty()
    } else if s[0] == '%' && s.len() >= 3 {
        seq![(hex_value(s[1]) * 16 + hex_value(s[2])) as u8] + unescaped(s.skip(3))
    } else if s[0] == '+' {
        seq![32u8] + unescaped(s.skip(1))
    } else {
        seq![s[0] as u8] + unescaped(s.skip(1))
    }
}

proof fn lemma_unescape_one(byte: u8, rest: Seq<char>)
    ensures
        unescaped(escape_byte(byte) + rest) == seq![byte] + unescaped(rest),
{
    let all = escape_byte(byte) + rest;
    let n = escape_byte(byte).len() as int;
    assert(all.skip(n) =~= rest);
    if n == 3 {
        assert(all[0] == '%');
        let high = byte as int / 16;
        let low = byte as int % 16;
        assert(all[1] == hex_char(high));
        assert(all[2] == hex_char(low));
        assert(hex_value(hex_char(high)) == high);
        assert(hex_value(hex_char(low)) == low);
        assert(high * 16 + low == byte);
    } else {
        assert(all[0] == escape_byte(byte)[0]);
    }
}

proof fn lemma_unescape(bytes: Seq<u8>, rest: Seq<char>)
    ensures
        unescaped(escape_bytes(bytes) + rest) == bytes + unescaped(rest),
    decreases bytes.len(),
{
    if bytes.len() == 0 {
        assert(escape_bytes(bytes) + rest =~= rest);
        assert(bytes + unescaped(rest) =~= unescaped(rest));
    } else {
        let before = bytes.drop_last();
        lemma_unescape(before, escape_byte(bytes.last()) + rest);
        lemma_unescape_one(bytes.last(), rest);
        assert(escape_bytes(bytes) + rest =~= escape_bytes(before) + (escape_byte(bytes.last())
            + rest));
        assert(before + (seq![bytes.last()] + unescaped(rest)) =~= bytes + unescaped(rest));
    }
}

/// A server reads of an escaped text exactly the bytes of the text.
pub proof fn law_escaped_text_is_read_back(text: Seq<char>)
    ensures
        unescaped(escape_spec(text)) == vstd::utf8::encode_utf8(text),
{
    let bytes = vstd::utf8::encode_utf8(text);
    lemma_unescape(bytes, Seq::empty());
    assert(escape_bytes(bytes) + Seq::<char>::empty() =~= escape_bytes(bytes));
    assert(bytes + unescaped(Seq::<char>::empty()) =~= bytes);
}

// ---------------------------------------------------------------------------
// Which way follows which
// ---------------------------------------------------------------------------

/// The stages that attempts that all fail go through, from the first on.
pub open spec fn stages(first: AuthAction, clients: int, randoms: Seq<u64>) -> Seq<AuthStage>
    decreases randoms.len(),
{
    match first {
        AuthAction::Try { stage, delay_ms } => if randoms.len() == 0 {
            seq![stage]
        } else {
            seq![stage] + stages(
                next_spec(stage, AuthOutcome::Failed, clients, randoms[0]),
                clients,
                randoms.skip(1),
            )
        },
        _ => Seq::empty(),
    }
}

/// Where everything fails, the account is tried once and the anonymous way twice;
/// without an account the anonymous way is tried twice and a browser four times;
/// and where only a browser is wanted, it is tried four times.
pub proof fn law_ways_are_tried_in_order(clients: int, randoms: Seq<u64>)
    requires
        randoms.len() >= 6,
        clients > 0,
    ensures
        stages(start_spec(AuthMode::AutoJs, true), clients, randoms) == seq![
            AuthStage::Broker,
            AuthStage::CallsAfterBroker { attempt: 0 },
            AuthStage::CallsAfterBroker { attempt: 1 },
        ],
        stages(start_spec(AuthMode::VkCalls, false), clients, randoms) == seq![
            AuthStage::Calls { attempt: 0 },
            AuthStage::Calls { attempt: 1 },
            AuthStage::Legacy { attempt: 0 },
            AuthStage::Legacy { attempt: 1 },
            AuthStage::Legacy { attempt: 2 },
            AuthStage::Legacy { attempt: 3 },
        ],
        stages(start_spec(AuthMode::Legacy, false), clients, randoms) == seq![
            AuthStage::Legacy { attempt: 0 },
            AuthStage::Legacy { attempt: 1 },
            AuthStage::Legacy { attempt: 2 },
            AuthStage::Legacy { attempt: 3 },
        ],
        start_spec(AuthMode::VkCalls, true) == AuthAction::LockedOut,
        start_spec(AuthMode::Legacy, true) == AuthAction::LockedOut,
{
    reveal_with_fuel(stages, 8);
    assert(stages(start_spec(AuthMode::AutoJs, true), clients, randoms) =~= seq![
        AuthStage::Broker,
        AuthStage::CallsAfterBroker { attempt: 0 },
        AuthStage::CallsAfterBroker { attempt: 1 },
    ]);
    assert(stages(start_spec(AuthMode::Legacy, false), clients, randoms) =~= seq![
        AuthStage::Legacy { attempt: 0 },
        AuthStage::Legacy { attempt: 1 },
        AuthStage::Legacy { attempt: 2 },
        AuthStage::Legacy { attempt: 3 },
    ]);
    assert(stages(start_spec(AuthMode::VkCalls, false), clients, randoms) =~= seq![
        AuthStage::Calls { attempt: 0 },
        AuthStage::Calls { attempt: 1 },
        AuthStage::Legacy { attempt: 0 },
        AuthStage::Legacy { attempt: 1 },
        AuthStage::Legacy { attempt: 2 },
        AuthStage::Legacy { attempt: 3 },
    ]);
}

/// The rests between attempts: between two anonymous ones from 300 to 500
/// milliseconds, after each round over the clients of a browser from 900 to 1799,
/// and otherwise none.
pub proof fn law_rests_between_attempts(stage: AuthStage, clients: int, random: u64)
    requires
        clients > 0,
    ensures
        next_spec(stage, AuthOutcome::Failed, clients, random) matches AuthAction::Try {
            stage: next,
            delay_ms,
        } ==> match (stage, next) {
            (AuthStage::Calls { .. }, AuthStage::Calls { .. }) => 300 <= delay_ms <= 500,
            (AuthStage::CallsAfterBroker { .. }, AuthStage::CallsAfterBroker { .. }) => 300
                <= delay_ms <= 500,
            (AuthStage::Legacy { attempt }, AuthStage::Legacy { .. }) => if (attempt + 1) % clients
                == 0 {
                900 <= delay_ms <= 1799
            } else {
                delay_ms == 0
            },
            _ => delay_ms == 0,
        },
{
    if let AuthStage::Legacy { attempt } = stage {
        let a = attempt as int;
        if a % clients == clients - 1 {
            vstd::arithmetic::div_mod::lemma_add_mod_noop(a, 1, clients);
            vstd::arithmetic::div_mod::lemma_mod_self_0(clients);
            if clients == 1 {
                assert((a + 1) % 1 == 0);
            } else {
                vstd::arithmetic::div_mod::lemma_small_mod(1, clients as nat);
            }
        } else {
            vstd::arithmetic::div_mod::lemma_add_mod_noop(a, 1, clients);
            assert(clients > 1) by {
                if clients == 1 {
                    assert(a % 1 == 0);
                }
            }
            vstd::arithmetic::div_mod::lemma_small_mod(1, clients as nat);
            vstd::arithmetic::div_mod::lemma_mod_bound(a, clients);
            vstd::arithmetic::div_mod::lemma_small_mod((a % clients + 1) as nat, clients as nat);
        }
    }
}

} // verus!
