//! The requests by which credentials of relays are asked for.

use vstd::prelude::*;
use crate::client::auth::{escape_spec, query_escape};
use crate::text::{decimal_i64, join_texts, joined, signed_decimal, string_of_vec, views};

verus! {

/// The address of a call, escaped.
pub open spec fn link_spec(link: Seq<char>) -> Seq<char> {
    escape_spec(joined(seq!["https://vk.com/call/join/"@, link]))
}

pub fn link_escaped(link: &str) -> (r: String)
    ensures
        r@ == link_spec(link@),
{
    let parts: [&str; 2] = ["https://vk.com/call/join/", link];
    assert(views(parts@) =~= seq!["https://vk.com/call/join/"@, link@]);
    query_escape(join_texts(parts.as_slice()).as_str())
}

pub open spec fn calls_token_url_spec(link: Seq<char>, device_id: Seq<char>, name: Seq<char>) -> Seq<char> {
    joined(
        seq![
            "https://api.vk.me/method/auth.getAnonymToken?v=5.276&client_id=8093730&link="@,
            link_spec(link),
            "&device_id="@,
            device_id,
            "&anonymName="@,
            escape_spec(name),
            "&lang=en"@,
        ],
    )
}

/// Where an anonymous token for a call is asked for.
pub fn calls_token_url(link: &str, device_id: &str, name: &str) -> (r: String)
    ensures
        r@ == calls_token_url_spec(link@, device_id@, name@),
{
    let link_escaped = link_escaped(link);
    let name_escaped = query_escape(name);
    let parts: [&str; 7] = [
        "https://api.vk.me/method/auth.getAnonymToken?v=5.276&client_id=8093730&link=",
        link_escaped.as_str(),
        "&device_id=",
        device_id,
        "&anonymName=",
        name_escaped.as_str(),
        "&lang=en",
    ];
    assert(views(parts@) =~= seq![
        "https://api.vk.me/method/auth.getAnonymToken?v=5.276&client_id=8093730&link="@,
        link_spec(link@),
        "&device_id="@,
        device_id@,
        "&anonymName="@,
        escape_spec(name@),
        "&lang=en"@,
    ]);
    join_texts(parts.as_slice())
}

pub open spec fn calls_preview_url_spec(link: Seq<char>, device_id: Seq<char>, token: Seq<char>) -> Seq<char> {
    joined(
        seq![
            "https://api.vk.me/method/messages.getCallPreview?v=5.276&anonymous_token="@,
            escape_spec(token),
            "&device_id="@,
            device_id,
            "&extended=1&fields=first_name,last_name,photo_200&lang=en&link="@,
            link_spec(link),
        ],
    )
}

/// Where a call is looked at.
pub fn calls_preview_url(link: &str, device_id: &str, token: &str) -> (r: String)
    ensures
        r@ == calls_preview_url_spec(link@, device_id@, token@),
{
    let token_escaped = query_escape(token);
    let link_escaped = link_escaped(link);
    let parts: [&str; 6] = [
        "https://api.vk.me/method/messages.getCallPreview?v=5.276&anonymous_token=",
        token_escaped.as_str(),
        "&device_id=",
        device_id,
        "&extended=1&fields=first_name,last_name,photo_200&lang=en&link=",
        link_escaped.as_str(),
    ];
    assert(views(parts@) =~= seq![
        "https://api.vk.me/method/messages.getCallPreview?v=5.276&anonymous_token="@,
        escape_spec(token@),
        "&device_id="@,
        device_id@,
        "&extended=1&fields=first_name,last_name,photo_200&lang=en&link="@,
        link_spec(link@),
    ]);
    join_texts(parts.as_slice())
}

pub open spec fn calls_call_token_url_spec(link: Seq<char>, device_id: Seq<char>, token: Seq<char>, name: Seq<char>, user_id: i64, secret: Seq<char>) -> Seq<char> {
    joined(
        seq![
            "https://api.vk.me/method/messages.getAnonymCallToken?v=5.276&anonymous_token="@,
            escape_spec(token),
            "&device_id="@,
            device_id,
            "&link="@,
            link_spec(link),
            "&name="@,
            escape_spec(name),
            "&user_id="@,
            signed_decimal(user_id as int),
            "&secret="@,
            escape_spec(secret),
            "&lang=en"@,
        ],
    )
}

/// Where the token of a participant is asked for.
pub fn calls_call_token_url(link: &str, device_id: &str, token: &str, name: &str, user_id: i64, secret: &str) -> (r: String)
    ensures
        r@ == calls_call_token_url_spec(link@, device_id@, token@, name@, user_id, secret@),
{
    let token_escaped = query_escape(token);
    let link_escaped = link_escaped(link);
    let name_escaped = query_escape(name);
    let user_id_text = string_of_vec(&decimal_i64(user_id));
    let secret_escaped = query_escape(secret);
    let parts: [&str; 13] = [
        "https://api.vk.me/method/messages.getAnonymCallToken?v=5.276&anonymous_token=",
        token_escaped.as_str(),
        "&device_id=",
        device_id,
        "&link=",
        link_escaped.as_str(),
        "&name=",
        name_escaped.as_str(),
        "&user_id=",
        user_id_text.as_str(),
        "&secret=",
        secret_escaped.as_str(),
        "&lang=en",
    ];
    assert(views(parts@) =~= seq![
        "https://api.vk.me/method/messages.getAnonymCallToken?v=5.276&anonymous_token="@,
        escape_spec(token@),
        "&device_id="@,
        device_id@,
        "&link="@,
        link_spec(link@),
        "&name="@,
        escape_spec(name@),
        "&user_id="@,
        signed_decimal(user_id as int),
        "&secret="@,
        escape_spec(secret@),
        "&lang=en"@,
    ]);
    join_texts(parts.as_slice())
}

pub open spec fn ok_session_data_spec(device_id: Seq<char>) -> Seq<char> {
    joined(
        seq![
            "{\"version\":2,\"device_id\":\""@,
            device_id,
            "\",\"client_version\":\"1.0.1\"}"@,
        ],
    )
}

/// What a device says of itself to the call server.
pub fn ok_session_data(device_id: &str) -> (r: String)
    ensures
        r@ == ok_session_data_spec(device_id@),
{
    let parts: [&str; 3] = [
        "{\"version\":2,\"device_id\":\"",
        device_id,
        "\",\"client_version\":\"1.0.1\"}",
    ];
    assert(views(parts@) =~= seq![
        "{\"version\":2,\"device_id\":\""@,
        device_id@,
        "\",\"client_version\":\"1.0.1\"}"@,
    ]);
    join_texts(parts.as_slice())
}

pub open spec fn ok_login_url_spec(session_data: Seq<char>) -> Seq<char> {
    joined(
        seq![
            "https://calls.okcdn.ru/fb.do?session_data="@,
            escape_spec(session_data),
            "&method=auth.anonymLogin&format=JSON&application_key=CGMMEJLGDIHBABABA"@,
        ],
    )
}

/// Where a device logs in to the call server.
pub fn ok_login_url(session_data: &str) -> (r: String)
    ensures
        r@ == ok_login_url_spec(session_data@),
{
    let session_data_escaped = query_escape(session_data);
    let parts: [&str; 3] = [
        "https://calls.okcdn.ru/fb.do?session_data=",
        session_data_escaped.as_str(),
        "&method=auth.anonymLogin&format=JSON&application_key=CGMMEJLGDIHBABABA",
    ];
    assert(views(parts@) =~= seq![
        "https://calls.okcdn.ru/fb.do?session_data="@,
        escape_spec(session_data@),
        "&method=auth.anonymLogin&format=JSON&application_key=CGMMEJLGDIHBABABA"@,
    ]);
    join_texts(parts.as_slice())
}

pub open spec fn ok_join_url_spec(link: Seq<char>, token: Seq<char>, session_key: Seq<char>) -> Seq<char> {
    joined(
        seq![
            "https://calls.okcdn.ru/fb.do?joinLink="@,
            link,
            "&isVideo=false&protocolVersion=5&anonymToken="@,
            token,
            "&method=vchat.joinConversationByLink&format=JSON&application_key=CGMMEJLGDIHBABABA&session_key="@,
            session_key,
        ],
    )
}

/// Where a call is joined.
pub fn ok_join_url(link: &str, token: &str, session_key: &str) -> (r: String)
    ensures
        r@ == ok_join_url_spec(link@, token@, session_key@),
{
    let parts: [&str; 6] = [
        "https://calls.okcdn.ru/fb.do?joinLink=",
        link,
        "&isVideo=false&protocolVersion=5&anonymToken=",
        token,
        "&method=vchat.joinConversationByLink&format=JSON&application_key=CGMMEJLGDIHBABABA&session_key=",
        session_key,
    ];
    assert(views(parts@) =~= seq![
        "https://calls.okcdn.ru/fb.do?joinLink="@,
        link@,
        "&isVideo=false&protocolVersion=5&anonymToken="@,
        token@,
        "&method=vchat.joinConversationByLink&format=JSON&application_key=CGMMEJLGDIHBABABA&session_key="@,
        session_key@,
    ]);
    join_texts(parts.as_slice())
}

pub open spec fn legacy_token_body_spec(client_id: Seq<char>, client_secret: Seq<char>) -> Seq<char> {
    joined(
        seq![
            "client_id="@,
            client_id,
            "&token_type=messages&client_secret="@,
            client_secret,
            "&version=1&app_id="@,
            client_id,
        ],
    )
}

/// What an anonymous token is asked for with.
pub fn legacy_token_body(client_id: &str, client_secret: &str) -> (r: String)
    ensures
        r@ == legacy_token_body_spec(client_id@, client_secret@),
{
    let parts: [&str; 6] = [
        "client_id=",
        client_id,
        "&token_type=messages&client_secret=",
        client_secret,
        "&version=1&app_id=",
        client_id,
    ];
    assert(views(parts@) =~= seq![
        "client_id="@,
        client_id@,
        "&token_type=messages&client_secret="@,
        client_secret@,
        "&version=1&app_id="@,
        client_id@,
    ]);
    join_texts(parts.as_slice())
}

pub open spec fn legacy_preview_url_spec(client_id: Seq<char>) -> Seq<char> {
    joined(
        seq![
            "https://api.vk.ru/method/calls.getCallPreview?v=5.275&client_id="@,
            client_id,
        ],
    )
}

/// Where a client looks at a call.
pub fn legacy_preview_url(client_id: &str) -> (r: String)
    ensures
        r@ == legacy_preview_url_spec(client_id@),
{
    let parts: [&str; 2] = [
        "https://api.vk.ru/method/calls.getCallPreview?v=5.275&client_id=",
        client_id,
    ];
    assert(views(parts@) =~= seq![
        "https://api.vk.ru/method/calls.getCallPreview?v=5.275&client_id="@,
        client_id@,
    ]);
    join_texts(parts.as_slice())
}

pub open spec fn legacy_preview_body_spec(link: Seq<char>, token: Seq<char>) -> Seq<char> {
    joined(
        seq![
            "vk_join_link=https://vk.com/call/join/"@,
            link,
            "&fields=photo_200&access_token="@,
            token,
        ],
    )
}

/// Which call it looks at.
pub fn legacy_preview_body(link: &str, token: &str) -> (r: String)
    ensures
        r@ == legacy_preview_body_spec(link@, token@),
{
    let parts: [&str; 4] = [
        "vk_join_link=https://vk.com/call/join/",
        link,
        "&fields=photo_200&access_token=",
        token,
    ];
    assert(views(parts@) =~= seq![
        "vk_join_link=https://vk.com/call/join/"@,
        link@,
        "&fields=photo_200&access_token="@,
        token@,
    ]);
    join_texts(parts.as_slice())
}

pub open spec fn legacy_anonymous_url_spec(client_id: Seq<char>) -> Seq<char> {
    joined(
        seq![
            "https://api.vk.ru/method/calls.getAnonymousToken?v=5.275&client_id="@,
            client_id,
        ],
    )
}

/// Where a client asks for the token of a participant.
pub fn legacy_anonymous_url(client_id: &str) -> (r: String)
    ensures
        r@ == legacy_anonymous_url_spec(client_id@),
{
    let parts: [&str; 2] = [
        "https://api.vk.ru/method/calls.getAnonymousToken?v=5.275&client_id=",
        client_id,
    ];
    assert(views(parts@) =~= seq![
        "https://api.vk.ru/method/calls.getAnonymousToken?v=5.275&client_id="@,
        client_id@,
    ]);
    join_texts(parts.as_slice())
}

pub open spec fn legacy_anonymous_body_spec(link: Seq<char>, name: Seq<char>, token: Seq<char>) -> Seq<char> {
    joined(
        seq![
            "vk_join_link=https://vk.com/call/join/"@,
            link,
            "&name="@,
            escape_spec(name),
            "&access_token="@,
            token,
        ],
    )
}

/// Who takes part in which call.
pub fn legacy_anonymous_body(link: &str, name: &str, token: &str) -> (r: String)
    ensures
        r@ == legacy_anonymous_body_spec(link@, name@, token@),
{
    let name_escaped = query_escape(name);
    let parts: [&str; 6] = [
        "vk_join_link=https://vk.com/call/join/",
        link,
        "&name=",
        name_escaped.as_str(),
        "&access_token=",
        token,
    ];
    assert(views(parts@) =~= seq![
        "vk_join_link=https://vk.com/call/join/"@,
        link@,
        "&name="@,
        escape_spec(name@),
        "&access_token="@,
        token@,
    ]);
    join_texts(parts.as_slice())
}

pub open spec fn legacy_captcha_body_spec(link: Seq<char>, name: Seq<char>, sid: Seq<char>, success: Seq<char>, timestamp: Seq<char>, attempt: Seq<char>, token: Seq<char>) -> Seq<char> {
    joined(
        seq![
            "vk_join_link=https://vk.com/call/join/"@,
            link,
            "&name="@,
            escape_spec(name),
            "&captcha_key=&captcha_sid="@,
            sid,
            "&is_sound_captcha=0&success_token="@,
            escape_spec(success),
            "&captcha_ts="@,
            timestamp,
            "&captcha_attempt="@,
            attempt,
            "&access_token="@,
            token,
        ],
    )
}

/// The same with the solution of a captcha.
pub fn legacy_captcha_body(link: &str, name: &str, sid: &str, success: &str, timestamp: &str, attempt: &str, token: &str) -> (r: String)
    ensures
        r@ == legacy_captcha_body_spec(link@, name@, sid@, success@, timestamp@, attempt@, token@),
{
    let name_escaped = query_escape(name);
    let success_escaped = query_escape(success);
    let parts: [&str; 14] = [
        "vk_join_link=https://vk.com/call/join/",
        link,
        "&name=",
        name_escaped.as_str(),
        "&captcha_key=&captcha_sid=",
        sid,
        "&is_sound_captcha=0&success_token=",
        success_escaped.as_str(),
        "&captcha_ts=",
        timestamp,
        "&captcha_attempt=",
        attempt,
        "&access_token=",
        token,
    ];
    assert(views(parts@) =~= seq![
        "vk_join_link=https://vk.com/call/join/"@,
        link@,
        "&name="@,
        escape_spec(name@),
        "&captcha_key=&captcha_sid="@,
        sid@,
        "&is_sound_captcha=0&success_token="@,
        escape_spec(success@),
        "&captcha_ts="@,
        timestamp@,
        "&captcha_attempt="@,
        attempt@,
        "&access_token="@,
        token@,
    ]);
    join_texts(parts.as_slice())
}

pub open spec fn legacy_session_data_spec(device_id: Seq<char>) -> Seq<char> {
    joined(
        seq![
            "{\"version\":2,\"device_id\":\""@,
            device_id,
            "\",\"client_version\":1.1,\"client_type\":\"SDK_JS\"}"@,
        ],
    )
}

/// What a browser says of itself to the call server.
pub fn legacy_session_data(device_id: &str) -> (r: String)
    ensures
        r@ == legacy_session_data_spec(device_id@),
{
    let parts: [&str; 3] = [
        "{\"version\":2,\"device_id\":\"",
        device_id,
        "\",\"client_version\":1.1,\"client_type\":\"SDK_JS\"}",
    ];
    assert(views(parts@) =~= seq![
        "{\"version\":2,\"device_id\":\""@,
        device_id@,
        "\",\"client_version\":1.1,\"client_type\":\"SDK_JS\"}"@,
    ]);
    join_texts(parts.as_slice())
}

pub open spec fn legacy_login_body_spec(session_data: Seq<char>) -> Seq<char> {
    joined(
        seq![
            "session_data="@,
            escape_spec(session_data),
            "&method=auth.anonymLogin&format=JSON&application_key=CGMMEJLGDIHBABABA"@,
        ],
    )
}

/// How a browser logs in to the call server.
pub fn legacy_login_body(session_data: &str) -> (r: String)
    ensures
        r@ == legacy_login_body_spec(session_data@),
{
    let session_data_escaped = query_escape(session_data);
    let parts: [&str; 3] = [
        "session_data=",
        session_data_escaped.as_str(),
        "&method=auth.anonymLogin&format=JSON&application_key=CGMMEJLGDIHBABABA",
    ];
    assert(views(parts@) =~= seq![
        "session_data="@,
        escape_spec(session_data@),
        "&method=auth.anonymLogin&format=JSON&application_key=CGMMEJLGDIHBABABA"@,
    ]);
    join_texts(parts.as_slice())
}

pub open spec fn legacy_join_body_spec(link: Seq<char>, token: Seq<char>, session_key: Seq<char>) -> Seq<char> {
    joined(
        seq![
            "joinLink="@,
            link,
            "&isVideo=false&protocolVersion=5&capabilities=2F7F&anonymToken="@,
            token,
            "&method=vchat.joinConversationByLink&format=JSON&application_key=CGMMEJLGDIHBABABA&session_key="@,
            session_key,
        ],
    )
}

/// How a browser joins a call.
pub fn legacy_join_body(link: &str, token: &str, session_key: &str) -> (r: String)
    ensures
        r@ == legacy_join_body_spec(link@, token@, session_key@),
{
    let parts: [&str; 6] = [
        "joinLink=",
        link,
        "&isVideo=false&protocolVersion=5&capabilities=2F7F&anonymToken=",
        token,
        "&method=vchat.joinConversationByLink&format=JSON&application_key=CGMMEJLGDIHBABABA&session_key=",
        session_key,
    ];
    assert(views(parts@) =~= seq![
        "joinLink="@,
        link@,
        "&isVideo=false&protocolVersion=5&capabilities=2F7F&anonymToken="@,
        token@,
        "&method=vchat.joinConversationByLink&format=JSON&application_key=CGMMEJLGDIHBABABA&session_key="@,
        session_key@,
    ]);
    join_texts(parts.as_slice())
}

} // verus!
