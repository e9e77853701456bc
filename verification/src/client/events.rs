//! What a client tells the program that started it, one line at a time.

use vstd::prelude::*;
use crate::client::auth::texts;
use crate::text::{
    copy_text, decimal, decimal_i64, decimal_u64, join_texts, joined, same_text, signed_decimal,
    string_of_vec, views,
};

verus! {

/// How long a burst of timeouts may last, in nanoseconds.
pub const NETWORK_TIMEOUT_BURST_WINDOW: u64 = 15_000_000_000;
/// The timeouts that make a burst.
pub const NETWORK_TIMEOUT_BURST: usize = 6;

pub open spec fn small_hex(digit: int) -> char {
    if digit < 10 {
        (48 + digit) as char
    } else {
        (87 + digit) as char
    }
}

/// A character as it stands in a JSON text.
pub open spec fn json_escaped(c: char) -> Seq<char> {
    let code = c as int;
    if c == '"' {
        seq!['\\', '"']
    } else if c == '\\' {
        seq!['\\', '\\']
    } else if code == 8 {
        seq!['\\', 'b']
    } else if code == 9 {
        seq!['\\', 't']
    } else if code == 10 {
        seq!['\\', 'n']
    } else if code == 12 {
        seq!['\\', 'f']
    } else if code == 13 {
        seq!['\\', 'r']
    } else if code < 32 {
        seq!['\\', 'u', '0', '0', small_hex(code / 16), small_hex(code % 16)]
    } else {
        seq![c]
    }
}

pub open spec fn json_body(text: Seq<char>) -> Seq<char>
    decreases text.len(),
{
    if text.len() == 0 {
        Seq::empty()
    } else {
        json_body(text.drop_last()) + json_escaped(text.last())
    }
}

/// Text as JSON writes it, with quotation marks around it.
pub open spec fn json_quoted(text: Seq<char>) -> Seq<char> {
    seq!['"'] + json_body(text) + seq!['"']
}

/// Calls `serde_json::to_string` with a text, which JSON can always hold: the
/// text in quotation marks. A quotation mark, a backslash and the control
/// characters below the space are escaped, by a letter where there is one, else
/// by four digits in base sixteen; all others stand for themselves.
#[verifier::external_body]
fn quote(text: &str) -> (r: String)
    ensures
        r@ == json_quoted(text@),
{
    serde_json::to_string(text).unwrap_or_default()
}

/// A line: its mark, its kind, and an object.
pub open spec fn event_text(kind: Seq<char>, payload: Seq<char>) -> Seq<char> {
    joined(seq!["__CSQTT_EVENT__|"@, kind, "|"@, payload])
}

pub fn encode_event(kind: &str, payload: &str) -> (r: String)
    ensures
        r@ == event_text(kind@, payload@),
{
    let parts: [&str; 4] = ["__CSQTT_EVENT__|", kind, "|", payload];
    assert(views(parts@) =~= seq!["__CSQTT_EVENT__|"@, kind@, "|"@, payload@]);
    join_texts(parts.as_slice())
}

#[verifier::ext_equal]
pub struct EventsModel {
    pub enabled: bool,
    pub panel_restart_emitted: bool,
    pub network_suspect_emitted: bool,
    pub network_timeouts: nat,
    pub network_timeout_window_started: Option<u64>,
    pub unavailable_hashes: Seq<Seq<char>>,
}

impl EventsModel {
    /// The burst that a timeout at this time belongs to is over.
    pub open spec fn burst_over(self, now: u64) -> bool {
        match self.network_timeout_window_started {
            Some(started) => now > started && now - started > NETWORK_TIMEOUT_BURST_WINDOW,
            None => true,
        }
    }

    /// A timeout: the first of a burst starts it anew.
    pub open spec fn network_timeout(self, now: u64) -> (EventsModel, bool) {
        let window = if self.burst_over(now) {
            EventsModel {
                network_suspect_emitted: false,
                network_timeouts: 0,
                network_timeout_window_started: Some(now),
                ..self
            }
        } else {
            self
        };
        let suspect = window.network_timeouts + 1 >= NETWORK_TIMEOUT_BURST
            && !window.network_suspect_emitted;
        (
            EventsModel {
                network_timeouts: window.network_timeouts + 1,
                network_suspect_emitted: window.network_suspect_emitted || suspect,
                ..window
            },
            suspect,
        )
    }

    pub open spec fn network_recovered(self) -> EventsModel {
        EventsModel {
            network_suspect_emitted: false,
            network_timeouts: 0,
            network_timeout_window_started: None,
            ..self
        }
    }

    pub open spec fn call_unavailable(self, hash: Seq<char>) -> (EventsModel, bool) {
        if self.unavailable_hashes.contains(hash) {
            (self, false)
        } else {
            (
                EventsModel {
                    unavailable_hashes: self.unavailable_hashes.push(hash),
                    ..self
                },
                true,
            )
        }
    }
}

/// What has been told already. Where events are not wanted, nothing is told, but
/// all is counted.
pub struct Events {
    enabled: bool,
    panel_restart_emitted: bool,
    network_suspect_emitted: bool,
    network_timeouts: usize,
    network_timeout_window_started: Option<u64>,
    unavailable_hashes: Vec<String>,
}

impl View for Events {
    type V = EventsModel;

    closed spec fn view(&self) -> EventsModel {
        EventsModel {
            enabled: self.enabled,
            panel_restart_emitted: self.panel_restart_emitted,
            network_suspect_emitted: self.network_suspect_emitted,
            network_timeouts: self.network_timeouts as nat,
            network_timeout_window_started: self.network_timeout_window_started,
            unavailable_hashes: texts(self.unavailable_hashes@),
        }
    }
}

/// The line that is told, where anything is.
pub open spec fn told(r: Option<String>, wanted: bool, kind: Seq<char>, payload: Seq<char>) -> bool {
    match r {
        Some(line) => wanted && line@ == event_text(kind, payload),
        None => !wanted,
    }
}

impl Events {
    pub fn new(enabled: bool) -> (r: Events)
        ensures
            r@ == (EventsModel {
                enabled,
                panel_restart_emitted: false,
                network_suspect_emitted: false,
                network_timeouts: 0,
                network_timeout_window_started: None,
                unavailable_hashes: Seq::empty(),
            }),
    {
        let r = Events {
            enabled,
            panel_restart_emitted: false,
            network_suspect_emitted: false,
            network_timeouts: 0,
            network_timeout_window_started: None,
            unavailable_hashes: Vec::new(),
        };
        assert(r@.unavailable_hashes =~= Seq::empty());
        r
    }

    /// Events are wanted where the environment says so.
    pub fn from_setting(setting: Option<&str>) -> (r: Events)
        ensures
            r@.enabled == match setting {
                Some(text) => text@ == "1"@,
                None => false,
            },
            r@.unavailable_hashes.len() == 0,
            r@.network_timeouts == 0,
            r@.network_timeout_window_started is None,
            !r@.panel_restart_emitted,
            !r@.network_suspect_emitted,
    {
        let enabled = match setting {
            Some(text) => same_text(text, "1"),
            None => false,
        };
        Events::new(enabled)
    }

    pub fn enabled(&self) -> (r: bool)
        ensures
            r == self@.enabled,
    {
        self.enabled
    }

    fn emit(&self, kind: &str, payload: &str) -> (r: Option<String>)
        ensures
            told(r, self@.enabled, kind@, payload@),
    {
        if !self.enabled {
            return None;
        }
        Some(encode_event(kind, payload))
    }

    pub fn ready(&self, worker: usize) -> (r: Option<String>)
        ensures
            told(
                r,
                self@.enabled,
                "READY"@,
                joined(seq!["{\"worker\":"@, decimal(worker as nat), "}"@]),
            ),
    {
        let number = string_of_vec(&decimal_u64(worker as u64));
        let parts: [&str; 3] = ["{\"worker\":", number.as_str(), "}"];
        assert(views(parts@) =~= seq!["{\"worker\":"@, decimal(worker as nat), "}"@]);
        self.emit("READY", join_texts(parts.as_slice()).as_str())
    }

    pub fn stopped(&self) -> (r: Option<String>)
        ensures
            told(r, self@.enabled, "STOPPED"@, "{}"@),
    {
        self.emit("STOPPED", "{}")
    }

    pub fn process(&self, pid: u32) -> (r: Option<String>)
        ensures
            told(
                r,
                self@.enabled,
                "PROCESS"@,
                joined(seq!["{\"pid\":"@, decimal(pid as nat), "}"@]),
            ),
    {
        let number = string_of_vec(&decimal_u64(pid as u64));
        let parts: [&str; 3] = ["{\"pid\":", number.as_str(), "}"];
        assert(views(parts@) =~= seq!["{\"pid\":"@, decimal(pid as nat), "}"@]);
        self.emit("PROCESS", join_texts(parts.as_slice()).as_str())
    }

    pub fn config(&self, config: &str) -> (r: Option<String>)
        ensures
            told(
                r,
                self@.enabled,
                "CONFIG"@,
                joined(seq!["{\"config\":"@, json_quoted(config@), "}"@]),
            ),
    {
        let quoted = quote(config);
        let parts: [&str; 3] = ["{\"config\":", quoted.as_str(), "}"];
        assert(views(parts@) =~= seq!["{\"config\":"@, json_quoted(config@), "}"@]);
        self.emit("CONFIG", join_texts(parts.as_slice()).as_str())
    }

    pub fn error(&self, code: &str, message: &str, fatal: bool) -> (r: Option<String>)
        ensures
            told(
                r,
                self@.enabled,
                "ERROR"@,
                joined(
                    seq![
                        "{\"code\":"@,
                        json_quoted(code@),
                        ",\"fatal\":"@,
                        if fatal {
                            "true"@
                        } else {
                            "false"@
                        },
                        ",\"message\":"@,
                        json_quoted(message@),
                        "}"@,
                    ],
                ),
            ),
    {
        let quoted_code = quote(code);
        let quoted_message = quote(message);
        let flag = if fatal {
            "true"
        } else {
            "false"
        };
        let parts: [&str; 7] = [
            "{\"code\":",
            quoted_code.as_str(),
            ",\"fatal\":",
            flag,
            ",\"message\":",
            quoted_message.as_str(),
            "}",
        ];
        assert(views(parts@) =~= seq![
            "{\"code\":"@,
            json_quoted(code@),
            ",\"fatal\":"@,
            if fatal {
                "true"@
            } else {
                "false"@
            },
            ",\"message\":"@,
            json_quoted(message@),
            "}"@,
        ]);
        self.emit("ERROR", join_texts(parts.as_slice()).as_str())
    }

    pub fn stats(&self, active: i32, bytes_up: i64, bytes_down: i64) -> (r: Option<String>)
        ensures
            told(
                r,
                self@.enabled,
                "STATS"@,
                joined(
                    seq![
                        "{\"active\":"@,
                        signed_decimal(active as int),
                        ",\"bytes_down\":"@,
                        signed_decimal(bytes_down as int),
                        ",\"bytes_up\":"@,
                        signed_decimal(bytes_up as int),
                        "}"@,
                    ],
                ),
            ),
    {
        let active_text = string_of_vec(&decimal_i64(active as i64));
        let down_text = string_of_vec(&decimal_i64(bytes_down));
        let up_text = string_of_vec(&decimal_i64(bytes_up));
        let parts: [&str; 7] = [
            "{\"active\":",
            active_text.as_str(),
            ",\"bytes_down\":",
            down_text.as_str(),
            ",\"bytes_up\":",
            up_text.as_str(),
            "}",
        ];
        assert(views(parts@) =~= seq![
            "{\"active\":"@,
            signed_decimal(active as int),
            ",\"bytes_down\":"@,
            signed_decimal(bytes_down as int),
            ",\"bytes_up\":"@,
            signed_decimal(bytes_up as int),
            "}"@,
        ]);
        self.emit("STATS", join_texts(parts.as_slice()).as_str())
    }

    pub fn active_zero(&self) -> (r: Option<String>)
        ensures
            told(r, self@.enabled, "ACTIVE_ZERO"@, "{}"@),
    {
        self.emit("ACTIVE_ZERO", "{}")
    }

    /// The panel restarts, which is told once however many workers hear of it.
    pub fn panel_restart(&mut self) -> (r: Option<String>)
        ensures
            final(self)@ == (EventsModel { panel_restart_emitted: true, ..old(self)@ }),
            told(
                r,
                old(self)@.enabled && !old(self)@.panel_restart_emitted,
                "SERVER_RESTART"@,
                "{\"source\":\"panel\"}"@,
            ),
    {
        if self.panel_restart_emitted {
            return None;
        }
        self.panel_restart_emitted = true;
        self.emit("SERVER_RESTART", "{\"source\":\"panel\"}")
    }

    pub fn progress(&self, kind: &str) -> (r: Option<String>)
        ensures
            told(
                r,
                self@.enabled,
                "PROGRESS"@,
                joined(seq!["{\"kind\":"@, json_quoted(kind@), "}"@]),
            ),
    {
        let quoted = quote(kind);
        let parts: [&str; 3] = ["{\"kind\":", quoted.as_str(), "}"];
        assert(views(parts@) =~= seq!["{\"kind\":"@, json_quoted(kind@), "}"@]);
        self.emit("PROGRESS", join_texts(parts.as_slice()).as_str())
    }

    /// A timeout at a time in nanoseconds; a burst of them is told once.
    pub fn network_timeout(&mut self, now: u64) -> (r: Option<String>)
        requires
            old(self)@.network_timeouts < usize::MAX,
        ensures
            final(self)@ == old(self)@.network_timeout(now).0,
            told(
                r,
                old(self)@.enabled && old(self)@.network_timeout(now).1,
                "NETWORK_SUSPECT"@,
                "{}"@,
            ),
    {
        let over = match self.network_timeout_window_started {
            Some(started) => now > started && now - started > NETWORK_TIMEOUT_BURST_WINDOW,
            None => true,
        };
        if over {
            self.network_timeout_window_started = Some(now);
            self.network_timeouts = 0;
            self.network_suspect_emitted = false;
        }
        self.network_timeouts = self.network_timeouts + 1;
        if self.network_timeouts >= NETWORK_TIMEOUT_BURST && !self.network_suspect_emitted {
            self.network_suspect_emitted = true;
            return self.emit("NETWORK_SUSPECT", "{}");
        }
        None
    }

    pub fn network_recovered(&mut self)
        ensures
            final(self)@ == old(self)@.network_recovered(),
    {
        self.network_timeouts = 0;
        self.network_suspect_emitted = false;
        self.network_timeout_window_started = None;
    }

    /// A call cannot be joined, which is told once for each.
    pub fn call_unavailable(&mut self, hash: &str, code: i64) -> (r: Option<String>)
        ensures
            final(self)@ == old(self)@.call_unavailable(hash@).0,
            told(
                r,
                old(self)@.enabled && old(self)@.call_unavailable(hash@).1,
                "CALL_UNAVAILABLE"@,
                joined(
                    seq![
                        "{\"code\":"@,
                        signed_decimal(code as int),
                        ",\"hash\":"@,
                        json_quoted(hash@),
                        "}"@,
                    ],
                ),
            ),
    {
        let ghost before = self@;
        let mut i: usize = 0;
        while i < self.unavailable_hashes.len()
            invariant
                i <= self.unavailable_hashes@.len(),
                before == self@,
                before == old(self)@,
                forall|k: int| 0 <= k < i ==> #[trigger] before.unavailable_hashes[k] != hash@,
            decreases self.unavailable_hashes@.len() - i,
        {
            assert(before.unavailable_hashes[i as int] == self.unavailable_hashes@[i as int]@);
            if same_text(self.unavailable_hashes[i].as_str(), hash) {
                return None;
            }
            i = i + 1;
        }
        assert(!before.unavailable_hashes.contains(hash@));
        self.unavailable_hashes.push(copy_text(hash));
        assert(self@.unavailable_hashes =~= before.unavailable_hashes.push(hash@));
        let number = string_of_vec(&decimal_i64(code));
        let quoted = quote(hash);
        let parts: [&str; 5] = ["{\"code\":", number.as_str(), ",\"hash\":", quoted.as_str(), "}"];
        assert(views(parts@) =~= seq![
            "{\"code\":"@,
            signed_decimal(code as int),
            ",\"hash\":"@,
            json_quoted(hash@),
            "}"@,
        ]);
        self.emit("CALL_UNAVAILABLE", join_texts(parts.as_slice()).as_str())
    }
}

/// So many timeouts at one time.
pub open spec fn timeouts(events: EventsModel, now: u64, count: nat) -> EventsModel
    decreases count,
{
    if count == 0 {
        events
    } else {
        timeouts(events, now, (count - 1) as nat).network_timeout(now).0
    }
}

/// After a recovery it takes a whole burst of timeouts before the network is
/// suspected, and then it is suspected once.
pub proof fn law_suspicion_takes_a_burst(events: EventsModel, now: u64, count: nat)
    ensures
        ({
            let after = timeouts(events.network_recovered(), now, count);
            &&& after.network_timeouts == count
            &&& count > 0 ==> after.network_timeout_window_started == Some(now)
            &&& after.network_suspect_emitted == (count >= NETWORK_TIMEOUT_BURST)
            &&& after.network_timeout(now).1 == (count + 1 == NETWORK_TIMEOUT_BURST)
        }),
    decreases count,
{
    if count > 0 {
        law_suspicion_takes_a_burst(events, now, (count - 1) as nat);
    }
}

/// A timeout that comes after the window starts a new count.
pub proof fn law_sparse_timeouts_are_no_burst(events: EventsModel, started: u64, now: u64)
    requires
        events.network_timeout_window_started == Some(started),
        now > started + NETWORK_TIMEOUT_BURST_WINDOW,
    ensures
        events.network_timeout(now).0.network_timeouts == 1,
        !events.network_timeout(now).1,
{
}

/// A call that cannot be joined is told once.
pub proof fn law_calls_are_told_once(events: EventsModel, hash: Seq<char>)
    ensures
        !events.call_unavailable(hash).0.call_unavailable(hash).1,
        events.unavailable_hashes.no_duplicates() ==> events.call_unavailable(
            hash,
        ).0.unavailable_hashes.no_duplicates(),
{
    let after = events.call_unavailable(hash).0.unavailable_hashes;
    if !events.unavailable_hashes.contains(hash) {
        assert(after.last() == hash);
        assert(after.contains(hash));
    }
}

pub open spec fn one_line(text: Seq<char>) -> bool {
    forall|i: int| 0 <= i < text.len() ==> text[i] != '\n'
}

proof fn lemma_joined_line(parts: Seq<Seq<char>>)
    requires
        forall|i: int| 0 <= i < parts.len() ==> one_line(#[trigger] parts[i]),
    ensures
        one_line(joined(parts)),
    decreases parts.len(),
{
    if parts.len() > 0 {
        let rest = parts.drop_last();
        assert forall|i: int| 0 <= i < rest.len() implies one_line(#[trigger] rest[i]) by {
            assert(rest[i] == parts[i]);
        }
        lemma_joined_line(rest);
        assert(one_line(parts[parts.len() - 1]));
    }
}

proof fn lemma_escaped_line(c: char)
    ensures
        one_line(json_escaped(c)),
{
    let code = c as int;
    if code < 32 {
        assert(0 <= code / 16 < 2);
        assert(0 <= code % 16 < 16);
    }
}

proof fn lemma_quoted_line(text: Seq<char>)
    ensures
        one_line(json_quoted(text)),
    decreases text.len(),
{
    if text.len() > 0 {
        lemma_quoted_line(text.drop_last());
        let before = json_body(text.drop_last());
        let quoted = json_quoted(text.drop_last());
        assert forall|i: int| 0 <= i < before.len() implies before[i] != '\n' by {
            assert(quoted[i + 1] == before[i]);
        }
        lemma_escaped_line(text.last());
        assert(one_line(json_body(text)));
    }
    assert(one_line(json_body(text)));
}

/// Whatever an error says, it is told in one line.
pub proof fn law_errors_are_told_in_one_line(code: Seq<char>, message: Seq<char>, fatal: bool)
    ensures
        one_line(
            event_text(
                "ERROR"@,
                joined(
                    seq![
                        "{\"code\":"@,
                        json_quoted(code),
                        ",\"fatal\":"@,
                        if fatal {
                            "true"@
                        } else {
                            "false"@
                        },
                        ",\"message\":"@,
                        json_quoted(message),
                        "}"@,
                    ],
                ),
            ),
        ),
{
    reveal_strlit("ERROR");
    reveal_strlit("{\"code\":");
    reveal_strlit(",\"fatal\":");
    reveal_strlit("true");
    reveal_strlit("false");
    reveal_strlit(",\"message\":");
    reveal_strlit("}");
    reveal_strlit("__CSQTT_EVENT__|");
    reveal_strlit("|");
    lemma_quoted_line(code);
    lemma_quoted_line(message);
    let payload = seq![
        "{\"code\":"@,
        json_quoted(code),
        ",\"fatal\":"@,
        if fatal {
            "true"@
        } else {
            "false"@
        },
        ",\"message\":"@,
        json_quoted(message),
        "}"@,
    ];
    lemma_joined_line(payload);
    lemma_joined_line(seq!["__CSQTT_EVENT__|"@, "ERROR"@, "|"@, joined(payload)]);
}

/// Whatever a configuration holds, it is told in one line.
pub proof fn law_configurations_are_told_in_one_line(config: Seq<char>)
    ensures
        one_line(
            event_text("CONFIG"@, joined(seq!["{\"config\":"@, json_quoted(config), "}"@])),
        ),
{
    reveal_strlit("CONFIG");
    reveal_strlit("{\"config\":");
    reveal_strlit("}");
    reveal_strlit("__CSQTT_EVENT__|");
    reveal_strlit("|");
    lemma_quoted_line(config);
    let payload = seq!["{\"config\":"@, json_quoted(config), "}"@];
    lemma_joined_line(payload);
    lemma_joined_line(seq!["__CSQTT_EVENT__|"@, "CONFIG"@, "|"@, joined(payload)]);
}

} // verus!
