//! How the console shows an inspected packet.

use vstd::prelude::*;
use crate::text::{copy_text, digit_char, join_texts, joined, same_text, views};

verus! {

/// The last second of the year 262142, counted from 1970: no later one has a
/// date.
pub const LAST_SECOND: i64 = 8_210_266_876_799;

/// A number below a hundred in two digits.
pub open spec fn two_digits(n: int) -> Seq<char> {
    seq![digit_char((n / 10) as nat), digit_char((n % 10) as nat)]
}

/// The time of day, at so many seconds after a midnight.
pub open spec fn clock_spec(seconds: int) -> Seq<char> {
    joined(
        seq![
            two_digits(seconds / 3600 % 24),
            ":"@,
            two_digits(seconds / 60 % 60),
            ":"@,
            two_digits(seconds % 60),
        ],
    )
}

/// `chrono::DateTime::from_timestamp`, and `format` of what it gives with
/// `%H:%M:%S`: the hour, the minute and the second in UTC, in two digits each.
/// There is none after the last second that has a date.
#[verifier::external_body]
fn time_of_day(seconds: i64) -> (r: Option<String>)
    requires
        0 <= seconds,
    ensures
        match r {
            Some(text) => seconds <= LAST_SECOND && text@ == clock_spec(seconds as int),
            None => seconds > LAST_SECOND,
        },
{
    chrono::DateTime::from_timestamp(seconds, 0).map(|time| time.format("%H:%M:%S").to_string())
}

/// When a packet was seen, as a time of day in UTC; midnight stands for what
/// has no date.
pub fn dpi_time(timestamp_ms: u64) -> (r: String)
    ensures
        r@ == if timestamp_ms / 1000 <= LAST_SECOND {
            clock_spec((timestamp_ms / 1000) as int)
        } else {
            "00:00:00"@
        },
{
    match time_of_day((timestamp_ms / 1000) as i64) {
        Some(text) => text,
        None => copy_text("00:00:00"),
    }
}

/// Where a packet went: in, or else out.
pub fn dpi_direction(direction: &str) -> (r: &'static str)
    ensures
        r@ == if direction@ == "INBOUND"@ {
            "\x1b[1;32m▲ INBOUND \x1b[0m"@
        } else {
            "\x1b[1;34m▼ OUTBOUND\x1b[0m"@
        },
{
    if same_text(direction, "INBOUND") {
        "\x1b[1;32m▲ INBOUND \x1b[0m"
    } else {
        "\x1b[1;34m▼ OUTBOUND\x1b[0m"
    }
}

pub open spec fn payload_spec(pt: u8, proto: Seq<char>) -> Seq<char> {
    if pt == 111 {
        "\x1b[1;33mRTP-Audio (PT=111)\x1b[0m"@
    } else if pt == 96 {
        "\x1b[1;35mRTP-Video (PT=96)\x1b[0m"@
    } else {
        joined(seq!["\x1b[1;36m"@, proto, "\x1b[0m"@])
    }
}

/// What a packet carries, by the type of its payload: sound, pictures, or what
/// its protocol is called.
pub fn dpi_payload(pt: u8, proto: &str) -> (r: String)
    ensures
        r@ == payload_spec(pt, proto@),
{
    if pt == 111 {
        copy_text("\x1b[1;33mRTP-Audio (PT=111)\x1b[0m")
    } else if pt == 96 {
        copy_text("\x1b[1;35mRTP-Video (PT=96)\x1b[0m")
    } else {
        let parts: [&str; 3] = ["\x1b[1;36m", proto, "\x1b[0m"];
        assert(views(parts@) =~= seq!["\x1b[1;36m"@, proto@, "\x1b[0m"@]);
        join_texts(parts.as_slice())
    }
}

} // verus!
