//! The line of figures that the server writes down every minute.

use vstd::prelude::*;
use crate::text::{decimal, decimal_i64, decimal_u64, join_texts, joined, signed_decimal,
    string_of_vec, views};

verus! {

/// The figures of one minute.
#[derive(Clone, Copy, Debug, PartialEq, Eq, Structural)]
pub struct StatsFigures {
    pub timestamp: i64,
    pub started: i64,
    pub active: u64,
    pub total: u64,
    pub up_bytes: u64,
    pub down_bytes: u64,
    pub passwords: u64,
    pub devices: u64,
}

/// How long the server has been up; a clock that jumps cannot make it overflow.
pub open spec fn uptime_spec(timestamp: i64, started: i64) -> int {
    let up = timestamp - started;
    if up > i64::MAX {
        i64::MAX as int
    } else if up < i64::MIN {
        i64::MIN as int
    } else {
        up
    }
}

pub fn uptime(timestamp: i64, started: i64) -> (r: i64)
    ensures
        r == uptime_spec(timestamp, started),
{
    let up: i128 = timestamp as i128 - started as i128;
    if up > i64::MAX as i128 {
        i64::MAX
    } else if up < i64::MIN as i128 {
        i64::MIN
    } else {
        up as i64
    }
}

/// An object whose keys are in order.
pub open spec fn line_spec(f: StatsFigures) -> Seq<char> {
    joined(
        seq![
            "{\"active\":"@,
            decimal(f.active as nat),
            ",\"devices\":"@,
            decimal(f.devices as nat),
            ",\"down_bytes\":"@,
            decimal(f.down_bytes as nat),
            ",\"passwords\":"@,
            decimal(f.passwords as nat),
            ",\"timestamp\":"@,
            signed_decimal(f.timestamp as int),
            ",\"total\":"@,
            decimal(f.total as nat),
            ",\"transport\":\"rtp-aead\",\"tunnel\":\"userspace-tun\",\"up_bytes\":"@,
            decimal(f.up_bytes as nat),
            ",\"uptime\":"@,
            signed_decimal(uptime_spec(f.timestamp, f.started)),
            "}"@,
        ],
    )
}

fn unsigned(n: u64) -> (r: String)
    ensures
        r@ == decimal(n as nat),
{
    let digits = decimal_u64(n);
    string_of_vec(&digits)
}

fn signed(n: i64) -> (r: String)
    ensures
        r@ == signed_decimal(n as int),
{
    let digits = decimal_i64(n);
    string_of_vec(&digits)
}

/// The figures as JSON.
pub fn stats_line(f: &StatsFigures) -> (r: String)
    ensures
        r@ == line_spec(*f),
{
    let active = unsigned(f.active);
    let devices = unsigned(f.devices);
    let down_bytes = unsigned(f.down_bytes);
    let passwords = unsigned(f.passwords);
    let timestamp = signed(f.timestamp);
    let total = unsigned(f.total);
    let up_bytes = unsigned(f.up_bytes);
    let up = signed(uptime(f.timestamp, f.started));
    let parts: [&str; 17] = [
        "{\"active\":",
        active.as_str(),
        ",\"devices\":",
        devices.as_str(),
        ",\"down_bytes\":",
        down_bytes.as_str(),
        ",\"passwords\":",
        passwords.as_str(),
        ",\"timestamp\":",
        timestamp.as_str(),
        ",\"total\":",
        total.as_str(),
        ",\"transport\":\"rtp-aead\",\"tunnel\":\"userspace-tun\",\"up_bytes\":",
        up_bytes.as_str(),
        ",\"uptime\":",
        up.as_str(),
        "}",
    ];
    assert(joined(views(parts@)) == line_spec(*f)) by {
        assert(views(parts@) =~= seq![
            "{\"active\":"@,
            decimal(f.active as nat),
            ",\"devices\":"@,
            decimal(f.devices as nat),
            ",\"down_bytes\":"@,
            decimal(f.down_bytes as nat),
            ",\"passwords\":"@,
            decimal(f.passwords as nat),
            ",\"timestamp\":"@,
            signed_decimal(f.timestamp as int),
            ",\"total\":"@,
            decimal(f.total as nat),
            ",\"transport\":\"rtp-aead\",\"tunnel\":\"userspace-tun\",\"up_bytes\":"@,
            decimal(f.up_bytes as nat),
            ",\"uptime\":"@,
            signed_decimal(uptime_spec(f.timestamp, f.started)),
            "}"@,
        ]);
    }
    join_texts(parts.as_slice())
}

} // verus!
