//! What the server writes down of itself.

use vstd::prelude::*;
use crate::server::dataplane::{command_budget_left, status_spec, tun_budget_left, udp_budget};
use crate::server::dpi::{clock_spec, dpi_direction, payload_spec, two_digits};
use crate::server::log_ring::log_file_is_full;
use crate::server::packet::packet_pool_size;
use crate::server::perf::{proc_stat_spec, thread_spec, threads_spec, ticks_spec, ThreadEntry};
use crate::server::proc_text::{directory_spec, group_in, location_spec, GroupVersion};
use crate::server::router::{
    output_budget_left, refused_command, EndpointRoute, RouterCommand, WorkerOutput,
};
use crate::server::stats_line::{line_spec, uptime_spec, StatsFigures};
use crate::text::{decimal, digit_char, joined, lines_spec, parse_unsigned, signed_decimal};

verus! {

/// The line of figures: each under its own name, in the order of the names.
pub proof fn law_figures_are_named(f: StatsFigures)
    requires
        f.timestamp >= f.started >= 0,
    ensures
        line_spec(f) == "{\"active\":"@ + decimal(f.active as nat) + ",\"devices\":"@ + decimal(
            f.devices as nat,
        ) + ",\"down_bytes\":"@ + decimal(f.down_bytes as nat) + ",\"passwords\":"@ + decimal(
            f.passwords as nat,
        ) + ",\"timestamp\":"@ + decimal(f.timestamp as nat) + ",\"total\":"@ + decimal(
            f.total as nat,
        ) + ",\"transport\":\"rtp-aead\",\"tunnel\":\"userspace-tun\",\"up_bytes\":"@ + decimal(
            f.up_bytes as nat,
        ) + ",\"uptime\":"@ + decimal((f.timestamp - f.started) as nat) + "}"@,
{
    let parts = seq![
        "{\"active\":"@,
        decimal(f.active as nat),
        ",\"devices\":"@,
        decimal(f.devices as nat),
        ",\"down_bytes\":"@,
        decimal(f.down_bytes as nat),
        ",\"passwords\":"@,
        decimal(f.passwords as nat),
        ",\"timestamp\":"@,
        signed_decimal(f.timestamp as int),
        ",\"total\":"@,
        decimal(f.total as nat),
        ",\"transport\":\"rtp-aead\",\"tunnel\":\"userspace-tun\",\"up_bytes\":"@,
        decimal(f.up_bytes as nat),
        ",\"uptime\":"@,
        signed_decimal(uptime_spec(f.timestamp, f.started)),
        "}"@,
    ];
    lemma_joined_step(parts, 17);
    lemma_joined_step(parts, 16);
    lemma_joined_step(parts, 15);
    lemma_joined_step(parts, 14);
    lemma_joined_step(parts, 13);
    lemma_joined_step(parts, 12);
    lemma_joined_step(parts, 11);
    lemma_joined_step(parts, 10);
    lemma_joined_step(parts, 9);
    lemma_joined_step(parts, 8);
    lemma_joined_step(parts, 7);
    lemma_joined_step(parts, 6);
    lemma_joined_step(parts, 5);
    lemma_joined_step(parts, 4);
    lemma_joined_step(parts, 3);
    lemma_joined_step(parts, 2);
    lemma_joined_step(parts, 1);
    assert(parts.take(0) =~= Seq::empty());
    assert(parts.take(17) =~= parts);
    assert(joined(parts.take(1)) =~= "{\"active\":"@);
}

proof fn lemma_joined_step(parts: Seq<Seq<char>>, n: int)
    requires
        0 < n <= parts.len(),
    ensures
        joined(parts.take(n)) == joined(parts.take(n - 1)) + parts[n - 1],
{
    assert(parts.take(n).drop_last() =~= parts.take(n - 1));
    assert(parts.take(n).last() == parts[n - 1]);
}

/// The server has been up since it started, whichever way the clock went.
pub proof fn law_uptime_is_counted(timestamp: i64, started: i64)
    ensures
        i64::MIN <= timestamp - started <= i64::MAX ==> uptime_spec(timestamp, started) == timestamp
            - started,
        timestamp - started > i64::MAX ==> uptime_spec(timestamp, started) == i64::MAX,
        timestamp - started < i64::MIN ==> uptime_spec(timestamp, started) == i64::MIN,
{
}

/// A time of day is told in two digits each of hours, minutes and seconds, and comes
/// again after a day.
pub proof fn law_times_of_day(hour: int, minute: int, second: int, day: int)
    requires
        0 <= hour < 24,
        0 <= minute < 60,
        0 <= second < 60,
        0 <= day,
    ensures
        clock_spec(86_400 * day + 3_600 * hour + 60 * minute + second) == seq![
            digit_char((hour / 10) as nat),
            digit_char((hour % 10) as nat),
            ':',
            digit_char((minute / 10) as nat),
            digit_char((minute % 10) as nat),
            ':',
            digit_char((second / 10) as nat),
            digit_char((second % 10) as nat),
        ],
{
    let time = 86_400 * day + 3_600 * hour + 60 * minute + second;
    reveal_strlit(":");
    assert(":"@ =~= seq![':']);
    assert(time / 3600 == 24 * day + hour);
    assert((24 * day + hour) % 24 == hour);
    assert(time / 60 == 1_440 * day + 60 * hour + minute);
    assert((1_440 * day + 60 * hour + minute) % 60 == minute);
    assert(time % 60 == second);
    let parts = seq![two_digits(hour), ":"@, two_digits(minute), ":"@, two_digits(second)];
    lemma_joined_step(parts, 5);
    lemma_joined_step(parts, 4);
    lemma_joined_step(parts, 3);
    lemma_joined_step(parts, 2);
    lemma_joined_step(parts, 1);
    assert(parts.take(5) =~= parts);
    assert(parts.take(0) =~= Seq::empty());
}

/// Sound and pictures are known by the type of their payload, everything else by the
/// name of its protocol.
pub proof fn law_payloads_are_named(pt: u8, proto: Seq<char>)
    ensures
        payload_spec(111, proto) == "\x1b[1;33mRTP-Audio (PT=111)\x1b[0m"@,
        payload_spec(96, proto) == "\x1b[1;35mRTP-Video (PT=96)\x1b[0m"@,
        pt != 111 && pt != 96 ==> payload_spec(pt, proto) == "\x1b[1;36m"@ + proto + "\x1b[0m"@,
{
    let parts = seq!["\x1b[1;36m"@, proto, "\x1b[0m"@];
    lemma_joined_step(parts, 3);
    lemma_joined_step(parts, 2);
    lemma_joined_step(parts, 1);
    assert(parts.take(3) =~= parts);
    assert(parts.take(0) =~= Seq::empty());
    assert(joined(parts) =~= "\x1b[1;36m"@ + proto + "\x1b[0m"@);
}

/// What comes in is marked so, and everything else as going out.
pub proof fn law_directions_are_marked(direction: &str, r: &'static str)
    requires
        call_ensures(dpi_direction, (direction,), r),
    ensures
        direction@ == "INBOUND"@ ==> r@ == "\x1b[1;32m▲ INBOUND \x1b[0m"@,
        direction@ != "INBOUND"@ ==> r@ == "\x1b[1;34m▼ OUTBOUND\x1b[0m"@,
{
}

/// The end of the main loop is told with its kind and, where it failed, with why.
pub proof fn law_end_of_the_loop_is_told(error: Seq<char>)
    ensures
        status_spec(false, None) == "tokio dataplane"@ + " stopped"@,
        status_spec(true, None) == "tokio sharded dataplane"@ + " stopped"@,
        status_spec(false, Some(error)) == "tokio dataplane"@ + " failed: "@ + error,
        status_spec(true, Some(error)) == "tokio sharded dataplane"@ + " failed: "@ + error,
{
    lemma_two("tokio dataplane"@, " stopped"@);
    lemma_two("tokio sharded dataplane"@, " stopped"@);
    lemma_three("tokio dataplane"@, " failed: "@, error);
    lemma_three("tokio sharded dataplane"@, " failed: "@, error);
}

proof fn lemma_two(a: Seq<char>, b: Seq<char>)
    ensures
        joined(seq![a, b]) == a + b,
{
    let parts = seq![a, b];
    lemma_joined_step(parts, 2);
    lemma_joined_step(parts, 1);
    assert(parts.take(2) =~= parts);
    assert(parts.take(0) =~= Seq::empty());
    assert(joined(parts) =~= a + b);
}

proof fn lemma_three(a: Seq<char>, b: Seq<char>, c: Seq<char>)
    ensures
        joined(seq![a, b, c]) == a + b + c,
{
    let parts = seq![a, b, c];
    lemma_joined_step(parts, 3);
    assert(parts.take(3) =~= parts);
    assert(parts.take(2) =~= seq![a, b]);
    lemma_two(a, b);
}

/// A turn of the loop takes no more than 128 datagrams and 128 packets of the
/// tunnel, hands out no more than 256, and goes on with commands past 4096 only by
/// one.
pub proof fn law_turns_have_limits(
    n: usize,
    udp: Option<usize>,
    tun: bool,
    commands: bool,
    output: bool,
)
    requires
        call_ensures(udp_budget, (n,), udp),
        call_ensures(tun_budget_left, (n,), tun),
        call_ensures(command_budget_left, (n,), commands),
        call_ensures(output_budget_left, (n,), output),
    ensures
        n < 128 ==> udp == Some((128 - n) as usize),
        n >= 128 ==> udp is None,
        tun <==> n < 128,
        commands <==> n <= 4_096,
        output <==> n < 256,
{
}

/// A log that outgrew its limit is full, and the server has as many buffers as it
/// has slots.
pub proof fn law_sizes(length: u64, full: bool, buffers: usize)
    requires
        call_ensures(log_file_is_full, (length,), full),
        call_ensures(packet_pool_size, (), buffers),
    ensures
        full <==> length > 8 * 1024 * 1024,
        buffers == 5_120,
{
}

/// The command of a refused migration comes back, and of nothing else.
pub proof fn law_refused_migration_gives_back(
    endpoint: EndpointRoute,
    shard: usize,
    command: u64,
    ip: [u8; 4],
    a: Option<u64>,
    b: Option<u64>,
    c: Option<u64>,
)
    requires
        call_ensures(
            refused_command::<u64>,
            (WorkerOutput::Router(RouterCommand::Migrate { endpoint, shard, command }),),
            a,
        ),
        call_ensures(
            refused_command::<u64>,
            (WorkerOutput::Router(RouterCommand::BindEndpoint { endpoint, shard }),),
            b,
        ),
        call_ensures(refused_command::<u64>, (WorkerOutput::FlushUdp,), c),
    ensures
        a == Some(command),
        b is None,
        c is None,
{
}

/// The memory of the group is told below one root for the newer form, and below
/// another for the older.
pub proof fn law_groups_have_their_roots(text: Seq<char>, path: Seq<char>, place: Seq<char>)
    ensures
        group_in(lines_spec(text), None) == Some((GroupVersion::Two, path)) && directory_spec(
            "/sys/fs/cgroup"@,
            path,
        ) == Some(place) ==> location_spec(text) == Some((GroupVersion::Two, place)),
        group_in(lines_spec(text), None) == Some((GroupVersion::One, path)) && directory_spec(
            "/sys/fs/cgroup/memory"@,
            path,
        ) == Some(place) ==> location_spec(text) == Some((GroupVersion::One, place)),
        group_in(lines_spec(text), None) is None ==> location_spec(text) is None,
{
}

/// Every thread whose number and line are known is told, in order, and no other.
pub proof fn law_known_threads_are_told(
    entries: Seq<ThreadEntry>,
    entry: ThreadEntry,
    stat: String,
    tid: u32,
    name: Seq<char>,
    user: u64,
    system: u64,
    ticks: i64,
)
    requires
        ticks > 0,
        entry.stat == Some(stat),
        proc_stat_spec(stat@) == Some((name, user as nat, system as nat)),
        parse_unsigned(entry.name@, u32::MAX as nat) == Some(tid as nat),
    ensures
        threads_spec(entries.push(entry), ticks) == threads_spec(entries, ticks).push(
            (tid, name, ticks_spec(user, ticks), ticks_spec(system, ticks)),
        ),
        threads_spec(entries.push(ThreadEntry { stat: None, ..entry }), ticks) == threads_spec(
            entries,
            ticks,
        ),
        threads_spec(Seq::empty(), ticks).len() == 0,
        thread_spec(entry, 0) is None,
{
    assert(entries.push(entry).drop_last() =~= entries);
    assert(entries.push(ThreadEntry { stat: None, ..entry }).drop_last() =~= entries);
}

} // verus!
