//! What a session says, where it looks for a relay, and how it takes its leave.

use vstd::prelude::*;
use crate::client::events::{event_text, EventsModel};
use crate::client::session::{
    config_step, config_timeout_spec, endpoint_index, reader_spec, registration_text,
    repairs_streams, tasks_to_stop, writer_next, writer_woken, ConfigAction, ConfigEvent,
    InboundForm, LanesModel, SessionConfig, SessionEnd, WriterAction, WriterEvent,
};
use crate::client::shutdown::{
    by_activity, disconnect_text, ids, is_farewell, law_most_recent_first, ControlStream,
    LeaveEvent, LeaveModel, LeaveStep, ShutdownModel,
};
use crate::shared::selective_fec::{ascii, begins};
use crate::shared::striped_scheduler::PacketClass;
use crate::text::{
    decimal, free_of, joined, lemma_between, lemma_decimal, split_spec, with_between, CharClass,
};

verus! {

/// What a session registers with, field by field.
pub open spec fn registration_fields(config: SessionConfig) -> Seq<Seq<char>> {
    seq![
        "GETCONF:"@ + config.local_port@,
        config.device_id@,
        config.password@,
        decimal(config.generation as nat),
        config.salt@,
        decimal(config.id as nat),
        decimal(config.desired_count as nat),
        "CSQTT-WIRE-3"@,
    ]
}

proof fn lemma_number_free(n: nat, k: int)
    requires
        0 <= k < decimal(n).len(),
    ensures
        decimal(n)[k] != '|',
{
    lemma_decimal(n);
    assert(crate::text::is_digit(decimal(n)[k]));
}

/// A server that splits a registration at its strokes gets every field in its
/// place.
pub proof fn law_registration_reads_back(config: SessionConfig)
    requires
        free_of(
            seq![config.local_port@, config.device_id@, config.password@, config.salt@],
            CharClass::Is('|'),
        ),
    ensures
        split_spec(registration_text(config), CharClass::Is('|')) == registration_fields(config),
{
    reveal_strlit("|");
    reveal_strlit("GETCONF:");
    reveal_strlit("CSQTT-WIRE-3");
    reveal_strlit("|CSQTT-WIRE-3");
    let stroke = CharClass::Is('|');
    let fields = registration_fields(config);
    let own = seq![config.local_port@, config.device_id@, config.password@, config.salt@];
    assert forall|i: int, k: int| 0 <= i < fields.len() && 0 <= k < fields[i].len() implies !stroke.holds(
        #[trigger] fields[i][k],
    ) by {
        if i == 0 {
            if k >= 8 {
                assert(fields[0][k] == own[0][k - 8]);
                assert(!stroke.holds(own[0][k - 8]));
            }
        } else if i == 1 {
            assert(!stroke.holds(own[1][k]));
        } else if i == 2 {
            assert(!stroke.holds(own[2][k]));
        } else if i == 3 {
            lemma_number_free(config.generation as nat, k);
        } else if i == 4 {
            assert(!stroke.holds(own[3][k]));
        } else if i == 5 {
            lemma_number_free(config.id as nat, k);
        } else if i == 6 {
            lemma_number_free(config.desired_count as nat, k);
        }
    }
    lemma_between(fields, '|', stroke);
    lemma_written(config);
}

#[verifier::rlimit(40)]
proof fn lemma_written(config: SessionConfig)
    ensures
        registration_text(config) == with_between(registration_fields(config), '|'),
{
    reveal_strlit("|");
    reveal_strlit("CSQTT-WIRE-3");
    reveal_strlit("|CSQTT-WIRE-3");
    let f = registration_fields(config);
    assert("|"@ =~= seq!['|']);
    assert("|CSQTT-WIRE-3"@ =~= seq!['|'] + "CSQTT-WIRE-3"@);
    let one = f.take(1);
    assert(with_between(one, '|') == f[0]);
    let two = f.take(2);
    assert(two.drop_last() =~= one);
    let three = f.take(3);
    assert(three.drop_last() =~= two);
    let four = f.take(4);
    assert(four.drop_last() =~= three);
    let five = f.take(5);
    assert(five.drop_last() =~= four);
    let six = f.take(6);
    assert(six.drop_last() =~= five);
    let seven = f.take(7);
    assert(seven.drop_last() =~= six);
    assert(f.drop_last() =~= seven);
    let a = "GETCONF:"@ + config.local_port@ + "|"@ + config.device_id@;
    assert(with_between(two, '|') =~= a);
    let b = a + "|"@ + config.password@;
    assert(with_between(three, '|') =~= b);
    let c = b + "|"@ + decimal(config.generation as nat);
    assert(with_between(four, '|') =~= c);
    let d = c + "|"@ + config.salt@;
    assert(with_between(five, '|') =~= d);
    let e = d + "|"@ + decimal(config.id as nat);
    assert(with_between(six, '|') =~= e);
    let g = e + "|"@ + decimal(config.desired_count as nat);
    assert(with_between(seven, '|') =~= g);
    assert(with_between(f, '|') =~= g + "|CSQTT-WIRE-3"@);
}

/// A request to disconnect names the device and the salt.
pub proof fn law_disconnect_request_says(device_id: Seq<char>, salt: Seq<char>)
    ensures
        disconnect_text(device_id, salt) == with_between(
            seq!["DISCONNECT:"@ + device_id, salt],
            '|',
        ),
{
    reveal_strlit("|");
    assert("|"@ =~= seq!['|']);
    let parts = seq!["DISCONNECT:"@ + device_id, salt];
    assert(parts.drop_last() =~= seq![parts[0]]);
    reveal_with_fuel(with_between, 2);
    assert(disconnect_text(device_id, salt) =~= with_between(parts, '|'));
}

/// Neighbouring sessions begin at neighbouring relays, and so does a session whose
/// cursor moved on by one; the last relay is followed by the first.
pub proof fn law_search_begins_in_turn(id: int, cursor: int, count: int)
    requires
        0 <= id,
        0 <= cursor,
        0 < count,
    ensures
        0 <= endpoint_index(id, cursor, count) < count,
        id + cursor < count ==> endpoint_index(id, cursor, count) == id + cursor,
        endpoint_index(id + 1, cursor, count) == (endpoint_index(id, cursor, count) + 1) % count,
        endpoint_index(id, cursor + 1, count) == (endpoint_index(id, cursor, count) + 1) % count,
{
    vstd::arithmetic::div_mod::lemma_add_mod_noop(id, cursor, count);
    vstd::arithmetic::div_mod::lemma_add_mod_noop(id + 1, cursor, count);
    vstd::arithmetic::div_mod::lemma_add_mod_noop(id, cursor + 1, count);
    vstd::arithmetic::div_mod::lemma_mod_bound(id + cursor, count);
    vstd::arithmetic::div_mod::lemma_add_mod_noop(id + cursor, 1, count);
    vstd::arithmetic::div_mod::lemma_add_mod_noop((id + cursor) % count, 1, count);
    vstd::arithmetic::div_mod::lemma_mod_twice(id + cursor, count);
    if id + cursor < count {
        vstd::arithmetic::div_mod::lemma_small_mod((id + cursor) as nat, count as nat);
    }
}

/// A batch takes in what waits of its class, up to sixteen, sixty-four or a hundred
/// and twenty-eight packets with its first, as long as nothing more urgent waits.
pub proof fn law_batches_are_filled(lanes: LanesModel)
    ensures
        lanes.joining(PacketClass::Small) == if lanes.latency.len() < 15 {
            lanes.latency.len() as int
        } else {
            15
        },
        lanes.latency.len() == 0 ==> lanes.joining(PacketClass::Medium) == if lanes.priority.len()
            < 63 {
            lanes.priority.len() as int
        } else {
            63
        },
        lanes.latency.len() == 0 && lanes.priority.len() == 0 ==> lanes.joining(PacketClass::Bulk)
            == if lanes.bulk.len() < 127 {
            lanes.bulk.len() as int
        } else {
            127
        },
{
}

/// Commands come before packets, a writer with neither waits, and it stops when all
/// is closed or it is told to; what it was woken with is not lost.
pub proof fn law_writer_serves_commands_first(
    command: bool,
    packet: bool,
    closed: bool,
    cancelled: bool,
    event: WriterEvent,
    next: WriterAction,
    woken: WriterAction,
)
    requires
        call_ensures(writer_next, (command, packet, closed), next),
        call_ensures(writer_woken, (event, cancelled, closed), woken),
    ensures
        next is HandleCommand <==> command,
        next is SendBatch <==> packet && !command,
        next is Stop <==> closed && !command && !packet,
        next is Wait <==> !closed && !command && !packet,
        event is Cancelled ==> woken is Stop,
        event == (WriterEvent::Command { present: true }) ==> woken is HandleCommand,
        event == (WriterEvent::Command { present: false }) ==> woken is Again,
        event == (WriterEvent::Packet { present: true }) ==> woken is SendBatch,
        event == (WriterEvent::Packet { present: false }) && (cancelled || closed) ==> woken is Stop,
        event == (WriterEvent::Packet { present: false }) && !cancelled && !closed
            ==> woken is Again,
{
}

/// A configuration is asked for three times, with longer and longer waits; the last
/// silence is a failure, and an answer of any kind ends the waiting.
pub proof fn law_configuration_is_asked_for_thrice(
    attempt: usize,
    get_config: bool,
    event: ConfigEvent,
    r: (ConfigAction, Option<String>),
)
    requires
        attempt < 3,
        call_ensures(config_step, (attempt, get_config, event), r),
    ensures
        event is Timeout && attempt == 0 ==> r.0 == (ConfigAction::Retry { timeout_ms: 1_500 }),
        event is Timeout && attempt == 1 ==> r.0 == (ConfigAction::Retry { timeout_ms: 3_000 }),
        event is Timeout && attempt == 2 ==> r.0 is Fail,
        config_timeout_spec(0) == 750,
        event is PanelRestart ==> r.0 is ReportRestart,
        event is Unrelated ==> r.0 is KeepWaiting,
        event is NoConfig ==> r.0 == (ConfigAction::Done {
            delivered: false,
            stream_repair: false,
        }),
        event is Rejected ==> r.0 is Fail,
        event matches ConfigEvent::Config(value) ==> r.0 is Done && (r.1 is Some <==> get_config)
            && (get_config ==> r.1->0@ == value@),
        !(event is Config) ==> r.1 is None,
{
}

/// A configuration that ends in one of the two marks says that streams are
/// repaired, whatever stands before the mark.
pub proof fn law_mark_at_the_end_counts(value: Seq<char>, c: char)
    ensures
        repairs_streams(value + ":stream-v1"@),
        repairs_streams(value + ":stream-v2"@),
        c != '1' && c != '2' ==> !repairs_streams(value.push(c)),
        !repairs_streams(Seq::empty()),
{
    reveal_strlit(":stream-v1");
    reveal_strlit(":stream-v2");
    let one = value + ":stream-v1"@;
    let two = value + ":stream-v2"@;
    assert(one.skip(one.len() - 10) =~= ":stream-v1"@);
    assert(two.skip(two.len() - 10) =~= ":stream-v2"@);
    let other = value.push(c);
    if other.len() >= 10 {
        assert(other.skip(other.len() - 10)[9] == c);
        assert(":stream-v1"@[9] == '1' && ":stream-v2"@[9] == '2');
    }
}

/// What is neither a notice nor an answer goes to the tunnel, and only that; of the
/// notices the first in order counts.
pub proof fn law_tunnel_gets_the_rest(
    shutdown: ShutdownModel,
    form: InboundForm,
    packet: Seq<u8>,
)
    ensures
        ({
            let r = reader_spec(shutdown, form, packet);
            &&& r.1 is ReportRestart <==> form.panel_restart
            &&& r.1 is ApplyRepair <==> form.stream_repair && !form.panel_restart
            &&& r.1 is ApplyAlive <==> form.stream_alive && !form.stream_repair
                && !form.panel_restart
            &&& r.1 is Farewell ==> shutdown.active && r.0.completed
            &&& r.1 is Deliver ==> !form.panel_restart && !form.stream_repair
                && !form.stream_alive && !form.control_response
            &&& packet.len() > 0 && packet[0] / 16 == 4 && form == (InboundForm {
                panel_restart: false,
                stream_repair: false,
                stream_alive: false,
                control_response: false,
            }) && !shutdown.active ==> r.1 is NewConfig || r.1 is Deliver
            &&& packet.len() < 8 && form == (InboundForm {
                panel_restart: false,
                stream_repair: false,
                stream_alive: false,
                control_response: false,
            }) && !shutdown.active ==> r.1 is Deliver
            &&& !(r.1 is Farewell) ==> r.0 == shutdown
        }),
{
    reveal_strlit("TUNCONF:");
}

/// A task that has ended is not waited for again, and the other one is stopped.
pub proof fn law_other_task_is_stopped(end: SessionEnd, r: (bool, bool))
    requires
        call_ensures(tasks_to_stop, (end,), r),
    ensures
        end is Writer ==> r == (false, true),
        end is Reader ==> r == (true, false),
        end is Cancelled || end is Repair ==> r == (true, true),
{
}

/// Leave is taken by the word for it, byte by byte, or by a refusal; while leave is
/// being taken the first of them counts.
pub proof fn law_farewell_is_known_by_its_bytes(model: ShutdownModel, more: Seq<u8>)
    ensures
        is_farewell(seq![79u8, 75, 58, 100, 105, 115, 99, 111, 110, 110, 101, 99, 116, 101, 100]),
        is_farewell(seq![68u8, 69, 78, 73, 69, 68, 58] + more),
        more.len() > 0 && more[0] != 79 && more[0] != 68 ==> !is_farewell(more),
        !is_farewell(Seq::empty()),
        model.active && !model.completed ==> model.observe(
            seq![68u8, 69, 78, 73, 69, 68, 58] + more,
        ).1,
{
    reveal_strlit("OK:disconnected");
    reveal_strlit("DENIED:");
    assert(ascii("OK:disconnected"@) =~= seq![
        79u8,
        75,
        58,
        100,
        105,
        115,
        99,
        111,
        110,
        110,
        101,
        99,
        116,
        101,
        100,
    ]);
    assert(ascii("DENIED:"@) =~= seq![68u8, 69, 78, 73, 69, 68, 58]);
    let refusal = seq![68u8, 69, 78, 73, 69, 68, 58] + more;
    assert(refusal.take(7) =~= ascii("DENIED:"@));
    if more.len() > 0 && more[0] != 79 && more[0] != 68 && begins(more, "DENIED:"@) {
        assert(more.take(7)[0] == 68);
    }
}

/// A stream that was registered or active last is the first to be spoken over, and
/// no more than two are.
pub proof fn law_latest_stream_is_spoken_over(model: ShutdownModel, id: u64)
    requires
        !model.active,
        model.next_activity > 0,
        forall|i: int|
            0 <= i < model.streams.len() ==> (#[trigger] model.streams[i]).activity
                < model.next_activity,
    ensures
        model.register(id).control_streams().len() == model.streams.len() + 1,
        model.register(id).control_streams()[0] == id,
        model.register(id).targets().len() == if model.streams.len() == 0 {
            1int
        } else {
            2
        },
        model.register(id).targets()[0] == id,
{
    let stream = ControlStream { incarnation_id: id, activity: model.next_activity };
    let all = model.streams.push(stream);
    let ordered = by_activity(model.streams);
    assert(all.drop_last() =~= model.streams);
    law_most_recent_first(model.streams);
    law_most_recent_first(all);
    if ordered.len() > 0 {
        broadcast use vstd::seq_lib::group_to_multiset_ensures;

        assert(ordered.to_multiset().count(ordered[0]) > 0);
        assert(model.streams.to_multiset().count(ordered[0]) > 0);
        assert(model.streams.contains(ordered[0]));
        assert(by_activity(all) == seq![stream] + ordered);
    }
    assert(by_activity(all)[0] == stream);
    assert(ids(by_activity(all))[0] == id);
}

/// The leader speaks over each stream for three tenths of a second and waits for an
/// answer a little longer; whoever is not the leader waits for two seconds.
pub proof fn law_leave_is_taken_in_time(leave: LeaveModel, shared: ShutdownModel)
    requires
        leave.wf(),
    ensures
        shared.active ==> LeaveModel::begun(shared).step == (LeaveStep::Follow {
            timeout_ms: 2_000,
        }),
        !shared.active && shared.targets().len() > 0 ==> LeaveModel::begun(shared).step == (
        LeaveStep::Send { stream: shared.targets()[0], timeout_ms: 300 }),
        !shared.active && shared.targets().len() == 0 ==> LeaveModel::begun(shared).step is Done,
        leave.stage is Sending ==> leave.course(shared, LeaveEvent::Sent { delivered: true }).step
            == (LeaveStep::AwaitAnswer { timeout_ms: 350 }),
        leave.stage is Following ==> leave.course(shared, LeaveEvent::Waited).step is Done,
{
}

/// Six timeouts within fifteen seconds make the network suspect.
pub proof fn law_six_timeouts_are_a_burst(events: EventsModel, started: u64, now: u64)
    requires
        events.network_timeout_window_started == Some(started),
        started <= now <= started + 15_000_000_000,
        !events.network_suspect_emitted,
    ensures
        events.network_timeout(now).1 <==> events.network_timeouts >= 5,
        events.network_timeout(now).0.network_timeouts == events.network_timeouts + 1,
        events.network_timeout(now).0.network_timeout_window_started == Some(started),
{
}

/// A line of an event is its mark, its kind and its object between strokes.
pub proof fn law_event_lines(kind: Seq<char>, payload: Seq<char>)
    ensures
        event_text(kind, payload) == with_between(seq!["__CSQTT_EVENT__"@, kind, payload], '|'),
{
    reveal_strlit("__CSQTT_EVENT__|");
    reveal_strlit("__CSQTT_EVENT__");
    reveal_strlit("|");
    assert("__CSQTT_EVENT__|"@ =~= "__CSQTT_EVENT__"@.push('|'));
    assert("|"@ =~= seq!['|']);
    let parts = seq!["__CSQTT_EVENT__|"@, kind, "|"@, payload];
    reveal_with_fuel(joined, 5);
    assert(parts.drop_last().drop_last().drop_last().drop_last() =~= Seq::empty());
    let fields = seq!["__CSQTT_EVENT__"@, kind, payload];
    reveal_with_fuel(with_between, 3);
    assert(fields.drop_last().drop_last() =~= seq!["__CSQTT_EVENT__"@]);
    assert(joined(parts) =~= with_between(fields, '|'));
}

} // verus!
