//! What settings and command lines mean.

use vstd::prelude::*;
use crate::net::{dotted_quad, lemma_quad_pieces};
use crate::server::settings::{
    asked_dns, command_spec, dns_parts, dns_refused, dns_spec, dotted, main_device, main_password,
    names_spec, option_command, service_step, uses_legacy_directory, CliCommand, DnsSettingError,
    ServiceStep,
};
use crate::text::{
    decimal, is_digit, is_white_space, joined, law_decimal_round_trip, law_trimming_takes_the_edges,
    lemma_first_in_is, lemma_split_joined, non_empty, split_spec, trimmed, CharClass,
};

verus! {

/// White space alone.
pub open spec fn only_space(s: Seq<char>) -> bool {
    forall|k: int| 0 <= k < s.len() ==> is_white_space(#[trigger] s[k])
}

proof fn lemma_no_comma(before: Seq<char>, s: Seq<char>, after: Seq<char>)
    requires
        only_space(before),
        only_space(after),
        forall|k: int| 0 <= k < s.len() ==> is_digit(#[trigger] s[k]) || s[k] == '.',
        s.len() > 0,
    ensures
        split_spec(before + s + after, CharClass::Is(',')) == seq![before + s + after],
        trimmed(before + s + after) == s,
{
    let text = before + s + after;
    assert forall|k: int| 0 <= k < text.len() implies !CharClass::Is(',').holds(text[k]) by {
        if k < before.len() {
            assert(text[k] == before[k]);
        } else if k < before.len() + s.len() {
            assert(text[k] == s[k - before.len()]);
        } else {
            assert(text[k] == after[k - before.len() - s.len()]);
        }
    }
    lemma_first_in_is(text, CharClass::Is(','), text.len() as int);
    assert forall|k: int| 0 <= k < before.len() implies CharClass::WhiteSpace.holds(
        #[trigger] before[k],
    ) by {}
    assert forall|k: int| 0 <= k < after.len() implies CharClass::WhiteSpace.holds(
        #[trigger] after[k],
    ) by {}
    assert(is_digit(s[0]) || s[0] == '.');
    assert(is_digit(s.last()) || s.last() == '.');
    law_trimming_takes_the_edges(before, s, after, CharClass::WhiteSpace);
}

proof fn lemma_parts(texts: Seq<Seq<char>>)
    ensures
        texts.len() == 1 && trimmed(texts[0]).len() > 0 ==> non_empty(
            texts.map_values(|part: Seq<char>| trimmed(part)),
        ) == seq![trimmed(texts[0])],
        texts.len() == 2 && trimmed(texts[0]).len() > 0 && trimmed(texts[1]).len() > 0
            ==> non_empty(texts.map_values(|part: Seq<char>| trimmed(part))) == seq![
            trimmed(texts[0]),
            trimmed(texts[1]),
        ],
        texts.len() == 3 && trimmed(texts[0]).len() > 0 && trimmed(texts[1]).len() > 0
            && trimmed(texts[2]).len() > 0 ==> non_empty(
            texts.map_values(|part: Seq<char>| trimmed(part)),
        ) == seq![trimmed(texts[0]), trimmed(texts[1]), trimmed(texts[2])],
{
    let all = texts.map_values(|part: Seq<char>| trimmed(part));
    reveal_with_fuel(non_empty, 5);
    if texts.len() == 1 {
        assert(all.drop_last() =~= Seq::empty());
        assert(non_empty(all) =~= seq![trimmed(texts[0])]
            || trimmed(texts[0]).len() == 0);
    } else if texts.len() == 2 {
        assert(all.drop_last().drop_last() =~= Seq::empty());
        assert(non_empty(all) =~= seq![trimmed(texts[0]), trimmed(texts[1])]
            || trimmed(texts[0]).len() == 0 || trimmed(texts[1]).len() == 0);
    } else if texts.len() == 3 {
        assert(all.drop_last().drop_last().drop_last() =~= Seq::empty());
        assert(non_empty(all) =~= seq![
            trimmed(texts[0]),
            trimmed(texts[1]),
            trimmed(texts[2]),
        ] || trimmed(texts[0]).len() == 0 || trimmed(texts[1]).len() == 0
            || trimmed(texts[2]).len() == 0);
    }
}

/// A name server with space around it.
pub open spec fn spaced(before: Seq<char>, ip: (u8, u8, u8, u8), after: Seq<char>) -> Seq<char> {
    before + dotted_quad(ip.0, ip.1, ip.2, ip.3) + after
}

/// One or two name servers are kept as they are written, without the space around
/// them; three are one too many.
pub proof fn law_name_servers_are_kept(
    a: (u8, u8, u8, u8),
    b: (u8, u8, u8, u8),
    c: (u8, u8, u8, u8),
    before: Seq<char>,
    after: Seq<char>,
    error: DnsSettingError,
)
    requires
        only_space(before),
        only_space(after),
    ensures
        dns_spec(spaced(before, a, after)) == Some(dotted_quad(a.0, a.1, a.2, a.3)),
        dns_spec(spaced(before, a, after).push(',') + spaced(before, b, after)) == Some(
            dotted_quad(a.0, a.1, a.2, a.3) + seq![','] + dotted_quad(b.0, b.1, b.2, b.3),
        ),
        dns_spec(
            spaced(before, a, after).push(',') + (spaced(before, b, after).push(',') + spaced(
                before,
                c,
                after,
            )),
        ) is None,
        dns_refused(
            spaced(before, a, after).push(',') + (spaced(before, b, after).push(',') + spaced(
                before,
                c,
                after,
            )),
            error,
        ) ==> error is Count,
        !dns_refused(spaced(before, a, after), error),
{
    let x = spaced(before, a, after);
    let y = spaced(before, b, after);
    let z = spaced(before, c, after);
    let comma = CharClass::Is(',');
    lemma_quad_pieces(a.0, a.1, a.2, a.3);
    lemma_quad_pieces(b.0, b.1, b.2, b.3);
    lemma_quad_pieces(c.0, c.1, c.2, c.3);
    lemma_no_comma(before, dotted_quad(a.0, a.1, a.2, a.3), after);
    lemma_no_comma(before, dotted_quad(b.0, b.1, b.2, b.3), after);
    lemma_no_comma(before, dotted_quad(c.0, c.1, c.2, c.3), after);
    lemma_split_joined(x, ',', y, comma);
    lemma_split_joined(y, ',', z, comma);
    lemma_split_joined(x, ',', y.push(',') + z, comma);
    assert(split_spec(x.push(',') + y, comma) =~= seq![x, y]);
    assert(split_spec(x.push(',') + (y.push(',') + z), comma) =~= seq![x, y, z]);
    lemma_parts(seq![x]);
    lemma_parts(seq![x, y]);
    lemma_parts(seq![x, y, z]);
    assert(dns_parts(x) =~= seq![trimmed(x)]);
    assert(dns_parts(x.push(',') + y) =~= seq![trimmed(x), trimmed(y)]);
    assert(dns_parts(x.push(',') + (y.push(',') + z)) =~= seq![trimmed(x), trimmed(y), trimmed(z)]);
    assert(trimmed(x).push(',') + trimmed(y) =~= trimmed(x) + seq![','] + trimmed(y));
}

/// What is asked for on the command line comes before the deployment, and that
/// before what was kept; white space asks for nothing.
pub proof fn law_nearest_setting_is_used(
    asked: Seq<char>,
    blank: Seq<char>,
    other: Seq<char>,
    another: Seq<char>,
)
    requires
        trimmed(asked) == asked,
        asked.len() > 0,
        trimmed(blank).len() == 0,
    ensures
        asked_dns(Some(asked), other, another) == Some(asked),
        asked_dns(None, asked, other) == Some(asked),
        asked_dns(Some(blank), asked, other) == Some(asked),
        asked_dns(None, blank, asked) == Some(asked),
        asked_dns(Some(blank), blank, asked) == Some(asked),
        asked_dns(None, blank, blank) is None,
        asked_dns(Some(blank), blank, blank) is None,
{
}

/// A password that is given comes before one of the deployment, and that before
/// the one kept; with none of them there is none.
pub proof fn law_nearest_password_is_used(
    argument: &str,
    deployed: &str,
    stored: &str,
    r: Option<String>,
)
    requires
        call_ensures(main_password, (argument, deployed, stored), r),
    ensures
        argument@.len() > 0 ==> r is Some && r->0@ == argument@,
        argument@.len() == 0 && deployed@.len() > 0 ==> r is Some && r->0@ == deployed@,
        argument@.len() == 0 && deployed@.len() == 0 && stored@.len() > 0 ==> r is Some && r->0@
            == stored@,
        argument@.len() + deployed@.len() + stored@.len() == 0 ==> r is None,
{
}

/// A deployment may unbind the device, which the command line may not.
pub proof fn law_deployment_unbinds_the_device(
    argument: &str,
    deployed: Option<&str>,
    stored: &str,
    r: String,
)
    requires
        call_ensures(main_device, (argument, deployed, stored), r),
    ensures
        argument@.len() > 0 ==> r@ == argument@,
        argument@.len() == 0 && deployed is None ==> r@ == stored@,
        argument@.len() == 0 && (deployed matches Some(device) && device@.len() == 0) ==> r@.len()
            == 0,
        argument@.len() == 0 && deployed is Some ==> r@ == deployed->0@,
{
}

proof fn lemma_words_differ()
    ensures
        "--io-uring-probe"@.len() == 16,
        "help"@.len() == 4 && "help"@[0] == 'h',
        "--help"@.len() == 6,
        "-h"@.len() == 2,
        "start"@.len() == 5,
        "stop"@.len() == 4 && "stop"@[0] == 's',
        "restart"@.len() == 7,
        "dpi"@.len() == 3,
        "syscalls"@.len() == 8,
        "perf"@.len() == 4 && "perf"@[0] == 'p',
{
    reveal_strlit("--io-uring-probe");
    reveal_strlit("help");
    reveal_strlit("--help");
    reveal_strlit("-h");
    reveal_strlit("start");
    reveal_strlit("stop");
    reveal_strlit("restart");
    reveal_strlit("dpi");
    reveal_strlit("syscalls");
    reveal_strlit("perf");
}

/// A command is known by its word, whatever follows; help and the probe are asked
/// for by their word alone, and the program's name alone asks for help.
pub proof fn law_commands_are_known_by_name(program: Seq<char>, more: Seq<Seq<char>>)
    ensures
        command_spec(seq![program]) == CliCommand::Help,
        command_spec(seq![program, "start"@] + more) == CliCommand::Start,
        command_spec(seq![program, "stop"@] + more) == CliCommand::Stop,
        command_spec(seq![program, "restart"@] + more) == CliCommand::Restart,
        command_spec(seq![program, "syscalls"@] + more) == CliCommand::Syscalls,
        command_spec(seq![program, "perf"@, "all"@] + more) == CliCommand::Perf,
        command_spec(seq![program, "perf"@]) == CliCommand::PerfUsage,
        more.len() > 0 && more[0] != "all"@ ==> command_spec(seq![program, "perf"@] + more)
            == CliCommand::PerfUsage,
        command_spec(seq![program, "dpi"@] + more) is Dpi,
        more.len() < 2 ==> command_spec(seq![program, "dpi"@] + more) == CliCommand::Dpi(0),
        command_spec(seq![program, "help"@]) == CliCommand::Help,
        command_spec(seq![program, "--help"@]) == CliCommand::Help,
        command_spec(seq![program, "-h"@]) == CliCommand::Help,
        command_spec(seq![program, "--io-uring-probe"@]) == CliCommand::Probe,
        more.len() > 0 ==> command_spec(seq![program, "help"@] + more) == CliCommand::Serve,
        more.len() > 0 ==> command_spec(seq![program, "--io-uring-probe"@] + more)
            == CliCommand::Serve,
{
    lemma_words_differ();
    assert((seq![program, "perf"@] + more).len() == 2 + more.len());
    if more.len() > 0 {
        assert((seq![program, "perf"@] + more)[2] == more[0]);
    }
}

/// So many packets are inspected as the command line says.
pub proof fn law_samples_are_counted(program: Seq<char>, samples: u64, more: Seq<Seq<char>>)
    ensures
        command_spec(seq![program, "dpi"@, "s"@, decimal(samples as nat)] + more)
            == CliCommand::Dpi(samples),
{
    lemma_words_differ();
    law_decimal_round_trip(samples as nat, u64::MAX as nat);
}

/// Any other word is for the server itself.
pub proof fn law_other_words_serve(args: Seq<Seq<char>>)
    requires
        args.len() >= 2,
        args[1].len() > 0,
        args[1][0] == '-',
        args.len() > 2 || (args[1] != "--help"@ && args[1] != "-h"@ && args[1]
            != "--io-uring-probe"@),
    ensures
        command_spec(args) == CliCommand::Serve,
{
    lemma_words_differ();
    reveal_strlit("start");
    reveal_strlit("restart");
    reveal_strlit("dpi");
    reveal_strlit("syscalls");
    assert("start"@[0] == 's' && "restart"@[0] == 'r' && "dpi"@[0] == 'd' && "syscalls"@[0]
        == 's');
}

/// Of the options the first in order counts; inspecting is asked for by its option
/// or by a number of packets.
pub proof fn law_options_in_order(
    start: bool,
    stop: bool,
    restart: bool,
    dpi: bool,
    samples: u64,
    r: CliCommand,
)
    requires
        call_ensures(option_command, (start, stop, restart, dpi, samples), r),
    ensures
        r is Start <==> start,
        r is Stop <==> stop && !start,
        r is Restart <==> restart && !start && !stop,
        r is Dpi ==> r == CliCommand::Dpi(samples),
        r is Serve <==> !start && !stop && !restart && !dpi && samples == 0,
        r is Start || r is Stop || r is Restart || r is Dpi || r is Serve,
{
}

/// The service manager is called only outside of a container, and by the superuser;
/// a container can only be restarted.
pub proof fn law_service_is_managed_by_root(
    in_container: bool,
    restart: bool,
    is_root: bool,
    r: ServiceStep,
)
    requires
        call_ensures(service_step, (in_container, restart, is_root), r),
    ensures
        r is CallManager <==> !in_container && is_root,
        r is RefuseUser <==> !in_container && !is_root,
        r is SignalContainer <==> in_container && restart,
        r is RefuseContainer <==> in_container && !restart,
{
}

/// The directory of an older installation is used only in place of a default one
/// that is missing.
pub proof fn law_older_directory_is_a_stand_in(asked: bool, exists: bool, older: bool, r: bool)
    requires
        call_ensures(uses_legacy_directory, (asked, exists, older), r),
    ensures
        r ==> asked && !exists && older,
        asked && !exists && older ==> r,
{
}

proof fn lemma_dotted(octets: Seq<u8>)
    requires
        octets.len() == 4,
    ensures
        dotted(octets) == dotted_quad(octets[0], octets[1], octets[2], octets[3]),
{
    reveal_strlit(".");
    assert("."@ =~= seq!['.']);
    let parts = seq![
        decimal(octets[0] as nat),
        "."@,
        decimal(octets[1] as nat),
        "."@,
        decimal(octets[2] as nat),
        "."@,
        decimal(octets[3] as nat),
    ];
    reveal_with_fuel(joined, 8);
    assert(parts.drop_last().drop_last().drop_last().drop_last().drop_last().drop_last().drop_last()
        =~= Seq::empty());
    assert(dotted(octets) =~= dotted_quad(octets[0], octets[1], octets[2], octets[3]));
}

/// A certificate is made out to this host, to its name if it has one, and to the
/// address that it is reached at, unless that is one of the host alone.
pub proof fn law_certificate_names(
    name: Seq<char>,
    blank: Seq<char>,
    a: u8,
    b: u8,
    c: u8,
    d: u8,
)
    requires
        trimmed(name) == name,
        name.len() > 0,
        trimmed(blank).len() == 0,
    ensures
        names_spec(None, None) == seq!["localhost"@, "127.0.0.1"@],
        names_spec(Some(blank), None) == seq!["localhost"@, "127.0.0.1"@],
        names_spec(Some(name), None) == seq!["localhost"@, "127.0.0.1"@, name],
        a == 127 ==> names_spec(Some(name), Some(seq![a, b, c, d])) == seq![
            "localhost"@,
            "127.0.0.1"@,
            name,
        ],
        a != 127 ==> names_spec(Some(name), Some(seq![a, b, c, d])) == seq![
            "localhost"@,
            "127.0.0.1"@,
            name,
            dotted_quad(a, b, c, d),
        ],
        a != 127 ==> names_spec(None, Some(seq![a, b, c, d])) == seq![
            "localhost"@,
            "127.0.0.1"@,
            dotted_quad(a, b, c, d),
        ],
{
    lemma_dotted(seq![a, b, c, d]);
}

} // verus!
