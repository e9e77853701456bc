//! What the server is asked to do, and with which settings.

use vstd::prelude::*;
use crate::net::{ipv4_text, is_ipv4_text};
use crate::text::{
    chars_of, copy_text, decimal, decimal_u64, join_texts, joined, non_empty, parse_u64, parse_unsigned, pieces,
    push_chars, same_text, split, split_spec, string_of, string_of_vec, trim, trimmed, views,
    CharClass,
};

verus! {

/// Why name servers were refused.
#[derive(Debug, PartialEq, Eq)]
pub enum DnsSettingError {
    Count,
    Invalid(String),
}

impl DnsSettingError {
    pub fn text(&self) -> (r: String)
        ensures
            r@ == match self {
                DnsSettingError::Count => "DNS must contain one or two IPv4 addresses"@,
                DnsSettingError::Invalid(address) => joined(
                    seq!["invalid DNS IPv4 address: "@, address@],
                ),
            },
    {
        match self {
            DnsSettingError::Count => copy_text("DNS must contain one or two IPv4 addresses"),
            DnsSettingError::Invalid(address) => {
                let parts: [&str; 2] = ["invalid DNS IPv4 address: ", address.as_str()];
                assert(views(parts@) =~= seq!["invalid DNS IPv4 address: "@, address@]);
                join_texts(parts.as_slice())
            },
        }
    }
}

/// The parts between commas, trimmed, the empty ones left out.
pub open spec fn dns_parts(value: Seq<char>) -> Seq<Seq<char>> {
    non_empty(
        split_spec(value, CharClass::Is(',')).map_values(|part: Seq<char>| trimmed(part)),
    )
}

fn trimmed_parts(value: &str) -> (r: Vec<Vec<char>>)
    ensures
        pieces(r@) == dns_parts(value@),
{
    let chars = chars_of(value);
    let raw = split(chars.as_slice(), CharClass::Is(','));
    let ghost whole = pieces(raw@).map_values(|part: Seq<char>| trimmed(part));
    let mut r: Vec<Vec<char>> = Vec::new();
    let mut i: usize = 0;
    assert(pieces(r@) =~= Seq::empty());
    while i < raw.len()
        invariant
            i <= raw@.len(),
            whole == pieces(raw@).map_values(|part: Seq<char>| trimmed(part)),
            pieces(r@) == non_empty(whole.take(i as int)),
        decreases raw@.len() - i,
    {
        let ghost next = whole.take(i + 1);
        assert(next.drop_last() =~= whole.take(i as int));
        assert(next.last() == trimmed(raw@[i as int]@));
        let part = trim(raw[i].as_slice());
        if part.len() > 0 {
            let ghost before = pieces(r@);
            let kept = vstd::slice::slice_to_vec(part);
            r.push(kept);
            assert(pieces(r@) =~= before.push(kept@));
        }
        i = i + 1;
    }
    assert(whole.take(i as int) =~= whole);
    r
}

/// One or two name servers, as they are kept.
pub open spec fn dns_spec(value: Seq<char>) -> Option<Seq<char>> {
    let parts = dns_parts(value);
    if parts.len() == 1 && is_ipv4_text(parts[0]) {
        Some(parts[0])
    } else if parts.len() == 2 && is_ipv4_text(parts[0]) && is_ipv4_text(parts[1]) {
        Some(parts[0].push(',') + parts[1])
    } else {
        None
    }
}

/// Why a value is refused: there are too few or too many addresses, or the first
/// of them that is none.
pub open spec fn dns_refused(value: Seq<char>, error: DnsSettingError) -> bool {
    let parts = dns_parts(value);
    match error {
        DnsSettingError::Count => parts.len() == 0 || parts.len() > 2,
        DnsSettingError::Invalid(address) => {
            &&& 1 <= parts.len() <= 2
            &&& if !is_ipv4_text(parts[0]) {
                address@ == parts[0]
            } else {
                parts.len() == 2 && !is_ipv4_text(parts[1]) && address@ == parts[1]
            }
        },
    }
}

/// One or two IPv4 addresses with a comma between them.
pub fn normalize_dns(value: &str) -> (r: Result<String, DnsSettingError>)
    ensures
        match r {
            Ok(text) => dns_spec(value@) == Some(text@),
            Err(error) => dns_refused(value@, error),
        },
{
    let parts = trimmed_parts(value);
    let ghost whole = pieces(parts@);
    assert(whole.len() == parts@.len());
    if parts.len() == 0 || parts.len() > 2 {
        return Err(DnsSettingError::Count);
    }
    assert(whole[0] == parts@[0]@);
    if !ipv4_text(parts[0].as_slice()) {
        return Err(DnsSettingError::Invalid(string_of_vec(&parts[0])));
    }
    if parts.len() == 1 {
        return Ok(string_of_vec(&parts[0]));
    }
    assert(whole[1] == parts@[1]@);
    if !ipv4_text(parts[1].as_slice()) {
        return Err(DnsSettingError::Invalid(string_of_vec(&parts[1])));
    }
    let mut text = vstd::slice::slice_to_vec(parts[0].as_slice());
    text.push(',');
    push_chars(&mut text, parts[1].as_slice());
    Ok(string_of_vec(&text))
}

/// The name servers that are asked for: those of the command line, or else of
/// the deployment, or else those kept, or else a default.
pub open spec fn asked_dns(argument: Option<Seq<char>>, deployed: Seq<char>, stored: Seq<char>) -> Option<
    Seq<char>,
> {
    if argument is Some && trimmed(argument->0).len() > 0 {
        Some(trimmed(argument->0))
    } else if trimmed(deployed).len() > 0 {
        Some(trimmed(deployed))
    } else if trimmed(stored).len() > 0 {
        Some(trimmed(stored))
    } else {
        None
    }
}

fn trimmed_text(text: &str) -> (r: Option<String>)
    ensures
        match r {
            Some(t) => t@ == trimmed(text@) && t@.len() > 0,
            None => trimmed(text@).len() == 0,
        },
{
    let chars = chars_of(text);
    let value = trim(chars.as_slice());
    if value.len() > 0 {
        Some(string_of(value))
    } else {
        None
    }
}

pub fn runtime_dns(argument: Option<&str>, deployed: &str, stored: &str) -> (r: Result<
    String,
    DnsSettingError,
>)
    ensures
        ({
            let asked = asked_dns(
                match argument {
                    Some(text) => Some(text@),
                    None => None,
                },
                deployed@,
                stored@,
            );
            match asked {
                None => r is Ok && r->Ok_0@ == "1.1.1.1"@,
                Some(value) => match r {
                    Ok(text) => dns_spec(value) == Some(text@),
                    Err(error) => dns_refused(value, error),
                },
            }
        }),
{
    if let Some(text) = argument {
        if let Some(value) = trimmed_text(text) {
            return normalize_dns(value.as_str());
        }
    }
    if let Some(value) = trimmed_text(deployed) {
        return normalize_dns(value.as_str());
    }
    if let Some(value) = trimmed_text(stored) {
        return normalize_dns(value.as_str());
    }
    Ok(copy_text("1.1.1.1"))
}

/// The main password: that of the command line, or else of the deployment, or
/// else the one kept. Nothing where none of them is set: one is then made up.
pub fn main_password(argument: &str, deployed: &str, stored: &str) -> (r: Option<String>)
    ensures
        match r {
            Some(password) => {
                &&& password@.len() > 0
                &&& password@ == if argument@.len() > 0 {
                    argument@
                } else if deployed@.len() > 0 {
                    deployed@
                } else {
                    stored@
                }
            },
            None => argument@.len() == 0 && deployed@.len() == 0 && stored@.len() == 0,
        },
{
    let given = chars_of(argument);
    if given.len() > 0 {
        return Some(copy_text(argument));
    }
    let other = chars_of(deployed);
    if other.len() > 0 {
        return Some(copy_text(deployed));
    }
    let old_one = chars_of(stored);
    if old_one.len() > 0 {
        return Some(copy_text(stored));
    }
    None
}

/// The device that the main password is bound to. A deployment that names an
/// empty one unbinds it; one that names none leaves it as it is.
pub fn main_device(argument: &str, deployed: Option<&str>, stored: &str) -> (r: String)
    ensures
        r@ == if argument@.len() > 0 {
            argument@
        } else {
            match deployed {
                Some(device) => device@,
                None => stored@,
            }
        },
{
    let given = chars_of(argument);
    if given.len() > 0 {
        return copy_text(argument);
    }
    match deployed {
        Some(device) => copy_text(device),
        None => copy_text(stored),
    }
}

/// What the command line asks for.
#[derive(Clone, Copy, Debug, PartialEq, Eq, Structural)]
pub enum CliCommand {
    Probe,
    Help,
    Start,
    Stop,
    Restart,
    Dpi(u64),
    Syscalls,
    PerfUsage,
    Perf,
    Serve,
}

/// The words of a command line, the first of which names the program.
pub open spec fn words_of(args: Seq<String>) -> Seq<Seq<char>> {
    args.map_values(|a: String| a@)
}

pub open spec fn dpi_samples(args: Seq<Seq<char>>) -> u64 {
    if args.len() >= 4 && args[2] == "s"@ {
        match parse_unsigned(args[3], u64::MAX as nat) {
            Some(n) => n as u64,
            None => 0,
        }
    } else {
        0
    }
}

pub open spec fn command_spec(args: Seq<Seq<char>>) -> CliCommand {
    if args.len() == 2 && args[1] == "--io-uring-probe"@ {
        CliCommand::Probe
    } else if args.len() == 1 || (args.len() == 2 && (args[1] == "help"@ || args[1] == "--help"@
        || args[1] == "-h"@)) {
        CliCommand::Help
    } else if args.len() < 2 {
        CliCommand::Serve
    } else if args[1] == "start"@ {
        CliCommand::Start
    } else if args[1] == "stop"@ {
        CliCommand::Stop
    } else if args[1] == "restart"@ {
        CliCommand::Restart
    } else if args[1] == "dpi"@ {
        CliCommand::Dpi(dpi_samples(args))
    } else if args[1] == "syscalls"@ {
        CliCommand::Syscalls
    } else if args[1] == "perf"@ {
        if args.len() > 2 && args[2] == "all"@ {
            CliCommand::Perf
        } else {
            CliCommand::PerfUsage
        }
    } else {
        CliCommand::Serve
    }
}

pub fn cli_command(args: &Vec<String>) -> (r: CliCommand)
    ensures
        r == command_spec(words_of(args@)),
{
    let ghost all = words_of(args@);
    if args.len() == 0 {
        return CliCommand::Serve;
    }
    if args.len() == 1 {
        return CliCommand::Help;
    }
    let command = args[1].as_str();
    assert(all[1] == command@);
    if args.len() == 2 {
        if same_text(command, "--io-uring-probe") {
            return CliCommand::Probe;
        }
        if same_text(command, "help") || same_text(command, "--help") || same_text(command, "-h") {
            return CliCommand::Help;
        }
    }
    if same_text(command, "start") {
        return CliCommand::Start;
    }
    if same_text(command, "stop") {
        return CliCommand::Stop;
    }
    if same_text(command, "restart") {
        return CliCommand::Restart;
    }
    if same_text(command, "dpi") {
        if args.len() >= 4 {
            assert(all[2] == args@[2]@);
            assert(all[3] == args@[3]@);
            if same_text(args[2].as_str(), "s") {
                let chars = chars_of(args[3].as_str());
                return match parse_u64(chars.as_slice()) {
                    Some(n) => CliCommand::Dpi(n),
                    None => CliCommand::Dpi(0),
                };
            }
        }
        return CliCommand::Dpi(0);
    }
    if same_text(command, "syscalls") {
        return CliCommand::Syscalls;
    }
    if same_text(command, "perf") {
        if args.len() > 2 {
            assert(all[2] == args@[2]@);
            if same_text(args[2].as_str(), "all") {
                return CliCommand::Perf;
            }
        }
        return CliCommand::PerfUsage;
    }
    CliCommand::Serve
}

/// What the options of the command line ask for instead of serving.
pub fn option_command(start: bool, stop: bool, restart: bool, dpi: bool, samples: u64) -> (r:
    CliCommand)
    ensures
        r == if start {
            CliCommand::Start
        } else if stop {
            CliCommand::Stop
        } else if restart {
            CliCommand::Restart
        } else if dpi || samples > 0 {
            CliCommand::Dpi(samples)
        } else {
            CliCommand::Serve
        },
{
    if start {
        CliCommand::Start
    } else if stop {
        CliCommand::Stop
    } else if restart {
        CliCommand::Restart
    } else if dpi || samples > 0 {
        CliCommand::Dpi(samples)
    } else {
        CliCommand::Serve
    }
}

/// How the service is told to start, stop or restart.
#[derive(Clone, Copy, Debug, PartialEq, Eq, Structural)]
pub enum ServiceStep {
    SignalContainer,
    RefuseContainer,
    RefuseUser,
    CallManager,
}

/// In a container only a restart is possible, by ending its first process;
/// elsewhere the service manager is called, which takes the superuser.
pub fn service_step(in_container: bool, restart: bool, is_root: bool) -> (r: ServiceStep)
    ensures
        r == if in_container {
            if restart {
                ServiceStep::SignalContainer
            } else {
                ServiceStep::RefuseContainer
            }
        } else if is_root {
            ServiceStep::CallManager
        } else {
            ServiceStep::RefuseUser
        },
{
    if in_container {
        if restart {
            ServiceStep::SignalContainer
        } else {
            ServiceStep::RefuseContainer
        }
    } else if is_root {
        ServiceStep::CallManager
    } else {
        ServiceStep::RefuseUser
    }
}

/// The directory of an older installation is used where the default one is asked
/// for and not there.
pub fn uses_legacy_directory(default_asked: bool, exists: bool, legacy_exists: bool) -> (r: bool)
    ensures
        r == (default_asked && !exists && legacy_exists),
{
    default_asked && !exists && legacy_exists
}

/// An address in the usual notation.
pub open spec fn dotted(octets: Seq<u8>) -> Seq<char> {
    joined(
        seq![
            decimal(octets[0] as nat),
            "."@,
            decimal(octets[1] as nat),
            "."@,
            decimal(octets[2] as nat),
            "."@,
            decimal(octets[3] as nat),
        ],
    )
}

fn dotted_text(octets: [u8; 4]) -> (r: String)
    ensures
        r@ == dotted(octets@),
{
    let a = string_of_vec(&decimal_u64(octets[0] as u64));
    let b = string_of_vec(&decimal_u64(octets[1] as u64));
    let c = string_of_vec(&decimal_u64(octets[2] as u64));
    let d = string_of_vec(&decimal_u64(octets[3] as u64));
    let parts: [&str; 7] = [a.as_str(), ".", b.as_str(), ".", c.as_str(), ".", d.as_str()];
    assert(views(parts@) =~= seq![
        decimal(octets[0] as nat),
        "."@,
        decimal(octets[1] as nat),
        "."@,
        decimal(octets[2] as nat),
        "."@,
        decimal(octets[3] as nat),
    ]);
    join_texts(parts.as_slice())
}

/// The names that a certificate for the web panel is made out to.
pub open spec fn names_spec(hostname: Option<Seq<char>>, address: Option<Seq<u8>>) -> Seq<
    Seq<char>,
> {
    let base = seq!["localhost"@, "127.0.0.1"@];
    let named = match hostname {
        Some(name) => if trimmed(name).len() > 0 {
            base.push(trimmed(name))
        } else {
            base
        },
        None => base,
    };
    match address {
        Some(octets) => if octets[0] != 127 {
            named.push(dotted(octets))
        } else {
            named
        },
        None => named,
    }
}

/// The names for a certificate: this host, and the address that it is reached
/// at, if that is known and not one of the host alone.
pub fn certificate_names(hostname: Option<&str>, address: Option<[u8; 4]>) -> (r: Vec<String>)
    ensures
        words_of(r@) == names_spec(
            match hostname {
                Some(name) => Some(name@),
                None => None,
            },
            match address {
                Some(octets) => Some(octets@),
                None => None,
            },
        ),
{
    let mut names: Vec<String> = Vec::new();
    names.push(copy_text("localhost"));
    names.push(copy_text("127.0.0.1"));
    assert(words_of(names@) =~= seq!["localhost"@, "127.0.0.1"@]);
    if let Some(name) = hostname {
        if let Some(value) = trimmed_text(name) {
            let ghost before = words_of(names@);
            names.push(value);
            assert(words_of(names@) =~= before.push(value@));
        }
    }
    if let Some(octets) = address {
        if octets[0] != 127 {
            let ghost before = words_of(names@);
            let text = dotted_text(octets);
            names.push(text);
            assert(words_of(names@) =~= before.push(text@));
        }
    }
    names
}

} // verus!
