//! Where a relay is reached: the addresses of relays as text.

use vstd::prelude::*;
use crate::net::{ip_text, is_ip_text, is_ipv6_text};
use crate::text::{
    chars_of, copy_text, decimal, decimal_u64, drop_empty, find_in, has_prefix, has_text,
    is_digit, is_white_space, join_texts, joined, lower, lower_char, lower_spec, non_empty,
    occurs_at, parse_u16, parse_unsigned, pieces, push_chars, push_text, quoted, quoted_of,
    spells, split, split_at_text, split_at_text_spec, split_once, split_once_spec, split_spec,
    starts_with, string_of, string_of_vec, trim, trimmed, views, CharClass,
};

verus! {

pub const DEFAULT_PORT: u16 = 3478;
pub const DEFAULT_TLS_PORT: u16 = 5349;

/// Why a relay's address is refused.
#[derive(Debug, PartialEq, Eq)]
pub enum EndpointError {
    /// The transport mode, trimmed and in lower case.
    UnsupportedMode(String),
    NotTls,
    NotAHostname,
    Empty,
    EmptyAuthority,
    UnsupportedTransport,
    DuplicateTransport,
    TurnsOverUdp,
    MalformedIpv6,
    BareIpv6,
    EmptyHost,
    InvalidPort,
    TlsInUdpMode,
    TcpInUdpMode,
    UdpInTcpMode,
}

impl EndpointError {
    pub open spec fn text_spec(self) -> Seq<char> {
        match self {
            EndpointError::UnsupportedMode(mode) => joined(
                seq!["unsupported TURN transport mode "@, quoted_of(mode@)],
            ),
            EndpointError::NotTls => "TURN endpoint is not TLS"@,
            EndpointError::NotAHostname => "TURN TLS endpoint requires a DNS hostname"@,
            EndpointError::Empty => "TURN endpoint is empty"@,
            EndpointError::EmptyAuthority => "TURN authority is empty"@,
            EndpointError::UnsupportedTransport => "TURN URI contains an unsupported transport"@,
            EndpointError::DuplicateTransport =>
                "TURN URI contains duplicate transport parameters"@,
            EndpointError::TurnsOverUdp => "turns URI cannot use UDP"@,
            EndpointError::MalformedIpv6 => "TURN IPv6 address is malformed"@,
            EndpointError::BareIpv6 => "TURN IPv6 address must use brackets"@,
            EndpointError::EmptyHost => "TURN host is empty"@,
            EndpointError::InvalidPort => "TURN port is invalid"@,
            EndpointError::TlsInUdpMode => "TURN TLS endpoint cannot be used in UDP mode"@,
            EndpointError::TcpInUdpMode => "TURN TCP endpoint cannot be used in UDP mode"@,
            EndpointError::UdpInTcpMode => "TURN UDP endpoint cannot be used in TCP mode"@,
        }
    }

    /// What is said of the error.
    pub fn text(&self) -> (r: String)
        ensures
            r@ == self.text_spec(),
    {
        let text = match self {
            EndpointError::UnsupportedMode(mode) => {
                let shown = quoted(mode.as_str());
                let parts: [&str; 2] = ["unsupported TURN transport mode ", shown.as_str()];
                assert(views(parts@) =~= seq!["unsupported TURN transport mode "@, shown@]);
                return join_texts(parts.as_slice());
            },
            EndpointError::NotTls => "TURN endpoint is not TLS",
            EndpointError::NotAHostname => "TURN TLS endpoint requires a DNS hostname",
            EndpointError::Empty => "TURN endpoint is empty",
            EndpointError::EmptyAuthority => "TURN authority is empty",
            EndpointError::UnsupportedTransport => "TURN URI contains an unsupported transport",
            EndpointError::DuplicateTransport =>
                "TURN URI contains duplicate transport parameters",
            EndpointError::TurnsOverUdp => "turns URI cannot use UDP",
            EndpointError::MalformedIpv6 => "TURN IPv6 address is malformed",
            EndpointError::BareIpv6 => "TURN IPv6 address must use brackets",
            EndpointError::EmptyHost => "TURN host is empty",
            EndpointError::InvalidPort => "TURN port is invalid",
            EndpointError::TlsInUdpMode => "TURN TLS endpoint cannot be used in UDP mode",
            EndpointError::TcpInUdpMode => "TURN TCP endpoint cannot be used in UDP mode",
            EndpointError::UdpInTcpMode => "TURN UDP endpoint cannot be used in TCP mode",
        };
        copy_text(text)
    }
}

#[derive(Clone, Copy, Debug, PartialEq, Eq, Structural)]
pub enum TurnTransportMode {
    Udp,
    TcpTls,
}

impl TurnTransportMode {
    /// The mode that a trimmed name in lower case stands for.
    pub open spec fn named(name: Seq<char>) -> Option<TurnTransportMode> {
        if name == "udp"@ {
            Some(TurnTransportMode::Udp)
        } else if name == "tcp"@ || name == "tcp_tls"@ || name == "tcp-tls"@ || name
            == "tcp/tls"@ {
            Some(TurnTransportMode::TcpTls)
        } else {
            None
        }
    }

    pub fn parse(value: &str) -> (r: Result<TurnTransportMode, EndpointError>)
        ensures
            match r {
                Ok(mode) => TurnTransportMode::named(lower_spec(trimmed(value@))) == Some(mode),
                Err(e) => {
                    &&& TurnTransportMode::named(lower_spec(trimmed(value@))) is None
                    &&& e is UnsupportedMode
                    &&& e->UnsupportedMode_0@ == lower_spec(trimmed(value@))
                },
            },
    {
        let all = chars_of(value);
        let name = lower(trim(all.as_slice()));
        let n = name.as_slice();
        if spells(n, "udp") {
            Ok(TurnTransportMode::Udp)
        } else if spells(n, "tcp") || spells(n, "tcp_tls") || spells(n, "tcp-tls") || spells(
            n,
            "tcp/tls",
        ) {
            Ok(TurnTransportMode::TcpTls)
        } else {
            Err(EndpointError::UnsupportedMode(string_of(n)))
        }
    }

    pub fn as_str(self) -> (r: &'static str)
        ensures
            r@ == match self {
                TurnTransportMode::Udp => "UDP"@,
                TurnTransportMode::TcpTls => "TCP"@,
            },
    {
        match self {
            TurnTransportMode::Udp => "UDP",
            TurnTransportMode::TcpTls => "TCP",
        }
    }
}

#[derive(Clone, Copy, Debug, PartialEq, Eq, Structural)]
pub enum TurnWireTransport {
    Udp,
    Tcp,
    Tls,
}

impl TurnWireTransport {
    pub open spec fn name(self) -> Seq<char> {
        match self {
            TurnWireTransport::Udp => "UDP"@,
            TurnWireTransport::Tcp => "TCP"@,
            TurnWireTransport::Tls => "TLS"@,
        }
    }

    pub fn as_str(self) -> (r: &'static str)
        ensures
            r@ == self.name(),
    {
        match self {
            TurnWireTransport::Udp => "UDP",
            TurnWireTransport::Tcp => "TCP",
            TurnWireTransport::Tls => "TLS",
        }
    }
}

#[derive(Debug, PartialEq, Eq)]
pub struct TurnEndpoint {
    pub host: String,
    pub port: u16,
    pub transport: TurnWireTransport,
}

/// The host and port of an address as one text.
pub open spec fn authority_text(host: Seq<char>, port: u16) -> Seq<char> {
    if host.contains(':') {
        seq!['['] + host + "]:"@ + decimal(port as nat)
    } else {
        host + seq![':'] + decimal(port as nat)
    }
}

impl TurnEndpoint {
    pub fn socket_authority(&self) -> (r: String)
        ensures
            r@ == authority_text(self.host@, self.port),
    {
        let host = chars_of(self.host.as_str());
        let colon: usize = find_in(host.as_slice(), CharClass::Is(':'));
        proof {
            crate::text::lemma_first_in(host@, CharClass::Is(':'));
            reveal_strlit("]:");
        }
        let mut out: Vec<char> = Vec::new();
        if colon < host.len() {
            assert(host@.contains(':'));
            out.push('[');
            push_chars(&mut out, host.as_slice());
            push_text(&mut out, "]:");
        } else {
            push_chars(&mut out, host.as_slice());
            out.push(':');
        }
        let port = decimal_u64(self.port as u64);
        push_chars(&mut out, port.as_slice());
        assert(out@ =~= authority_text(self.host@, self.port));
        string_of_vec(&out)
    }

    pub fn tls_server_name(&self) -> (r: Result<&str, EndpointError>)
        ensures
            match r {
                Ok(name) => self.transport == TurnWireTransport::Tls && !is_ip_text(self.host@)
                    && name@ == self.host@,
                Err(e) => e == if self.transport != TurnWireTransport::Tls {
                    EndpointError::NotTls
                } else {
                    EndpointError::NotAHostname
                } && (self.transport == TurnWireTransport::Tls ==> is_ip_text(self.host@)),
            },
    {
        if self.transport != TurnWireTransport::Tls {
            return Err(EndpointError::NotTls);
        }
        let host = chars_of(self.host.as_str());
        if ip_text(host.as_slice()) {
            return Err(EndpointError::NotAHostname);
        }
        Ok(self.host.as_str())
    }
}

#[derive(Clone, Copy, Debug, PartialEq, Eq, Structural)]
pub enum TurnScheme {
    Turn,
    Turns,
    Bare,
}

#[derive(Clone, Copy, Debug, PartialEq, Eq, Structural)]
pub enum UriTransport {
    Udp,
    Tcp,
}

/// A relay's address in its parts.
#[verifier::ext_equal]
pub struct UriModel {
    pub scheme: TurnScheme,
    pub authority: Seq<char>,
    pub transport: Option<UriTransport>,
}

/// The scheme that an address begins with, and the rest.
pub open spec fn scheme_spec(value: Seq<char>) -> (TurnScheme, Seq<char>) {
    let name = lower_spec(value);
    if has_prefix(name, "turns:"@) {
        (TurnScheme::Turns, value.skip(6))
    } else if has_prefix(name, "turn:"@) {
        (TurnScheme::Turn, value.skip(5))
    } else {
        (TurnScheme::Bare, value)
    }
}

/// The two sides of the first `c`; without one, all and nothing.
pub open spec fn cut_spec(s: Seq<char>, c: char) -> (Seq<char>, Seq<char>) {
    match split_once_spec(s, c) {
        Some(parts) => parts,
        None => (s, Seq::empty()),
    }
}

/// The transport that parameters name, if any: none that is unknown, and no two.
pub open spec fn transport_spec(
    parameters: Seq<Seq<char>>,
    so_far: Option<UriTransport>,
) -> Result<Option<UriTransport>, EndpointError>
    decreases parameters.len(),
{
    if parameters.len() == 0 {
        Ok(so_far)
    } else {
        let (key, value) = cut_spec(parameters[0], '=');
        let rest = parameters.skip(1);
        if lower_spec(key) != "transport"@ {
            transport_spec(rest, so_far)
        } else {
            let name = lower_spec(value);
            if name != "udp"@ && name != "tcp"@ {
                Err(EndpointError::UnsupportedTransport)
            } else if so_far is Some {
                Err(EndpointError::DuplicateTransport)
            } else {
                transport_spec(
                    rest,
                    Some(
                        if name == "udp"@ {
                            UriTransport::Udp
                        } else {
                            UriTransport::Tcp
                        },
                    ),
                )
            }
        }
    }
}

pub open spec fn uri_spec(text: Seq<char>) -> Result<UriModel, EndpointError> {
    let value = trimmed(text);
    let (scheme, rest) = scheme_spec(value);
    let (authority, query) = cut_spec(rest, '?');
    if value.len() == 0 {
        Err(EndpointError::Empty)
    } else if authority.len() == 0 {
        Err(EndpointError::EmptyAuthority)
    } else {
        match transport_spec(non_empty(split_spec(query, CharClass::Is('&'))), None) {
            Err(e) => Err(e),
            Ok(transport) => if scheme == TurnScheme::Turns && transport == Some(
                UriTransport::Udp,
            ) {
                Err(EndpointError::TurnsOverUdp)
            } else {
                Ok(UriModel { scheme, authority, transport })
            },
        }
    }
}

pub open spec fn default_port(scheme: TurnScheme) -> u16 {
    if scheme == TurnScheme::Turns {
        DEFAULT_TLS_PORT
    } else {
        DEFAULT_PORT
    }
}

pub open spec fn port_spec(text: Seq<char>) -> Result<u16, EndpointError> {
    match parse_unsigned(text, u16::MAX as nat) {
        Some(port) => Ok(port as u16),
        None => Err(EndpointError::InvalidPort),
    }
}

pub open spec fn with_port(host: Seq<char>, text: Seq<char>) -> Result<
    (Seq<char>, u16),
    EndpointError,
> {
    match port_spec(text) {
        Ok(port) => Ok((host, port)),
        Err(e) => Err(e),
    }
}

/// The host and port that an authority names.
pub open spec fn authority_spec(value: Seq<char>, scheme: TurnScheme) -> Result<
    (Seq<char>, u16),
    EndpointError,
> {
    if value.len() > 0 && value[0] == '[' {
        let rest = value.skip(1);
        match split_at_text_spec(rest, "]:"@) {
            Some((host, port)) => with_port(host, port),
            None => if rest.len() > 0 && rest.last() == ']' {
                Ok((rest.drop_last(), default_port(scheme)))
            } else {
                Err(EndpointError::MalformedIpv6)
            },
        }
    } else if split_spec(value, CharClass::Is(':')).len() > 2 {
        Err(EndpointError::BareIpv6)
    } else {
        match split_once_spec(value, ':') {
            Some((host, port)) => if host.len() == 0 {
                Err(EndpointError::EmptyHost)
            } else {
                with_port(host, port)
            },
            None => Ok((value, default_port(scheme))),
        }
    }
}

/// What goes over the wire to an address in a mode.
pub open spec fn wire_spec(mode: TurnTransportMode, uri: UriModel) -> Result<
    TurnWireTransport,
    EndpointError,
> {
    match mode {
        TurnTransportMode::Udp => if uri.scheme == TurnScheme::Turns {
            Err(EndpointError::TlsInUdpMode)
        } else if uri.transport == Some(UriTransport::Tcp) {
            Err(EndpointError::TcpInUdpMode)
        } else {
            Ok(TurnWireTransport::Udp)
        },
        TurnTransportMode::TcpTls => if uri.transport == Some(UriTransport::Udp) {
            Err(EndpointError::UdpInTcpMode)
        } else if uri.scheme == TurnScheme::Turns {
            Ok(TurnWireTransport::Tls)
        } else {
            Ok(TurnWireTransport::Tcp)
        },
    }
}

/// An override that says something.
pub open spec fn override_spec(value: Option<Seq<char>>) -> Option<Seq<char>> {
    match value {
        Some(text) => if trimmed(text).len() > 0 {
            Some(trimmed(text))
        } else {
            None
        },
        None => None,
    }
}

/// The host, port and transport of a relay.
pub open spec fn endpoint_spec(
    value: Seq<char>,
    override_host: Option<Seq<char>>,
    override_port: Option<Seq<char>>,
    mode: TurnTransportMode,
) -> Result<(Seq<char>, u16, TurnWireTransport), EndpointError> {
    match uri_spec(value) {
        Err(e) => Err(e),
        Ok(uri) => match authority_spec(uri.authority, uri.scheme) {
            Err(e) => Err(e),
            Ok((own_host, own_port)) => {
                let host = match override_spec(override_host) {
                    Some(host) => host,
                    None => own_host,
                };
                let port = match override_spec(override_port) {
                    Some(text) => port_spec(text),
                    None => Ok(own_port),
                };
                match port {
                    Err(e) => Err(e),
                    Ok(port) => if host.len() == 0 {
                        Err(EndpointError::EmptyHost)
                    } else {
                        match wire_spec(mode, uri) {
                            Err(e) => Err(e),
                            Ok(transport) => Ok((host, port, transport)),
                        }
                    },
                }
            },
        },
    }
}

struct TurnUri {
    scheme: TurnScheme,
    authority: Vec<char>,
    transport: Option<UriTransport>,
}

impl TurnUri {
    spec fn model(&self) -> UriModel {
        UriModel {
            scheme: self.scheme,
            authority: self.authority@,
            transport: self.transport,
        }
    }
}

fn cut<'a>(s: &'a [char], c: char) -> (r: (&'a [char], &'a [char]))
    ensures
        (r.0@, r.1@) == cut_spec(s@, c),
{
    match split_once(s, c) {
        Some(parts) => parts,
        None => {
            let none = vstd::slice::slice_subrange(s, 0, 0);
            assert(none@ =~= Seq::<char>::empty());
            (s, none)
        },
    }
}

fn transport_of(parameters: &Vec<Vec<char>>) -> (r: Result<Option<UriTransport>, EndpointError>)
    ensures
        r == transport_spec(pieces(parameters@), None),
{
    let ghost all = pieces(parameters@);
    let mut so_far: Option<UriTransport> = None;
    let mut i: usize = 0;
    assert(all.skip(0) =~= all);
    while i < parameters.len()
        invariant
            i <= parameters@.len(),
            all == pieces(parameters@),
            transport_spec(all.skip(i as int), so_far) == transport_spec(all, None),
        decreases parameters@.len() - i,
    {
        assert(all.skip(i as int)[0] == parameters@[i as int]@);
        assert(all.skip(i as int).skip(1) =~= all.skip(i + 1));
        let (key, value) = cut(parameters[i].as_slice(), '=');
        if spells(lower(key).as_slice(), "transport") {
            let name = lower(value);
            let parsed = if spells(name.as_slice(), "udp") {
                UriTransport::Udp
            } else if spells(name.as_slice(), "tcp") {
                UriTransport::Tcp
            } else {
                return Err(EndpointError::UnsupportedTransport);
            };
            if so_far.is_some() {
                return Err(EndpointError::DuplicateTransport);
            }
            proof {
                reveal_strlit("udp");
                reveal_strlit("tcp");
            }
            so_far = Some(parsed);
        }
        i = i + 1;
    }
    assert(all.skip(i as int) =~= Seq::<Seq<char>>::empty());
    Ok(so_far)
}

fn parse_turn_uri(text: &str) -> (r: Result<TurnUri, EndpointError>)
    ensures
        match r {
            Ok(uri) => uri_spec(text@) == Ok::<UriModel, EndpointError>(uri.model()),
            Err(e) => uri_spec(text@) == Err::<UriModel, EndpointError>(e),
        },
{
    let all = chars_of(text);
    let value = trim(all.as_slice());
    if value.len() == 0 {
        return Err(EndpointError::Empty);
    }
    let name = lower(value);
    proof {
        reveal_strlit("turns:");
        reveal_strlit("turn:");
    }
    let (scheme, rest) = if starts_with(name.as_slice(), "turns:") {
        (TurnScheme::Turns, vstd::slice::slice_subrange(value, 6, value.len()))
    } else if starts_with(name.as_slice(), "turn:") {
        (TurnScheme::Turn, vstd::slice::slice_subrange(value, 5, value.len()))
    } else {
        (TurnScheme::Bare, value)
    };
    assert((scheme, rest@) == scheme_spec(value@)) by {
        assert(rest@ =~= scheme_spec(value@).1);
    }
    let (authority, query) = cut(rest, '?');
    if authority.len() == 0 {
        return Err(EndpointError::EmptyAuthority);
    }
    let parameters = drop_empty(split(query, CharClass::Is('&')));
    let transport = match transport_of(&parameters) {
        Ok(transport) => transport,
        Err(e) => {
            return Err(e);
        },
    };
    if scheme == TurnScheme::Turns && transport == Some(UriTransport::Udp) {
        return Err(EndpointError::TurnsOverUdp);
    }
    Ok(TurnUri { scheme, authority: vstd::slice::slice_to_vec(authority), transport })
}

fn parse_port(text: &[char]) -> (r: Result<u16, EndpointError>)
    ensures
        r == port_spec(text@),
{
    match parse_u16(text) {
        Some(port) => Ok(port),
        None => Err(EndpointError::InvalidPort),
    }
}

fn parse_authority<'a>(value: &'a [char], scheme: TurnScheme) -> (r: Result<
    (&'a [char], u16),
    EndpointError,
>)
    ensures
        match r {
            Ok((host, port)) => authority_spec(value@, scheme) == Ok::<
                (Seq<char>, u16),
                EndpointError,
            >((host@, port)),
            Err(e) => authority_spec(value@, scheme) == Err::<(Seq<char>, u16), EndpointError>(e),
        },
{
    let fallback: u16 = match scheme {
        TurnScheme::Turns => DEFAULT_TLS_PORT,
        TurnScheme::Turn | TurnScheme::Bare => DEFAULT_PORT,
    };
    if value.len() > 0 && value[0] == '[' {
        let rest = vstd::slice::slice_subrange(value, 1, value.len());
        assert(rest@ =~= value@.skip(1));
        let (host, port) = match split_at_text(rest, "]:") {
            Some(parts) => parts,
            None => {
                let n: usize = rest.len();
                if n > 0 && rest[n - 1] == ']' {
                    let host = vstd::slice::slice_subrange(rest, 0, n - 1);
                    assert(host@ =~= rest@.drop_last());
                    return Ok((host, fallback));
                }
                return Err(EndpointError::MalformedIpv6);
            },
        };
        return match parse_port(port) {
            Ok(port) => Ok((host, port)),
            Err(e) => Err(e),
        };
    }
    if split(value, CharClass::Is(':')).len() > 2 {
        return Err(EndpointError::BareIpv6);
    }
    match split_once(value, ':') {
        Some((host, port)) => {
            if host.len() == 0 {
                return Err(EndpointError::EmptyHost);
            }
            match parse_port(port) {
                Ok(port) => Ok((host, port)),
                Err(e) => Err(e),
            }
        },
        None => Ok((value, fallback)),
    }
}

/// The view of an optional text.
pub open spec fn optional(value: Option<&str>) -> Option<Seq<char>> {
    match value {
        Some(text) => Some(text@),
        None => None,
    }
}

fn override_of(value: Option<&str>) -> (r: Option<Vec<char>>)
    ensures
        match r {
            Some(text) => override_spec(optional(value)) == Some(text@),
            None => override_spec(optional(value)) is None,
        },
{
    match value {
        Some(text) => {
            let all = chars_of(text);
            let kept = trim(all.as_slice());
            if kept.len() > 0 {
                Some(vstd::slice::slice_to_vec(kept))
            } else {
                None
            }
        },
        None => None,
    }
}

/// The endpoints at which a relay can be reached in a mode: exactly one, where
/// the address allows the mode at all.
pub fn resolve_turn_endpoints(
    value: &str,
    override_host: Option<&str>,
    override_port: Option<&str>,
    mode: TurnTransportMode,
) -> (r: Result<Vec<TurnEndpoint>, EndpointError>)
    ensures
        match (r, endpoint_spec(value@, optional(override_host), optional(override_port), mode)) {
            (Ok(list), Ok((host, port, transport))) => {
                &&& list@.len() == 1
                &&& list@[0].host@ == host
                &&& list@[0].port == port
                &&& list@[0].transport == transport
            },
            (Err(e), Err(expected)) => e == expected,
            _ => false,
        },
{
    let uri = match parse_turn_uri(value) {
        Ok(uri) => uri,
        Err(e) => {
            return Err(e);
        },
    };
    let (own_host, own_port) = match parse_authority(uri.authority.as_slice(), uri.scheme) {
        Ok(parts) => parts,
        Err(e) => {
            return Err(e);
        },
    };
    let other_host = override_of(override_host);
    let host: &[char] = match &other_host {
        Some(host) => host.as_slice(),
        None => own_host,
    };
    let port: u16 = match override_of(override_port) {
        Some(text) => match parse_port(text.as_slice()) {
            Ok(port) => port,
            Err(e) => {
                return Err(e);
            },
        },
        None => own_port,
    };
    if host.len() == 0 {
        return Err(EndpointError::EmptyHost);
    }
    let tcp = uri.transport == Some(UriTransport::Tcp);
    let udp = uri.transport == Some(UriTransport::Udp);
    let transport = match mode {
        TurnTransportMode::Udp => {
            if uri.scheme == TurnScheme::Turns {
                return Err(EndpointError::TlsInUdpMode);
            }
            if tcp {
                return Err(EndpointError::TcpInUdpMode);
            }
            TurnWireTransport::Udp
        },
        TurnTransportMode::TcpTls => {
            if udp {
                return Err(EndpointError::UdpInTcpMode);
            }
            if uri.scheme == TurnScheme::Turns {
                TurnWireTransport::Tls
            } else {
                TurnWireTransport::Tcp
            }
        },
    };
    let mut list: Vec<TurnEndpoint> = Vec::new();
    list.push(TurnEndpoint { host: string_of(host), port, transport });
    Ok(list)
}

pub fn is_supported_turn_uri(value: &str) -> (r: bool)
    ensures
        r == (uri_spec(value@) is Ok),
{
    parse_turn_uri(value).is_ok()
}

/// A relay behind TLS is never reached over plain transports, and a mode never
/// yields what it is not: in UDP mode UDP alone, in TCP mode TLS exactly for the
/// `turns` scheme.
pub proof fn law_mode_is_kept(
    value: Seq<char>,
    override_host: Option<Seq<char>>,
    override_port: Option<Seq<char>>,
    mode: TurnTransportMode,
)
    ensures
        match endpoint_spec(value, override_host, override_port, mode) {
            Ok((host, port, transport)) => {
                &&& host.len() > 0
                &&& (mode == TurnTransportMode::Udp) == (transport == TurnWireTransport::Udp)
                &&& (transport == TurnWireTransport::Tls) == (scheme_spec(trimmed(value)).0
                    == TurnScheme::Turns)
            },
            Err(_) => true,
        },
{
}

/// A host that is read back from an authority: one with a colon does not end its
/// brackets, any other does not look like a scheme or an address in brackets and
/// has no space before it, and neither begins a query.
pub open spec fn is_plain_host(host: Seq<char>) -> bool {
    &&& !host.contains('?')
    &&& if host.contains(':') {
        !has_text(host, "]:"@)
    } else {
        &&& host.len() > 0
        &&& host[0] != '['
        &&& !is_white_space(host[0])
        &&& lower_spec(host) != "turn"@
        &&& lower_spec(host) != "turns"@
    }
}

proof fn lemma_trimmed_is(s: Seq<char>)
    requires
        s.len() > 0,
        !is_white_space(s[0]),
        !is_white_space(s.last()),
    ensures
        trimmed(s) == s,
{
}

/// A text without a question mark is all authority.
proof fn lemma_uncut(s: Seq<char>, c: char)
    requires
        !s.contains(c),
    ensures
        cut_spec(s, c) == (s, Seq::<char>::empty()),
{
    crate::text::lemma_first_in(s, CharClass::Is(c));
    let i = crate::text::first_in(s, CharClass::Is(c));
    if i < s.len() {
        assert(s[i] == c);
    }
}

proof fn lemma_no_query()
    ensures
        transport_spec(
            non_empty(split_spec(Seq::<char>::empty(), CharClass::Is('&'))),
            None,
        ) == Ok::<Option<UriTransport>, EndpointError>(None),
{
    let query = Seq::<char>::empty();
    let parts = split_spec(query, CharClass::Is('&'));
    assert(parts =~= seq![query]);
    assert(parts.drop_last() =~= Seq::<Seq<char>>::empty());
    assert(non_empty(parts) =~= Seq::<Seq<char>>::empty()) by {
        reveal_with_fuel(non_empty, 2);
    }
}

/// A prefix that ends with a colon is one of a text up to its first colon.
proof fn lemma_scheme_is_host(host: Seq<char>, rest: Seq<char>, prefix: Seq<char>, name: Seq<char>)
    requires
        !host.contains(':'),
        prefix == name.push(':'),
        !name.contains(':'),
        has_prefix(lower_spec(host + seq![':'] + rest), prefix),
    ensures
        lower_spec(host) == name,
{
    let text = host + seq![':'] + rest;
    let low = lower_spec(text);
    let n = host.len() as int;
    let m = name.len() as int;
    assert(low.subrange(0, prefix.len() as int) == prefix);
    assert forall|k: int| 0 <= k < prefix.len() implies low[k] == prefix[k] by {
        assert(low.subrange(0, prefix.len() as int)[k] == low[k]);
    }
    assert(text[n] == ':');
    assert(low[n] == ':');
    if n < m {
        assert(prefix[n] == name[n]);
        assert(name.contains(name[n]));
    } else if n > m {
        assert(low[m] == ':');
        assert(low[m] == lower_char(host[m]));
        assert(host[m] == ':');
        assert(host.contains(host[m]));
    }
    assert forall|k: int| 0 <= k < n implies lower_spec(host)[k] == name[k] by {
        assert(low[k] == lower_char(text[k]));
        assert(text[k] == host[k]);
        assert(prefix[k] == name[k]);
    }
    assert(lower_spec(host) =~= name);
}

/// An authority that was printed for a host and a port is read as that host and
/// that port. Every IPv6 address is such a host.
pub proof fn law_authority_reads_back(host: Seq<char>, port: u16)
    ensures
        is_plain_host(host) ==> endpoint_spec(
            authority_text(host, port),
            None,
            None,
            TurnTransportMode::Udp,
        ) == Ok::<(Seq<char>, u16, TurnWireTransport), EndpointError>(
            (host, port, TurnWireTransport::Udp),
        ),
        is_ipv6_text(host) ==> is_plain_host(host) && host.contains(':'),
{
    if is_plain_host(host) {
        lemma_reads_back(host, port);
    }
    if is_ipv6_text(host) {
        crate::net::lemma_ipv6_is_plain(host, '?');
        crate::net::lemma_ipv6_is_plain(host, ']');
        reveal_strlit("]:");
        assert forall|i: int| !occurs_at(host, "]:"@, i) by {
            if occurs_at(host, "]:"@, i) {
                assert(host.subrange(i, i + 2)[0] == ']');
                assert(host[i] == ']');
            }
        }
    }
}

proof fn lemma_reads_back(host: Seq<char>, port: u16)
    requires
        is_plain_host(host),
    ensures
        endpoint_spec(authority_text(host, port), None, None, TurnTransportMode::Udp) == Ok::<
            (Seq<char>, u16, TurnWireTransport),
            EndpointError,
        >((host, port, TurnWireTransport::Udp)),
{
    let digits = decimal(port as nat);
    let text = authority_text(host, port);
    let n = host.len() as int;
    crate::text::lemma_decimal(port as nat);
    crate::text::law_decimal_round_trip(port as nat, u16::MAX as nat);
    reveal_strlit("]:");
    reveal_strlit("turn:");
    reveal_strlit("turns:");
    reveal_strlit("turn");
    reveal_strlit("turns");
    assert(is_digit(digits[digits.len() - 1]));
    assert(text.last() == digits.last());
    assert(!is_white_space(text.last()));
    assert(!text.contains('?')) by {
        if text.contains('?') {
            let k = choose|k: int| 0 <= k < text.len() && text[k] == '?';
            let from = text.len() - digits.len();
            if k >= from {
                assert(text[k] == digits[k - from]);
                assert(is_digit(digits[k - from]));
            } else if host.contains(':') {
                if 1 <= k <= n {
                    assert(text[k] == host[k - 1]);
                }
            } else if k < n {
                assert(text[k] == host[k]);
            }
        }
    }
    lemma_uncut(text, '?');
    lemma_no_query();
    if host.contains(':') {
        assert(text[0] == '[');
        lemma_trimmed_is(text);
        let low = lower_spec(text);
        assert(low[0] == '[');
        assert(!has_prefix(low, "turns:"@)) by {
            if has_prefix(low, "turns:"@) {
                assert(low.subrange(0, 6)[0] == 't');
            }
        }
        assert(!has_prefix(low, "turn:"@)) by {
            if has_prefix(low, "turn:"@) {
                assert(low.subrange(0, 5)[0] == 't');
            }
        }
        let rest = text.skip(1);
        let needle = "]:"@;
        assert(rest =~= host + needle + digits);
        assert(rest.subrange(n, n + 2) =~= needle);
        assert(occurs_at(rest, needle, n));
        crate::text::lemma_first_text(rest, needle);
        let i = crate::text::first_text(rest, needle)->0;
        assert(i == n) by {
            if i < n {
                assert(rest.subrange(i, i + 2)[0] == ']');
                assert(rest.subrange(i, i + 2)[1] == ':');
                assert(rest[i] == ']' && rest[i + 1] == ':');
                if i + 1 == n {
                    assert(rest[n] == ']');
                } else {
                    assert(host.subrange(i, i + 2) =~= needle);
                    assert(occurs_at(host, needle, i));
                }
            } else if i > n {
                assert(!occurs_at(rest, needle, n));
            }
        }
        assert(rest.take(n) =~= host);
        assert(rest.skip(n + 2) =~= digits);
    } else {
        assert(text[0] == host[0]);
        lemma_trimmed_is(text);
        assert(!has_prefix(lower_spec(text), "turns:"@)) by {
            if has_prefix(lower_spec(text), "turns:"@) {
                assert("turns:"@ =~= "turns"@.push(':'));
                lemma_scheme_is_host(host, digits, "turns:"@, "turns"@);
            }
        }
        assert(!has_prefix(lower_spec(text), "turn:"@)) by {
            if has_prefix(lower_spec(text), "turn:"@) {
                assert("turn:"@ =~= "turn"@.push(':'));
                lemma_scheme_is_host(host, digits, "turn:"@, "turn"@);
            }
        }
        let colon = CharClass::Is(':');
        assert forall|k: int| 0 <= k < n implies !colon.holds(text[k]) by {
            assert(text[k] == host[k]);
            assert(host.contains(host[k]));
        }
        assert(text[n] == ':');
        crate::text::lemma_first_in_is(text, colon, n);
        assert(text.take(n) =~= host);
        assert(text.skip(n + 1) =~= digits);
        assert forall|k: int| 0 <= k < digits.len() implies !colon.holds(digits[k]) by {
            assert(is_digit(digits[k]));
        }
        crate::text::lemma_first_in_is(digits, colon, digits.len() as int);
        assert(split_spec(digits, colon).len() == 1);
        assert(split_spec(text, colon).len() == 2);
    }
}

// ---------------------------------------------------------------------------
// What overrides and addresses say
// ---------------------------------------------------------------------------

/// An override that says nothing: none, or white space alone.
pub open spec fn is_blank(value: Option<Seq<char>>) -> bool {
    value is None || trimmed(value->0).len() == 0
}

/// Each override stands for itself. One that says nothing is as good as none.
/// Another port takes the place of the port alone, whatever is said of the host,
/// and must be a number; another host takes the place of the host alone, whatever
/// is said of the port.
pub proof fn law_overrides_stand_for_themselves(
    value: Seq<char>,
    host: Option<Seq<char>>,
    port: Option<Seq<char>>,
    mode: TurnTransportMode,
)
    ensures
        is_blank(port) ==> endpoint_spec(value, host, port, mode) == endpoint_spec(
            value,
            host,
            None,
            mode,
        ),
        is_blank(host) ==> endpoint_spec(value, host, port, mode) == endpoint_spec(
            value,
            None,
            port,
            mode,
        ),
        !is_blank(port) ==> match endpoint_spec(value, host, None, mode) {
            Ok((own_host, own_port, transport)) => match parse_unsigned(trimmed(port->0), 65535) {
                Some(n) => endpoint_spec(value, host, port, mode) == Ok::<
                    (Seq<char>, u16, TurnWireTransport),
                    EndpointError,
                >((own_host, n as u16, transport)),
                None => endpoint_spec(value, host, port, mode) == Err::<
                    (Seq<char>, u16, TurnWireTransport),
                    EndpointError,
                >(EndpointError::InvalidPort),
            },
            Err(_) => endpoint_spec(value, host, port, mode) is Err,
        },
        !is_blank(host) ==> match endpoint_spec(value, None, port, mode) {
            Ok((own_host, own_port, transport)) => endpoint_spec(value, host, port, mode) == Ok::<
                (Seq<char>, u16, TurnWireTransport),
                EndpointError,
            >((trimmed(host->0), own_port, transport)),
            Err(EndpointError::EmptyHost) => true,
            Err(e) => endpoint_spec(value, host, port, mode) == Err::<
                (Seq<char>, u16, TurnWireTransport),
                EndpointError,
            >(e),
        },
        endpoint_spec(value, host, port, mode) matches Ok((h, p, t)) ==> {
            &&& !is_blank(host) ==> h == trimmed(host->0)
            &&& !is_blank(port) ==> parse_unsigned(trimmed(port->0), 65535) == Some(p as nat)
        },
{
}

/// A host as it is written in an address, and a port behind it if there is one.
pub open spec fn written(host: Seq<char>, port: Option<u16>) -> Seq<char> {
    let name = if host.contains(':') {
        seq!['['] + host + seq![']']
    } else {
        host
    };
    match port {
        Some(port) => name + seq![':'] + decimal(port as nat),
        None => name,
    }
}

/// A parameter of an address behind it, if there is one.
pub open spec fn with_query(query: Option<Seq<char>>) -> Seq<char> {
    match query {
        Some(name) => "?transport="@ + name,
        None => Seq::empty(),
    }
}

/// A host that can be written in an address.
pub open spec fn is_host(host: Seq<char>) -> bool {
    &&& host.len() > 0
    &&& !host.contains('?')
    &&& !has_text(host, "]:"@)
    &&& host.contains(':') || (host[0] != '[' && !is_white_space(host[0]) && !is_white_space(
        host.last(),
    ))
}

proof fn lemma_written_authority(host: Seq<char>, port: Option<u16>, scheme: TurnScheme)
    requires
        is_host(host),
    ensures
        authority_spec(written(host, port), scheme) == Ok::<(Seq<char>, u16), EndpointError>(
            (
                host,
                match port {
                    Some(port) => port,
                    None => if scheme == TurnScheme::Turns {
                        5349
                    } else {
                        3478
                    },
                },
            ),
        ),
        !written(host, port).contains('?'),
        written(host, port).len() > 0,
        !is_white_space(written(host, port)[0]),
        !is_white_space(written(host, port).last()),
{
    let text = written(host, port);
    let n = host.len() as int;
    let digits = match port {
        Some(port) => decimal(port as nat),
        None => Seq::empty(),
    };
    if let Some(p) = port {
        crate::text::lemma_decimal(p as nat);
        crate::text::law_decimal_round_trip(p as nat, u16::MAX as nat);
        assert(is_digit(digits[digits.len() - 1]));
        assert(text.last() == digits.last());
    }
    reveal_strlit("]:");
    let needle = "]:"@;
    assert(!text.contains('?')) by {
        if text.contains('?') {
            let k = choose|k: int| 0 <= k < text.len() && text[k] == '?';
            let from = text.len() - digits.len();
            if k >= from {
                assert(text[k] == digits[k - from]);
                assert(is_digit(digits[k - from]));
            } else if host.contains(':') {
                if 1 <= k <= n {
                    assert(text[k] == host[k - 1]);
                    assert(host.contains(host[k - 1]));
                }
            } else if k < n {
                assert(text[k] == host[k]);
                assert(host.contains(host[k]));
            }
        }
    }
    if host.contains(':') {
        assert(text[0] == '[');
        let rest = text.skip(1);
        if port is Some {
            assert(rest =~= host + needle + digits);
            assert(rest.subrange(n, n + 2) =~= needle);
            assert(occurs_at(rest, needle, n));
        } else {
            assert(rest =~= host.push(']'));
            assert(rest.last() == ']');
            assert(rest.drop_last() =~= host);
            assert(text.last() == ']');
        }
        crate::text::lemma_first_text(rest, needle);
        assert forall|i: int| i < n implies !occurs_at(rest, needle, i) by {
            if occurs_at(rest, needle, i) {
                assert(rest.subrange(i, i + 2)[0] == ']');
                assert(rest.subrange(i, i + 2)[1] == ':');
                assert(rest[i] == ']' && rest[i + 1] == ':');
                if i + 1 == n {
                    assert(rest[n] == ']');
                } else {
                    assert(host.subrange(i, i + 2) =~= needle);
                    assert(occurs_at(host, needle, i));
                }
            }
        }
        if port is Some {
            let i = crate::text::first_text(rest, needle)->0;
            assert(i == n) by {
                if i > n {
                    assert(!occurs_at(rest, needle, n));
                }
            }
            assert(rest.take(n) =~= host);
            assert(rest.skip(n + 2) =~= digits);
        } else {
            assert forall|i: int| !occurs_at(rest, needle, i) by {
                if i >= n && occurs_at(rest, needle, i) {
                    assert(i + 2 <= rest.len());
                }
            }
        }
    } else {
        assert(text[0] == host[0]);
        let colon = CharClass::Is(':');
        assert forall|k: int| 0 <= k < n implies !colon.holds(text[k]) by {
            assert(text[k] == host[k]);
            assert(host.contains(host[k]));
        }
        if port is Some {
            assert(text[n] == ':');
            crate::text::lemma_first_in_is(text, colon, n);
            assert(text.take(n) =~= host);
            assert(text.skip(n + 1) =~= digits);
            assert forall|k: int| 0 <= k < digits.len() implies !colon.holds(digits[k]) by {
                assert(is_digit(digits[k]));
            }
            crate::text::lemma_first_in_is(digits, colon, digits.len() as int);
            assert(split_spec(digits, colon).len() == 1);
            assert(split_spec(text, colon).len() == 2);
        } else {
            assert(text =~= host);
            crate::text::lemma_first_in_is(text, colon, n);
            assert(split_spec(text, colon).len() == 1);
        }
    }
}

proof fn lemma_one_parameter(name: Seq<char>)
    requires
        lower_spec(name) == "udp"@ || lower_spec(name) == "tcp"@,
    ensures
        transport_spec(
            non_empty(split_spec("transport="@ + name, CharClass::Is('&'))),
            None,
        ) == Ok::<Option<UriTransport>, EndpointError>(
            Some(
                if lower_spec(name) == "udp"@ {
                    UriTransport::Udp
                } else {
                    UriTransport::Tcp
                },
            ),
        ),
{
    let text = "transport="@ + name;
    reveal_strlit("transport=");
    reveal_strlit("transport");
    reveal_strlit("udp");
    reveal_strlit("tcp");
    let low = lower_spec(name);
    assert("udp"@.len() == 3 && "tcp"@.len() == 3);
    assert(low.len() == name.len());
    assert forall|k: int| 0 <= k < text.len() implies text[k] != '&' by {
        if k >= 10 {
            assert(text[k] == name[k - 10]);
            assert(low[k - 10] == lower_char(name[k - 10]));
        }
    }
    let and = CharClass::Is('&');
    crate::text::lemma_first_in_is(text, and, text.len() as int);
    let parts = split_spec(text, and);
    assert(parts =~= seq![text]);
    assert(parts.drop_last() =~= Seq::<Seq<char>>::empty());
    assert(non_empty(parts) =~= seq![text]) by {
        reveal_with_fuel(non_empty, 2);
    }
    crate::text::lemma_first_in_is(text, CharClass::Is('='), 9);
    assert(text.take(9) =~= "transport"@);
    assert(text.skip(10) =~= name);
    assert(lower_spec("transport"@) =~= "transport"@);
    let list = seq![text];
    assert(list.skip(1) =~= Seq::<Seq<char>>::empty());
    reveal_with_fuel(transport_spec, 2);
}

proof fn lemma_uri_as_written(
    prefix: Seq<char>,
    host: Seq<char>,
    port: Option<u16>,
    query: Option<Seq<char>>,
)
    requires
        is_host(host),
        lower_spec(prefix) == "turn:"@ || lower_spec(prefix) == "turns:"@,
        query matches Some(name) ==> lower_spec(name) == "udp"@ || lower_spec(name) == "tcp"@,
    ensures
        uri_spec(prefix + written(host, port) + with_query(query)) == ({
            let scheme = if lower_spec(prefix) == "turns:"@ {
                TurnScheme::Turns
            } else {
                TurnScheme::Turn
            };
            let transport = match query {
                Some(name) => Some(
                    if lower_spec(name) == "udp"@ {
                        UriTransport::Udp
                    } else {
                        UriTransport::Tcp
                    },
                ),
                None => None,
            };
            if scheme == TurnScheme::Turns && transport == Some(UriTransport::Udp) {
                Err(EndpointError::TurnsOverUdp)
            } else {
                Ok(UriModel { scheme, authority: written(host, port), transport })
            }
        }),
{
    reveal_strlit("turn:");
    reveal_strlit("turns:");
    reveal_strlit("?transport=");
    reveal_strlit("transport=");
    reveal_strlit("udp");
    reveal_strlit("tcp");
    let secure = lower_spec(prefix) == "turns:"@;
    let scheme = if secure {
        TurnScheme::Turns
    } else {
        TurnScheme::Turn
    };
    let m = prefix.len() as int;
    assert(lower_spec(prefix).len() == m);
    let authority = written(host, port);
    let rest = authority + with_query(query);
    let text = prefix + authority + with_query(query);
    assert(text =~= prefix + rest);
    lemma_written_authority(host, port, scheme);
    // No space at either edge.
    assert(lower_spec(prefix)[0] == 't');
    assert(lower_spec(prefix)[0] == lower_char(prefix[0]));
    assert(!is_white_space(prefix[0]));
    assert(!is_white_space(text.last())) by {
        match query {
            Some(name) => {
                let low = lower_spec(name);
                assert(low.len() == 3);
                assert(low[2] == lower_char(name[2]));
                assert(text.last() == name[2]);
            },
            None => {
                assert(text.last() == authority.last());
            },
        }
    }
    assert(text[0] == prefix[0]);
    lemma_trimmed_is(text);
    // The scheme.
    let low = lower_spec(text);
    assert(low.subrange(0, m) =~= lower_spec(prefix)) by {
        assert forall|k: int| 0 <= k < m implies low.subrange(0, m)[k] == lower_spec(prefix)[k] by {
            assert(text[k] == prefix[k]);
        }
    }
    if !secure {
        assert(!has_prefix(low, "turns:"@)) by {
            if has_prefix(low, "turns:"@) {
                assert(low.subrange(0, 6)[4] == 's');
                assert(low.subrange(0, m)[4] == ':');
            }
        }
    }
    assert(text.skip(m) =~= rest);
    assert(scheme_spec(text) == (scheme, rest));
    // The query.
    match query {
        Some(name) => {
            let mark = CharClass::Is('?');
            let n = authority.len() as int;
            assert forall|k: int| 0 <= k < n implies !mark.holds(rest[k]) by {
                assert(rest[k] == authority[k]);
                assert(authority.contains(authority[k]));
            }
            assert(rest[n] == '?');
            crate::text::lemma_first_in_is(rest, mark, n);
            assert(rest.take(n) =~= authority);
            assert(rest.skip(n + 1) =~= "transport="@ + name);
            lemma_one_parameter(name);
        },
        None => {
            assert(rest =~= authority);
            lemma_uncut(rest, '?');
            lemma_no_query();
        },
    }
}

/// An address is read as it is written, in any case of its letters: the scheme,
/// the host, the port, which is 5349 with `turns` and 3478 without it where none
/// is written, and the transport behind the question mark. In UDP mode it is
/// reached over UDP unless it asks for TLS or TCP, in TCP mode over TLS exactly
/// with `turns` and over TCP otherwise, unless it asks for UDP.
pub proof fn law_addresses_are_read_as_written(
    prefix: Seq<char>,
    host: Seq<char>,
    port: Option<u16>,
    query: Option<Seq<char>>,
    mode: TurnTransportMode,
)
    requires
        is_host(host),
        lower_spec(prefix) == "turn:"@ || lower_spec(prefix) == "turns:"@,
        query matches Some(name) ==> lower_spec(name) == "udp"@ || lower_spec(name) == "tcp"@,
    ensures
        ({
            let text = prefix + written(host, port) + with_query(query);
            let secure = lower_spec(prefix) == "turns:"@;
            let udp = query matches Some(name) && lower_spec(name) == "udp"@;
            let tcp = query matches Some(name) && lower_spec(name) == "tcp"@;
            let own_port: u16 = match port {
                Some(port) => port,
                None => if secure {
                    5349
                } else {
                    3478
                },
            };
            let r = endpoint_spec(text, None, None, mode);
            if mode == TurnTransportMode::Udp {
                if secure || tcp {
                    r is Err
                } else {
                    r == Ok::<(Seq<char>, u16, TurnWireTransport), EndpointError>(
                        (host, own_port, TurnWireTransport::Udp),
                    )
                }
            } else {
                if udp {
                    r is Err
                } else if secure {
                    r == Ok::<(Seq<char>, u16, TurnWireTransport), EndpointError>(
                        (host, own_port, TurnWireTransport::Tls),
                    )
                } else {
                    r == Ok::<(Seq<char>, u16, TurnWireTransport), EndpointError>(
                        (host, own_port, TurnWireTransport::Tcp),
                    )
                }
            }
        }),
{
    let secure = lower_spec(prefix) == "turns:"@;
    let scheme = if secure {
        TurnScheme::Turns
    } else {
        TurnScheme::Turn
    };
    reveal_strlit("udp");
    reveal_strlit("tcp");
    assert("udp"@[0] == 'u' && "tcp"@[0] == 't');
    lemma_written_authority(host, port, scheme);
    lemma_uri_as_written(prefix, host, port, query);
}

/// Spaces around an address do not matter, and without a scheme it is read as
/// with `turn`.
pub proof fn law_scheme_may_be_left_out(
    before: Seq<char>,
    host: Seq<char>,
    port: u16,
    after: Seq<char>,
    mode: TurnTransportMode,
)
    requires
        is_host(host),
        is_plain_host(host),
        forall|k: int| 0 <= k < before.len() ==> is_white_space(#[trigger] before[k]),
        forall|k: int| 0 <= k < after.len() ==> is_white_space(#[trigger] after[k]),
    ensures
        endpoint_spec(before + written(host, Some(port)) + after, None, None, mode)
            == endpoint_spec("turn:"@ + written(host, Some(port)), None, None, mode),
{
    reveal_strlit("turn:");
    reveal_strlit("]:");
    let text = written(host, Some(port));
    lemma_written_authority(host, Some(port), TurnScheme::Bare);
    crate::text::law_trimming_takes_the_edges(before, text, after, CharClass::WhiteSpace);
    assert(text =~= authority_text(host, port));
    lemma_reads_back(host, port);
    let whole = "turn:"@ + text;
    assert(lower_spec("turn:"@) =~= "turn:"@);
    lemma_uri_as_written("turn:"@, host, Some(port), None);
    reveal_strlit("turns:");
    assert("turn:"@.len() == 5 && "turns:"@.len() == 6);
    assert(whole + with_query(None) =~= whole);
    lemma_written_authority(host, Some(port), TurnScheme::Turn);
    lemma_uncut(text, '?');
    lemma_no_query();
    lemma_bare(host, port);
}

proof fn lemma_bare(host: Seq<char>, port: u16)
    requires
        is_host(host),
        is_plain_host(host),
    ensures
        scheme_spec(written(host, Some(port))) == (TurnScheme::Bare, written(host, Some(port))),
{
    let text = written(host, Some(port));
    let digits = decimal(port as nat);
    reveal_strlit("turn:");
    reveal_strlit("turns:");
    reveal_strlit("turn");
    reveal_strlit("turns");
    let low = lower_spec(text);
    if host.contains(':') {
        assert(low[0] == '[');
        if has_prefix(low, "turns:"@) {
            assert(low.subrange(0, 6)[0] == 't');
        }
        if has_prefix(low, "turn:"@) {
            assert(low.subrange(0, 5)[0] == 't');
        }
    } else {
        if has_prefix(low, "turns:"@) {
            assert("turns:"@ =~= "turns"@.push(':'));
            lemma_scheme_is_host(host, digits, "turns:"@, "turns"@);
        }
        if has_prefix(low, "turn:"@) {
            assert("turn:"@ =~= "turn"@.push(':'));
            lemma_scheme_is_host(host, digits, "turn:"@, "turn"@);
        }
    }
}

/// Parameters that do not name the transport say nothing, wherever they stand.
pub proof fn law_other_parameters_say_nothing(
    before: Seq<Seq<char>>,
    parameter: Seq<char>,
    after: Seq<Seq<char>>,
    so_far: Option<UriTransport>,
)
    requires
        forall|name: Seq<char>, value: Seq<char>|
            lower_spec(name) == "transport"@ ==> parameter != #[trigger] (name + seq!['='] + value)
                && parameter != name,
    ensures
        transport_spec(before + seq![parameter] + after, so_far) == transport_spec(
            before + after,
            so_far,
        ),
    decreases before.len(),
{
    let all = before + seq![parameter] + after;
    if before.len() == 0 {
        assert(all[0] == parameter);
        assert(all.skip(1) =~= after);
        assert(before + after =~= after);
        let (key, value) = cut_spec(parameter, '=');
        crate::text::lemma_first_in(parameter, CharClass::Is('='));
        let i = crate::text::first_in(parameter, CharClass::Is('='));
        if i < parameter.len() {
            assert(parameter =~= key + seq!['='] + value);
        } else {
            assert(key == parameter);
            assert(lower_spec(key) == "transport"@ ==> parameter != key + seq!['='] + value
                && parameter != key);
        }
    } else {
        let rest = before.skip(1);
        assert(all.skip(1) =~= rest + seq![parameter] + after);
        assert((before + after).skip(1) =~= rest + after);
        assert(all[0] == before[0]);
        assert((before + after)[0] == before[0]);
        let (key, value) = cut_spec(before[0], '=');
        let name = lower_spec(value);
        let next = if lower_spec(key) != "transport"@ {
            so_far
        } else if name == "udp"@ {
            Some(UriTransport::Udp)
        } else {
            Some(UriTransport::Tcp)
        };
        law_other_parameters_say_nothing(rest, parameter, after, next);
    }
}

} // verus!
