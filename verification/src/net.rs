//! Internet addresses as plain numbers.

use vstd::prelude::*;
use crate::text::{
    all_digits, decimal, digits_u64, digits_value, hex_group, is_digit, is_hex_group, pieces, split,
    split_at_text, split_at_text_spec, split_once, split_once_spec, split_spec, CharClass,
};
use crate::wire::be_bytes;

verus! {

/// An internet address, in host arithmetic: the first octet is the most
/// significant byte.
#[derive(Clone, Copy, Debug, PartialEq, Eq, Structural, Hash)]
pub enum IpAddress {
    V4(u32),
    V6(u128),
}

impl IpAddress {
    pub open spec fn octets(self) -> Seq<u8> {
        match self {
            IpAddress::V4(ip) => be_bytes(ip as nat, 4),
            IpAddress::V6(ip) => be_bytes(ip as nat, 16),
        }
    }

    pub fn is_ipv4(&self) -> (r: bool)
        ensures
            r == (self is V4),
    {
        match self {
            IpAddress::V4(_) => true,
            IpAddress::V6(_) => false,
        }
    }
}

/// An internet address with a port. The flow and the scope belong to IPv6
/// addresses.
#[derive(Clone, Copy, Debug, PartialEq, Eq, Structural, Hash)]
pub struct SocketAddress {
    pub ip: IpAddress,
    pub port: u16,
    pub flowinfo: u32,
    pub scope_id: u32,
}

impl SocketAddress {
    /// An address without flow and scope.
    pub open spec fn plain(ip: IpAddress, port: u16) -> SocketAddress {
        SocketAddress { ip, port, flowinfo: 0, scope_id: 0 }
    }

    pub fn new(ip: IpAddress, port: u16) -> (r: SocketAddress)
        ensures
            r == SocketAddress::plain(ip, port),
    {
        SocketAddress { ip, port, flowinfo: 0, scope_id: 0 }
    }

    pub fn is_ipv4(&self) -> (r: bool)
        ensures
            r == (self.ip is V4),
    {
        self.ip.is_ipv4()
    }
}

/// A number from 0 to 255 in decimal digits, without leading zeros.
pub open spec fn is_octet_text(s: Seq<char>) -> bool {
    &&& 1 <= s.len() <= 3
    &&& all_digits(s)
    &&& digits_value(s) <= 255
    &&& s.len() > 1 ==> s[0] != '0'
}

/// Four octets between dots.
pub open spec fn is_ipv4_text(s: Seq<char>) -> bool {
    let octets = split_spec(s, CharClass::Is('.'));
    octets.len() == 4 && forall|i: int| 0 <= i < 4 ==> is_octet_text(#[trigger] octets[i])
}

/// The words of two bytes that a run of groups between colons stands for; the
/// last group may be an IPv4 address where that is allowed.
pub open spec fn group_words(s: Seq<char>, mixed: bool) -> Option<int> {
    let groups = split_spec(s, CharClass::Is(':'));
    if s.len() == 0 {
        Some(0int)
    } else if exists|i: int|
        0 <= i < groups.len() - 1 && !is_hex_group(#[trigger] groups[i]) {
        None
    } else if is_hex_group(groups.last()) {
        Some(groups.len() as int)
    } else if mixed && is_ipv4_text(groups.last()) {
        Some(groups.len() + 1int)
    } else {
        None
    }
}

/// Eight words, or fewer of them with one double colon in place of the others.
pub open spec fn is_ipv6_text(s: Seq<char>) -> bool {
    match split_at_text_spec(s, "::"@) {
        Some((head, tail)) => match (group_words(head, false), group_words(tail, true)) {
            (Some(h), Some(t)) => h + t <= 7,
            _ => false,
        },
        None => group_words(s, true) == Some(8int),
    }
}

/// The text is an internet address.
pub open spec fn is_ip_text(s: Seq<char>) -> bool {
    is_ipv4_text(s) || is_ipv6_text(s)
}

fn octet_text(s: &[char]) -> (r: bool)
    ensures
        r == is_octet_text(s@),
{
    if s.len() < 1 || s.len() > 3 || (s.len() > 1 && s[0] == '0') {
        return false;
    }
    match digits_u64(s) {
        Some(n) => n <= 255,
        None => {
            proof {
                if all_digits(s@) {
                    lemma_short_digits(s@);
                }
            }
            false
        },
    }
}

proof fn lemma_short_digits(s: Seq<char>)
    requires
        s.len() <= 3,
        all_digits(s),
    ensures
        digits_value(s) <= 999,
{
    reveal_with_fuel(digits_value, 4);
}

pub fn ipv4_text(s: &[char]) -> (r: bool)
    ensures
        r == is_ipv4_text(s@),
{
    let octets = split(s, CharClass::Is('.'));
    let ghost all = split_spec(s@, CharClass::Is('.'));
    if octets.len() != 4 {
        return false;
    }
    let mut i: usize = 0;
    while i < 4
        invariant
            i <= 4,
            octets@.len() == 4,
            all == pieces(octets@),
            all == split_spec(s@, CharClass::Is('.')),
            forall|k: int| 0 <= k < i ==> is_octet_text(#[trigger] all[k]),
        decreases 4 - i,
    {
        assert(all[i as int] == octets@[i as int]@);
        if !octet_text(octets[i].as_slice()) {
            return false;
        }
        i = i + 1;
    }
    true
}

fn count_words(s: &[char], mixed: bool) -> (r: Option<usize>)
    ensures
        match r {
            Some(n) => n <= 9 && group_words(s@, mixed) == Some(n as int),
            None => match group_words(s@, mixed) {
                Some(n) => n > 8,
                None => true,
            },
        },
{
    if s.len() == 0 {
        return Some(0);
    }
    let groups = split(s, CharClass::Is(':'));
    let ghost all = split_spec(s@, CharClass::Is(':'));
    if groups.len() > 8 {
        return None;
    }
    let last: usize = groups.len() - 1;
    let mut i: usize = 0;
    while i < last
        invariant
            i <= last,
            s@.len() > 0,
            last == groups@.len() - 1,
            all == pieces(groups@),
            all == split_spec(s@, CharClass::Is(':')),
            forall|k: int| 0 <= k < i ==> is_hex_group(#[trigger] all[k]),
        decreases last - i,
    {
        assert(all[i as int] == groups@[i as int]@);
        if !hex_group(groups[i].as_slice()) {
            return None;
        }
        i = i + 1;
    }
    assert(all.last() == groups@[last as int]@);
    if hex_group(groups[last].as_slice()) {
        Some(groups.len())
    } else if mixed && ipv4_text(groups[last].as_slice()) {
        Some(groups.len() + 1)
    } else {
        None
    }
}

pub fn ip_text(s: &[char]) -> (r: bool)
    ensures
        r == is_ip_text(s@),
{
    if ipv4_text(s) {
        return true;
    }
    match split_at_text(s, "::") {
        Some((head, tail)) => match (count_words(head, false), count_words(tail, true)) {
            (Some(h), Some(t)) => h + t <= 7,
            _ => false,
        },
        None => match count_words(s, true) {
            Some(n) => n == 8,
            None => false,
        },
    }
}

// ---------------------------------------------------------------------------
// The addresses that texts stand for
// ---------------------------------------------------------------------------

/// The number that four octets stand for.
pub open spec fn ipv4_value(s: Seq<char>) -> nat {
    let octets = split_spec(s, CharClass::Is('.'));
    digits_value(octets[0]) * 0x100_0000 + digits_value(octets[1]) * 0x1_0000 + digits_value(
        octets[2],
    ) * 0x100 + digits_value(octets[3])
}

pub open spec fn hex_digit_value(c: char) -> int {
    if '0' <= c <= '9' {
        c as u32 - 48
    } else if 'a' <= c <= 'f' {
        c as u32 - 87
    } else {
        c as u32 - 55
    }
}

pub open spec fn hex_value(s: Seq<char>) -> int
    decreases s.len(),
{
    if s.len() == 0 {
        0
    } else {
        hex_value(s.drop_last()) * 16 + hex_digit_value(s.last())
    }
}

/// The values of groups of hexadecimal digits.
pub open spec fn hex_values(groups: Seq<Seq<char>>) -> Seq<int> {
    Seq::new(groups.len(), |i: int| hex_value(groups[i]))
}

/// The words that a run of groups stands for.
pub open spec fn group_values(s: Seq<char>) -> Seq<int> {
    let groups = split_spec(s, CharClass::Is(':'));
    if s.len() == 0 {
        Seq::empty()
    } else if is_hex_group(groups.last()) {
        hex_values(groups)
    } else {
        let last = ipv4_value(groups.last()) as int;
        hex_values(groups.drop_last()) + seq![last / 0x1_0000, last % 0x1_0000]
    }
}

/// The eight words of an address.
pub open spec fn ipv6_words(s: Seq<char>) -> Seq<int> {
    match split_at_text_spec(s, "::"@) {
        Some((head, tail)) => {
            let front = group_values(head);
            let back = group_values(tail);
            front + Seq::new((8 - front.len() - back.len()) as nat, |i: int| 0int) + back
        },
        None => group_values(s),
    }
}

pub open spec fn words_value(words: Seq<int>) -> int
    decreases words.len(),
{
    if words.len() == 0 {
        0
    } else {
        words_value(words.drop_last()) * 0x1_0000 + words.last()
    }
}

/// The address that a text stands for.
pub open spec fn ip_spec(s: Seq<char>) -> Option<IpAddress> {
    if is_ipv4_text(s) {
        Some(IpAddress::V4(ipv4_value(s) as u32))
    } else if is_ipv6_text(s) {
        Some(IpAddress::V6(words_value(ipv6_words(s)) as u128))
    } else {
        None
    }
}

fn parse_ipv4(s: &[char]) -> (r: Option<u32>)
    ensures
        match r {
            Some(n) => is_ipv4_text(s@) && n == ipv4_value(s@),
            None => !is_ipv4_text(s@),
        },
{
    if !ipv4_text(s) {
        return None;
    }
    let octets = split(s, CharClass::Is('.'));
    let ghost all = split_spec(s@, CharClass::Is('.'));
    assert(all.len() == octets@.len());
    let mut n: u32 = 0;
    let mut i: usize = 0;
    while i < 4
        invariant
            i <= 4,
            octets@.len() == 4,
            all == pieces(octets@),
            all.len() == 4,
            forall|k: int| 0 <= k < 4 ==> is_octet_text(#[trigger] all[k]),
            i == 0 ==> n == 0,
            i == 1 ==> n == digits_value(all[0]),
            i == 2 ==> n == digits_value(all[0]) * 0x100 + digits_value(all[1]),
            i == 3 ==> n == digits_value(all[0]) * 0x1_0000 + digits_value(all[1]) * 0x100
                + digits_value(all[2]),
            i == 4 ==> n == digits_value(all[0]) * 0x100_0000 + digits_value(all[1]) * 0x1_0000
                + digits_value(all[2]) * 0x100 + digits_value(all[3]),
        decreases 4 - i,
    {
        assert(all[i as int] == octets@[i as int]@);
        assert(is_octet_text(all[0]) && is_octet_text(all[1]) && is_octet_text(all[2])
            && is_octet_text(all[3]));
        let octet: u32 = match digits_u64(octets[i].as_slice()) {
            Some(v) => v as u32,
            None => 0,
        };
        n = n * 256 + octet;
        i = i + 1;
    }
    Some(n)
}

fn hex_number(s: &[char]) -> (r: u16)
    requires
        is_hex_group(s@),
    ensures
        r == hex_value(s@),
{
    let mut n: u32 = 0;
    let mut i: usize = 0;
    while i < s.len()
        invariant
            i <= s@.len() <= 4,
            is_hex_group(s@),
            n == hex_value(s@.take(i as int)),
            i == 0 ==> n < 1,
            i == 1 ==> n < 16,
            i == 2 ==> n < 256,
            i == 3 ==> n < 4096,
            i == 4 ==> n < 65536,
        decreases s@.len() - i,
    {
        let c: char = s[i];
        assert(crate::text::is_hex_digit(s@[i as int]));
        assert(s@.take(i + 1).drop_last() =~= s@.take(i as int));
        let d: u32 = if '0' <= c && c <= '9' {
            c as u32 - 48
        } else if 'a' <= c && c <= 'f' {
            c as u32 - 87
        } else {
            c as u32 - 55
        };
        assert(d == hex_digit_value(c) && d < 16);
        n = n * 16 + d;
        i = i + 1;
    }
    assert(s@.take(i as int) =~= s@);
    n as u16
}

/// Whole numbers as words.
spec fn as_ints(words: Seq<u16>) -> Seq<int> {
    Seq::new(words.len(), |i: int| words[i] as int)
}

fn push_words(out: &mut Vec<u16>, s: &[char], mixed: bool)
    requires
        group_words(s@, mixed) is Some,
    ensures
        as_ints(final(out)@) == as_ints(old(out)@) + group_values(s@),
        group_values(s@).len() == group_words(s@, mixed)->0,
{
    let ghost before = as_ints(out@);
    if s.len() == 0 {
        assert(as_ints(out@) =~= before + group_values(s@));
        return;
    }
    let groups = split(s, CharClass::Is(':'));
    let ghost all = split_spec(s@, CharClass::Is(':'));
    assert(all.len() == groups@.len());
    let last: usize = groups.len() - 1;
    let mut i: usize = 0;
    while i < last
        invariant
            i <= last,
            s@.len() > 0,
            last == groups@.len() - 1,
            all == pieces(groups@),
            all == split_spec(s@, CharClass::Is(':')),
            group_words(s@, mixed) is Some,
            as_ints(out@) == before + hex_values(all.take(i as int)),
        decreases last - i,
    {
        assert(all[i as int] == groups@[i as int]@);
        assert(is_hex_group(all[i as int]));
        let ghost words = out@;
        out.push(hex_number(groups[i].as_slice()));
        assert(as_ints(out@) =~= as_ints(words).push(hex_value(all[i as int])));
        assert(hex_values(all.take(i + 1)) =~= hex_values(all.take(i as int)).push(
            hex_value(all[i as int]),
        ));
        i = i + 1;
        assert(as_ints(out@) =~= before + hex_values(all.take(i as int)));
    }
    assert(all.last() == groups@[last as int]@);
    assert(all.take(last as int) =~= all.drop_last());
    let ghost words = out@;
    if hex_group(groups[last].as_slice()) {
        out.push(hex_number(groups[last].as_slice()));
        assert(as_ints(out@) =~= as_ints(words).push(hex_value(all.last())));
        assert(hex_values(all) =~= hex_values(all.drop_last()).push(hex_value(all.last())));
        assert(as_ints(out@) =~= before + group_values(s@));
    } else {
        let n: u32 = match parse_ipv4(groups[last].as_slice()) {
            Some(n) => n,
            None => 0,
        };
        out.push((n / 0x1_0000) as u16);
        out.push((n % 0x1_0000) as u16);
        assert(as_ints(out@) =~= as_ints(words) + seq![
            (n / 0x1_0000) as int,
            (n % 0x1_0000) as int,
        ]);
        assert(as_ints(out@) =~= before + group_values(s@));
    }
}

fn word_number(words: &Vec<u16>) -> (r: u128)
    requires
        words@.len() == 8,
    ensures
        r == words_value(as_ints(words@)),
{
    let ghost all = as_ints(words@);
    let mut n: u128 = 0;
    let mut i: usize = 0;
    proof {
        reveal_with_fuel(words_value, 9);
    }
    while i < 8
        invariant
            i <= 8,
            words@.len() == 8,
            all == as_ints(words@),
            n == words_value(all.take(i as int)),
            i == 0 ==> n < 1,
            i == 1 ==> n < 0x1_0000,
            i == 2 ==> n < 0x1_0000_0000,
            i == 3 ==> n < 0x1_0000_0000_0000,
            i == 4 ==> n < 0x1_0000_0000_0000_0000,
            i == 5 ==> n < 0x1_0000_0000_0000_0000_0000,
            i == 6 ==> n < 0x1_0000_0000_0000_0000_0000_0000,
            i == 7 ==> n < 0x1_0000_0000_0000_0000_0000_0000_0000,
        decreases 8 - i,
    {
        assert(all.take(i + 1).drop_last() =~= all.take(i as int));
        assert(all.take(i + 1).last() == words@[i as int] as int);
        n = n * 0x1_0000 + words[i] as u128;
        i = i + 1;
    }
    assert(all.take(8) =~= all);
    n
}

/// Reads an address, `str::parse::<IpAddr>`.
pub fn parse_ip(s: &[char]) -> (r: Option<IpAddress>)
    ensures
        r == ip_spec(s@),
{
    if let Some(n) = parse_ipv4(s) {
        return Some(IpAddress::V4(n));
    }
    if !ip_text(s) {
        return None;
    }
    let mut words: Vec<u16> = Vec::new();
    match split_at_text(s, "::") {
        Some((head, tail)) => {
            push_words(&mut words, head, false);
            let mut back: Vec<u16> = Vec::new();
            push_words(&mut back, tail, true);
            let ghost front = group_values(head@);
            assert(as_ints(words@) =~= front);
            assert(as_ints(back@) =~= group_values(tail@));
            assert(as_ints(words@).len() == words@.len());
            assert(as_ints(back@).len() == back@.len());
            let gap: usize = 8 - words.len() - back.len();
            let mut i: usize = 0;
            while i < gap
                invariant
                    i <= gap,
                    as_ints(words@) == front + Seq::new(i as nat, |k: int| 0int),
                decreases gap - i,
            {
                let ghost before = words@;
                words.push(0);
                assert(as_ints(words@) =~= as_ints(before).push(0));
                i = i + 1;
                assert(as_ints(words@) =~= front + Seq::new(i as nat, |k: int| 0int));
            }
            let mut k: usize = 0;
            let ghost middle = words@;
            while k < back.len()
                invariant
                    k <= back@.len(),
                    as_ints(words@) == as_ints(middle) + as_ints(back@).take(k as int),
                decreases back@.len() - k,
            {
                let ghost before = words@;
                words.push(back[k]);
                assert(as_ints(words@) =~= as_ints(before).push(back@[k as int] as int));
                k = k + 1;
                assert(as_ints(words@) =~= as_ints(middle) + as_ints(back@).take(k as int));
            }
            assert(as_ints(words@) =~= ipv6_words(s@));
        },
        None => {
            push_words(&mut words, s, true);
            assert(as_ints(words@) =~= ipv6_words(s@));
        },
    }
    assert(as_ints(words@).len() == words@.len());
    Some(IpAddress::V6(word_number(&words)))
}

/// The port that digits stand for.
pub open spec fn port_value(s: Seq<char>) -> Option<u16> {
    if s.len() > 0 && all_digits(s) && digits_value(s) <= 0xffff {
        Some(digits_value(s) as u16)
    } else {
        None
    }
}

/// The scope that digits stand for.
pub open spec fn scope_value(s: Seq<char>) -> Option<u32> {
    if s.len() > 0 && all_digits(s) && digits_value(s) <= 0xffff_ffff {
        Some(digits_value(s) as u32)
    } else {
        None
    }
}

/// An IPv6 address and the scope behind a percent sign, if there is one.
pub open spec fn scoped_spec(s: Seq<char>) -> Option<(IpAddress, u32)> {
    match split_once_spec(s, '%') {
        None => if is_ipv6_text(s) && !is_ipv4_text(s) {
            Some((ip_spec(s)->0, 0))
        } else {
            None
        },
        Some((host, scope)) => match scope_value(scope) {
            Some(scope) => if is_ipv6_text(host) && !is_ipv4_text(host) {
                Some((ip_spec(host)->0, scope))
            } else {
                None
            },
            None => None,
        },
    }
}

/// The address with a port that a text stands for: an IPv4 address, or an IPv6
/// address in brackets, with or without a scope, before a colon and the port.
pub open spec fn socket_spec(s: Seq<char>) -> Option<SocketAddress> {
    if s.len() > 0 && s[0] == '[' {
        match split_at_text_spec(s.skip(1), "]:"@) {
            Some((host, port)) => match (port_value(port), scoped_spec(host)) {
                (Some(port), Some((ip, scope_id))) => Some(
                    SocketAddress { ip, port, flowinfo: 0, scope_id },
                ),
                _ => None,
            },
            None => None,
        }
    } else {
        match split_once_spec(s, ':') {
            Some((host, port)) => match port_value(port) {
                Some(port) => if is_ipv4_text(host) {
                    Some(SocketAddress::plain(ip_spec(host)->0, port))
                } else {
                    None
                },
                None => None,
            },
            None => None,
        }
    }
}

fn parse_port_digits(s: &[char]) -> (r: Option<u16>)
    ensures
        r == port_value(s@),
{
    if s.len() == 0 {
        return None;
    }
    match digits_u64(s) {
        Some(n) => if n <= 0xffff {
            Some(n as u16)
        } else {
            None
        },
        None => None,
    }
}

fn parse_scope_digits(s: &[char]) -> (r: Option<u32>)
    ensures
        r == scope_value(s@),
{
    if s.len() == 0 {
        return None;
    }
    match digits_u64(s) {
        Some(n) => if n <= 0xffff_ffff {
            Some(n as u32)
        } else {
            None
        },
        None => None,
    }
}

fn parse_scoped(s: &[char]) -> (r: Option<(IpAddress, u32)>)
    ensures
        r == scoped_spec(s@),
{
    match split_once(s, '%') {
        None => match parse_ip(s) {
            Some(IpAddress::V6(n)) => Some((IpAddress::V6(n), 0)),
            _ => None,
        },
        Some((host, scope)) => match (parse_scope_digits(scope), parse_ip(host)) {
            (Some(scope), Some(IpAddress::V6(n))) => Some((IpAddress::V6(n), scope)),
            _ => None,
        },
    }
}

/// Reads an address with a port.
pub fn parse_socket(s: &[char]) -> (r: Option<SocketAddress>)
    ensures
        r == socket_spec(s@),
{
    if s.len() > 0 && s[0] == '[' {
        let rest = vstd::slice::slice_subrange(s, 1, s.len());
        assert(rest@ =~= s@.skip(1));
        let (host, port) = match split_at_text(rest, "]:") {
            Some(parts) => parts,
            None => {
                return None;
            },
        };
        return match (parse_port_digits(port), parse_scoped(host)) {
            (Some(port), Some((ip, scope_id))) => Some(
                SocketAddress { ip, port, flowinfo: 0, scope_id },
            ),
            _ => None,
        };
    }
    match split_once(s, ':') {
        Some((host, port)) => match (parse_port_digits(port), parse_ip(host)) {
            (Some(port), Some(IpAddress::V4(n))) => Some(
                SocketAddress::new(IpAddress::V4(n), port),
            ),
            _ => None,
        },
        None => None,
    }
}

proof fn lemma_groups_are_plain(s: Seq<char>, mixed: bool, c: char)
    requires
        group_words(s, mixed) is Some,
        c != ':',
        c != '.',
        !crate::text::is_hex_digit(c),
    ensures
        !s.contains(c),
{
    let groups = split_spec(s, CharClass::Is(':'));
    if s.len() > 0 {
        assert forall|i: int| 0 <= i < groups.len() implies !(#[trigger] groups[i]).contains(
            c,
        ) by {
            if i == groups.len() - 1 && !is_hex_group(groups.last()) {
                let octets = split_spec(groups[i], CharClass::Is('.'));
                assert forall|j: int| 0 <= j < octets.len() implies !(
                #[trigger] octets[j]).contains(c) by {
                    assert(is_octet_text(octets[j]));
                    if octets[j].contains(c) {
                        let k = choose|k: int| 0 <= k < octets[j].len() && octets[j][k] == c;
                        assert(crate::text::is_digit(octets[j][k]));
                    }
                }
                crate::text::lemma_pieces_hold_all(groups[i], CharClass::Is('.'), c);
            } else {
                assert(is_hex_group(groups[i]));
                if groups[i].contains(c) {
                    let k = choose|k: int| 0 <= k < groups[i].len() && groups[i][k] == c;
                    assert(crate::text::is_hex_digit(groups[i][k]));
                }
            }
        }
        crate::text::lemma_pieces_hold_all(s, CharClass::Is(':'), c);
    }
}

/// An IPv6 address holds a colon, and besides colons and dots only digits in base
/// sixteen.
pub proof fn lemma_ipv6_is_plain(s: Seq<char>, c: char)
    requires
        is_ipv6_text(s),
        c != ':',
        c != '.',
        !crate::text::is_hex_digit(c),
    ensures
        !s.contains(c),
        s.contains(':'),
{
    reveal_strlit("::");
    let needle = "::"@;
    crate::text::lemma_first_text(s, needle);
    match crate::text::first_text(s, needle) {
        Some(i) => {
            let head = s.take(i);
            let tail = s.skip(i + 2);
            lemma_groups_are_plain(head, false, c);
            lemma_groups_are_plain(tail, true, c);
            assert(s.subrange(i, i + 2)[0] == ':');
            assert(s.subrange(i, i + 2)[1] == ':');
            assert(s[i] == ':' && s[i + 1] == ':');
            assert forall|k: int| 0 <= k < s.len() implies s[k] != c by {
                if k < i {
                    assert(head[k] == s[k]);
                } else if k >= i + 2 {
                    assert(tail[k - i - 2] == s[k]);
                }
            }
        },
        None => {
            lemma_groups_are_plain(s, true, c);
            crate::text::lemma_first_in(s, CharClass::Is(':'));
            let at = crate::text::first_in(s, CharClass::Is(':'));
            if at < s.len() {
                assert(s[at] == ':');
            } else {
                assert(split_spec(s, CharClass::Is(':')).len() == 1);
            }
        },
    }
}

/// Four numbers with dots between them.
pub open spec fn dotted_quad(a: u8, b: u8, c: u8, d: u8) -> Seq<char> {
    decimal(a as nat) + seq!['.'] + decimal(b as nat) + seq!['.'] + decimal(c as nat) + seq!['.']
        + decimal(d as nat)
}

pub proof fn lemma_digits_are_one_piece(s: Seq<char>, c: char)
    requires
        all_digits(s),
        !is_digit(c),
    ensures
        split_spec(s, CharClass::Is(c)) == seq![s],
{
    crate::text::lemma_first_in_is(s, CharClass::Is(c), s.len() as int);
}

proof fn lemma_octet(n: u8)
    ensures
        is_octet_text(decimal(n as nat)),
{
    reveal_with_fuel(decimal, 4);
    crate::text::lemma_decimal(n as nat);
    if n >= 100 {
        assert(n / 10 >= 10 && n / 10 / 10 < 10 && n / 10 / 10 >= 1);
    }
}

pub proof fn lemma_quad_pieces(a: u8, b: u8, c: u8, d: u8)
    ensures
        split_spec(dotted_quad(a, b, c, d), CharClass::Is('.')) == seq![
            decimal(a as nat),
            decimal(b as nat),
            decimal(c as nat),
            decimal(d as nat),
        ],
        is_ipv4_text(dotted_quad(a, b, c, d)),
        dotted_quad(a, b, c, d).len() > 0,
        is_digit(dotted_quad(a, b, c, d)[0]),
        is_digit(dotted_quad(a, b, c, d).last()),
        forall|k: int|
            0 <= k < dotted_quad(a, b, c, d).len() ==> is_digit(
                #[trigger] dotted_quad(a, b, c, d)[k],
            ) || dotted_quad(a, b, c, d)[k] == '.',
{
    let dot = CharClass::Is('.');
    let x = decimal(a as nat);
    let y = decimal(b as nat);
    let z = decimal(c as nat);
    let w = decimal(d as nat);
    lemma_octet(a);
    lemma_octet(b);
    lemma_octet(c);
    lemma_octet(d);
    crate::text::lemma_decimal(a as nat);
    crate::text::lemma_decimal(b as nat);
    crate::text::lemma_decimal(c as nat);
    crate::text::lemma_decimal(d as nat);
    lemma_digits_are_one_piece(x, '.');
    lemma_digits_are_one_piece(y, '.');
    lemma_digits_are_one_piece(z, '.');
    lemma_digits_are_one_piece(w, '.');
    let two = z.push('.') + w;
    let three = y.push('.') + two;
    crate::text::lemma_split_joined(z, '.', w, dot);
    crate::text::lemma_split_joined(y, '.', two, dot);
    crate::text::lemma_split_joined(x, '.', three, dot);
    let all = dotted_quad(a, b, c, d);
    assert(all =~= x.push('.') + three);
    let octets = split_spec(all, dot);
    assert(octets =~= seq![x, y, z, w]);
    assert forall|i: int| 0 <= i < 4 implies is_octet_text(#[trigger] octets[i]) by {}
    assert(all[0] == x[0]);
    assert(all.last() == w.last());
}

/// An address in the usual notation is read number by number.
pub proof fn law_dotted_addresses_are_read(a: u8, b: u8, c: u8, d: u8)
    ensures
        ip_spec(dotted_quad(a, b, c, d)) == Some(
            IpAddress::V4((a * 0x100_0000 + b * 0x1_0000 + c * 0x100 + d) as u32),
        ),
{
    lemma_quad_pieces(a, b, c, d);
    crate::text::lemma_decimal(a as nat);
    crate::text::lemma_decimal(b as nat);
    crate::text::lemma_decimal(c as nat);
    crate::text::lemma_decimal(d as nat);
}

/// An address with a port is read as both.
pub proof fn law_port_follows_a_colon(a: u8, b: u8, c: u8, d: u8, port: u16)
    ensures
        socket_spec(dotted_quad(a, b, c, d) + seq![':'] + decimal(port as nat)) == Some(
            SocketAddress {
                ip: IpAddress::V4((a * 0x100_0000 + b * 0x1_0000 + c * 0x100 + d) as u32),
                port,
                flowinfo: 0,
                scope_id: 0,
            },
        ),
        socket_spec(dotted_quad(a, b, c, d)) is None,
{
    law_dotted_addresses_are_read(a, b, c, d);
    lemma_quad_pieces(a, b, c, d);
    crate::text::lemma_decimal(port as nat);
    let host = dotted_quad(a, b, c, d);
    let text = host + seq![':'] + decimal(port as nat);
    let colon = CharClass::Is(':');
    crate::text::lemma_first_in_is(host, colon, host.len() as int);
    assert forall|k: int| 0 <= k < host.len() implies !colon.holds(text[k]) by {
        assert(text[k] == host[k]);
    }
    assert(text[host.len() as int] == ':');
    crate::text::lemma_first_in_is(text, colon, host.len() as int);
    assert(text.take(host.len() as int) =~= host);
    assert(text.skip(host.len() as int + 1) =~= decimal(port as nat));
    assert(text[0] == host[0]);
}

/// A group in base sixteen is read digit by digit.
pub proof fn law_groups_are_read_by_digits(s: Seq<char>, c: char)
    ensures
        hex_value(Seq::empty()) == 0,
        '0' <= c <= '9' ==> hex_value(s.push(c)) == 16 * hex_value(s) + (c as u32 - '0' as u32),
        'a' <= c <= 'f' ==> hex_value(s.push(c)) == 16 * hex_value(s) + 10 + (c as u32
            - 'a' as u32),
        'A' <= c <= 'F' ==> hex_value(s.push(c)) == 16 * hex_value(s) + 10 + (c as u32
            - 'A' as u32),
{
    assert(s.push(c).drop_last() =~= s);
}

} // verus!
