//! What the system tells in text: process and group memory, open sockets.

use vstd::prelude::*;
use std::collections::BTreeSet;
use crate::net::{hex_digit_value, hex_value};
use crate::text::{
    chars_of, drop_empty, is_hex_digit, lines, lines_spec, non_empty, parse_u64, parse_unsigned,
    pieces, push_chars, spells, split, split_once, split_once_spec, split_spec,
    starts_with, string_of, string_of_vec, strip_plus, trim, trimmed, words, words_spec, CharClass,
};

verus! {

broadcast use vstd::std_specs::btree::group_btree_axioms;

/// The first word of a line and the number after it.
pub open spec fn pair_spec(line: Seq<char>) -> Option<(Seq<char>, nat)> {
    let fields = words_spec(line);
    if fields.len() < 2 {
        None
    } else {
        match parse_unsigned(fields[1], u64::MAX as nat) {
            Some(value) => Some((fields[0], value)),
            None => None,
        }
    }
}

fn pair_of(line: &[char]) -> (r: Option<(Vec<char>, u64)>)
    ensures
        match r {
            Some((key, value)) => pair_spec(line@) == Some((key@, value as nat)),
            None => pair_spec(line@) is None,
        },
{
    let fields = words(line);
    assert(pieces(fields@).len() == fields@.len());
    if fields.len() < 2 {
        return None;
    }
    assert(pieces(fields@)[0] == fields@[0]@);
    assert(pieces(fields@)[1] == fields@[1]@);
    match parse_u64(fields[1].as_slice()) {
        Some(value) => Some((vstd::slice::slice_to_vec(fields[0].as_slice()), value)),
        None => None,
    }
}

/// The number of the first line that starts with the field and has one.
pub open spec fn kib_in(all: Seq<Seq<char>>, field: Seq<char>) -> Option<nat>
    decreases all.len(),
{
    if all.len() == 0 {
        None
    } else {
        match pair_spec(all[0]) {
            Some((key, value)) if key == field => Some(value),
            _ => kib_in(all.skip(1), field),
        }
    }
}

pub open spec fn kib_spec(text: Seq<char>, field: Seq<char>) -> Option<nat> {
    kib_in(lines_spec(text), field)
}

/// The number that a field of the text has.
pub fn proc_kib(text: &str, field: &str) -> (r: Option<u64>)
    ensures
        match r {
            Some(value) => kib_spec(text@, field@) == Some(value as nat),
            None => kib_spec(text@, field@) is None,
        },
{
    let chars = chars_of(text);
    let all = lines(chars.as_slice());
    let ghost whole = pieces(all@);
    let mut i: usize = 0;
    assert(whole.skip(0) =~= whole);
    while i < all.len()
        invariant
            i <= all@.len(),
            whole == pieces(all@),
            whole == lines_spec(text@),
            kib_in(whole, field@) == kib_in(whole.skip(i as int), field@),
        decreases all@.len() - i,
    {
        let ghost rest = whole.skip(i as int);
        assert(rest[0] == all@[i as int]@);
        assert(rest.skip(1) =~= whole.skip(i + 1));
        if let Some((key, value)) = pair_of(all[i].as_slice()) {
            if spells(key.as_slice(), field) {
                return Some(value);
            }
        }
        i = i + 1;
    }
    None
}

/// A trimmed number.
pub open spec fn number_spec(text: Option<Seq<char>>) -> Option<nat> {
    match text {
        Some(text) => parse_unsigned(trimmed(text), u64::MAX as nat),
        None => None,
    }
}

pub open spec fn text_view(text: Option<String>) -> Option<Seq<char>> {
    match text {
        Some(text) => Some(text@),
        None => None,
    }
}

/// The number that a file held.
pub fn number_text(text: &Option<String>) -> (r: Option<u64>)
    ensures
        match r {
            Some(n) => number_spec(text_view(*text)) == Some(n as nat),
            None => number_spec(text_view(*text)) is None,
        },
{
    match text {
        Some(text) => {
            let chars = chars_of(text.as_str());
            parse_u64(trim(chars.as_slice()))
        },
        None => None,
    }
}

/// A limit: a number, unless it says that there is none.
pub open spec fn limit_spec(text: Option<Seq<char>>) -> Option<nat> {
    match text {
        Some(text) => if trimmed(text) == "max"@ {
            None
        } else {
            parse_unsigned(trimmed(text), u64::MAX as nat)
        },
        None => None,
    }
}

/// The limit that a file held.
pub fn limit_text(text: &Option<String>) -> (r: Option<u64>)
    ensures
        match r {
            Some(n) => limit_spec(text_view(*text)) == Some(n as nat),
            None => limit_spec(text_view(*text)) is None,
        },
{
    match text {
        Some(text) => {
            let chars = chars_of(text.as_str());
            let value = trim(chars.as_slice());
            if spells(value, "max") {
                return None;
            }
            parse_u64(value)
        },
        None => None,
    }
}

/// The keys and numbers of a text, line by line.
pub open spec fn pairs_of(all: Seq<Seq<char>>) -> Seq<(Seq<char>, nat)>
    decreases all.len(),
{
    if all.len() == 0 {
        Seq::empty()
    } else {
        match pair_spec(all.last()) {
            Some(pair) => pairs_of(all.drop_last()).push(pair),
            None => pairs_of(all.drop_last()),
        }
    }
}

/// What a key stands for: a later line replaces an earlier one.
pub open spec fn value_of(pairs: Seq<(Seq<char>, nat)>, key: Seq<char>) -> Option<nat>
    decreases pairs.len(),
{
    if pairs.len() == 0 {
        None
    } else if pairs.last().0 == key {
        Some(pairs.last().1)
    } else {
        value_of(pairs.drop_last(), key)
    }
}

/// Keys with numbers.
pub struct StatTable {
    entries: Vec<(Vec<char>, u64)>,
}

spec fn entry_views(entries: Seq<(Vec<char>, u64)>) -> Seq<(Seq<char>, nat)> {
    entries.map_values(|e: (Vec<char>, u64)| (e.0@, e.1 as nat))
}

impl View for StatTable {
    type V = Seq<(Seq<char>, nat)>;

    closed spec fn view(&self) -> Seq<(Seq<char>, nat)> {
        entry_views(self.entries@)
    }
}

pub open spec fn stat_spec(text: Option<Seq<char>>) -> Seq<(Seq<char>, nat)> {
    match text {
        Some(text) => pairs_of(lines_spec(text)),
        None => Seq::empty(),
    }
}

impl StatTable {
    /// The table that a file held.
    pub fn parse(text: &Option<String>) -> (r: StatTable)
        ensures
            r@ == stat_spec(text_view(*text)),
    {
        let mut entries: Vec<(Vec<char>, u64)> = Vec::new();
        match text {
            None => {
                assert(entry_views(entries@) =~= Seq::empty());
            },
            Some(text) => {
                let chars = chars_of(text.as_str());
                let all = lines(chars.as_slice());
                let ghost whole = pieces(all@);
                let mut i: usize = 0;
                assert(entry_views(entries@) =~= Seq::empty());
                while i < all.len()
                    invariant
                        i <= all@.len(),
                        whole == pieces(all@),
                        entry_views(entries@) == pairs_of(whole.take(i as int)),
                    decreases all@.len() - i,
                {
                    let ghost next = whole.take(i + 1);
                    assert(next.drop_last() =~= whole.take(i as int));
                    assert(next.last() == all@[i as int]@);
                    if let Some(pair) = pair_of(all[i].as_slice()) {
                        let ghost before = entry_views(entries@);
                        entries.push(pair);
                        assert(entry_views(entries@) =~= before.push((pair.0@, pair.1 as nat)));
                    }
                    i = i + 1;
                }
                assert(whole.take(i as int) =~= whole);
            },
        }
        StatTable { entries }
    }

    pub fn is_empty(&self) -> (r: bool)
        ensures
            r == (self@.len() == 0),
    {
        self.entries.len() == 0
    }

    pub fn get(&self, key: &str) -> (r: Option<u64>)
        ensures
            match r {
                Some(value) => value_of(self@, key@) == Some(value as nat),
                None => value_of(self@, key@) is None,
            },
    {
        let mut i: usize = self.entries.len();
        assert(self@.take(i as int) =~= self@);
        while i > 0
            invariant
                i <= self.entries@.len(),
                value_of(self@, key@) == value_of(self@.take(i as int), key@),
            decreases i,
        {
            let ghost now = self@.take(i as int);
            i = i - 1;
            assert(now.drop_last() =~= self@.take(i as int));
            assert(now.last() == (self.entries@[i as int].0@, self.entries@[i as int].1 as nat));
            if spells(self.entries[i].0.as_slice(), key) {
                return Some(self.entries[i].1);
            }
        }
        None
    }

    /// What the first key that the table knows stands for, of one or two.
    pub open spec fn first_of(pairs: Seq<(Seq<char>, nat)>, key: Seq<char>, other: Seq<char>) -> nat {
        match (value_of(pairs, key), value_of(pairs, other)) {
            (Some(value), _) => value,
            (None, Some(value)) => value,
            (None, None) => 0,
        }
    }

    pub fn stat_value(&self, key: &str, other: &str) -> (r: u64)
        ensures
            r == StatTable::first_of(self@, key@, other@),
    {
        match self.get(key) {
            Some(value) => value,
            None => match self.get(other) {
                Some(value) => value,
                None => 0,
            },
        }
    }
}

/// The three fields of a line that tells a control group.
pub open spec fn group_fields(line: Seq<char>) -> (Seq<char>, Seq<char>, Seq<char>) {
    match split_once_spec(line, ':') {
        None => (line, Seq::empty(), Seq::empty()),
        Some((hierarchy, rest)) => match split_once_spec(rest, ':') {
            None => (hierarchy, rest, Seq::empty()),
            Some((controllers, relative)) => (hierarchy, controllers, relative),
        },
    }
}

/// Which of the two forms of control groups.
#[derive(Clone, Copy, Debug, PartialEq, Eq, Structural)]
pub enum GroupVersion {
    One,
    Two,
}

pub open spec fn is_unified(line: Seq<char>) -> bool {
    group_fields(line).0 == "0"@ && group_fields(line).1.len() == 0
}

pub open spec fn counts_memory(line: Seq<char>) -> bool {
    split_spec(group_fields(line).1, CharClass::Is(',')).contains("memory"@)
}

/// The group whose memory is told: the unified one, or else the last that counts
/// memory.
pub open spec fn group_in(all: Seq<Seq<char>>, found: Option<Seq<char>>) -> Option<
    (GroupVersion, Seq<char>),
>
    decreases all.len(),
{
    if all.len() == 0 {
        match found {
            Some(relative) => Some((GroupVersion::One, relative)),
            None => None,
        }
    } else if is_unified(all[0]) {
        Some((GroupVersion::Two, group_fields(all[0]).2))
    } else {
        group_in(
            all.skip(1),
            if counts_memory(all[0]) {
                Some(group_fields(all[0]).2)
            } else {
                found
            },
        )
    }
}

fn has_memory(controllers: &[char]) -> (r: bool)
    ensures
        r == split_spec(controllers@, CharClass::Is(',')).contains("memory"@),
{
    let parts = split(controllers, CharClass::Is(','));
    let ghost whole = pieces(parts@);
    let mut i: usize = 0;
    while i < parts.len()
        invariant
            i <= parts@.len(),
            whole == pieces(parts@),
            whole == split_spec(controllers@, CharClass::Is(',')),
            forall|k: int| 0 <= k < i ==> #[trigger] whole[k] != "memory"@,
        decreases parts@.len() - i,
    {
        assert(whole[i as int] == parts@[i as int]@);
        if spells(parts[i].as_slice(), "memory") {
            return true;
        }
        i = i + 1;
    }
    false
}

/// Which group is told, and the path that it has below its root.
pub fn memory_group(groups: &str) -> (r: Option<(GroupVersion, String)>)
    ensures
        match r {
            Some((version, relative)) => group_in(lines_spec(groups@), None) == Some(
                (version, relative@),
            ),
            None => group_in(lines_spec(groups@), None) is None,
        },
{
    let chars = chars_of(groups);
    let all = lines(chars.as_slice());
    let ghost whole = pieces(all@);
    let mut found: Option<Vec<char>> = None;
    let mut i: usize = 0;
    assert(whole.skip(0) =~= whole);
    while i < all.len()
        invariant
            i <= all@.len(),
            whole == pieces(all@),
            whole == lines_spec(groups@),
            group_in(whole, None) == group_in(
                whole.skip(i as int),
                match found {
                    Some(text) => Some(text@),
                    None => None,
                },
            ),
        decreases all@.len() - i,
    {
        let ghost rest = whole.skip(i as int);
        let line = all[i].as_slice();
        assert(rest[0] == line@);
        assert(rest.skip(1) =~= whole.skip(i + 1));
        let none = vstd::slice::slice_subrange(line, 0, 0);
        assert(none@ =~= Seq::<char>::empty());
        let (hierarchy, controllers, relative) = match split_once(line, ':') {
            None => (line, none, none),
            Some((hierarchy, after)) => match split_once(after, ':') {
                None => (hierarchy, after, none),
                Some((controllers, relative)) => (hierarchy, controllers, relative),
            },
        };
        if spells(hierarchy, "0") && controllers.len() == 0 {
            return Some((GroupVersion::Two, string_of(relative)));
        }
        if has_memory(controllers) {
            found = Some(vstd::slice::slice_to_vec(relative));
        }
        i = i + 1;
    }
    match found {
        Some(relative) => Some((GroupVersion::One, string_of_vec(&relative))),
        None => None,
    }
}

/// A path with one more component.
pub open spec fn join_path(path: Seq<char>, component: Seq<char>) -> Seq<char> {
    if path.len() == 0 || path.last() == '/' {
        path + component
    } else {
        path.push('/') + component
    }
}

/// A path with components below it; none of them leads elsewhere.
pub open spec fn below(root: Seq<char>, components: Seq<Seq<char>>) -> Option<Seq<char>>
    decreases components.len(),
{
    if components.len() == 0 {
        Some(root)
    } else {
        match below(root, components.drop_last()) {
            Some(path) => if components.last() == "."@ || components.last() == ".."@ {
                None
            } else {
                Some(join_path(path, components.last()))
            },
            None => None,
        }
    }
}

proof fn lemma_below_none(root: Seq<char>, components: Seq<Seq<char>>, i: int)
    requires
        0 <= i <= components.len(),
        below(root, components.take(i)) is None,
    ensures
        below(root, components) is None,
    decreases components.len() - i,
{
    if i == components.len() {
        assert(components.take(i) =~= components);
    } else {
        assert(components.take(i + 1).drop_last() =~= components.take(i));
        lemma_below_none(root, components, i + 1);
    }
}

pub open spec fn directory_spec(root: Seq<char>, relative: Seq<char>) -> Option<Seq<char>> {
    below(root, non_empty(split_spec(relative, CharClass::Is('/'))))
}

/// The directory of a control group; nothing where a component of its path is a
/// step up or in place.
pub fn cgroup_directory(root: &str, relative: &str) -> (r: Option<String>)
    ensures
        match r {
            Some(path) => directory_spec(root@, relative@) == Some(path@),
            None => directory_spec(root@, relative@) is None,
        },
{
    let chars = chars_of(relative);
    let components = drop_empty(split(chars.as_slice(), CharClass::Is('/')));
    let ghost whole = pieces(components@);
    let mut path = chars_of(root);
    let mut i: usize = 0;
    while i < components.len()
        invariant
            i <= components@.len(),
            whole == pieces(components@),
            whole == non_empty(split_spec(relative@, CharClass::Is('/'))),
            below(root@, whole.take(i as int)) == Some(path@),
        decreases components@.len() - i,
    {
        let component = components[i].as_slice();
        let ghost next = whole.take(i + 1);
        assert(next.drop_last() =~= whole.take(i as int));
        assert(next.last() == component@);
        if spells(component, ".") || spells(component, "..") {
            proof {
                lemma_below_none(root@, whole, i + 1);
            }
            return None;
        }
        let ghost before = path@;
        let n: usize = path.len();
        if n > 0 && path[n - 1] != '/' {
            path.push('/');
        }
        push_chars(&mut path, component);
        assert(path@ =~= join_path(before, component@));
        i = i + 1;
    }
    assert(whole.take(i as int) =~= whole);
    Some(string_of_vec(&path))
}

/// A directory that holds what a control group tells.
pub open spec fn location_spec(groups: Seq<char>) -> Option<(GroupVersion, Seq<char>)> {
    match group_in(lines_spec(groups), None) {
        Some((version, relative)) => {
            let root = match version {
                GroupVersion::Two => "/sys/fs/cgroup"@,
                GroupVersion::One => "/sys/fs/cgroup/memory"@,
            };
            match directory_spec(root, relative) {
                Some(path) => Some((version, path)),
                None => None,
            }
        },
        None => None,
    }
}

/// Where the memory of this process's group is told.
pub fn cgroup_location(groups: &str) -> (r: Option<(GroupVersion, String)>)
    ensures
        match r {
            Some((version, path)) => location_spec(groups@) == Some((version, path@)),
            None => location_spec(groups@) is None,
        },
{
    match memory_group(groups) {
        Some((version, relative)) => {
            let root = match version {
                GroupVersion::Two => "/sys/fs/cgroup",
                GroupVersion::One => "/sys/fs/cgroup/memory",
            };
            match cgroup_directory(root, relative.as_str()) {
                Some(path) => Some((version, path)),
                None => None,
            }
        },
        None => None,
    }
}

/// Every character is a hexadecimal digit.
pub open spec fn all_hex(s: Seq<char>) -> bool {
    forall|i: int| 0 <= i < s.len() ==> is_hex_digit(#[trigger] s[i])
}

/// `u64::from_str_radix` with radix 16.
pub open spec fn hex_spec(s: Seq<char>) -> Option<nat> {
    let d = strip_plus(s);
    if d.len() > 0 && all_hex(d) && hex_value(d) <= u64::MAX {
        Some(hex_value(d) as nat)
    } else {
        None
    }
}

proof fn lemma_hex_grows(s: Seq<char>, i: int)
    requires
        0 <= i <= s.len(),
        all_hex(s),
    ensures
        0 <= hex_value(s.take(i)) <= hex_value(s),
    decreases s.len() - i,
{
    lemma_hex_positive(s.take(i));
    if i == s.len() {
        assert(s.take(i) =~= s);
    } else {
        lemma_hex_grows(s, i + 1);
        assert(s.take(i + 1).drop_last() =~= s.take(i));
        assert(is_hex_digit(s[i]));
        assert(s.take(i + 1).last() == s[i]);
    }
}

proof fn lemma_hex_positive(s: Seq<char>)
    requires
        all_hex(s),
    ensures
        hex_value(s) >= 0,
    decreases s.len(),
{
    if s.len() > 0 {
        assert(is_hex_digit(s[s.len() - 1]));
        assert forall|i: int| 0 <= i < s.drop_last().len() implies is_hex_digit(
            #[trigger] s.drop_last()[i],
        ) by {
            assert(is_hex_digit(s[i]));
        }
        lemma_hex_positive(s.drop_last());
    }
}

fn parse_hex(s: &[char]) -> (r: Option<u64>)
    ensures
        match r {
            Some(n) => hex_spec(s@) == Some(n as nat),
            None => hex_spec(s@) is None,
        },
{
    let d = if s.len() > 0 && s[0] == '+' {
        vstd::slice::slice_subrange(s, 1, s.len())
    } else {
        s
    };
    assert(d@ =~= strip_plus(s@));
    if d.len() == 0 {
        return None;
    }
    let mut n: u64 = 0;
    let mut i: usize = 0;
    while i < d.len()
        invariant
            d@ == strip_plus(s@),
            i <= d@.len(),
            forall|k: int| 0 <= k < i ==> is_hex_digit(#[trigger] d@[k]),
            n == hex_value(d@.take(i as int)),
        decreases d@.len() - i,
    {
        let c: char = d[i];
        let digit: u64 = if '0' <= c && c <= '9' {
            (c as u32 - 48) as u64
        } else if 'a' <= c && c <= 'f' {
            (c as u32 - 87) as u64
        } else if 'A' <= c && c <= 'F' {
            (c as u32 - 55) as u64
        } else {
            assert(!is_hex_digit(d@[i as int]));
            return None;
        };
        assert(digit == hex_digit_value(c));
        assert(d@.take(i + 1).drop_last() =~= d@.take(i as int));
        assert(d@.take(i + 1).last() == c);
        if n > 0x0fff_ffff_ffff_ffff {
            proof {
                if all_hex(d@) {
                    lemma_hex_grows(d@, i + 1);
                }
            }
            return None;
        }
        n = n * 16 + digit;
        i = i + 1;
    }
    assert(d@.take(i as int) =~= d@);
    Some(n)
}

/// Two hexadecimal numbers with a colon between them.
pub open spec fn hex_pair_spec(s: Seq<char>) -> Option<(nat, nat)> {
    match split_once_spec(s, ':') {
        Some((tx, rx)) => match (hex_spec(tx), hex_spec(rx)) {
            (Some(tx), Some(rx)) => Some((tx, rx)),
            _ => None,
        },
        None => None,
    }
}

fn hex_pair(s: &[char]) -> (r: Option<(u64, u64)>)
    ensures
        match r {
            Some((tx, rx)) => hex_pair_spec(s@) == Some((tx as nat, rx as nat)),
            None => hex_pair_spec(s@) is None,
        },
{
    match split_once(s, ':') {
        Some((tx, rx)) => match (parse_hex(tx), parse_hex(rx)) {
            (Some(tx), Some(rx)) => Some((tx, rx)),
            _ => None,
        },
        None => None,
    }
}

pub fn parse_hex_pair(value: &str) -> (r: Option<(u64, u64)>)
    ensures
        match r {
            Some((tx, rx)) => hex_pair_spec(value@) == Some((tx as nat, rx as nat)),
            None => hex_pair_spec(value@) is None,
        },
{
    let chars = chars_of(value);
    hex_pair(chars.as_slice())
}

/// The inode of a row: the tenth field, or else the eleventh.
pub open spec fn row_inode(fields: Seq<Seq<char>>) -> Option<nat> {
    if fields.len() > 9 && parse_unsigned(fields[9], u64::MAX as nat) is Some {
        parse_unsigned(fields[9], u64::MAX as nat)
    } else if fields.len() > 10 {
        parse_unsigned(fields[10], u64::MAX as nat)
    } else {
        None
    }
}

/// What a row of a socket table tells: the bytes that wait to be sent and to be
/// read, if the socket is one of those given.
pub open spec fn row_spec(line: Seq<char>, inodes: Set<u64>) -> Option<(nat, nat)> {
    let fields = words_spec(line);
    match row_inode(fields) {
        Some(inode) if inodes.contains(inode as u64) => hex_pair_spec(fields[4]),
        _ => None,
    }
}

fn row_of(line: &[char], inodes: &BTreeSet<u64>) -> (r: Option<(u64, u64)>)
    ensures
        match r {
            Some((tx, rx)) => row_spec(line@, inodes@) == Some((tx as nat, rx as nat)),
            None => row_spec(line@, inodes@) is None,
        },
{
    let fields = words(line);
    let ghost whole = pieces(fields@);
    assert(whole.len() == fields@.len());
    if fields.len() <= 9 {
        return None;
    }
    assert(whole[9] == fields@[9]@);
    assert(whole[4] == fields@[4]@);
    let inode: u64 = match parse_u64(fields[9].as_slice()) {
        Some(inode) => inode,
        None => {
            if fields.len() <= 10 {
                return None;
            }
            assert(whole[10] == fields@[10]@);
            match parse_u64(fields[10].as_slice()) {
                Some(inode) => inode,
                None => {
                    return None;
                },
            }
        },
    };
    if !inodes.contains(&inode) {
        return None;
    }
    hex_pair(fields[4].as_slice())
}

/// The sum of two counts, as far as it can be counted.
pub open spec fn capped(a: int) -> nat {
    if a > u64::MAX {
        u64::MAX as nat
    } else {
        a as nat
    }
}

/// The sockets of a table, and what waits in them.
pub open spec fn rows_spec(rows: Seq<Seq<char>>, inodes: Set<u64>) -> (nat, nat, nat)
    decreases rows.len(),
{
    if rows.len() == 0 {
        (0, 0, 0)
    } else {
        let before = rows_spec(rows.drop_last(), inodes);
        match row_spec(rows.last(), inodes) {
            Some((tx, rx)) => (
                capped(before.0 + 1int),
                capped(before.1 + tx as int),
                capped(before.2 + rx as int),
            ),
            None => before,
        }
    }
}

/// The rows come after a heading.
pub open spec fn table_spec(table: Seq<char>, inodes: Set<u64>) -> (nat, nat, nat) {
    let all = lines_spec(table);
    rows_spec(
        if all.len() == 0 {
            all
        } else {
            all.skip(1)
        },
        inodes,
    )
}

/// How many of the sockets a table lists, and the bytes that wait in them.
pub fn parse_socket_table(table: &str, inodes: &BTreeSet<u64>) -> (r: (u64, u64, u64))
    ensures
        (r.0 as nat, r.1 as nat, r.2 as nat) == table_spec(table@, inodes@),
{
    let chars = chars_of(table);
    let all = lines(chars.as_slice());
    let ghost whole = pieces(all@);
    if all.len() == 0 {
        assert(whole =~= Seq::empty());
        return (0, 0, 0);
    }
    let ghost rows = whole.skip(1);
    let mut count: u64 = 0;
    let mut tx_bytes: u64 = 0;
    let mut rx_bytes: u64 = 0;
    let mut i: usize = 1;
    assert(rows.take(0) =~= Seq::empty());
    while i < all.len()
        invariant
            1 <= i <= all@.len(),
            whole == pieces(all@),
            rows == whole.skip(1),
            (count as nat, tx_bytes as nat, rx_bytes as nat) == rows_spec(
                rows.take(i - 1),
                inodes@,
            ),
        decreases all@.len() - i,
    {
        let ghost next = rows.take(i as int);
        assert(next.drop_last() =~= rows.take(i - 1));
        assert(next.last() == all@[i as int]@);
        if let Some((tx, rx)) = row_of(all[i].as_slice(), inodes) {
            count = count.saturating_add(1);
            tx_bytes = tx_bytes.saturating_add(tx);
            rx_bytes = rx_bytes.saturating_add(rx);
        }
        i = i + 1;
    }
    assert(rows.take(i - 1) =~= rows);
    (count, tx_bytes, rx_bytes)
}

/// The inode of a link that leads to a socket.
pub open spec fn link_spec(target: Seq<char>) -> Option<nat> {
    let prefix = "socket:["@;
    if crate::text::has_prefix(target, prefix) && target.len() > prefix.len() && target.last()
        == ']' {
        parse_unsigned(target.subrange(prefix.len() as int, target.len() - 1), u64::MAX as nat)
    } else {
        None
    }
}

pub fn socket_inode(target: &str) -> (r: Option<u64>)
    ensures
        match r {
            Some(inode) => link_spec(target@) == Some(inode as nat),
            None => link_spec(target@) is None,
        },
{
    let chars = chars_of(target);
    let s = chars.as_slice();
    let prefix = chars_of("socket:[");
    let n: usize = s.len();
    if !starts_with(s, "socket:[") || n <= prefix.len() || s[n - 1] != ']' {
        return None;
    }
    parse_u64(vstd::slice::slice_subrange(s, prefix.len(), n - 1))
}

/// The links that lead to sockets.
pub open spec fn socket_links(targets: Seq<String>) -> Seq<u64>
    decreases targets.len(),
{
    if targets.len() == 0 {
        Seq::empty()
    } else {
        match link_spec(targets.last()@) {
            Some(inode) => socket_links(targets.drop_last()).push(inode as u64),
            None => socket_links(targets.drop_last()),
        }
    }
}

proof fn lemma_links_len(targets: Seq<String>)
    ensures
        socket_links(targets).len() <= targets.len(),
    decreases targets.len(),
{
    if targets.len() > 0 {
        lemma_links_len(targets.drop_last());
    }
}

/// How many of the open files are sockets, and their inodes.
pub fn own_socket_inodes(targets: &Vec<String>) -> (r: (u64, BTreeSet<u64>))
    ensures
        r.0 == socket_links(targets@).len(),
        r.1@ == socket_links(targets@).to_set(),
{
    let mut fds: u64 = 0;
    let mut inodes: BTreeSet<u64> = BTreeSet::new();
    let mut i: usize = 0;
    assert(targets@.take(0) =~= Seq::empty());
    assert(Seq::<u64>::empty().to_set() =~= Set::empty());
    while i < targets.len()
        invariant
            i <= targets@.len(),
            fds == socket_links(targets@.take(i as int)).len(),
            fds <= i,
            inodes@ == socket_links(targets@.take(i as int)).to_set(),
        decreases targets@.len() - i,
    {
        let ghost next = targets@.take(i + 1);
        assert(next.drop_last() =~= targets@.take(i as int));
        assert(next.last() == targets@[i as int]);
        if let Some(inode) = socket_inode(targets[i].as_str()) {
            let ghost before = socket_links(next.drop_last());
            fds = fds + 1;
            inodes.insert(inode);
            assert(before.push(inode).to_set() =~= before.to_set().insert(inode)) by {
                let after = before.push(inode);
                assert(after[before.len() as int] == inode);
                assert forall|x: u64| before.contains(x) implies after.contains(x) by {
                    let k = before.index_of(x);
                    assert(after[k] == x);
                }
            }
        }
        i = i + 1;
    }
    assert(targets@.take(i as int) =~= targets@);
    (fds, inodes)
}

} // verus!
