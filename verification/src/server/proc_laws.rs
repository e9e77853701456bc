//! What the texts of the system say, written out and read back.

use vstd::prelude::*;
use crate::net::hex_value;
use crate::server::host_cpu::{
    core_lines, cpu_total_spec, host_spec, is_core, numbers, percentage_spec, process_spec,
    wrapped_sum, CpuMeter, CpuSnapshot,
};
use crate::server::memory_metrics::{
    available_spec, mappings_spec, parse_process_memory, parse_smaps_rollup, real_limit, total_spec,
    ProcessMemory, ProxyBudget, SmapsRollup,
};
use crate::server::perf::proc_stat_spec;
use crate::server::proc_text::{
    all_hex, below, directory_spec, group_fields, group_in, hex_pair_spec, is_unified, kib_in,
    kib_spec, limit_spec, link_spec, number_spec, pair_spec, pairs_of, row_spec, rows_spec,
    stat_spec, table_spec, value_of, GroupVersion, StatTable,
};
use crate::text::{
    decimal, free_of, is_hex_digit, is_white_space, law_decimal_round_trip,
    law_trimming_takes_the_edges, lemma_between, lemma_decimal, lemma_first_in_is,
    lemma_split_joined, lines_spec, non_empty, split_spec, strip_return, with_between, words_spec,
    CharClass,
};

verus! {

// ---------------------------------------------------------------------------
// Words and lines
// ---------------------------------------------------------------------------

pub open spec fn all_filled(parts: Seq<Seq<char>>) -> bool {
    forall|i: int| 0 <= i < parts.len() ==> (#[trigger] parts[i]).len() > 0
}

/// Words: at least one, none of them empty or with white space in it.
pub open spec fn are_words(parts: Seq<Seq<char>>) -> bool {
    parts.len() > 0 && free_of(parts, CharClass::WhiteSpace) && all_filled(parts)
}

/// Lines: none of them broken, and none with a carriage return at its end.
pub open spec fn are_lines(parts: Seq<Seq<char>>) -> bool {
    &&& free_of(parts, CharClass::Is('\n'))
    &&& forall|i: int|
        0 <= i < parts.len() ==> (#[trigger] parts[i]).len() == 0 || parts[i].last() != '\r'
}

proof fn lemma_filled(parts: Seq<Seq<char>>)
    requires
        all_filled(parts),
    ensures
        non_empty(parts) == parts,
    decreases parts.len(),
{
    if parts.len() > 0 {
        assert(parts.last() == parts[parts.len() - 1]);
        assert forall|i: int| 0 <= i < parts.drop_last().len() implies (
        #[trigger] parts.drop_last()[i]).len() > 0 by {
            assert(parts[i].len() > 0);
        }
        lemma_filled(parts.drop_last());
        assert(parts.drop_last().push(parts.last()) =~= parts);
    }
}

/// Words with spaces between them are read one by one.
pub proof fn law_words_are_read(parts: Seq<Seq<char>>)
    requires
        are_words(parts),
    ensures
        words_spec(with_between(parts, ' ')) == parts,
        words_spec(with_between(parts, '\t')) == parts,
{
    lemma_between(parts, ' ', CharClass::WhiteSpace);
    lemma_between(parts, '\t', CharClass::WhiteSpace);
    lemma_filled(parts);
}

/// Lines are read one by one, whether or not the last one is ended.
pub proof fn law_lines_are_read(parts: Seq<Seq<char>>)
    requires
        are_lines(parts),
        parts.len() > 0,
    ensures
        lines_spec(with_between(parts, '\n').push('\n')) == parts,
        parts.last().len() > 0 ==> lines_spec(with_between(parts, '\n')) == parts,
{
    let feed = CharClass::Is('\n');
    let text = with_between(parts, '\n');
    let none = Seq::<char>::empty();
    lemma_between(parts, '\n', feed);
    lemma_split_joined(text, '\n', none, feed);
    assert(text.push('\n') + none =~= text.push('\n'));
    assert(split_spec(none, feed) =~= seq![none]);
    let all = split_spec(text.push('\n'), feed);
    assert(all =~= parts.push(none));
    assert(all.drop_last() =~= parts);
    assert forall|i: int| 0 <= i < parts.len() implies strip_return(#[trigger] parts[i])
        == parts[i] by {}
    assert(parts.map_values(|l: Seq<char>| strip_return(l)) =~= parts);
    if parts.last().len() > 0 {
        let front = parts.drop_last();
        assert forall|i: int| 0 <= i < front.len() implies strip_return(#[trigger] front[i])
            == front[i] by {
            assert(front[i] == parts[i]);
            assert(strip_return(parts[i]) == parts[i]);
        }
        assert(front.map_values(|l: Seq<char>| strip_return(l)) =~= front);
        assert(front.push(parts.last()) =~= parts);
    }
}

/// A line that says a number of a key, with more words behind it.
pub open spec fn entry(key: Seq<char>, n: u64, more: Seq<Seq<char>>) -> Seq<char> {
    with_between(seq![key, decimal(n as nat)] + more, ' ')
}

/// A word that a key can be.
pub open spec fn is_word(word: Seq<char>) -> bool {
    word.len() > 0 && forall|k: int| 0 <= k < word.len() ==> !is_white_space(#[trigger] word[k])
}

pub proof fn lemma_entry(key: Seq<char>, n: u64, more: Seq<Seq<char>>)
    requires
        is_word(key),
        more.len() == 0 || are_words(more),
    ensures
        pair_spec(entry(key, n, more)) == Some((key, n as nat)),
{
    lemma_decimal(n as nat);
    let number = decimal(n as nat);
    let all = seq![key, number] + more;
    assert forall|i: int, k: int| 0 <= i < all.len() && 0 <= k < all[i].len() implies !CharClass::WhiteSpace.holds(
        #[trigger] all[i][k],
    ) by {
        if i == 0 {
            assert(!is_white_space(key[k]));
        } else if i == 1 {
            assert(crate::text::is_digit(number[k]));
        } else {
            assert(!CharClass::WhiteSpace.holds(more[i - 2][k]));
        }
    }
    assert forall|i: int| 0 <= i < all.len() implies (#[trigger] all[i]).len() > 0 by {
        if i >= 2 {
            assert(more[i - 2].len() > 0);
        }
    }
    law_words_are_read(all);
    law_decimal_round_trip(n as nat, u64::MAX as nat);
}

proof fn lemma_kib_in(before: Seq<Seq<char>>, line: Seq<char>, after: Seq<Seq<char>>, field: Seq<char>, n: nat)
    requires
        pair_spec(line) == Some((field, n)),
        forall|i: int|
            0 <= i < before.len() ==> match pair_spec(#[trigger] before[i]) {
                Some((key, _)) => key != field,
                None => true,
            },
    ensures
        kib_in(before.push(line) + after, field) == Some(n),
    decreases before.len(),
{
    let all = before.push(line) + after;
    if before.len() > 0 {
        assert(all[0] == before[0]);
        assert(all.skip(1) =~= before.skip(1).push(line) + after);
        assert forall|i: int| 0 <= i < before.skip(1).len() implies match pair_spec(
            #[trigger] before.skip(1)[i],
        ) {
            Some((key, _)) => key != field,
            None => true,
        } by {
            assert(before.skip(1)[i] == before[i + 1]);
        }
        lemma_kib_in(before.skip(1), line, after, field, n);
    } else {
        assert(all[0] == line);
    }
}

/// A field has the number of the first line that begins with it, whatever the other
/// lines say, and whatever its own line says behind the number.
pub proof fn law_field_has_its_number(
    before: Seq<Seq<char>>,
    field: Seq<char>,
    n: u64,
    more: Seq<Seq<char>>,
    after: Seq<Seq<char>>,
)
    requires
        is_word(field),
        more.len() == 0 || are_words(more),
        are_lines(before.push(entry(field, n, more)) + after),
        forall|i: int|
            0 <= i < before.len() ==> match pair_spec(#[trigger] before[i]) {
                Some((key, _)) => key != field,
                None => true,
            },
    ensures
        kib_spec(
            with_between(before.push(entry(field, n, more)) + after, '\n').push('\n'),
            field,
        ) == Some(n as nat),
{
    lemma_entry(field, n, more);
    law_lines_are_read(before.push(entry(field, n, more)) + after);
    lemma_kib_in(before, entry(field, n, more), after, field, n as nat);
}

/// In a table the last line of a key counts, and no line changes another key.
pub proof fn law_last_line_counts(
    lines: Seq<Seq<char>>,
    key: Seq<char>,
    n: u64,
    more: Seq<Seq<char>>,
    other: Seq<char>,
)
    requires
        is_word(key),
        more.len() == 0 || are_words(more),
        are_lines(lines.push(entry(key, n, more))),
    ensures
        ({
            let text = with_between(lines.push(entry(key, n, more)), '\n').push('\n');
            &&& value_of(stat_spec(Some(text)), key) == Some(n as nat)
            &&& other != key ==> value_of(stat_spec(Some(text)), other) == value_of(
                pairs_of(lines),
                other,
            )
        }),
{
    let line = entry(key, n, more);
    lemma_entry(key, n, more);
    law_lines_are_read(lines.push(line));
    assert(lines.push(line).drop_last() =~= lines);
    let pairs = pairs_of(lines).push((key, n as nat));
    assert(pairs.drop_last() =~= pairs_of(lines));
}

/// Of two names of a figure the first that is known counts, and none counts as
/// nothing.
pub proof fn law_first_name_counts(
    pairs: Seq<(Seq<char>, nat)>,
    key: Seq<char>,
    other: Seq<char>,
    n: nat,
    m: nat,
)
    ensures
        value_of(pairs, key) == Some(n) ==> StatTable::first_of(pairs, key, other) == n,
        value_of(pairs, key) is None && value_of(pairs, other) == Some(m) ==> StatTable::first_of(
            pairs,
            key,
            other,
        ) == m,
        value_of(pairs, key) is None && value_of(pairs, other) is None ==> StatTable::first_of(
            pairs,
            key,
            other,
        ) == 0,
{
}

/// White space alone.
pub open spec fn only_blanks(s: Seq<char>) -> bool {
    forall|k: int| 0 <= k < s.len() ==> CharClass::WhiteSpace.holds(#[trigger] s[k])
}

/// A file with a number in it says that number, and a limit may say that there is
/// none.
pub proof fn law_files_hold_numbers(before: Seq<char>, n: u64, after: Seq<char>)
    requires
        only_blanks(before),
        only_blanks(after),
    ensures
        number_spec(Some(before + decimal(n as nat) + after)) == Some(n as nat),
        limit_spec(Some(before + decimal(n as nat) + after)) == Some(n as nat),
        limit_spec(Some(before + "max"@ + after)) is None,
        number_spec(None) is None,
        limit_spec(None) is None,
        n < 0x1000_0000_0000_0000 ==> real_limit(Some(n as nat)) == Some(n as nat),
        n >= 0x1000_0000_0000_0000 ==> real_limit(Some(n as nat)) is None,
{
    lemma_decimal(n as nat);
    let number = decimal(n as nat);
    assert(crate::text::is_digit(number[0]) && crate::text::is_digit(number.last()));
    law_trimming_takes_the_edges(before, number, after, CharClass::WhiteSpace);
    law_decimal_round_trip(n as nat, u64::MAX as nat);
    reveal_strlit("max");
    law_trimming_takes_the_edges(before, "max"@, after, CharClass::WhiteSpace);
    assert("max"@[0] == 'm');
}

// ---------------------------------------------------------------------------
// Control groups
// ---------------------------------------------------------------------------

proof fn lemma_fields(hierarchy: Seq<char>, controllers: Seq<char>, path: Seq<char>)
    requires
        forall|k: int| 0 <= k < hierarchy.len() ==> hierarchy[k] != ':',
        forall|k: int| 0 <= k < controllers.len() ==> controllers[k] != ':',
    ensures
        group_fields(hierarchy.push(':') + (controllers.push(':') + path)) == (
            hierarchy,
            controllers,
            path,
        ),
{
    let rest = controllers.push(':') + path;
    let line = hierarchy.push(':') + rest;
    let colon = CharClass::Is(':');
    assert forall|k: int| 0 <= k < hierarchy.len() implies !colon.holds(line[k]) by {
        assert(line[k] == hierarchy[k]);
    }
    lemma_first_in_is(line, colon, hierarchy.len() as int);
    assert(line.take(hierarchy.len() as int) =~= hierarchy);
    assert(line.skip(hierarchy.len() as int + 1) =~= rest);
    assert forall|k: int| 0 <= k < controllers.len() implies !colon.holds(rest[k]) by {
        assert(rest[k] == controllers[k]);
    }
    lemma_first_in_is(rest, colon, controllers.len() as int);
    assert(rest.take(controllers.len() as int) =~= controllers);
    assert(rest.skip(controllers.len() as int + 1) =~= path);
}

proof fn lemma_group_skips(before: Seq<Seq<char>>, rest: Seq<Seq<char>>, found: Option<Seq<char>>)
    requires
        forall|i: int| 0 <= i < before.len() ==> !is_unified(#[trigger] before[i]),
    ensures
        exists|other: Option<Seq<char>>|
            group_in(before + rest, found) == #[trigger] group_in(rest, other),
    decreases before.len(),
{
    if before.len() == 0 {
        assert(before + rest =~= rest);
    } else {
        let all = before + rest;
        assert(all[0] == before[0]);
        assert(all.skip(1) =~= before.skip(1) + rest);
        assert forall|i: int| 0 <= i < before.skip(1).len() implies !is_unified(
            #[trigger] before.skip(1)[i],
        ) by {
            assert(before.skip(1)[i] == before[i + 1]);
        }
        let next = if crate::server::proc_text::counts_memory(all[0]) {
            Some(group_fields(all[0]).2)
        } else {
            found
        };
        lemma_group_skips(before.skip(1), rest, next);
    }
}

/// The unified group is the one whose memory is told, wherever its line stands.
pub proof fn law_unified_group_is_told(
    before: Seq<Seq<char>>,
    path: Seq<char>,
    after: Seq<Seq<char>>,
)
    requires
        forall|i: int| 0 <= i < before.len() ==> !is_unified(#[trigger] before[i]),
    ensures
        group_in(before + (seq![seq!['0', ':', ':'] + path] + after), None) == Some(
            (GroupVersion::Two, path),
        ),
{
    let line = seq!['0', ':', ':'] + path;
    let none = Seq::<char>::empty();
    reveal_strlit("0");
    assert("0"@ =~= seq!['0']);
    assert(line =~= seq!['0'].push(':') + (none.push(':') + path));
    lemma_fields(seq!['0'], none, path);
    let rest = seq![line] + after;
    assert(rest[0] == line);
    lemma_group_skips(before, rest, None);
}

/// Without a unified group the last one that counts memory is told, and nothing
/// where none does.
pub proof fn law_memory_group_is_told(
    before: Seq<Seq<char>>,
    hierarchy: Seq<char>,
    controllers: Seq<Seq<char>>,
    path: Seq<char>,
    i: int,
)
    requires
        forall|i: int| 0 <= i < before.len() ==> !is_unified(#[trigger] before[i]),
        forall|k: int| 0 <= k < hierarchy.len() ==> hierarchy[k] != ':',
        0 <= i < controllers.len(),
        controllers[i] == "memory"@,
        free_of(controllers, CharClass::Is(',')),
        free_of(controllers, CharClass::Is(':')),
    ensures
        group_in(
            before.push(
                hierarchy.push(':') + (with_between(controllers, ',').push(':') + path),
            ),
            None,
        ) == Some((GroupVersion::One, path)),
        group_in(Seq::empty(), None) is None,
{
    let names = with_between(controllers, ',');
    let line = hierarchy.push(':') + (names.push(':') + path);
    lemma_between_free(controllers, ',', ':');
    lemma_fields(hierarchy, names, path);
    lemma_between(controllers, ',', CharClass::Is(','));
    assert(split_spec(names, CharClass::Is(',')).contains("memory"@));
    let rest = seq![line];
    assert(rest.skip(1) =~= Seq::empty());
    assert(before.push(line) =~= before + rest);
    reveal_strlit("memory");
    lemma_between_len(controllers, ',', i);
    assert(!is_unified(line));
    lemma_group_skips(before, rest, None);
    reveal_with_fuel(group_in, 2);
}

proof fn lemma_between_free(parts: Seq<Seq<char>>, c: char, d: char)
    requires
        c != d,
        free_of(parts, CharClass::Is(d)),
    ensures
        forall|k: int|
            0 <= k < with_between(parts, c).len() ==> #[trigger] with_between(parts, c)[k] != d,
    decreases parts.len(),
{
    if parts.len() == 1 {
        assert forall|k: int| 0 <= k < parts[0].len() implies parts[0][k] != d by {
            assert(!CharClass::Is(d).holds(parts[0][k]));
        }
    } else if parts.len() > 1 {
        let before = parts.drop_last();
        let n = parts.len() - 1;
        assert forall|i: int, k: int|
            0 <= i < before.len() && 0 <= k < before[i].len() implies !CharClass::Is(d).holds(
            #[trigger] before[i][k],
        ) by {
            assert(!CharClass::Is(d).holds(parts[i][k]));
        }
        lemma_between_free(before, c, d);
        let text = with_between(parts, c);
        let front = with_between(before, c);
        assert forall|k: int| 0 <= k < text.len() implies #[trigger] text[k] != d by {
            if k < front.len() {
                assert(text[k] == front[k]);
            } else if k > front.len() {
                assert(text[k] == parts[n][k - front.len() - 1]);
                assert(!CharClass::Is(d).holds(parts[n][k - front.len() - 1]));
            }
        }
    }
}

proof fn lemma_between_len(parts: Seq<Seq<char>>, c: char, i: int)
    requires
        0 <= i < parts.len(),
    ensures
        with_between(parts, c).len() >= parts[i].len(),
    decreases parts.len(),
{
    if parts.len() > 1 && i < parts.len() - 1 {
        lemma_between_len(parts.drop_last(), c, i);
    }
}

proof fn lemma_below(root: Seq<char>, parts: Seq<Seq<char>>)
    requires
        root.len() > 0,
        root.last() != '/',
        parts.len() > 0,
        all_filled(parts),
        free_of(parts, CharClass::Is('/')),
        forall|i: int| 0 <= i < parts.len() ==> #[trigger] parts[i] != "."@ && parts[i] != ".."@,
    ensures
        below(root, parts) == Some(root.push('/') + with_between(parts, '/')),
        (root.push('/') + with_between(parts, '/')).last() != '/',
    decreases parts.len(),
{
    let before = parts.drop_last();
    let n = parts.len() - 1;
    let last = parts[n];
    assert(parts.last() == last);
    assert(last.len() > 0);
    assert(!CharClass::Is('/').holds(parts[n][last.len() - 1]));
    if parts.len() == 1 {
        assert(before =~= Seq::empty());
        assert(below(root, before) == Some(root));
    } else {
        assert forall|i: int, k: int|
            0 <= i < before.len() && 0 <= k < before[i].len() implies !CharClass::Is('/').holds(
            #[trigger] before[i][k],
        ) by {
            assert(!CharClass::Is('/').holds(parts[i][k]));
        }
        assert forall|i: int| 0 <= i < before.len() implies (#[trigger] before[i]).len() > 0
            && before[i] != "."@ && before[i] != ".."@ by {
            assert(parts[i].len() > 0);
        }
        lemma_below(root, before);
        assert(root.push('/') + with_between(before, '/').push('/') + last =~= root.push('/')
            + with_between(parts, '/'));
        assert((root.push('/') + with_between(before, '/')).push('/') + last =~= root.push('/')
            + with_between(parts, '/'));
    }
}

/// The directory of a group is the path of the group below its root.
pub proof fn law_group_is_below_its_root(root: Seq<char>, parts: Seq<Seq<char>>)
    requires
        root.len() > 0,
        root.last() != '/',
        parts.len() > 0,
        all_filled(parts),
        free_of(parts, CharClass::Is('/')),
        forall|i: int| 0 <= i < parts.len() ==> #[trigger] parts[i] != "."@ && parts[i] != ".."@,
    ensures
        directory_spec(root, seq!['/'] + with_between(parts, '/')) == Some(
            root + seq!['/'] + with_between(parts, '/'),
        ),
        directory_spec(root, seq!['/']) == Some(root),
{
    let slash = CharClass::Is('/');
    let none = Seq::<char>::empty();
    let path = with_between(parts, '/');
    lemma_between(parts, '/', slash);
    lemma_split_joined(none, '/', path, slash);
    lemma_split_joined(none, '/', none, slash);
    assert(none.push('/') + path =~= seq!['/'] + path);
    assert(none.push('/') + none =~= seq!['/']);
    assert(split_spec(none, slash) =~= seq![none]);
    lemma_filled(parts);
    lemma_leading_gap(parts);
    lemma_leading_gap(seq![none]);
    lemma_leading_gap(Seq::empty());
    assert(seq![none] + Seq::<Seq<char>>::empty() =~= seq![none]);
    lemma_below(root, parts);
    assert(root.push('/') + path =~= root + seq!['/'] + path);
}

proof fn lemma_leading_gap(parts: Seq<Seq<char>>)
    ensures
        non_empty(seq![Seq::<char>::empty()] + parts) == non_empty(parts),
    decreases parts.len(),
{
    let all = seq![Seq::<char>::empty()] + parts;
    reveal_with_fuel(non_empty, 2);
    if parts.len() == 0 {
        assert(all.drop_last() =~= parts);
        assert(all.last().len() == 0);
    } else {
        assert(all.drop_last() =~= seq![Seq::<char>::empty()] + parts.drop_last());
        assert(all.last() == parts.last());
        lemma_leading_gap(parts.drop_last());
    }
}

// ---------------------------------------------------------------------------
// Sockets
// ---------------------------------------------------------------------------

proof fn lemma_hex_pair(tx: Seq<char>, rx: Seq<char>)
    requires
        0 < tx.len(),
        0 < rx.len(),
        all_hex(tx),
        all_hex(rx),
        hex_value(tx) <= u64::MAX,
        hex_value(rx) <= u64::MAX,
    ensures
        hex_pair_spec(tx.push(':') + rx) == Some((hex_value(tx) as nat, hex_value(rx) as nat)),
{
    let s = tx.push(':') + rx;
    let colon = CharClass::Is(':');
    assert forall|k: int| 0 <= k < tx.len() implies !colon.holds(s[k]) by {
        assert(s[k] == tx[k]);
        assert(is_hex_digit(tx[k]));
    }
    lemma_first_in_is(s, colon, tx.len() as int);
    assert(s.take(tx.len() as int) =~= tx);
    assert(s.skip(tx.len() as int + 1) =~= rx);
    assert(is_hex_digit(tx[0]) && is_hex_digit(rx[0]));
}

/// A row of a socket table tells of one of the given sockets, or of none: the bytes
/// to be sent stand before those to be read, and the socket is known by the tenth
/// word.
pub proof fn law_rows_tell_of_own_sockets(
    words: Seq<Seq<char>>,
    tx: Seq<char>,
    rx: Seq<char>,
    inode: u64,
    inodes: Set<u64>,
)
    requires
        are_words(words),
        words.len() >= 10,
        words[4] == tx.push(':') + rx,
        words[9] == decimal(inode as nat),
        0 < tx.len(),
        0 < rx.len(),
        all_hex(tx),
        all_hex(rx),
        hex_value(tx) <= u64::MAX,
        hex_value(rx) <= u64::MAX,
    ensures
        inodes.contains(inode) ==> row_spec(with_between(words, ' '), inodes) == Some(
            (hex_value(tx) as nat, hex_value(rx) as nat),
        ),
        !inodes.contains(inode) ==> row_spec(with_between(words, ' '), inodes) is None,
{
    law_words_are_read(words);
    law_decimal_round_trip(inode as nat, u64::MAX as nat);
    lemma_hex_pair(tx, rx);
}

/// Rows are added up one by one, and the heading of a table is no row.
pub proof fn law_rows_are_added_up(
    rows: Seq<Seq<char>>,
    row: Seq<char>,
    heading: Seq<char>,
    inodes: Set<u64>,
    tx: nat,
    rx: nat,
)
    requires
        rows_spec(rows, inodes).0 < u64::MAX,
        rows_spec(rows, inodes).1 + tx <= u64::MAX,
        rows_spec(rows, inodes).2 + rx <= u64::MAX,
        are_lines(seq![heading] + rows),
    ensures
        row_spec(row, inodes) == Some((tx, rx)) ==> rows_spec(rows.push(row), inodes) == (
            rows_spec(rows, inodes).0 + 1,
            rows_spec(rows, inodes).1 + tx,
            rows_spec(rows, inodes).2 + rx,
        ),
        row_spec(row, inodes) is None ==> rows_spec(rows.push(row), inodes) == rows_spec(
            rows,
            inodes,
        ),
        rows_spec(Seq::empty(), inodes) == (0nat, 0nat, 0nat),
        table_spec(with_between(seq![heading] + rows, '\n').push('\n'), inodes) == rows_spec(
            rows,
            inodes,
        ),
{
    assert(rows.push(row).drop_last() =~= rows);
    law_lines_are_read(seq![heading] + rows);
    assert((seq![heading] + rows).skip(1) =~= rows);
}

/// A link to a socket says its inode; any other link says nothing.
pub proof fn law_links_name_inodes(inode: u64, other: Seq<char>)
    ensures
        link_spec("socket:["@ + decimal(inode as nat) + seq![']']) == Some(inode as nat),
        other.len() > 0 && other[0] != 's' ==> link_spec(other) is None,
{
    reveal_strlit("socket:[");
    let prefix = "socket:["@;
    let number = decimal(inode as nat);
    let target = prefix + number + seq![']'];
    law_decimal_round_trip(inode as nat, u64::MAX as nat);
    lemma_decimal(inode as nat);
    assert(target.subrange(0, prefix.len() as int) =~= prefix);
    assert(target.subrange(prefix.len() as int, target.len() - 1) =~= number);
    if other.len() > 0 && other[0] != 's' && crate::text::has_prefix(other, prefix) {
        assert(other.subrange(0, prefix.len() as int)[0] == 's');
    }
}

// ---------------------------------------------------------------------------
// Memory
// ---------------------------------------------------------------------------

/// Each figure of a process is that of its own field; a field that is missing
/// counts as nothing.
pub proof fn law_process_fields(text: &str, r: ProcessMemory, n: u64)
    requires
        call_ensures(parse_process_memory, (text,), r),
    ensures
        kib_spec(text@, "VmRSS:"@) == Some(n as nat) ==> r.rss_kib == n,
        kib_spec(text@, "VmHWM:"@) == Some(n as nat) ==> r.peak_rss_kib == n,
        kib_spec(text@, "RssAnon:"@) == Some(n as nat) ==> r.anonymous_kib == n,
        kib_spec(text@, "RssFile:"@) == Some(n as nat) ==> r.file_kib == n,
        kib_spec(text@, "RssShmem:"@) == Some(n as nat) ==> r.shmem_kib == n,
        kib_spec(text@, "VmSwap:"@) == Some(n as nat) ==> r.swap_kib == n,
        kib_spec(text@, "Threads:"@) == Some(n as nat) ==> r.threads == n,
        kib_spec(text@, "VmRSS:"@) is None ==> r.rss_kib == 0,
        kib_spec(text@, "VmHWM:"@) is None ==> r.peak_rss_kib == 0,
        kib_spec(text@, "VmSwap:"@) is None ==> r.swap_kib == 0,
        r.available,
{
}

/// Each figure of the mappings is that of its own field, and clean and dirty pages
/// are told together.
pub proof fn law_mapping_fields(text: &str, r: SmapsRollup, n: u64, m: u64)
    requires
        call_ensures(parse_smaps_rollup, (text,), r),
        n + m <= u64::MAX,
    ensures
        kib_spec(text@, "Rss:"@) == Some(n as nat) ==> r.rss_kib == n,
        kib_spec(text@, "Pss:"@) == Some(n as nat) ==> r.pss_kib == n,
        kib_spec(text@, "Pss_Anon:"@) == Some(n as nat) ==> r.pss_anon_kib == n,
        kib_spec(text@, "Pss_File:"@) == Some(n as nat) ==> r.pss_file_kib == n,
        kib_spec(text@, "Pss_Shmem:"@) == Some(n as nat) ==> r.pss_shmem_kib == n,
        kib_spec(text@, "Anonymous:"@) == Some(n as nat) ==> r.anonymous_kib == n,
        kib_spec(text@, "Swap:"@) == Some(n as nat) ==> r.swap_kib == n,
        kib_spec(text@, "SwapPss:"@) == Some(n as nat) ==> r.swap_pss_kib == n,
        kib_spec(text@, "Private_Clean:"@) == Some(n as nat) && kib_spec(text@, "Private_Dirty:"@)
            == Some(m as nat) ==> r.private_kib == n + m,
        kib_spec(text@, "Shared_Clean:"@) == Some(n as nat) && kib_spec(text@, "Shared_Dirty:"@)
            == Some(m as nat) ==> r.shared_kib == n + m,
        r.available,
{
}

/// Memory is left as far as both the host and the control group leave it: never
/// more than either, and as much as one of them.
pub proof fn law_least_memory_is_left(meminfo: Seq<char>, kib: nat, limit: u64, current: u64)
    requires
        kib_spec(meminfo, "MemAvailable:"@) == Some(kib),
        kib * 1024 <= u64::MAX,
        current <= limit,
    ensures
        available_spec(Some(meminfo), None, current) == Some(kib * 1024),
        available_spec(None, Some(limit), current) == Some((limit - current) as nat),
        available_spec(None, None, current) is None,
        available_spec(Some(meminfo), Some(limit), current) matches Some(left) && left <= kib
            * 1024 && left <= limit - current && (left == kib * 1024 || left == limit - current),
        available_spec(None, Some(current), limit) == Some(0nat),
{
}

/// Mappings are told where there are any, the larger kind first.
pub proof fn law_mappings_are_told(process: ProcessMemory, rollup: SmapsRollup)
    ensures
        ({
            let told = mappings_spec(process, rollup);
            let file = process.file_kib > 0 || rollup.pss_file_kib > 0;
            let anonymous = process.anonymous_kib > 0 || rollup.pss_anon_kib > 0;
            &&& told.len() == if file && anonymous {
                2int
            } else if file || anonymous {
                1
            } else {
                0
            }
            &&& forall|i: int|
                0 <= i < told.len() ==> {
                    ||| {
                        &&& (#[trigger] told[i]).category == "file-backed-mappings"@
                        &&& told[i].rss_kib == process.file_kib
                        &&& told[i].pss_kib == rollup.pss_file_kib
                        &&& told[i].shared_kib == rollup.shared_kib
                        &&& told[i].private_kib <= rollup.private_kib
                    }
                    ||| {
                        &&& told[i].category == "anonymous-mappings"@
                        &&& told[i].rss_kib == process.anonymous_kib
                        &&& told[i].pss_kib == rollup.pss_anon_kib
                        &&& told[i].shared_kib == 0
                        &&& told[i].private_kib <= rollup.anonymous_kib
                    }
                }
            &&& file && anonymous ==> told[0].rss_kib >= told[1].rss_kib
            &&& file && anonymous && process.file_kib == process.anonymous_kib ==> told[0].category
                == "anonymous-mappings"@
        }),
{
}

/// The buffers of the local proxy take up as much as there are of each kind.
pub proof fn law_proxy_buffers_add_up(
    budget: ProxyBudget,
    tcp: u64,
    normal: u64,
    jumbo: u64,
    limit: u64,
)
    requires
        tcp * (budget.tcp_relay_bytes_per_session / 2) + normal * budget.udp_normal_buffer_bytes
            + jumbo * budget.udp_jumbo_buffer_bytes <= u64::MAX,
        limit * budget.tcp_relay_bytes_per_session + budget.udp_response_bytes_at_limit <= u64::MAX,
    ensures
        budget.payload_spec(tcp, normal, jumbo) == tcp * (budget.tcp_relay_bytes_per_session / 2)
            + normal * budget.udp_normal_buffer_bytes + jumbo * budget.udp_jumbo_buffer_bytes,
        budget.bound_spec(limit) == limit * budget.tcp_relay_bytes_per_session
            + budget.udp_response_bytes_at_limit,
{
    let a = budget.tcp_relay_bytes_per_session / 2;
    let b = budget.udp_normal_buffer_bytes;
    let c = budget.udp_jumbo_buffer_bytes;
    let d = budget.tcp_relay_bytes_per_session;
    assert(tcp * a >= 0 && normal * b >= 0 && jumbo * c >= 0 && limit * d >= 0)
        by (nonlinear_arith);
}

/// Lengths are added up one by one.
pub proof fn law_lengths_add_up(lengths: Seq<u64>, n: u64)
    requires
        total_spec(lengths) + n <= u64::MAX,
    ensures
        total_spec(Seq::empty()) == 0,
        total_spec(lengths.push(n)) == total_spec(lengths) + n,
{
    assert(lengths.push(n).drop_last() =~= lengths);
}

// ---------------------------------------------------------------------------
// Processors
// ---------------------------------------------------------------------------

/// Ticks as words.
pub open spec fn tick_words(ticks: Seq<u64>) -> Seq<Seq<char>> {
    ticks.map_values(|n: u64| decimal(n as nat))
}

proof fn lemma_ticks(ticks: Seq<u64>)
    ensures
        numbers(tick_words(ticks)) == Some(ticks),
    decreases ticks.len(),
{
    if ticks.len() > 0 {
        lemma_ticks(ticks.drop_last());
        law_decimal_round_trip(ticks.last() as nat, u64::MAX as nat);
        assert(tick_words(ticks).drop_last() =~= tick_words(ticks.drop_last()));
        assert(ticks.drop_last().push(ticks.last()) =~= ticks);
    }
}

/// A line of ticks says their sum, if there are four of them or more.
pub proof fn law_ticks_are_added_up(name: Seq<char>, ticks: Seq<u64>, n: u64)
    requires
        is_word(name),
    ensures
        ticks.len() >= 4 ==> cpu_total_spec(with_between(seq![name] + tick_words(ticks), ' '))
            == Some(wrapped_sum(ticks)),
        ticks.len() < 4 ==> cpu_total_spec(with_between(seq![name] + tick_words(ticks), ' ')) is None,
        wrapped_sum(Seq::empty()) == 0,
        wrapped_sum(ticks) + n <= u64::MAX ==> wrapped_sum(ticks.push(n)) == wrapped_sum(ticks) + n,
        wrapped_sum(ticks) + n > u64::MAX ==> wrapped_sum(ticks.push(n)) == wrapped_sum(ticks) + n
            - u64::MAX - 1,
{
    let words = seq![name] + tick_words(ticks);
    assert forall|i: int, k: int| 0 <= i < words.len() && 0 <= k < words[i].len() implies !CharClass::WhiteSpace.holds(
        #[trigger] words[i][k],
    ) by {
        if i == 0 {
            assert(!is_white_space(name[k]));
        } else {
            let number = decimal(ticks[i - 1] as nat);
            lemma_decimal(ticks[i - 1] as nat);
            assert(words[i] == number);
            assert(crate::text::is_digit(number[k]));
        }
    }
    assert forall|i: int| 0 <= i < words.len() implies (#[trigger] words[i]).len() > 0 by {
        if i > 0 {
            lemma_decimal(ticks[i - 1] as nat);
        }
    }
    law_words_are_read(words);
    assert(words.skip(1) =~= tick_words(ticks));
    lemma_ticks(ticks);
    assert(ticks.push(n).drop_last() =~= ticks);
}

/// The machine is told by the first line, and has as many processors as lines tell
/// of one.
pub proof fn law_host_is_told_by_its_lines(first: Seq<char>, lines: Seq<Seq<char>>, line: Seq<char>)
    requires
        are_lines(seq![first] + lines),
        crate::text::has_prefix(first, "cpu "@),
    ensures
        ({
            let text = with_between(seq![first] + lines, '\n').push('\n');
            match cpu_total_spec(first) {
                Some(total) => host_spec(text) == Some(
                    (
                        total,
                        if core_lines(lines) == 0 {
                            1nat
                        } else {
                            core_lines(lines)
                        },
                    ),
                ),
                None => host_spec(text) is None,
            }
        }),
        core_lines(Seq::empty()) == 0,
        is_core(line) ==> core_lines(lines.push(line)) == core_lines(lines) + 1,
        !is_core(line) ==> core_lines(lines.push(line)) == core_lines(lines),
{
    law_lines_are_read(seq![first] + lines);
    assert((seq![first] + lines).skip(1) =~= lines);
    assert(lines.push(line).drop_last() =~= lines);
}

/// The line of a processor is known by its number.
pub proof fn law_processors_are_numbered(core: u64, ticks: Seq<u64>)
    requires
        ticks.len() > 0,
    ensures
        is_core(with_between(seq!["cpu"@ + decimal(core as nat)] + tick_words(ticks), ' ')),
{
    reveal_strlit("cpu");
    let name = "cpu"@ + decimal(core as nat);
    let words = seq![name] + tick_words(ticks);
    let line = with_between(words, ' ');
    let rest = seq![decimal(core as nat)] + tick_words(ticks);
    lemma_decimal(core as nat);
    lemma_first_word_cut(name, tick_words(ticks), 3);
    assert(name.skip(3) =~= decimal(core as nat));
    assert(name.take(3) =~= "cpu"@);
    assert(line.subrange(0, 3) =~= "cpu"@);
    assert forall|i: int, k: int| 0 <= i < rest.len() && 0 <= k < rest[i].len() implies !CharClass::WhiteSpace.holds(
        #[trigger] rest[i][k],
    ) by {
        if i == 0 {
            assert(crate::text::is_digit(decimal(core as nat)[k]));
        } else {
            lemma_decimal(ticks[i - 1] as nat);
            assert(crate::text::is_digit(decimal(ticks[i - 1] as nat)[k]));
        }
    }
    assert forall|i: int| 0 <= i < rest.len() implies (#[trigger] rest[i]).len() > 0 by {
        if i > 0 {
            lemma_decimal(ticks[i - 1] as nat);
        }
    }
    law_words_are_read(rest);
}

proof fn lemma_first_word_cut(name: Seq<char>, more: Seq<Seq<char>>, n: int)
    requires
        0 <= n <= name.len(),
    ensures
        with_between(seq![name] + more, ' ').skip(n) == with_between(seq![name.skip(n)] + more, ' '),
        with_between(seq![name] + more, ' ').take(n) == name.take(n),
        with_between(seq![name] + more, ' ').len() >= name.len(),
    decreases more.len(),
{
    let words = seq![name] + more;
    let cut = seq![name.skip(n)] + more;
    if more.len() == 0 {
        assert(words =~= seq![name]);
        assert(cut =~= seq![name.skip(n)]);
    } else {
        let before = more.drop_last();
        lemma_first_word_cut(name, before, n);
        assert(words.drop_last() =~= seq![name] + before);
        assert(cut.drop_last() =~= seq![name.skip(n)] + before);
        assert(words.last() == more.last() && cut.last() == more.last());
        let front = with_between(seq![name] + before, ' ');
        assert((front.push(' ') + more.last()).skip(n) =~= front.skip(n).push(' ') + more.last());
        assert((front.push(' ') + more.last()).take(n) =~= front.take(n));
    }
}

/// The share of a process is what it took of the ticks that went by on one
/// processor: all of one is a hundred, all of four are four hundred, and half of
/// one is fifty.
pub proof fn law_shares_are_in_percent(previous: CpuSnapshot, current: CpuSnapshot, ticks: int)
    requires
        1 <= current.cores <= 1_000_000,
        0 < ticks,
        current.total - previous.total == ticks * current.cores,
        current.process >= previous.process,
    ensures
        current.process - previous.process == ticks ==> percentage_spec(previous, current) == Some(
            100nat,
        ),
        current.process - previous.process == ticks * current.cores ==> percentage_spec(
            previous,
            current,
        ) == Some((100 * current.cores) as nat),
        2 * (current.process - previous.process) == ticks ==> percentage_spec(previous, current)
            == Some(50nat),
{
    let cores = current.cores as int;
    let total = ticks * cores;
    let took = current.process - previous.process;
    assert(total > 0) by (nonlinear_arith)
        requires
            ticks > 0,
            cores >= 1,
            total == ticks * cores,
    ;
    if took == ticks {
        assert((took * cores * 200 + total) / (2 * total) == 100) by (nonlinear_arith)
            requires
                took == ticks,
                total == ticks * cores,
                total > 0,
        {
            assert(took * cores * 200 + total == (2 * total) * 100 + total);
            vstd::arithmetic::div_mod::lemma_fundamental_div_mod_converse(
                took * cores * 200 + total,
                2 * total,
                100,
                total,
            );
        }
    }
    if 2 * took == ticks {
        assert((took * cores * 200 + total) / (2 * total) == 50) by (nonlinear_arith)
            requires
                2 * took == ticks,
                total == ticks * cores,
                total > 0,
        {
            assert(took * cores * 200 + total == (2 * total) * 50 + total);
            vstd::arithmetic::div_mod::lemma_fundamental_div_mod_converse(
                took * cores * 200 + total,
                2 * total,
                50,
                total,
            );
        }
    }
    if took == ticks * cores {
        assert((took * cores * 200 + total) / (2 * total) == 100 * cores) by (nonlinear_arith)
            requires
                took == total,
                total > 0,
        {
            assert(took * cores * 200 + total == (2 * total) * (100 * cores) + total);
            vstd::arithmetic::div_mod::lemma_fundamental_div_mod_converse(
                took * cores * 200 + total,
                2 * total,
                100 * cores,
                total,
            );
        }
    }
}

/// A look keeps what it saw to compare the next with, tells the share since the
/// last, and tells nothing new where the system said nothing.
pub proof fn law_meter_compares_two_looks(
    meter: CpuMeter,
    host: Seq<char>,
    process: Seq<char>,
    total: u64,
    cores: u64,
    ticks: u64,
)
    requires
        host_spec(host) == Some((total, cores as nat)),
        process_spec(process) == Some(ticks as nat),
    ensures
        meter.sampled(host, process).previous == Some(
            CpuSnapshot { total, process: ticks, cores },
        ),
        meter.sampled(host, process).cores == cores,
        meter.previous is None ==> meter.sampled(host, process).percent == meter.percent,
        meter.previous matches Some(last) && last.total >= total ==> meter.sampled(
            host,
            process,
        ).percent == meter.percent,
        meter.sampled(host, Seq::empty()) == meter,
{
    assert(crate::text::last_in(Seq::<char>::empty(), CharClass::Is(')')) == -1);
}

/// A process is told by the words after its name: the twelfth and the thirteenth
/// are added up, whatever the name and the other words are.
pub proof fn law_process_ticks_are_added_up(
    before: Seq<char>,
    words: Seq<Seq<char>>,
    user: u64,
    system: u64,
)
    requires
        are_words(words),
        free_of(words, CharClass::Is(')')),
        words.len() >= 13,
        words[11] == decimal(user as nat),
        words[12] == decimal(system as nat),
        user + system <= u64::MAX,
    ensures
        process_spec(before + seq![')', ' '] + with_between(words, ' ')) == Some(
            (user + system) as nat,
        ),
{
    let tail = with_between(words, ' ');
    let stat = before + seq![')', ' '] + tail;
    let n = before.len() as int;
    lemma_between_free(words, ' ', ')');
    assert(stat[n] == ')');
    assert forall|k: int| n < k < stat.len() implies stat[k] != ')' by {
        if k > n + 1 {
            assert(stat[k] == tail[k - n - 2]);
        }
    }
    lemma_last_in_is(stat, ')', n);
    let none = Seq::<char>::empty();
    lemma_between(words, ' ', CharClass::WhiteSpace);
    lemma_split_joined(none, ' ', tail, CharClass::WhiteSpace);
    assert(stat.skip(n + 1) =~= none.push(' ') + tail);
    assert(split_spec(none, CharClass::WhiteSpace) =~= seq![none]);
    lemma_leading_gap(words);
    lemma_filled(words);
    law_decimal_round_trip(user as nat, u64::MAX as nat);
    law_decimal_round_trip(system as nat, u64::MAX as nat);
}

/// The line of a thread tells its name, between the brackets, and its two times.
pub proof fn law_thread_line_is_read(
    before: Seq<char>,
    name: Seq<char>,
    words: Seq<Seq<char>>,
    user: u64,
    system: u64,
)
    requires
        forall|k: int| 0 <= k < before.len() ==> before[k] != '(',
        are_words(words),
        free_of(words, CharClass::Is(')')),
        words.len() >= 13,
        words[11] == decimal(user as nat),
        words[12] == decimal(system as nat),
    ensures
        proc_stat_spec(before + seq!['('] + name + seq![')', ' '] + with_between(words, ' '))
            == Some((name, user as nat, system as nat)),
{
    let tail = with_between(words, ' ');
    let lead = before + seq!['('] + name;
    let stat = lead + seq![')', ' '] + tail;
    let n = lead.len() as int;
    lemma_between_free(words, ' ', ')');
    assert(stat[n] == ')');
    assert forall|k: int| n < k < stat.len() implies stat[k] != ')' by {
        if k > n + 1 {
            assert(stat[k] == tail[k - n - 2]);
        }
    }
    lemma_last_in_is(stat, ')', n);
    let open = CharClass::Is('(');
    assert forall|k: int| 0 <= k < before.len() implies !open.holds(stat[k]) by {
        assert(stat[k] == before[k]);
    }
    assert(stat[before.len() as int] == '(');
    lemma_first_in_is(stat, open, before.len() as int);
    assert(stat.subrange(before.len() as int + 1, n) =~= name);
    let none = Seq::<char>::empty();
    lemma_between(words, ' ', CharClass::WhiteSpace);
    lemma_split_joined(none, ' ', tail, CharClass::WhiteSpace);
    assert(stat.skip(n + 1) =~= none.push(' ') + tail);
    assert(split_spec(none, CharClass::WhiteSpace) =~= seq![none]);
    lemma_leading_gap(words);
    lemma_filled(words);
    law_decimal_round_trip(user as nat, u64::MAX as nat);
    law_decimal_round_trip(system as nat, u64::MAX as nat);
}

proof fn lemma_last_in_is(s: Seq<char>, c: char, n: int)
    requires
        0 <= n < s.len(),
        s[n] == c,
        forall|k: int| n < k < s.len() ==> s[k] != c,
    ensures
        crate::text::last_in(s, CharClass::Is(c)) == n,
    decreases s.len(),
{
    if n < s.len() - 1 {
        assert(s.last() == s[s.len() - 1]);
        lemma_last_in_is(s.drop_last(), c, n);
    }
}

/// The share is rounded to the nearest percent, and is never more than all
/// processors together.
pub proof fn law_shares_are_rounded(previous: CpuSnapshot, current: CpuSnapshot, share: nat)
    requires
        current.total > previous.total,
        current.process >= previous.process,
        current.cores <= 1_000_000,
        percentage_spec(previous, current) == Some(share),
    ensures
        ({
            let total = current.total - previous.total;
            let work = 100 * ((current.process - previous.process) * current.cores);
            &&& share <= 100 * current.cores
            &&& share < 100 * current.cores ==> 2 * work - total <= 2 * (total * share) && 2 * (
            total * share) <= 2 * work + total
            &&& share == 100 * current.cores ==> 2 * (total * share) <= 2 * work + total
        }),
{
    let total = current.total - previous.total;
    let product = (current.process - previous.process) * current.cores;
    let d = 2 * total;
    let x = product * 200 + total;
    assert((current.process - previous.process) * current.cores * 200 == product * 200);
    vstd::arithmetic::div_mod::lemma_fundamental_div_mod(x, d);
    vstd::arithmetic::div_mod::lemma_mod_bound(x, d);
    let q = x / d;
    assert(d * q == 2 * (total * q)) by (nonlinear_arith)
        requires
            d == 2 * total,
    ;
    if share == 100 * current.cores && q > share {
        assert(total * share <= total * q) by (nonlinear_arith)
            requires
                0 <= share <= q,
                0 < total,
        ;
    }
}

} // verus!
