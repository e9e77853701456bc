//! Text as sequences of characters: splitting, trimming, searching and decimal
//! numbers, with the meaning of the `str` methods of the same names.

use vstd::prelude::*;

verus! {

/// `String::push` appends one character.
pub assume_specification[ String::push ](s: &mut String, c: char)
    ensures
        final(s)@ == old(s)@.push(c),
;

/// A text in quotes, as it is shown to a reader who looks for an error.
pub uninterp spec fn quoted_of(text: Seq<char>) -> Seq<char>;

/// Formats a text with the `Debug` of `str`, which puts it in quotes and escapes
/// what cannot be shown: the result is a function of the text alone.
#[verifier::external_body]
pub(crate) fn quoted(text: &str) -> (r: String)
    ensures
        r@ == quoted_of(text@),
{
    format!("{text:?}")
}

/// The characters of a string slice.
pub fn chars_of(s: &str) -> (v: Vec<char>)
    ensures
        v@ == s@,
{
    let mut v: Vec<char> = Vec::new();
    for c in it: s.chars()
        invariant
            it.seq() == s@,
            v@.len() == it.index(),
            forall|i: int| 0 <= i < v@.len() ==> v@[i] == it.seq()[i],
    {
        v.push(c);
    }
    assert(v@ =~= s@);
    v
}

/// The string made of the given characters.
pub fn string_of(v: &[char]) -> (s: String)
    ensures
        s@ == v@,
{
    let mut s: String = String::new();
    let mut i: usize = 0;
    while i < v.len()
        invariant
            i <= v.len(),
            s@ == v@.take(i as int),
        decreases v.len() - i,
    {
        s.push(v[i]);
        assert(v@.take(i + 1) =~= v@.take(i as int).push(v@[i as int]));
        i = i + 1;
    }
    assert(v@.take(i as int) =~= v@);
    s
}

/// The string made of the given characters, of a vector.
pub fn string_of_vec(v: &Vec<char>) -> (s: String)
    ensures
        s@ == v@,
{
    string_of(v.as_slice())
}

/// Whether two string slices hold the same characters.
pub fn same_text(a: &str, b: &str) -> (r: bool)
    ensures
        r == (a@ == b@),
{
    let x = chars_of(a);
    let y = chars_of(b);
    same_chars(x.as_slice(), y.as_slice())
}

/// Whether two character slices are equal.
pub fn same_chars(a: &[char], b: &[char]) -> (r: bool)
    ensures
        r == (a@ == b@),
{
    if a.len() != b.len() {
        return false;
    }
    let mut i: usize = 0;
    while i < a.len()
        invariant
            i <= a.len(),
            a.len() == b.len(),
            forall|k: int| 0 <= k < i ==> a@[k] == b@[k],
        decreases a.len() - i,
    {
        if a[i] != b[i] {
            assert(a@[i as int] != b@[i as int]);
            return false;
        }
        i = i + 1;
    }
    assert(a@ =~= b@);
    true
}

/// Whether a character slice spells the given literal.
pub fn spells(a: &[char], b: &str) -> (r: bool)
    ensures
        r == (a@ == b@),
{
    let y = chars_of(b);
    same_chars(a, y.as_slice())
}

/// A text of its own.
pub fn copy_text(s: &str) -> (r: String)
    ensures
        r@ == s@,
{
    s.to_owned()
}

/// Texts one after another.
pub open spec fn joined(parts: Seq<Seq<char>>) -> Seq<char>
    decreases parts.len(),
{
    if parts.len() == 0 {
        Seq::empty()
    } else {
        joined(parts.drop_last()) + parts.last()
    }
}

/// The views of texts.
pub open spec fn views(parts: Seq<&str>) -> Seq<Seq<char>> {
    Seq::new(parts.len(), |i: int| parts[i]@)
}

pub fn join_texts(parts: &[&str]) -> (r: String)
    ensures
        r@ == joined(views(parts@)),
{
    let ghost all = views(parts@);
    let mut out: Vec<char> = Vec::new();
    let mut i: usize = 0;
    while i < parts.len()
        invariant
            i <= parts@.len(),
            all == views(parts@),
            out@ == joined(all.take(i as int)),
        decreases parts@.len() - i,
    {
        assert(all.take(i + 1).drop_last() =~= all.take(i as int));
        push_text(&mut out, parts[i]);
        i = i + 1;
    }
    assert(all.take(i as int) =~= all);
    string_of_vec(&out)
}

/// The bytes of text in UTF-8.
pub fn utf8_of(v: &Vec<char>) -> (r: Vec<u8>)
    ensures
        r@ == vstd::utf8::encode_utf8(v@),
{
    let text = string_of_vec(v);
    vstd::slice::slice_to_vec(text.as_str().as_bytes())
}

// ---------------------------------------------------------------------------
// Characters
// ---------------------------------------------------------------------------

/// The Unicode property `White_Space`.
pub open spec fn is_white_space(c: char) -> bool {
    let u = c as u32;
    ||| 9 <= u <= 13
    ||| u == 32
    ||| u == 0x85
    ||| u == 0xA0
    ||| u == 0x1680
    ||| 0x2000 <= u <= 0x200A
    ||| u == 0x2028
    ||| u == 0x2029
    ||| u == 0x202F
    ||| u == 0x205F
    ||| u == 0x3000
}

pub fn white_space(c: char) -> (r: bool)
    ensures
        r == is_white_space(c),
{
    let u: u32 = c as u32;
    (9 <= u && u <= 13) || u == 32 || u == 0x85 || u == 0xA0 || u == 0x1680 || (0x2000 <= u && u
        <= 0x200A) || u == 0x2028 || u == 0x2029 || u == 0x202F || u == 0x205F || u == 0x3000
}

/// An ASCII letter in lower case, any other character as it is.
pub open spec fn lower_char(c: char) -> char {
    if 'A' <= c <= 'Z' {
        (c as u8 + 32) as char
    } else {
        c
    }
}

pub open spec fn lower_spec(s: Seq<char>) -> Seq<char> {
    s.map_values(|c: char| lower_char(c))
}

/// `to_ascii_lowercase`.
pub fn lower(s: &[char]) -> (r: Vec<char>)
    ensures
        r@ == lower_spec(s@),
{
    let mut r: Vec<char> = Vec::new();
    let mut i: usize = 0;
    while i < s.len()
        invariant
            i <= s.len(),
            r@ == lower_spec(s@.take(i as int)),
        decreases s.len() - i,
    {
        let c: char = s[i];
        let l: char = if 'A' <= c && c <= 'Z' {
            (c as u8 + 32) as char
        } else {
            c
        };
        r.push(l);
        assert(lower_spec(s@.take(i + 1)) =~= lower_spec(s@.take(i as int)).push(l));
        i = i + 1;
    }
    assert(s@.take(i as int) =~= s@);
    r
}

/// A class of characters that text is cut or trimmed at.
#[derive(Clone, Copy)]
pub enum CharClass {
    WhiteSpace,
    Is(char),
    /// What may stand between the items of a list: a comma, a semicolon, a line
    /// end, a tab or a space.
    Separator,
    /// What may stand around an item: an angle bracket or a quotation mark.
    Quote,
    /// What ends the path of an address: `?`, `#` or `/`.
    PathEnd,
}

impl CharClass {
    pub open spec fn holds(self, c: char) -> bool {
        match self {
            CharClass::WhiteSpace => is_white_space(c),
            CharClass::Is(x) => x == c,
            CharClass::Separator => c == ',' || c == ';' || c == '\n' || c == '\r' || c == '\t'
                || c == ' ',
            CharClass::Quote => c == '<' || c == '>' || c == '"' || c == '\'',
            CharClass::PathEnd => c == '?' || c == '#' || c == '/',
        }
    }

    pub fn test(&self, c: char) -> (r: bool)
        ensures
            r == self.holds(c),
    {
        match self {
            CharClass::WhiteSpace => white_space(c),
            CharClass::Is(x) => *x == c,
            CharClass::Separator => c == ',' || c == ';' || c == '\n' || c == '\r' || c == '\t'
                || c == ' ',
            CharClass::Quote => c == '<' || c == '>' || c == '"' || c == '\'',
            CharClass::PathEnd => c == '?' || c == '#' || c == '/',
        }
    }
}

// ---------------------------------------------------------------------------
// Searching
// ---------------------------------------------------------------------------

/// The index of the first character of a class, or the length.
pub open spec fn first_in(s: Seq<char>, class: CharClass) -> int
    decreases s.len(),
{
    if s.len() == 0 || class.holds(s[0]) {
        0
    } else {
        1 + first_in(s.skip(1), class)
    }
}

pub proof fn lemma_first_in(s: Seq<char>, class: CharClass)
    ensures
        0 <= first_in(s, class) <= s.len(),
        first_in(s, class) < s.len() ==> class.holds(s[first_in(s, class)]),
        forall|k: int| 0 <= k < first_in(s, class) ==> !class.holds(s[k]),
    decreases s.len(),
{
    if s.len() == 0 || class.holds(s[0]) {
    } else {
        lemma_first_in(s.skip(1), class);
        assert forall|k: int| 0 <= k < first_in(s, class) implies !class.holds(s[k]) by {
            if k > 0 {
                assert(s[k] == s.skip(1)[k - 1]);
            }
        }
    }
}

/// What [`first_in`] is: the least index with the class, if there is one.
pub proof fn lemma_first_in_is(s: Seq<char>, class: CharClass, i: int)
    requires
        0 <= i <= s.len(),
        i < s.len() ==> class.holds(s[i]),
        forall|k: int| 0 <= k < i ==> !class.holds(s[k]),
    ensures
        first_in(s, class) == i,
{
    lemma_first_in(s, class);
}

pub fn find_in(s: &[char], class: CharClass) -> (i: usize)
    ensures
        i == first_in(s@, class),
        i <= s.len(),
{
    let mut i: usize = 0;
    while i < s.len()
        invariant
            i <= s.len(),
            forall|k: int| 0 <= k < i ==> !class.holds(s@[k]),
        decreases s.len() - i,
    {
        if class.test(s[i]) {
            proof {
                lemma_first_in_is(s@, class, i as int);
            }
            return i;
        }
        i = i + 1;
    }
    proof {
        lemma_first_in_is(s@, class, i as int);
    }
    i
}

/// The index of the last character of a class, or one before the first.
pub open spec fn last_in(s: Seq<char>, class: CharClass) -> int
    decreases s.len(),
{
    if s.len() == 0 {
        -1
    } else if class.holds(s.last()) {
        s.len() - 1
    } else {
        last_in(s.drop_last(), class)
    }
}

pub fn rfind_in(s: &[char], class: CharClass) -> (r: Option<usize>)
    ensures
        match r {
            Some(i) => i == last_in(s@, class) && i < s@.len(),
            None => last_in(s@, class) == -1,
        },
{
    let mut end: usize = s.len();
    assert(s@.take(end as int) =~= s@);
    while end > 0
        invariant
            end <= s@.len(),
            last_in(s@.take(end as int), class) == last_in(s@, class),
        decreases end,
    {
        assert(s@.take(end as int).drop_last() =~= s@.take(end - 1));
        if class.test(s[end - 1]) {
            return Some(end - 1);
        }
        end = end - 1;
    }
    None
}

/// `needle` stands in `s` at index `i`.
pub open spec fn occurs_at(s: Seq<char>, needle: Seq<char>, i: int) -> bool {
    0 <= i && i + needle.len() <= s.len() && s.subrange(i, i + needle.len()) == needle
}

/// `str::contains` with a string pattern.
pub open spec fn has_text(s: Seq<char>, needle: Seq<char>) -> bool {
    exists|i: int| occurs_at(s, needle, i)
}

pub open spec fn has_prefix(s: Seq<char>, prefix: Seq<char>) -> bool {
    occurs_at(s, prefix, 0)
}

/// Whether `needle` stands in `s` at index `i`.
pub fn test_at(s: &[char], needle: &[char], i: usize) -> (r: bool)
    requires
        i <= s.len(),
    ensures
        r == occurs_at(s@, needle@, i as int),
{
    if s.len() - i < needle.len() {
        return false;
    }
    let mut k: usize = 0;
    while k < needle.len()
        invariant
            i + needle.len() <= s.len(),
            k <= needle.len(),
            forall|j: int| 0 <= j < k ==> s@[i + j] == needle@[j],
        decreases needle.len() - k,
    {
        if s[i + k] != needle[k] {
            assert(s@.subrange(i as int, i + needle@.len())[k as int] != needle@[k as int]);
            return false;
        }
        k = k + 1;
    }
    assert(s@.subrange(i as int, i + needle@.len()) =~= needle@);
    true
}

/// The first index at which `needle` stands in `s`.
pub fn find_text(s: &[char], needle: &[char]) -> (r: Option<usize>)
    ensures
        match r {
            Some(i) => occurs_at(s@, needle@, i as int) && forall|k: int|
                0 <= k < i ==> !occurs_at(s@, needle@, k),
            None => !has_text(s@, needle@),
        },
{
    let mut i: usize = 0;
    loop
        invariant
            i <= s.len(),
            forall|k: int| 0 <= k < i ==> !occurs_at(s@, needle@, k),
        decreases s.len() - i,
    {
        if test_at(s, needle, i) {
            return Some(i);
        }
        if i == s.len() {
            assert(!has_text(s@, needle@)) by {
                assert forall|k: int| !occurs_at(s@, needle@, k) by {
                    if 0 <= k && k + needle@.len() <= s@.len() {
                        assert(k <= i);
                    }
                }
            }
            return None;
        }
        i = i + 1;
    }
}

/// `str::contains` with a string pattern.
pub fn contains(s: &[char], needle: &str) -> (r: bool)
    ensures
        r == has_text(s@, needle@),
{
    let n = chars_of(needle);
    match find_text(s, n.as_slice()) {
        Some(i) => {
            assert(occurs_at(s@, needle@, i as int));
            true
        },
        None => false,
    }
}

/// `str::starts_with` with a string pattern.
pub fn starts_with(s: &[char], prefix: &str) -> (r: bool)
    ensures
        r == has_prefix(s@, prefix@),
{
    let n = chars_of(prefix);
    test_at(s, n.as_slice(), 0)
}

// ---------------------------------------------------------------------------
// Trimming and splitting
// ---------------------------------------------------------------------------

/// Drops the leading characters of a class.
pub open spec fn trim_start_spec(s: Seq<char>, class: CharClass) -> Seq<char>
    decreases s.len(),
{
    if s.len() > 0 && class.holds(s[0]) {
        trim_start_spec(s.skip(1), class)
    } else {
        s
    }
}

/// Drops the trailing characters of a class.
pub open spec fn trim_end_spec(s: Seq<char>, class: CharClass) -> Seq<char>
    decreases s.len(),
{
    if s.len() > 0 && class.holds(s.last()) {
        trim_end_spec(s.drop_last(), class)
    } else {
        s
    }
}

/// `str::trim_matches`; with the class of white space, `str::trim`.
pub open spec fn trim_spec(s: Seq<char>, class: CharClass) -> Seq<char> {
    trim_end_spec(trim_start_spec(s, class), class)
}

/// `str::trim`.
pub open spec fn trimmed(s: Seq<char>) -> Seq<char> {
    trim_spec(s, CharClass::WhiteSpace)
}

pub fn trim_class<'a>(s: &'a [char], class: CharClass) -> (r: &'a [char])
    ensures
        r@ == trim_spec(s@, class),
{
    let mut i: usize = 0;
    let mut stop: bool = false;
    assert(s@.subrange(0, s@.len() as int) =~= s@);
    while !stop && i < s.len()
        invariant
            i <= s.len(),
            trim_start_spec(s@, class) == trim_start_spec(
                s@.subrange(i as int, s@.len() as int),
                class,
            ),
            stop ==> i < s.len() && !class.holds(s@[i as int]),
        decreases s.len() - i + (if stop { 0int } else { 1 }),
    {
        let ghost rest = s@.subrange(i as int, s@.len() as int);
        assert(rest[0] == s@[i as int]);
        if class.test(s[i]) {
            assert(rest.skip(1) =~= s@.subrange(i + 1, s@.len() as int));
            i = i + 1;
        } else {
            stop = true;
        }
    }
    let ghost from = s@.subrange(i as int, s@.len() as int);
    assert(trim_start_spec(s@, class) == from) by {
        if i < s.len() {
            assert(from[0] == s@[i as int]);
        }
    }
    let mut j: usize = s.len();
    let mut end: bool = false;
    while !end && j > i
        invariant
            i <= j <= s.len(),
            trim_end_spec(from, class) == trim_end_spec(s@.subrange(i as int, j as int), class),
            end ==> j > i && !class.holds(s@[j - 1]),
        decreases j - i + (if end { 0int } else { 1 }),
    {
        let ghost rest = s@.subrange(i as int, j as int);
        assert(rest.last() == s@[j - 1]);
        if class.test(s[j - 1]) {
            assert(rest.drop_last() =~= s@.subrange(i as int, j - 1));
            j = j - 1;
        } else {
            end = true;
        }
    }
    assert(trim_end_spec(from, class) == s@.subrange(i as int, j as int)) by {
        if j > i {
            assert(s@.subrange(i as int, j as int).last() == s@[j - 1]);
        }
    }
    vstd::slice::slice_subrange(s, i, j)
}

/// `str::trim`.
pub fn trim<'a>(s: &'a [char]) -> (r: &'a [char])
    ensures
        r@ == trimmed(s@),
{
    trim_class(s, CharClass::WhiteSpace)
}

/// `str::trim_end_matches`.
pub fn trim_end<'a>(s: &'a [char], class: CharClass) -> (r: &'a [char])
    ensures
        r@ == trim_end_spec(s@, class),
{
    let mut end: usize = s.len();
    assert(s@.take(end as int) =~= s@);
    while end > 0 && class.test(s[end - 1])
        invariant
            end <= s@.len(),
            trim_end_spec(s@.take(end as int), class) == trim_end_spec(s@, class),
        decreases end,
    {
        assert(s@.take(end as int).drop_last() =~= s@.take(end - 1));
        end = end - 1;
    }
    let r = vstd::slice::slice_subrange(s, 0, end);
    assert(r@ =~= s@.take(end as int));
    r
}

/// The pieces between the characters of a class: `str::split`.
pub open spec fn split_spec(s: Seq<char>, class: CharClass) -> Seq<Seq<char>>
    decreases s.len(),
{
    let i = first_in(s, class);
    if 0 <= i < s.len() {
        seq![s.take(i)] + split_spec(s.skip(i + 1), class)
    } else {
        seq![s]
    }
}

/// The pieces of a list of character vectors.
pub open spec fn pieces(v: Seq<Vec<char>>) -> Seq<Seq<char>> {
    v.map_values(|x: Vec<char>| x@)
}

pub fn split(s: &[char], class: CharClass) -> (r: Vec<Vec<char>>)
    ensures
        pieces(r@) == split_spec(s@, class),
        r.len() > 0,
{
    let mut r: Vec<Vec<char>> = Vec::new();
    let mut i: usize = 0;
    assert(s@.skip(0) =~= s@);
    assert(pieces(r@) + split_spec(s@, class) =~= split_spec(s@, class));
    loop
        invariant
            i <= s.len(),
            pieces(r@) + split_spec(s@.skip(i as int), class) == split_spec(s@, class),
        decreases s.len() - i,
    {
        let rest = vstd::slice::slice_subrange(s, i, s.len());
        assert(rest@ =~= s@.skip(i as int));
        let n: usize = find_in(rest, class);
        let piece = vstd::slice::slice_to_vec(vstd::slice::slice_subrange(rest, 0, n));
        let ghost before = r@;
        r.push(piece);
        assert(pieces(r@) =~= pieces(before).push(piece@));
        if n == rest.len() {
            assert(piece@ =~= rest@);
            assert(pieces(r@) =~= pieces(before) + seq![rest@]);
            return r;
        }
        assert(piece@ =~= rest@.take(n as int));
        assert(rest@.skip(n + 1) =~= s@.skip(i + n + 1));
        assert(pieces(r@) + split_spec(s@.skip(i + n + 1), class) =~= pieces(before) + (
        seq![piece@] + split_spec(s@.skip(i + n + 1), class)));
        i = i + n + 1;
    }
}

/// The pieces that are not empty.
pub open spec fn non_empty(s: Seq<Seq<char>>) -> Seq<Seq<char>>
    decreases s.len(),
{
    if s.len() == 0 {
        s
    } else if s.last().len() > 0 {
        non_empty(s.drop_last()).push(s.last())
    } else {
        non_empty(s.drop_last())
    }
}

/// `str::split_whitespace`.
pub open spec fn words_spec(s: Seq<char>) -> Seq<Seq<char>> {
    non_empty(split_spec(s, CharClass::WhiteSpace))
}

pub fn drop_empty(v: Vec<Vec<char>>) -> (r: Vec<Vec<char>>)
    ensures
        pieces(r@) == non_empty(pieces(v@)),
{
    let mut r: Vec<Vec<char>> = Vec::new();
    let mut i: usize = 0;
    while i < v.len()
        invariant
            i <= v.len(),
            pieces(r@) == non_empty(pieces(v@).take(i as int)),
        decreases v.len() - i,
    {
        let ghost before = r@;
        assert(pieces(v@).take(i + 1).drop_last() =~= pieces(v@).take(i as int));
        assert(pieces(v@).take(i + 1).last() == v@[i as int]@);
        if v[i].len() > 0 {
            let piece = vstd::slice::slice_to_vec(v[i].as_slice());
            r.push(piece);
            assert(pieces(r@) =~= pieces(before).push(piece@));
        }
        i = i + 1;
    }
    assert(pieces(v@).take(i as int) =~= pieces(v@));
    r
}

/// `str::split_whitespace`.
pub fn words(s: &[char]) -> (r: Vec<Vec<char>>)
    ensures
        pieces(r@) == words_spec(s@),
{
    drop_empty(split(s, CharClass::WhiteSpace))
}

/// A line without the carriage return that ends it.
pub open spec fn strip_return(s: Seq<char>) -> Seq<char> {
    if s.len() > 0 && s.last() == '\r' {
        s.drop_last()
    } else {
        s
    }
}

/// `str::lines`: the pieces between line feeds, a last empty one dropped, each
/// without the carriage return before its line feed.
pub open spec fn lines_spec(s: Seq<char>) -> Seq<Seq<char>> {
    let p = split_spec(s, CharClass::Is('\n'));
    if p.last().len() == 0 {
        p.drop_last().map_values(|l: Seq<char>| strip_return(l))
    } else {
        p.drop_last().map_values(|l: Seq<char>| strip_return(l)).push(p.last())
    }
}

pub fn lines(s: &[char]) -> (r: Vec<Vec<char>>)
    ensures
        pieces(r@) == lines_spec(s@),
{
    let all = split(s, CharClass::Is('\n'));
    let ghost p = pieces(all@);
    let ghost wanted = p.drop_last().map_values(|l: Seq<char>| strip_return(l));
    let last: usize = all.len() - 1;
    let mut r: Vec<Vec<char>> = Vec::new();
    let mut i: usize = 0;
    while i < last
        invariant
            i <= last,
            last == all@.len() - 1,
            p == pieces(all@),
            wanted == p.drop_last().map_values(|l: Seq<char>| strip_return(l)),
            pieces(r@) == wanted.take(i as int),
        decreases last - i,
    {
        let line = all[i].as_slice();
        let n: usize = line.len();
        let cut: usize = if n > 0 && line[n - 1] == '\r' {
            n - 1
        } else {
            n
        };
        let ghost before = r@;
        let kept = vstd::slice::slice_to_vec(vstd::slice::slice_subrange(line, 0, cut));
        assert(kept@ =~= strip_return(line@));
        r.push(kept);
        assert(p[i as int] == line@);
        assert(pieces(r@) =~= pieces(before).push(kept@));
        assert(wanted[i as int] == kept@);
        assert(pieces(r@) =~= wanted.take(i + 1));
        i = i + 1;
    }
    assert(wanted.take(last as int) =~= wanted);
    assert(p.last() == all@[last as int]@);
    if all[last].len() > 0 {
        let ghost before = r@;
        let kept = vstd::slice::slice_to_vec(all[last].as_slice());
        r.push(kept);
        assert(pieces(r@) =~= wanted.push(p.last()));
    }
    r
}

/// `str::split_once` with a character: what stands before the first one and
/// after it.
pub open spec fn split_once_spec(s: Seq<char>, c: char) -> Option<(Seq<char>, Seq<char>)> {
    let i = first_in(s, CharClass::Is(c));
    if i < s.len() {
        Some((s.take(i), s.skip(i + 1)))
    } else {
        None
    }
}

pub fn split_once<'a>(s: &'a [char], c: char) -> (r: Option<(&'a [char], &'a [char])>)
    ensures
        match r {
            Some((before, after)) => split_once_spec(s@, c) == Some((before@, after@)),
            None => split_once_spec(s@, c) is None,
        },
{
    let i: usize = find_in(s, CharClass::Is(c));
    if i < s.len() {
        let before = vstd::slice::slice_subrange(s, 0, i);
        let after = vstd::slice::slice_subrange(s, i + 1, s.len());
        assert(before@ =~= s@.take(i as int));
        assert(after@ =~= s@.skip(i + 1));
        Some((before, after))
    } else {
        None
    }
}

/// Where a text first stands in another, `str::find`.
pub open spec fn first_text(s: Seq<char>, needle: Seq<char>) -> Option<int>
    decreases s.len(),
{
    if occurs_at(s, needle, 0) {
        Some(0int)
    } else if s.len() == 0 {
        None
    } else {
        match first_text(s.skip(1), needle) {
            Some(i) => Some(i + 1),
            None => None,
        }
    }
}

pub proof fn lemma_first_text(s: Seq<char>, needle: Seq<char>)
    ensures
        match first_text(s, needle) {
            Some(i) => occurs_at(s, needle, i) && forall|k: int|
                0 <= k < i ==> !occurs_at(s, needle, k),
            None => !has_text(s, needle),
        },
    decreases s.len(),
{
    if !occurs_at(s, needle, 0) && s.len() > 0 {
        let rest = s.skip(1);
        lemma_first_text(rest, needle);
        assert forall|k: int| 1 <= k implies (occurs_at(s, needle, k) <==> occurs_at(
            rest,
            needle,
            k - 1,
        )) by {
            if k + needle.len() <= s.len() {
                assert(s.subrange(k, k + needle.len()) =~= rest.subrange(
                    k - 1,
                    k - 1 + needle.len(),
                ));
            }
        }
        match first_text(s, needle) {
            Some(i) => {
                assert(occurs_at(rest, needle, i - 1));
                assert forall|k: int| 0 <= k < i implies !occurs_at(s, needle, k) by {
                    if k > 0 {
                        assert(!occurs_at(rest, needle, k - 1));
                    }
                }
            },
            None => {
                assert forall|k: int| !occurs_at(s, needle, k) by {
                    if k > 0 {
                        assert(!occurs_at(rest, needle, k - 1));
                    }
                }
            },
        }
    }
}

/// `str::split_once` with a text.
pub open spec fn split_at_text_spec(s: Seq<char>, needle: Seq<char>) -> Option<
    (Seq<char>, Seq<char>),
> {
    match first_text(s, needle) {
        Some(i) => Some((s.take(i), s.skip(i + needle.len()))),
        None => None,
    }
}

pub fn split_at_text<'a>(s: &'a [char], needle: &str) -> (r: Option<(&'a [char], &'a [char])>)
    ensures
        match r {
            Some((before, after)) => split_at_text_spec(s@, needle@) == Some((before@, after@)),
            None => split_at_text_spec(s@, needle@) is None,
        },
{
    let pattern = chars_of(needle);
    proof {
        lemma_first_text(s@, needle@);
    }
    let size: usize = s.len();
    match find_text(s, pattern.as_slice()) {
        Some(i) => {
            let before = vstd::slice::slice_subrange(s, 0, i);
            let after = vstd::slice::slice_subrange(s, i + pattern.len(), size);
            assert(before@ =~= s@.take(i as int));
            assert(after@ =~= s@.skip(i + needle@.len()));
            Some((before, after))
        },
        None => None,
    }
}

// ---------------------------------------------------------------------------
// Decimal numbers
// ---------------------------------------------------------------------------

pub open spec fn is_digit(c: char) -> bool {
    '0' <= c <= '9'
}

pub open spec fn digit_value(c: char) -> nat {
    (c as u32 - 48) as nat
}

pub open spec fn all_digits(s: Seq<char>) -> bool {
    forall|i: int| 0 <= i < s.len() ==> is_digit(#[trigger] s[i])
}

/// The number that a run of digits stands for.
pub open spec fn digits_value(s: Seq<char>) -> nat
    decreases s.len(),
{
    if s.len() == 0 {
        0
    } else {
        digits_value(s.drop_last()) * 10 + digit_value(s.last())
    }
}

pub open spec fn strip_plus(s: Seq<char>) -> Seq<char> {
    if s.len() > 0 && s[0] == '+' {
        s.skip(1)
    } else {
        s
    }
}

/// `str::parse` into an unsigned integer type whose greatest value is `max`.
pub open spec fn parse_unsigned(s: Seq<char>, max: nat) -> Option<nat> {
    let d = strip_plus(s);
    if d.len() > 0 && all_digits(d) && digits_value(d) <= max {
        Some(digits_value(d))
    } else {
        None
    }
}

proof fn lemma_digits_grow(s: Seq<char>, i: int)
    requires
        0 <= i <= s.len(),
    ensures
        digits_value(s.take(i)) <= digits_value(s),
    decreases s.len() - i,
{
    if i == s.len() {
        assert(s.take(i) =~= s);
    } else {
        lemma_digits_grow(s, i + 1);
        assert(s.take(i + 1).drop_last() =~= s.take(i));
    }
}

pub fn digits_u64(s: &[char]) -> (r: Option<u64>)
    ensures
        match r {
            Some(n) => all_digits(s@) && digits_value(s@) == n,
            None => !all_digits(s@) || digits_value(s@) > u64::MAX,
        },
{
    let mut n: u64 = 0;
    let mut i: usize = 0;
    while i < s.len()
        invariant
            i <= s.len(),
            all_digits(s@.take(i as int)),
            n == digits_value(s@.take(i as int)),
        decreases s.len() - i,
    {
        let c: char = s[i];
        if c < '0' || '9' < c {
            assert(!is_digit(s@[i as int]));
            return None;
        }
        let d: u64 = (c as u32 - 48) as u64;
        assert(s@.take(i + 1).drop_last() =~= s@.take(i as int));
        assert(digits_value(s@.take(i + 1)) == n * 10 + d);
        proof {
            lemma_digits_grow(s@, i + 1);
        }
        if n > u64::MAX / 10 || n * 10 > u64::MAX - d {
            return None;
        }
        assert forall|k: int| 0 <= k < i + 1 implies is_digit(#[trigger] s@.take(i + 1)[k]) by {
            if k < i {
                assert(is_digit(s@.take(i as int)[k]));
            }
        }
        n = n * 10 + d;
        i = i + 1;
    }
    assert(s@.take(i as int) =~= s@);
    Some(n)
}

/// `str::parse::<u64>`.
pub fn parse_u64(s: &[char]) -> (r: Option<u64>)
    ensures
        match r {
            Some(n) => parse_unsigned(s@, u64::MAX as nat) == Some(n as nat),
            None => parse_unsigned(s@, u64::MAX as nat) is None,
        },
{
    let d = if s.len() > 0 && s[0] == '+' {
        vstd::slice::slice_subrange(s, 1, s.len())
    } else {
        s
    };
    assert(d@ =~= strip_plus(s@));
    if d.len() == 0 {
        return None;
    }
    digits_u64(d)
}

/// `str::parse::<u16>`.
pub fn parse_u16(s: &[char]) -> (r: Option<u16>)
    ensures
        match r {
            Some(n) => parse_unsigned(s@, u16::MAX as nat) == Some(n as nat),
            None => parse_unsigned(s@, u16::MAX as nat) is None,
        },
{
    match parse_u64(s) {
        Some(n) => if n <= 0xffff {
            Some(n as u16)
        } else {
            None
        },
        None => None,
    }
}

/// `str::parse::<i64>`.
pub open spec fn parse_signed(s: Seq<char>) -> Option<int> {
    if s.len() > 0 && s[0] == '-' {
        let d = s.skip(1);
        if d.len() > 0 && all_digits(d) && digits_value(d) <= 0x8000_0000_0000_0000 {
            Some(-(digits_value(d) as int))
        } else {
            None
        }
    } else {
        match parse_unsigned(s, i64::MAX as nat) {
            Some(n) => Some(n as int),
            None => None,
        }
    }
}

pub fn parse_i64(s: &[char]) -> (r: Option<i64>)
    ensures
        match r {
            Some(n) => parse_signed(s@) == Some(n as int),
            None => parse_signed(s@) is None,
        },
{
    if s.len() > 0 && s[0] == '-' {
        let d = vstd::slice::slice_subrange(s, 1, s.len());
        assert(d@ =~= s@.skip(1));
        if d.len() == 0 {
            return None;
        }
        return match digits_u64(d) {
            Some(n) => if n <= 0x7fff_ffff_ffff_ffff {
                Some(-(n as i64))
            } else if n == 0x8000_0000_0000_0000 {
                Some(i64::MIN)
            } else {
                None
            },
            None => None,
        };
    }
    match parse_u64(s) {
        Some(n) => if n <= 0x7fff_ffff_ffff_ffff {
            Some(n as i64)
        } else {
            None
        },
        None => None,
    }
}

/// One to four hexadecimal digits.
pub open spec fn is_hex_group(s: Seq<char>) -> bool {
    1 <= s.len() <= 4 && forall|i: int| 0 <= i < s.len() ==> is_hex_digit(#[trigger] s[i])
}

pub open spec fn is_hex_digit(c: char) -> bool {
    ('0' <= c <= '9') || ('a' <= c <= 'f') || ('A' <= c <= 'F')
}

pub fn hex_group(s: &[char]) -> (r: bool)
    ensures
        r == is_hex_group(s@),
{
    if s.len() < 1 || s.len() > 4 {
        return false;
    }
    let mut i: usize = 0;
    while i < s.len()
        invariant
            i <= s@.len(),
            forall|k: int| 0 <= k < i ==> is_hex_digit(#[trigger] s@[k]),
        decreases s@.len() - i,
    {
        let c: char = s[i];
        if !(('0' <= c && c <= '9') || ('a' <= c && c <= 'f') || ('A' <= c && c <= 'F')) {
            assert(!is_hex_digit(s@[i as int]));
            return false;
        }
        i = i + 1;
    }
    true
}

pub open spec fn digit_char(d: nat) -> char {
    (48 + d) as u8 as char
}

/// A number in decimal digits, without leading zeros.
pub open spec fn decimal(n: nat) -> Seq<char>
    decreases n,
{
    if n < 10 {
        seq![digit_char(n)]
    } else {
        decimal(n / 10).push(digit_char(n % 10))
    }
}

pub fn decimal_u64(n: u64) -> (r: Vec<char>)
    ensures
        r@ == decimal(n as nat),
    decreases n,
{
    if n < 10 {
        let mut r: Vec<char> = Vec::new();
        r.push((48 + n as u8) as char);
        r
    } else {
        let mut r = decimal_u64(n / 10);
        r.push((48 + (n % 10) as u8) as char);
        r
    }
}

/// Appends the characters of a string slice.
pub fn push_text(out: &mut Vec<char>, s: &str)
    ensures
        final(out)@ == old(out)@ + s@,
{
    let c = chars_of(s);
    push_chars(out, c.as_slice());
}

/// Appends characters.
pub fn push_chars(out: &mut Vec<char>, s: &[char])
    ensures
        final(out)@ == old(out)@ + s@,
{
    let ghost before = out@;
    let mut i: usize = 0;
    while i < s.len()
        invariant
            i <= s.len(),
            out@ == before + s@.take(i as int),
        decreases s.len() - i,
    {
        out.push(s[i]);
        assert(before + s@.take(i + 1) =~= (before + s@.take(i as int)).push(s@[i as int]));
        i = i + 1;
    }
    assert(s@.take(i as int) =~= s@);
}

/// A number in decimal, with a sign where it is negative.
pub open spec fn signed_decimal(n: int) -> Seq<char> {
    if n < 0 {
        seq!['-'] + decimal((-n) as nat)
    } else {
        decimal(n as nat)
    }
}

pub fn decimal_i64(n: i64) -> (r: Vec<char>)
    ensures
        r@ == signed_decimal(n as int),
{
    if n < 0 {
        let mut r: Vec<char> = Vec::new();
        r.push('-');
        let d = decimal_u64((-(n as i128)) as u64);
        push_chars(&mut r, d.as_slice());
        assert(r@ =~= signed_decimal(n as int));
        r
    } else {
        decimal_u64(n as u64)
    }
}

/// Reading a number that was written in decimal gives the number back.
pub proof fn law_decimal_round_trip(n: nat, max: nat)
    requires
        n <= max,
    ensures
        parse_unsigned(decimal(n), max) == Some(n),
{
    lemma_decimal(n);
    assert(strip_plus(decimal(n)) == decimal(n)) by {
        assert(is_digit(decimal(n)[0]));
    }
}

pub proof fn lemma_decimal(n: nat)
    ensures
        decimal(n).len() > 0,
        all_digits(decimal(n)),
        digits_value(decimal(n)) == n,
    decreases n,
{
    reveal_with_fuel(digits_value, 2);
    if n >= 10 {
        lemma_decimal(n / 10);
        assert(decimal(n).drop_last() =~= decimal(n / 10));
    } else {
        assert(decimal(n).drop_last() =~= Seq::<char>::empty());
    }
}

// ---------------------------------------------------------------------------
// What splitting and trimming keep
// ---------------------------------------------------------------------------

/// Two texts with a separator between them split into the pieces of both.
pub proof fn lemma_split_joined(a: Seq<char>, separator: char, b: Seq<char>, class: CharClass)
    requires
        class.holds(separator),
    ensures
        split_spec(a.push(separator) + b, class) == split_spec(a, class) + split_spec(b, class),
    decreases a.len(),
{
    let whole = a.push(separator) + b;
    let i = first_in(a, class);
    lemma_first_in(a, class);
    assert(whole[a.len() as int] == separator);
    assert forall|k: int| 0 <= k < i implies !class.holds(whole[k]) by {
        assert(whole[k] == a[k]);
    }
    if i < a.len() {
        assert(whole[i] == a[i]);
    }
    lemma_first_in_is(whole, class, i);
    if i < a.len() {
        let rest = a.skip(i + 1);
        lemma_split_joined(rest, separator, b, class);
        assert(whole.take(i) =~= a.take(i));
        assert(whole.skip(i + 1) =~= rest.push(separator) + b);
        assert(split_spec(whole, class) =~= split_spec(a, class) + split_spec(b, class));
    } else {
        assert(whole.take(i) =~= a);
        assert(whole.skip(i + 1) =~= b);
    }
}

/// No piece holds a character that the text was split at.
pub proof fn lemma_pieces_are_plain(s: Seq<char>, class: CharClass)
    ensures
        forall|i: int, k: int|
            0 <= i < split_spec(s, class).len() && 0 <= k < split_spec(s, class)[i].len()
                ==> !class.holds(#[trigger] split_spec(s, class)[i][k]),
    decreases s.len(),
{
    let i = first_in(s, class);
    lemma_first_in(s, class);
    let all = split_spec(s, class);
    if i < s.len() {
        let rest = split_spec(s.skip(i + 1), class);
        lemma_pieces_are_plain(s.skip(i + 1), class);
        assert forall|j: int, k: int|
            0 <= j < all.len() && 0 <= k < all[j].len() implies !class.holds(
            #[trigger] all[j][k],
        ) by {
            if j == 0 {
                assert(all[j][k] == s[k]);
            } else {
                assert(all[j] == rest[j - 1]);
                assert(!class.holds(rest[j - 1][k]));
            }
        }
    }
}

/// A character of a text that it was not split at stands in one of its pieces.
pub proof fn lemma_pieces_hold_all(s: Seq<char>, class: CharClass, c: char)
    requires
        !class.holds(c),
        forall|i: int|
            0 <= i < split_spec(s, class).len() ==> !(#[trigger] split_spec(
                s,
                class,
            )[i]).contains(c),
    ensures
        !s.contains(c),
    decreases s.len(),
{
    let i = first_in(s, class);
    lemma_first_in(s, class);
    let all = split_spec(s, class);
    if i < s.len() {
        let rest = split_spec(s.skip(i + 1), class);
        assert forall|j: int| 0 <= j < rest.len() implies !(#[trigger] rest[j]).contains(c) by {
            assert(rest[j] == all[j + 1]);
        }
        lemma_pieces_hold_all(s.skip(i + 1), class, c);
        assert(!all[0].contains(c));
        assert forall|k: int| 0 <= k < s.len() implies s[k] != c by {
            if k < i {
                assert(all[0][k] == s[k]);
            } else if k > i {
                assert(s.skip(i + 1)[k - i - 1] == s[k]);
            }
        }
    } else {
        assert(all[0] == s);
    }
}

/// Trimming brings no character in.
pub proof fn lemma_trim_within(s: Seq<char>, class: CharClass, c: char)
    requires
        trim_spec(s, class).contains(c),
    ensures
        s.contains(c),
{
    let front = trim_start_spec(s, class);
    lemma_trim_end_within(front, class, c);
    lemma_trim_start_within(s, class, c);
}

proof fn lemma_trim_start_within(s: Seq<char>, class: CharClass, c: char)
    requires
        trim_start_spec(s, class).contains(c),
    ensures
        s.contains(c),
    decreases s.len(),
{
    if s.len() > 0 && class.holds(s[0]) {
        lemma_trim_start_within(s.skip(1), class, c);
        let k = choose|k: int| 0 <= k < s.skip(1).len() && s.skip(1)[k] == c;
        assert(s[k + 1] == c);
    }
}

proof fn lemma_trim_end_within(s: Seq<char>, class: CharClass, c: char)
    requires
        trim_end_spec(s, class).contains(c),
    ensures
        s.contains(c),
    decreases s.len(),
{
    if s.len() > 0 && class.holds(s.last()) {
        lemma_trim_end_within(s.drop_last(), class, c);
        let k = choose|k: int| 0 <= k < s.drop_last().len() && s.drop_last()[k] == c;
        assert(s[k] == c);
    }
}

proof fn lemma_trim_start_of(a: Seq<char>, s: Seq<char>, class: CharClass)
    requires
        forall|k: int| 0 <= k < a.len() ==> class.holds(#[trigger] a[k]),
        s.len() == 0 || !class.holds(s[0]),
    ensures
        trim_start_spec(a + s, class) == s,
    decreases a.len(),
{
    if a.len() > 0 {
        assert((a + s)[0] == a[0]);
        assert((a + s).skip(1) =~= a.skip(1) + s);
        assert forall|k: int| 0 <= k < a.skip(1).len() implies class.holds(
            #[trigger] a.skip(1)[k],
        ) by {
            assert(a.skip(1)[k] == a[k + 1]);
        }
        lemma_trim_start_of(a.skip(1), s, class);
    } else {
        assert(a + s =~= s);
    }
}

pub proof fn lemma_trim_end_of(s: Seq<char>, b: Seq<char>, class: CharClass)
    requires
        forall|k: int| 0 <= k < b.len() ==> class.holds(#[trigger] b[k]),
        s.len() == 0 || !class.holds(s.last()),
    ensures
        trim_end_spec(s + b, class) == s,
    decreases b.len(),
{
    if b.len() > 0 {
        assert((s + b).last() == b[b.len() - 1]);
        assert((s + b).drop_last() =~= s + b.drop_last());
        assert forall|k: int| 0 <= k < b.drop_last().len() implies class.holds(
            #[trigger] b.drop_last()[k],
        ) by {
            assert(b.drop_last()[k] == b[k]);
        }
        lemma_trim_end_of(s, b.drop_last(), class);
    } else {
        assert(s + b =~= s);
    }
}

/// Trimming takes away exactly what stands at the edges: a text whose first and
/// last characters stay is what is left of it between any characters of the class.
pub proof fn law_trimming_takes_the_edges(
    a: Seq<char>,
    s: Seq<char>,
    b: Seq<char>,
    class: CharClass,
)
    requires
        forall|k: int| 0 <= k < a.len() ==> class.holds(#[trigger] a[k]),
        forall|k: int| 0 <= k < b.len() ==> class.holds(#[trigger] b[k]),
        s.len() == 0 || (!class.holds(s[0]) && !class.holds(s.last())),
    ensures
        trim_spec(a + s + b, class) == s,
{
    if s.len() == 0 {
        assert forall|k: int| 0 <= k < (a + b).len() implies class.holds(#[trigger] (a + b)[k]) by {
            if k < a.len() {
                assert((a + b)[k] == a[k]);
            } else {
                assert((a + b)[k] == b[k - a.len()]);
            }
        }
        assert(a + s + b =~= (a + b) + Seq::<char>::empty());
        lemma_trim_start_of(a + b, Seq::empty(), class);
        assert(s =~= Seq::<char>::empty());
    } else {
        assert(a + s + b =~= a + (s + b));
        assert((s + b)[0] == s[0]);
        lemma_trim_start_of(a, s + b, class);
        lemma_trim_end_of(s, b, class);
    }
}

/// A number is read digit by digit: one more digit makes it ten times as large
/// and adds itself, a plus before it changes nothing, and nothing but digits is
/// a number.
pub proof fn law_numbers_are_read_by_digits(s: Seq<char>, max: nat)
    ensures
        parse_unsigned(s, max) matches Some(n) ==> n <= max && s.len() > 0,
        s.len() == 1 && '0' <= s[0] <= '9' && s[0] as u32 - 48 <= max ==> parse_unsigned(s, max)
            == Some((s[0] as u32 - 48) as nat),
        s.len() > 1 && '0' <= s.last() <= '9' && s.drop_last() != seq!['+'] ==> parse_unsigned(
            s,
            max,
        ) == match parse_unsigned(s.drop_last(), max) {
            Some(n) => if n * 10 + (s.last() as u32 - 48) <= max {
                Some((n * 10 + (s.last() as u32 - 48)) as nat)
            } else {
                None
            },
            None => None,
        },
        (exists|k: int|
            0 <= k < s.len() && !('0' <= #[trigger] s[k] <= '9') && !(k == 0 && s[k] == '+'))
            ==> parse_unsigned(s, max) is None,
        s.len() > 0 && s[0] != '+' ==> parse_unsigned(seq!['+'] + s, max) == parse_unsigned(s, max),
{
    let d = strip_plus(s);
    reveal_with_fuel(digits_value, 2);
    if s.len() == 1 {
        assert(s.drop_last() =~= Seq::<char>::empty());
    }
    if s.len() > 1 && '0' <= s.last() <= '9' && s.drop_last() != seq!['+'] {
        let short = strip_plus(s.drop_last());
        assert(d.drop_last() =~= short);
        assert(d.last() == s.last());
        assert(short.len() > 0) by {
            if short.len() == 0 {
                assert(s.drop_last() =~= seq!['+']);
            }
        }
        assert(all_digits(d) == all_digits(short)) by {
            if all_digits(short) {
                assert forall|k: int| 0 <= k < d.len() implies is_digit(#[trigger] d[k]) by {
                    if k < short.len() {
                        assert(d[k] == short[k]);
                    }
                }
            }
            if all_digits(d) {
                assert forall|k: int| 0 <= k < short.len() implies is_digit(
                    #[trigger] short[k],
                ) by {
                    assert(d[k] == short[k]);
                }
            }
        }
    }
    if exists|k: int|
        0 <= k < s.len() && !('0' <= #[trigger] s[k] <= '9') && !(k == 0 && s[k] == '+') {
        let k = choose|k: int|
            0 <= k < s.len() && !('0' <= #[trigger] s[k] <= '9') && !(k == 0 && s[k] == '+');
        if s[0] == '+' {
            assert(d[k - 1] == s[k]);
        } else {
            assert(d[k] == s[k]);
        }
    }
    if s.len() > 0 && s[0] != '+' {
        assert((seq!['+'] + s).skip(1) =~= s);
    }
}

/// Only the letters from A to Z have another lower case here, and it is the
/// letter that stands 32 places further; lowering twice is lowering once.
pub proof fn law_lower_case(s: Seq<char>, i: int)
    requires
        0 <= i < s.len(),
    ensures
        lower_spec(s).len() == s.len(),
        'A' <= s[i] <= 'Z' ==> lower_spec(s)[i] as u32 == s[i] as u32 + 32,
        !('A' <= s[i] <= 'Z') ==> lower_spec(s)[i] == s[i],
        lower_spec(lower_spec(s)) == lower_spec(s),
{
    assert(lower_spec(lower_spec(s)) =~= lower_spec(s));
}

/// Parts with a character between every two of them.
pub open spec fn with_between(parts: Seq<Seq<char>>, c: char) -> Seq<char>
    decreases parts.len(),
{
    if parts.len() == 0 {
        Seq::empty()
    } else if parts.len() == 1 {
        parts[0]
    } else {
        with_between(parts.drop_last(), c).push(c) + parts.last()
    }
}

/// None of the parts holds a character of a class.
pub open spec fn free_of(parts: Seq<Seq<char>>, class: CharClass) -> bool {
    forall|i: int, k: int|
        0 <= i < parts.len() && 0 <= k < parts[i].len() ==> !class.holds(#[trigger] parts[i][k])
}

pub proof fn lemma_between(parts: Seq<Seq<char>>, c: char, class: CharClass)
    requires
        parts.len() > 0,
        class.holds(c),
        free_of(parts, class),
    ensures
        split_spec(with_between(parts, c), class) == parts,
    decreases parts.len(),
{
    let last = parts.last();
    assert forall|k: int| 0 <= k < last.len() implies !class.holds(last[k]) by {
        assert(!class.holds(parts[parts.len() - 1][k]));
    }
    lemma_first_in_is(last, class, last.len() as int);
    assert(split_spec(last, class) =~= seq![last]);
    if parts.len() == 1 {
        assert(parts =~= seq![last]);
    } else {
        let before = parts.drop_last();
        assert forall|i: int, k: int|
            0 <= i < before.len() && 0 <= k < before[i].len() implies !class.holds(
            #[trigger] before[i][k],
        ) by {
            assert(!class.holds(parts[i][k]));
        }
        lemma_between(before, c, class);
        lemma_split_joined(with_between(before, c), c, last, class);
        assert(before + seq![last] =~= parts);
    }
}

} // verus!
