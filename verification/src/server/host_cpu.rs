//! The share of a processor that the server takes.

use vstd::prelude::*;
use crate::text::{
    chars_of, has_prefix, last_in, lines, lines_spec, parse_u64, parse_unsigned, pieces, rfind_in,
    starts_with, words, words_spec, CharClass,
};

verus! {

/// The times of the whole machine and of this process, in ticks.
#[derive(Clone, Copy, Debug, PartialEq, Eq, Structural)]
pub struct CpuSnapshot {
    pub total: u64,
    pub process: u64,
    pub cores: u64,
}

/// The values of words that are all numbers.
pub open spec fn numbers(fields: Seq<Seq<char>>) -> Option<Seq<u64>>
    decreases fields.len(),
{
    if fields.len() == 0 {
        Some(Seq::empty())
    } else {
        match (numbers(fields.drop_last()), parse_unsigned(fields.last(), u64::MAX as nat)) {
            (Some(before), Some(n)) => Some(before.push(n as u64)),
            _ => None,
        }
    }
}

/// A sum of ticks, which wraps around as the counters do.
pub open spec fn wrapped_sum(values: Seq<u64>) -> u64
    decreases values.len(),
{
    if values.len() == 0 {
        0
    } else {
        ((wrapped_sum(values.drop_last()) + values.last()) % 0x1_0000_0000_0000_0000) as u64
    }
}

proof fn lemma_numbers_none(fields: Seq<Seq<char>>, i: int)
    requires
        0 <= i <= fields.len(),
        numbers(fields.take(i)) is None,
    ensures
        numbers(fields) is None,
    decreases fields.len() - i,
{
    if i == fields.len() {
        assert(fields.take(i) =~= fields);
    } else {
        assert(fields.take(i + 1).drop_last() =~= fields.take(i));
        lemma_numbers_none(fields, i + 1);
    }
}

/// All ticks of a line: its numbers after the first word, at least four.
pub open spec fn cpu_total_spec(line: Seq<char>) -> Option<u64> {
    let fields = words_spec(line);
    let rest = if fields.len() == 0 {
        fields
    } else {
        fields.skip(1)
    };
    match numbers(rest) {
        Some(values) => if values.len() < 4 {
            None
        } else {
            Some(wrapped_sum(values))
        },
        None => None,
    }
}

pub fn parse_cpu_total(line: &str) -> (r: Option<u64>)
    ensures
        r == cpu_total_spec(line@),
{
    let chars = chars_of(line);
    cpu_total(chars.as_slice())
}

fn cpu_total(line: &[char]) -> (r: Option<u64>)
    ensures
        r == cpu_total_spec(line@),
{
    let fields = words(line);
    let ghost whole = pieces(fields@);
    assert(whole.len() == fields@.len());
    if fields.len() == 0 {
        assert(whole =~= Seq::empty());
        return None;
    }
    let ghost rest = whole.skip(1);
    let mut sum: u64 = 0;
    let mut i: usize = 1;
    let ghost mut values: Seq<u64> = Seq::empty();
    assert(rest.take(0) =~= Seq::empty());
    while i < fields.len()
        invariant
            1 <= i <= fields@.len(),
            whole == pieces(fields@),
            whole == words_spec(line@),
            rest == whole.skip(1),
            numbers(rest.take(i - 1)) == Some(values),
            values.len() == i - 1,
            sum == wrapped_sum(values),
        decreases fields@.len() - i,
    {
        let ghost next = rest.take(i as int);
        assert(next.drop_last() =~= rest.take(i - 1));
        assert(next.last() == fields@[i as int]@);
        match parse_u64(fields[i].as_slice()) {
            Some(n) => {
                proof {
                    let after = values.push(n);
                    assert(after.drop_last() =~= values);
                    values = after;
                }
                sum = sum.wrapping_add(n);
            },
            None => {
                proof {
                    lemma_numbers_none(rest, i as int);
                }
                return None;
            },
        }
        i = i + 1;
    }
    assert(rest.take(i - 1) =~= rest);
    if fields.len() < 5 {
        return None;
    }
    Some(sum)
}

/// Whether a line is about one processor.
pub open spec fn is_core(line: Seq<char>) -> bool {
    let fields = words_spec(line.skip(3));
    has_prefix(line, "cpu"@) && fields.len() > 0 && crate::text::all_digits(fields[0])
}

fn core_line(line: &[char]) -> (r: bool)
    ensures
        r == is_core(line@),
{
    proof {
        reveal_strlit("cpu");
    }
    if !starts_with(line, "cpu") {
        return false;
    }
    let rest = vstd::slice::slice_subrange(line, 3, line.len());
    assert(rest@ =~= line@.skip(3));
    let fields = words(rest);
    let ghost whole = pieces(fields@);
    assert(whole.len() == fields@.len());
    if fields.len() == 0 {
        return false;
    }
    assert(whole[0] == fields@[0]@);
    let word = fields[0].as_slice();
    let mut i: usize = 0;
    while i < word.len()
        invariant
            i <= word@.len(),
            words_spec(line@.skip(3)).len() > 0,
            word@ == words_spec(line@.skip(3))[0],
            forall|k: int| 0 <= k < i ==> crate::text::is_digit(#[trigger] word@[k]),
        decreases word@.len() - i,
    {
        if word[i] < '0' || '9' < word[i] {
            assert(!crate::text::is_digit(word@[i as int]));
            return false;
        }
        i = i + 1;
    }
    true
}

pub open spec fn core_lines(all: Seq<Seq<char>>) -> nat
    decreases all.len(),
{
    if all.len() == 0 {
        0
    } else {
        core_lines(all.drop_last()) + if is_core(all.last()) {
            1nat
        } else {
            0nat
        }
    }
}

/// The ticks of the machine and its processors, at least one.
pub open spec fn host_spec(stat: Seq<char>) -> Option<(u64, nat)> {
    let all = lines_spec(stat);
    if all.len() == 0 || !has_prefix(all[0], "cpu "@) {
        None
    } else {
        match cpu_total_spec(all[0]) {
            Some(total) => {
                let cores = core_lines(all.skip(1));
                Some(
                    (
                        total,
                        if cores == 0 {
                            1
                        } else {
                            cores
                        },
                    ),
                )
            },
            None => None,
        }
    }
}

pub fn parse_host_cpu(stat: &str) -> (r: Option<(u64, u64)>)
    ensures
        match r {
            Some((total, cores)) => host_spec(stat@) == Some((total, cores as nat)),
            None => host_spec(stat@) is None,
        },
{
    let chars = chars_of(stat);
    let all = lines(chars.as_slice());
    let ghost whole = pieces(all@);
    assert(whole.len() == all@.len());
    if all.len() == 0 {
        return None;
    }
    assert(whole[0] == all@[0]@);
    if !starts_with(all[0].as_slice(), "cpu ") {
        return None;
    }
    let total: u64 = match cpu_total(all[0].as_slice()) {
        Some(total) => total,
        None => {
            return None;
        },
    };
    let ghost rest = whole.skip(1);
    let mut cores: u64 = 0;
    let mut i: usize = 1;
    assert(rest.take(0) =~= Seq::empty());
    while i < all.len()
        invariant
            1 <= i <= all@.len(),
            whole == pieces(all@),
            rest == whole.skip(1),
            cores == core_lines(rest.take(i - 1)),
            cores < i,
        decreases all@.len() - i,
    {
        let ghost next = rest.take(i as int);
        assert(next.drop_last() =~= rest.take(i - 1));
        assert(next.last() == all@[i as int]@);
        if core_line(all[i].as_slice()) {
            cores = cores + 1;
        }
        i = i + 1;
    }
    assert(rest.take(i - 1) =~= rest);
    Some(
        (
            total,
            if cores == 0 {
                1
            } else {
                cores
            },
        ),
    )
}

/// The ticks that a process took, in its own name and in that of the system: the
/// twelfth and thirteenth words after the last closing bracket.
pub open spec fn process_spec(stat: Seq<char>) -> Option<nat> {
    let end = last_in(stat, CharClass::Is(')'));
    let fields = words_spec(stat.skip(end + 1));
    if end < 0 || fields.len() < 13 {
        None
    } else {
        match (
            parse_unsigned(fields[11], u64::MAX as nat),
            parse_unsigned(fields[12], u64::MAX as nat),
        ) {
            (Some(user), Some(system)) => Some(
                if user + system > u64::MAX {
                    u64::MAX as nat
                } else {
                    user + system
                },
            ),
            _ => None,
        }
    }
}

pub fn parse_process_cpu(stat: &str) -> (r: Option<u64>)
    ensures
        match r {
            Some(ticks) => process_spec(stat@) == Some(ticks as nat),
            None => process_spec(stat@) is None,
        },
{
    let chars = chars_of(stat);
    let s = chars.as_slice();
    let end: usize = match rfind_in(s, CharClass::Is(')')) {
        Some(end) => end,
        None => {
            return None;
        },
    };
    let size: usize = s.len();
    assert(end < size);
    let rest = vstd::slice::slice_subrange(s, end + 1, size);
    assert(rest@ =~= s@.skip(end + 1));
    let fields = words(rest);
    let ghost whole = pieces(fields@);
    assert(whole.len() == fields@.len());
    if fields.len() < 13 {
        return None;
    }
    assert(whole[11] == fields@[11]@);
    assert(whole[12] == fields@[12]@);
    match (parse_u64(fields[11].as_slice()), parse_u64(fields[12].as_slice())) {
        (Some(user), Some(system)) => Some(user.saturating_add(system)),
        _ => None,
    }
}

/// The share of one processor in percent, to the nearest, at most all of them;
/// nothing where no time went by.
pub open spec fn percentage_spec(previous: CpuSnapshot, current: CpuSnapshot) -> Option<nat> {
    let total = current.total - previous.total;
    let process = if current.process > previous.process {
        current.process - previous.process
    } else {
        0
    };
    let most = if current.cores * 100 > u64::MAX {
        u64::MAX as int
    } else {
        current.cores * 100
    };
    if total <= 0 {
        None
    } else {
        let rounded = (process * current.cores * 200 + total) / (2 * total);
        Some(
            if rounded < most {
                rounded as nat
            } else {
                most as nat
            },
        )
    }
}

proof fn lemma_rounding(product: int, total: int)
    requires
        0 <= product,
        0 < total,
    ensures
        (product * 200 + total) / (2 * total) == 100 * (product / total) + (200 * (product % total)
            + total) / (2 * total),
{
    let q = product / total;
    let m = product % total;
    vstd::arithmetic::div_mod::lemma_fundamental_div_mod(product, total);
    let d = 2 * total;
    let x = 200 * m + total;
    assert(product * 200 + total == d * (100 * q) + x) by (nonlinear_arith)
        requires
            product == total * q + m,
            d == 2 * total,
            x == 200 * m + total,
    ;
    vstd::arithmetic::div_mod::lemma_fundamental_div_mod(x, d);
    vstd::arithmetic::div_mod::lemma_mod_bound(x, d);
    let y = 100 * q + x / d;
    assert(d * (100 * q) + x == d * y + x % d) by (nonlinear_arith)
        requires
            x == d * (x / d) + x % d,
            y == 100 * q + x / d,
    ;
    vstd::arithmetic::div_mod::lemma_div_multiples_vanish_fancy(y, x % d, d);
}

pub fn cpu_percentage(previous: CpuSnapshot, current: CpuSnapshot) -> (r: Option<u64>)
    ensures
        match r {
            Some(percent) => percentage_spec(previous, current) == Some(percent as nat),
            None => percentage_spec(previous, current) is None,
        },
{
    if current.total <= previous.total {
        return None;
    }
    let total: u128 = (current.total - previous.total) as u128;
    let process: u128 = current.process.saturating_sub(previous.process) as u128;
    let cores: u128 = current.cores as u128;
    assert(0 <= process * cores <= 0xffff_ffff_ffff_ffff * 0xffff_ffff_ffff_ffff) by (
    nonlinear_arith)
        requires
            0 <= process <= 0xffff_ffff_ffff_ffff,
            0 <= cores <= 0xffff_ffff_ffff_ffff,
    ;
    let product: u128 = process * cores;
    let whole: u128 = product / total;
    let part: u128 = product % total;
    let most: u128 = if cores * 100 > u64::MAX as u128 {
        u64::MAX as u128
    } else {
        cores * 100
    };
    proof {
        lemma_rounding(product as int, total as int);
        assert((process * cores) * 200 == process * current.cores * 200) by (nonlinear_arith)
            requires
                cores == current.cores,
        ;
    }
    let fraction: u128 = (200 * part + total) / (2 * total);
    if whole > u64::MAX as u128 {
        assert(100 * whole + fraction >= most);
        return Some(most as u64);
    }
    let rounded: u128 = 100 * whole + fraction;
    if rounded < most {
        Some(rounded as u64)
    } else {
        Some(most as u64)
    }
}

/// What is known of the processors.
#[derive(Clone, Copy, Debug, PartialEq, Eq, Structural)]
pub struct CpuMeter {
    pub previous: Option<CpuSnapshot>,
    pub percent: u64,
    pub cores: u64,
}

impl CpuMeter {
    pub fn new() -> (r: CpuMeter)
        ensures
            r == (CpuMeter { previous: None, percent: 0, cores: 1 }),
    {
        CpuMeter { previous: None, percent: 0, cores: 1 }
    }

    pub open spec fn sampled(self, host: Seq<char>, process: Seq<char>) -> CpuMeter {
        match (host_spec(host), process_spec(process)) {
            (Some((total, cores)), Some(ticks)) => {
                let current = CpuSnapshot { total, process: ticks as u64, cores: cores as u64 };
                CpuMeter {
                    previous: Some(current),
                    percent: match self.previous {
                        Some(previous) => match percentage_spec(previous, current) {
                            Some(percent) => percent as u64,
                            None => self.percent,
                        },
                        None => self.percent,
                    },
                    cores: cores as u64,
                }
            },
            _ => self,
        }
    }

    /// Takes what the system tells of the machine and of this process.
    pub fn sample(&mut self, host: &str, process: &str)
        ensures
            *final(self) == old(self).sampled(host@, process@),
    {
        if let Some((total, cores)) = parse_host_cpu(host) {
            if let Some(ticks) = parse_process_cpu(process) {
                let current = CpuSnapshot { total, process: ticks, cores };
                if let Some(previous) = self.previous {
                    if let Some(percent) = cpu_percentage(previous, current) {
                        self.percent = percent;
                    }
                }
                self.cores = cores;
                self.previous = Some(current);
            }
        }
    }
}

/// The share is never more than all processors together, and a process that did
/// nothing has none.
pub proof fn law_share_is_bounded(previous: CpuSnapshot, current: CpuSnapshot)
    requires
        current.total > previous.total,
    ensures
        percentage_spec(previous, current) is Some,
        percentage_spec(previous, current)->0 <= current.cores * 100,
        current.process <= previous.process ==> percentage_spec(previous, current) == Some(0nat),
{
    if current.process <= previous.process {
        let total = current.total - previous.total;
        assert(0int * current.cores * 200 == 0) by (nonlinear_arith);
        assert(total / (2 * total) == 0) by (nonlinear_arith)
            requires
                total > 0,
        ;
    }
}

} // verus!
