//! What the prober is asked, and how its answer is read.

use vstd::prelude::*;
use crate::engine::{push, push_text};
use crate::error::{AudioError, ErrorView};
use crate::text::{char_is_space, chars_of, digit_value, digits_value, is_digit, is_space,
    leading_spaces, string_of, texts, trailing_spaces, trimmed};

verus! {

/// The property that the prober is asked for.
#[derive(Debug, Clone, Copy, PartialEq, Eq, Structural)]
pub enum Entry {
    /// The bit rate of the file, in bits per second.
    BitRate,
    /// The duration of the file, in seconds.
    Duration,
}

/// The name under which the prober knows a property.
pub open spec fn entry_name(entry: Entry) -> Seq<char> {
    match entry {
        Entry::BitRate => "format=bit_rate"@,
        Entry::Duration => "format=duration"@,
    }
}

/// The arguments of one probe: errors only, bare values, the one entry, the
/// file.
#[verifier::opaque]
pub open spec fn probe_command(entry: Entry, path: Seq<char>) -> Seq<Seq<char>> {
    seq!["-v"@, "error"@, "-of"@, "csv=p=0"@, "-show_entries"@, entry_name(entry), path]
}

pub open spec fn all_digits(s: Seq<char>) -> bool {
    forall|i: int| 0 <= i < s.len() ==> is_digit(#[trigger] s[i])
}

/// The integer that a text spells: an optional sign and at least one digit,
/// nothing else.
pub open spec fn integer_of(s: Seq<char>) -> Option<int> {
    if s.len() > 0 && (s[0] == '-' || s[0] == '+') {
        let body = s.drop_first();
        if body.len() > 0 && all_digits(body) {
            if s[0] == '-' {
                Some(-(digits_value(body) as int))
            } else {
                Some(digits_value(body) as int)
            }
        } else {
            None
        }
    } else if s.len() > 0 && all_digits(s) {
        Some(digits_value(s) as int)
    } else {
        None
    }
}

/// The bit rate that the prober's output spells, white space at its ends
/// aside, where it is an integer of 32 bits.
pub open spec fn bit_rate_of(stdout: Seq<char>) -> Option<i32> {
    match integer_of(trimmed(stdout)) {
        Some(n) => if i32::MIN <= n <= i32::MAX {
            Some(n as i32)
        } else {
            None
        },
        None => None,
    }
}

/// The place of the first occurrence of a character in a text, or the
/// length of the text.
pub open spec fn first_index(s: Seq<char>, c: char) -> nat
    decreases s.len(),
{
    if s.len() == 0 || s[0] == c {
        0
    } else {
        1 + first_index(s.drop_first(), c)
    }
}

/// The digit at a place of a fraction, zero beyond its end.
pub open spec fn fraction_digit(frac: Seq<char>, i: int) -> nat {
    if 0 <= i < frac.len() {
        digit_value(frac[i])
    } else {
        0
    }
}

/// The millionths that the first six digits of a fraction stand for.
pub open spec fn fraction_micros(frac: Seq<char>) -> nat {
    fraction_digit(frac, 0) * 100_000 + fraction_digit(frac, 1) * 10_000 + fraction_digit(frac, 2)
        * 1_000 + fraction_digit(frac, 3) * 100 + fraction_digit(frac, 4) * 10 + fraction_digit(
        frac,
        5,
    )
}

/// The microseconds that a decimal numeral of seconds spells: an optional
/// plus sign, digits, and optionally a point and more digits, with at least
/// one digit in all. Digits after the sixth of the fraction do not count.
pub open spec fn micros_of(s: Seq<char>) -> Option<nat> {
    if s.len() > 0 && s[0] == '+' {
        micros_of_plain(s.drop_first())
    } else {
        micros_of_plain(s)
    }
}

/// The microseconds that a decimal numeral without a sign spells.
pub open spec fn micros_of_plain(body: Seq<char>) -> Option<nat> {
    let dot = first_index(body, '.') as int;
    let whole = body.subrange(0, dot);
    let frac = if dot < body.len() {
        body.subrange(dot + 1, body.len() as int)
    } else {
        Seq::empty()
    };
    if all_digits(whole) && all_digits(frac) && whole.len() + frac.len() > 0 {
        Some(digits_value(whole) * 1_000_000 + fraction_micros(frac))
    } else {
        None
    }
}

/// The duration that the prober's output spells, in microseconds, white
/// space at its ends aside, where it fits in 64 bits.
pub open spec fn duration_of(stdout: Seq<char>) -> Option<u64> {
    match micros_of(trimmed(stdout)) {
        Some(n) => if n <= u64::MAX {
            Some(n as u64)
        } else {
            None
        },
        None => None,
    }
}

/// What a probe of the bit rate comes to: the engine's complaint where it
/// failed, the rate where its output spells one, else the output that could
/// not be read.
pub open spec fn probed_bit_rate(success: bool, stdout: Seq<char>, stderr: Seq<char>) -> Result<
    i32,
    ErrorView,
> {
    if !success {
        Err(ErrorView::EngineExecution(stderr))
    } else {
        match bit_rate_of(stdout) {
            Some(n) => Ok(n),
            None => Err(ErrorView::ProbeParse(trimmed(stdout))),
        }
    }
}

/// What a probe of the duration comes to, in microseconds.
pub open spec fn probed_duration(success: bool, stdout: Seq<char>, stderr: Seq<char>) -> Result<
    u64,
    ErrorView,
> {
    if !success {
        Err(ErrorView::EngineExecution(stderr))
    } else {
        match duration_of(stdout) {
            Some(n) => Ok(n),
            None => Err(ErrorView::ProbeParse(trimmed(stdout))),
        }
    }
}

/// Builds the arguments of one probe.
pub fn probe_args(entry: Entry, path: &str) -> (args: Vec<String>)
    ensures
        texts(args@) == probe_command(entry, path@),
{
    reveal(probe_command);
    let mut args: Vec<String> = Vec::new();
    push(&mut args, &["-v", "error", "-of", "csv=p=0", "-show_entries"]);
    match entry {
        Entry::BitRate => push(&mut args, &["format=bit_rate"]),
        Entry::Duration => push(&mut args, &["format=duration"]),
    }
    push_text(&mut args, path.to_owned());
    args
}

pub fn char_is_digit(c: char) -> (r: bool)
    ensures
        r == is_digit(c),
{
    '0' <= c && c <= '9'
}

proof fn lemma_leading_spaces(s: Seq<char>)
    ensures
        leading_spaces(s) <= s.len(),
        forall|i: int| 0 <= i < leading_spaces(s) ==> is_space(#[trigger] s[i]),
        leading_spaces(s) < s.len() ==> !is_space(s[leading_spaces(s) as int]),
    decreases s.len(),
{
    if s.len() > 0 && is_space(s[0]) {
        let t = s.drop_first();
        lemma_leading_spaces(t);
        assert forall|i: int| 0 <= i < leading_spaces(s) implies is_space(#[trigger] s[i]) by {
            if i > 0 {
                assert(s[i] == t[i - 1]);
            }
        }
    }
}

proof fn lemma_trailing_spaces(s: Seq<char>)
    ensures
        trailing_spaces(s) <= s.len(),
        forall|i: int| s.len() - trailing_spaces(s) <= i < s.len() ==> is_space(#[trigger] s[i]),
        trailing_spaces(s) < s.len() ==> !is_space(s[s.len() - trailing_spaces(s) - 1]),
    decreases s.len(),
{
    if s.len() > 0 && is_space(s.last()) {
        let t = s.drop_last();
        lemma_trailing_spaces(t);
        assert forall|i: int| s.len() - trailing_spaces(s) <= i < s.len() implies is_space(
            #[trigger] s[i],
        ) by {
            if i < s.len() - 1 {
                assert(s[i] == t[i]);
            }
        }
    }
}

proof fn lemma_leading_spaces_is(s: Seq<char>, n: int)
    requires
        0 <= n <= s.len(),
        forall|i: int| 0 <= i < n ==> is_space(#[trigger] s[i]),
        n < s.len() ==> !is_space(s[n]),
    ensures
        leading_spaces(s) == n,
{
    lemma_leading_spaces(s);
}

proof fn lemma_trailing_spaces_is(s: Seq<char>, n: int)
    requires
        0 <= n <= s.len(),
        forall|i: int| s.len() - n <= i < s.len() ==> is_space(#[trigger] s[i]),
        n < s.len() ==> !is_space(s[s.len() - n - 1]),
    ensures
        trailing_spaces(s) == n,
{
    lemma_trailing_spaces(s);
}

/// The bounds of a text without the white space at its two ends.
pub fn trim_bounds(v: &Vec<char>) -> (r: (usize, usize))
    ensures
        r.0 <= r.1 <= v.len(),
        v@.subrange(r.0 as int, r.1 as int) == trimmed(v@),
{
    let mut lo: usize = 0;
    while lo < v.len() && char_is_space(v[lo])
        invariant
            lo <= v.len(),
            forall|i: int| 0 <= i < lo ==> is_space(#[trigger] v@[i]),
        decreases v.len() - lo,
    {
        lo = lo + 1;
    }
    let mut hi: usize = v.len();
    while hi > lo && char_is_space(v[hi - 1])
        invariant
            lo <= hi <= v.len(),
            forall|i: int| hi <= i < v.len() ==> is_space(#[trigger] v@[i]),
        decreases hi,
    {
        hi = hi - 1;
    }
    proof {
        lemma_leading_spaces_is(v@, lo as int);
        let rest = v@.subrange(lo as int, v.len() as int);
        lemma_trailing_spaces_is(rest, v.len() - hi);
        assert(rest.subrange(0, rest.len() - trailing_spaces(rest)) =~= v@.subrange(
            lo as int,
            hi as int,
        ));
    }
    (lo, hi)
}

proof fn lemma_first_index_is(s: Seq<char>, c: char, p: int)
    requires
        0 <= p <= s.len(),
        forall|i: int| 0 <= i < p ==> #[trigger] s[i] != c,
        p < s.len() ==> s[p] == c,
    ensures
        first_index(s, c) == p,
    decreases s.len(),
{
    if s.len() > 0 && s[0] != c {
        let t = s.drop_first();
        lemma_first_index_is(t, c, p - 1);
    }
}

/// The smaller of the number that a text of digits stands for and a limit.
pub open spec fn capped_value(s: Seq<char>, limit: u64) -> nat {
    if digits_value(s) < limit {
        digits_value(s)
    } else {
        limit as nat
    }
}

/// Reads the digits `v[from..to]`. The result is `None` where another
/// character stands among them; else it is their number, or the limit where
/// the number reaches it.
pub fn read_digits(v: &Vec<char>, from: usize, to: usize, limit: u64) -> (r: Option<u64>)
    requires
        from <= to <= v.len(),
        limit <= 1_000_000_000_000_000_000,
    ensures
        r is Some <==> all_digits(v@.subrange(from as int, to as int)),
        r matches Some(n) ==> n == capped_value(v@.subrange(from as int, to as int), limit),
{
    let mut acc: u64 = 0;
    let mut i: usize = from;
    while i < to
        invariant
            from <= i <= to <= v.len(),
            limit <= 1_000_000_000_000_000_000,
            all_digits(v@.subrange(from as int, i as int)),
            acc == capped_value(v@.subrange(from as int, i as int), limit),
        decreases to - i,
    {
        let c = v[i];
        let ghost head = v@.subrange(from as int, i as int);
        let ghost next = v@.subrange(from as int, i + 1);
        assert(next.drop_last() =~= head);
        if !char_is_digit(c) {
            assert(!is_digit(v@.subrange(from as int, to as int)[i - from]));
            return None;
        }
        let d: u64 = (c as u32 - 48) as u64;
        let wide: u64 = acc * 10 + d;
        acc = if wide < limit {
            wide
        } else {
            limit
        };
        i = i + 1;
    }
    Some(acc)
}

/// Reads the bit rate that the prober printed.
pub fn parse_bit_rate(stdout: &str) -> (r: Option<i32>)
    ensures
        r == bit_rate_of(stdout@),
{
    let v = chars_of(stdout);
    let (lo, hi) = trim_bounds(&v);
    let ghost t = trimmed(stdout@);
    if lo == hi {
        return None;
    }
    let signed = v[lo] == '-' || v[lo] == '+';
    let negative = v[lo] == '-';
    let from: usize = if signed {
        lo + 1
    } else {
        lo
    };
    let ghost body = v@.subrange(from as int, hi as int);
    proof {
        if signed {
            assert(t.drop_first() =~= body);
        }
    }
    if from == hi {
        return None;
    }
    match read_digits(&v, from, hi, 4_000_000_000) {
        None => None,
        Some(n) => {
            if negative {
                if n <= 2_147_483_648 {
                    Some((-(n as i64)) as i32)
                } else {
                    None
                }
            } else {
                if n <= 2_147_483_647 {
                    Some(n as i32)
                } else {
                    None
                }
            }
        },
    }
}

fn fraction_digit_at(v: &Vec<char>, from: usize, to: usize, i: usize) -> (d: u64)
    requires
        from <= to <= v.len(),
        i < 6,
        all_digits(v@.subrange(from as int, to as int)),
    ensures
        d == fraction_digit(v@.subrange(from as int, to as int), i as int),
        d <= 9,
{
    if i < to - from {
        let c = v[from + i];
        assert(is_digit(v@.subrange(from as int, to as int)[i as int]));
        (c as u32 - 48) as u64
    } else {
        0
    }
}

/// The millionths that the digits `v[from..to]` stand for as a fraction.
fn fraction_part(v: &Vec<char>, from: usize, to: usize) -> (r: u64)
    requires
        from <= to <= v.len(),
        all_digits(v@.subrange(from as int, to as int)),
    ensures
        r == fraction_micros(v@.subrange(from as int, to as int)),
        r <= 999_999,
{
    let d0 = fraction_digit_at(v, from, to, 0);
    let d1 = fraction_digit_at(v, from, to, 1);
    let d2 = fraction_digit_at(v, from, to, 2);
    let d3 = fraction_digit_at(v, from, to, 3);
    let d4 = fraction_digit_at(v, from, to, 4);
    let d5 = fraction_digit_at(v, from, to, 5);
    d0 * 100_000 + d1 * 10_000 + d2 * 1_000 + d3 * 100 + d4 * 10 + d5
}

/// The place of the first occurrence of a character among `v[from..to]`,
/// or `to`.
fn find_first(v: &Vec<char>, from: usize, to: usize, c: char) -> (r: usize)
    requires
        from <= to <= v.len(),
    ensures
        from <= r <= to,
        r - from == first_index(v@.subrange(from as int, to as int), c),
        r < to ==> v@[r as int] == c,
{
    let mut r: usize = from;
    while r < to && v[r] != c
        invariant
            from <= r <= to <= v.len(),
            forall|i: int| from <= i < r ==> v@[i] != c,
        decreases to - r,
    {
        r = r + 1;
    }
    proof {
        let body = v@.subrange(from as int, to as int);
        lemma_first_index_is(body, c, r - from);
    }
    r
}

/// The microseconds that the numeral `v[from..to]` spells, where they fit
/// in 64 bits.
fn read_micros(v: &Vec<char>, from: usize, to: usize) -> (r: Option<u64>)
    requires
        from <= to <= v.len(),
    ensures
        r == match micros_of_plain(v@.subrange(from as int, to as int)) {
            Some(n) => if n <= u64::MAX {
                Some(n as u64)
            } else {
                None
            },
            None => None,
        },
{
    let ghost body = v@.subrange(from as int, to as int);
    let dot = find_first(v, from, to, '.');
    let frac_from: usize = if dot < to {
        dot + 1
    } else {
        to
    };
    let ghost whole = v@.subrange(from as int, dot as int);
    let ghost frac = v@.subrange(frac_from as int, to as int);
    proof {
        assert(body.subrange(0, dot - from) =~= whole);
        if dot < to {
            assert(body.subrange(dot - from + 1, body.len() as int) =~= frac);
        }
    }
    let w = read_digits(v, from, dot, 18_446_744_073_710);
    let f = read_digits(v, frac_from, to, 0);
    if w.is_none() || f.is_none() || (dot - from) + (to - frac_from) == 0 {
        return None;
    }
    let seconds: u64 = w.unwrap();
    if seconds >= 18_446_744_073_710 {
        return None;
    }
    let part = fraction_part(v, frac_from, to);
    let total: u128 = (seconds as u128) * 1_000_000 + (part as u128);
    if total > 18_446_744_073_709_551_615u128 {
        None
    } else {
        Some(total as u64)
    }
}

/// Reads the duration that the prober printed, in microseconds.
pub fn parse_duration(stdout: &str) -> (r: Option<u64>)
    ensures
        r == duration_of(stdout@),
{
    let v = chars_of(stdout);
    let (lo, hi) = trim_bounds(&v);
    let ghost t = trimmed(stdout@);
    let from: usize = if lo < hi && v[lo] == '+' {
        lo + 1
    } else {
        lo
    };
    proof {
        if from > lo {
            assert(t.drop_first() =~= v@.subrange(from as int, hi as int));
        }
    }
    read_micros(&v, from, hi)
}

/// Reads the outcome of a probe of the bit rate, in bits per second.
pub fn probe_bitrate(success: bool, stdout: &str, stderr: &str) -> (r: Result<i32, AudioError>)
    ensures
        match probed_bit_rate(success, stdout@, stderr@) {
            Ok(n) => r is Ok && r.unwrap() == n,
            Err(e) => r is Err && r.unwrap_err()@ == e,
        },
{
    if !success {
        return Err(AudioError::EngineExecution(stderr.to_owned()));
    }
    match parse_bit_rate(stdout) {
        Some(n) => Ok(n),
        None => Err(AudioError::ProbeParse(trimmed_string(stdout))),
    }
}

/// Reads the outcome of a probe of the duration, in microseconds.
pub fn probe_duration(success: bool, stdout: &str, stderr: &str) -> (r: Result<u64, AudioError>)
    ensures
        match probed_duration(success, stdout@, stderr@) {
            Ok(n) => r is Ok && r.unwrap() == n,
            Err(e) => r is Err && r.unwrap_err()@ == e,
        },
{
    if !success {
        return Err(AudioError::EngineExecution(stderr.to_owned()));
    }
    match parse_duration(stdout) {
        Some(n) => Ok(n),
        None => Err(AudioError::ProbeParse(trimmed_string(stdout))),
    }
}

/// A string without the white space at its two ends.
pub fn trimmed_string(s: &str) -> (r: String)
    ensures
        r@ == trimmed(s@),
{
    let v = chars_of(s);
    let (lo, hi) = trim_bounds(&v);
    string_of(&v, lo, hi)
}

} // verus!
