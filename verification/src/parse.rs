//! Reading numbers and switches out of environment values.
use vstd::prelude::*;
use crate::text::{chars_of, same_text};

verus! {

/// The characters that count as white space at the ends of a value.
pub open spec fn is_space(c: char) -> bool {
    let n = c as u32;
    ||| 9 <= n <= 13
    ||| n == 32
    ||| n == 133
    ||| n == 160
    ||| n == 5760
    ||| 8192 <= n <= 8202
    ||| n == 8232
    ||| n == 8233
    ||| n == 8239
    ||| n == 8287
    ||| n == 12288
}

/// The first place from `i` on that is not white space, or the end.
pub open spec fn skip_space(s: Seq<char>, i: int) -> int
    decreases s.len() - i,
{
    if i >= s.len() {
        s.len() as int
    } else if is_space(s[i]) {
        skip_space(s, i + 1)
    } else {
        i
    }
}

/// The end of `s[lo..hi]` once white space at its end is dropped.
pub open spec fn drop_space(s: Seq<char>, lo: int, hi: int) -> int
    decreases hi - lo,
{
    if hi <= lo {
        lo
    } else if is_space(s[hi - 1]) {
        drop_space(s, lo, hi - 1)
    } else {
        hi
    }
}

/// `s` without white space at either end.
pub open spec fn trimmed(s: Seq<char>) -> Seq<char> {
    let lo = skip_space(s, 0);
    s.subrange(lo, drop_space(s, lo, s.len() as int))
}

pub fn white_space(c: char) -> (r: bool)
    ensures
        r == is_space(c),
{
    let n: u32 = c as u32;
    (9 <= n && n <= 13) || n == 32 || n == 133 || n == 160 || n == 5760 || (8192 <= n && n <= 8202)
        || n == 8232 || n == 8233 || n == 8239 || n == 8287 || n == 12288
}

/// The characters of `s` without white space at either end.
pub fn trim_chars(s: &Vec<char>) -> (r: Vec<char>)
    ensures
        r@ == trimmed(s@),
{
    let mut lo: usize = 0;
    while lo < s.len() && white_space(s[lo])
        invariant
            lo <= s@.len(),
            skip_space(s@, lo as int) == skip_space(s@, 0),
        decreases s.len() - lo,
    {
        lo = lo + 1;
    }
    let mut hi: usize = s.len();
    while hi > lo && white_space(s[hi - 1])
        invariant
            lo <= hi <= s@.len(),
            drop_space(s@, lo as int, hi as int) == drop_space(s@, lo as int, s@.len() as int),
        decreases hi,
    {
        hi = hi - 1;
    }
    let mut r: Vec<char> = Vec::new();
    let mut i: usize = lo;
    while i < hi
        invariant
            lo <= i <= hi <= s@.len(),
            r@ == s@.subrange(lo as int, i as int),
        decreases hi - i,
    {
        r.push(s[i]);
        i = i + 1;
        assert(r@ =~= s@.subrange(lo as int, i as int));
    }
    r
}

pub open spec fn is_digit(c: char) -> bool {
    48 <= c as u32 <= 57
}

pub open spec fn digit_value(c: char) -> nat {
    (c as u32 - 48) as nat
}

pub open spec fn all_digits(s: Seq<char>) -> bool {
    forall|i: int| 0 <= i < s.len() ==> is_digit(#[trigger] s[i])
}

/// The number that decimal digits stand for.
pub open spec fn digits_value(s: Seq<char>) -> nat
    decreases s.len(),
{
    if s.len() == 0 {
        0
    } else {
        10 * digits_value(s.drop_last()) + digit_value(s.last())
    }
}

/// A number in decimal digits, one plus sign before them at most, that is at most `max`.
pub open spec fn parsed(s: Seq<char>, max: nat) -> Option<nat> {
    let d = if s.len() > 0 && s[0] == '+' { s.skip(1) } else { s };
    if d.len() > 0 && all_digits(d) && digits_value(d) <= max {
        Some(digits_value(d))
    } else {
        None
    }
}

proof fn lemma_digits_monotone(s: Seq<char>, i: int)
    requires
        0 <= i <= s.len(),
    ensures
        digits_value(s.take(i)) <= digits_value(s),
    decreases s.len() - i,
{
    if i == s.len() {
        assert(s.take(i) =~= s);
    } else {
        lemma_digits_monotone(s, i + 1);
        assert(s.take(i + 1).drop_last() =~= s.take(i));
    }
}

/// Reads a decimal number of at most `max`.
pub fn parse_chars(s: &Vec<char>, max: u64) -> (r: Option<u64>)
    ensures
        match r {
            Some(n) => parsed(s@, max as nat) == Some(n as nat),
            None => parsed(s@, max as nat) is None,
        },
{
    let start: usize = if s.len() > 0 && s[0] == '+' { 1 } else { 0 };
    let ghost d = if s@.len() > 0 && s@[0] == '+' { s@.skip(1) } else { s@ };
    assert(d =~= s@.skip(start as int));
    if s.len() == start {
        return None;
    }
    let mut n: u64 = 0;
    let mut i: usize = start;
    while i < s.len()
        invariant
            start <= i <= s@.len(),
            start == (if s@.len() > 0 && s@[0] == '+' { 1int } else { 0 }),
            d == (if s@.len() > 0 && s@[0] == '+' { s@.skip(1) } else { s@ }),
            d == s@.skip(start as int),
            d.len() > 0,
            all_digits(d.take(i - start)),
            n == digits_value(d.take(i - start)),
            n <= max,
        decreases s.len() - i,
    {
        let c: u32 = s[i] as u32;
        assert(d[i - start] == s@[i as int]);
        if c < 48 || c > 57 {
            assert(!is_digit(d[i - start]));
            return None;
        }
        let v: u64 = (c - 48) as u64;
        let ghost k = i - start;
        assert(d.take(k + 1).drop_last() =~= d.take(k));
        proof {
            lemma_digits_monotone(d, k + 1);
        }
        if n > (max - v.min(max)) / 10 || v > max {
            assert(10 * n + v > max);
            return None;
        }
        n = 10 * n + v;
        i = i + 1;
        assert(d.take(k + 1).last() == d[k]);
    }
    assert(d.take(d.len() as int) =~= d);
    Some(n)
}

pub open spec fn env_parsed(v: Option<Seq<char>>, max: nat) -> Option<nat> {
    match v {
        Some(s) => parsed(s, max),
        None => None,
    }
}

/// The text of an environment value.
pub open spec fn text_of(v: Option<&str>) -> Option<Seq<char>> {
    match v {
        Some(s) => Some(s@),
        None => None,
    }
}

/// Reads an environment value as a number of at most `max`.
pub fn env_number(v: Option<&str>, max: u64) -> (r: Option<u64>)
    ensures
        match r {
            Some(n) => env_parsed(text_of(v), max as nat) == Some(n as nat),
            None => env_parsed(text_of(v), max as nat) is None,
        },
{
    match v {
        Some(s) => parse_chars(&chars_of(s), max),
        None => None,
    }
}

/// Whether an environment value is exactly `want`.
pub fn env_is(v: Option<&str>, want: &str) -> (r: bool)
    ensures
        r == (text_of(v) == Some(want@)),
{
    match v {
        Some(s) => same_text(s, want),
        None => false,
    }
}

/// Whether a switch that is off by default is on.
pub fn switched_on(v: Option<&str>) -> (r: bool)
    ensures
        r == (text_of(v) == Some("1"@)),
{
    env_is(v, "1")
}

/// Whether a switch that is on by default is on.
pub fn not_switched_off(v: Option<&str>) -> (r: bool)
    ensures
        r == (text_of(v) != Some("0"@)),
{
    !env_is(v, "0")
}

} // verus!
