//! Text building and searching over characters.
use vstd::prelude::*;

verus! {

/// The digit of a number below ten.
pub open spec fn digit(d: nat) -> char {
    (48 + d) as char
}

/// The decimal digits of a number.
pub open spec fn dec(n: nat) -> Seq<char>
    decreases n,
{
    if n < 10 {
        seq![digit(n)]
    } else {
        dec(n / 10).push(digit(n % 10))
    }
}

fn digit_str(d: u64) -> (r: &'static str)
    requires
        d < 10,
    ensures
        r@ == seq![digit(d as nat)],
{
    proof {
        reveal_strlit("0");
        reveal_strlit("1");
        reveal_strlit("2");
        reveal_strlit("3");
        reveal_strlit("4");
        reveal_strlit("5");
        reveal_strlit("6");
        reveal_strlit("7");
        reveal_strlit("8");
        reveal_strlit("9");
    }
    let r = match d {
        0 => "0",
        1 => "1",
        2 => "2",
        3 => "3",
        4 => "4",
        5 => "5",
        6 => "6",
        7 => "7",
        8 => "8",
        _ => "9",
    };
    assert(r@ =~= seq![digit(d as nat)]);
    r
}

/// Appends the decimal digits of `n`.
pub fn push_dec(b: &mut String, n: u64)
    ensures
        final(b)@ == old(b)@ + dec(n as nat),
    decreases n,
{
    if n >= 10 {
        push_dec(b, n / 10);
    }
    b.append(digit_str(n % 10));
    assert(b@ =~= old(b)@ + dec(n as nat));
}

/// The characters of a string.
pub fn chars_of(s: &str) -> (v: Vec<char>)
    ensures
        v@ == s@,
{
    let mut v: Vec<char> = Vec::new();
    for c in it: s.chars()
        invariant
            it.seq() == s@,
            v@ == s@.take(it.index()),
    {
        v.push(c);
        assert(s@.take(it.index() + 1) =~= s@.take(it.index()).push(s@[it.index()]));
    }
    assert(s@.take(s@.len() as int) =~= s@);
    v
}

/// `pat` stands in `s` at `i`.
pub open spec fn occurs_at(s: Seq<char>, pat: Seq<char>, i: int) -> bool {
    0 <= i && i + pat.len() <= s.len() && s.subrange(i, i + pat.len()) == pat
}

/// The first place from `i` on where `pat` stands.
pub open spec fn first_from(s: Seq<char>, pat: Seq<char>, i: int) -> Option<int>
    decreases s.len() + 1 - i,
{
    if i + pat.len() > s.len() {
        None
    } else if occurs_at(s, pat, i) {
        Some(i)
    } else {
        first_from(s, pat, i + 1)
    }
}

/// The last place at or before `i` where `pat` stands.
pub open spec fn last_until(s: Seq<char>, pat: Seq<char>, i: int) -> Option<int>
    decreases i + 1,
{
    if i < 0 {
        None
    } else if occurs_at(s, pat, i) {
        Some(i)
    } else {
        last_until(s, pat, i - 1)
    }
}

pub open spec fn contains(s: Seq<char>, pat: Seq<char>) -> bool {
    first_from(s, pat, 0) is Some
}

pub proof fn lemma_first_from(s: Seq<char>, pat: Seq<char>, i: int)
    requires
        i >= 0,
    ensures
        match first_from(s, pat, i) {
            Some(j) => {
                &&& i <= j
                &&& occurs_at(s, pat, j)
                &&& forall|k: int| i <= k < j ==> !#[trigger] occurs_at(s, pat, k)
            },
            None => forall|k: int| i <= k ==> !#[trigger] occurs_at(s, pat, k),
        },
    decreases s.len() + 1 - i,
{
    if i + pat.len() > s.len() {
    } else if occurs_at(s, pat, i) {
    } else {
        lemma_first_from(s, pat, i + 1);
    }
}

/// A text contains a pattern exactly when the pattern stands somewhere in it.
pub proof fn law_contains(s: Seq<char>, pat: Seq<char>)
    ensures
        contains(s, pat) <==> exists|i: int| #[trigger] occurs_at(s, pat, i),
{
    lemma_first_from(s, pat, 0);
}

/// How often `pat` stands in `s` from `i` on, counting no character twice.
pub open spec fn count_from(s: Seq<char>, pat: Seq<char>, i: int) -> nat
    decreases s.len() + pat.len() - i,
{
    match first_from(s, pat, i) {
        Some(j) => if i <= j && pat.len() > 0 && j < s.len() {
            1 + count_from(s, pat, j + pat.len())
        } else {
            0
        },
        None => 0,
    }
}

/// `s` from `i` on, with every `from` replaced, the leftmost first.
pub open spec fn replace_from(s: Seq<char>, from: Seq<char>, to: Seq<char>, i: int) -> Seq<char>
    decreases s.len() + from.len() - i,
{
    match first_from(s, from, i) {
        Some(j) => if i <= j && from.len() > 0 && j < s.len() {
            s.subrange(i, j) + to + replace_from(s, from, to, j + from.len())
        } else {
            s.skip(i)
        },
        None => s.skip(i),
    }
}

/// `s` with every `from` replaced by `to`.
pub open spec fn replaced(s: Seq<char>, from: Seq<char>, to: Seq<char>) -> Seq<char> {
    replace_from(s, from, to, 0)
}

/// `s` with the first `from` replaced by `to`.
pub open spec fn replaced_once(s: Seq<char>, from: Seq<char>, to: Seq<char>) -> Seq<char> {
    match first_from(s, from, 0) {
        Some(j) => s.take(j) + to + s.skip(j + from.len()),
        None => s,
    }
}

fn stands_at(s: &Vec<char>, pat: &Vec<char>, i: usize) -> (r: bool)
    requires
        i + pat@.len() <= s@.len(),
    ensures
        r == occurs_at(s@, pat@, i as int),
{
    let len: usize = s.len();
    let mut k: usize = 0;
    while k < pat.len()
        invariant
            k <= pat@.len(),
            i + pat@.len() <= s@.len() == len,
            forall|j: int| 0 <= j < k ==> s@[i + j] == #[trigger] pat@[j],
        decreases pat.len() - k,
    {
        if s[i + k] != pat[k] {
            assert(s@.subrange(i as int, i + pat@.len())[k as int] != pat@[k as int]);
            return false;
        }
        k = k + 1;
    }
    assert(s@.subrange(i as int, i + pat@.len()) =~= pat@);
    true
}

/// The first place from `from` on where `pat` stands.
pub fn find_from(s: &Vec<char>, pat: &Vec<char>, from: usize) -> (r: Option<usize>)
    requires
        from <= s@.len(),
    ensures
        match r {
            Some(j) => first_from(s@, pat@, from as int) == Some(j as int) && from <= j && j
                + pat@.len() <= s@.len(),
            None => first_from(s@, pat@, from as int) is None,
        },
{
    let mut i: usize = from;
    loop
        invariant
            from <= i <= s@.len(),
            first_from(s@, pat@, i as int) == first_from(s@, pat@, from as int),
        decreases s@.len() - i,
    {
        if pat.len() > s.len() - i {
            return None;
        }
        if stands_at(s, pat, i) {
            return Some(i);
        }
        if i == s.len() {
            assert(s@.subrange(i as int, i as int) =~= pat@);
            return None;
        }
        i = i + 1;
    }
}

/// The last place at or before `until` where `pat` stands.
pub fn rfind_until(s: &Vec<char>, pat: &Vec<char>, until: usize) -> (r: Option<usize>)
    requires
        until <= s@.len(),
    ensures
        match r {
            Some(j) => last_until(s@, pat@, until as int) == Some(j as int) && j <= until && j
                + pat@.len() <= s@.len(),
            None => last_until(s@, pat@, until as int) is None,
        },
{
    let mut i: usize = until;
    loop
        invariant
            i <= until <= s@.len(),
            last_until(s@, pat@, i as int) == last_until(s@, pat@, until as int),
        decreases i,
    {
        if pat.len() <= s.len() - i && stands_at(s, pat, i) {
            return Some(i);
        }
        if i == 0 {
            assert(last_until(s@, pat@, -1) is None);
            return None;
        }
        i = i - 1;
    }
}

/// Whether `pat` stands anywhere in `s`.
pub fn mentions(s: &str, pat: &str) -> (r: bool)
    ensures
        r == contains(s@, pat@),
{
    find_from(&chars_of(s), &chars_of(pat), 0).is_some()
}

/// How often `pat` stands in `s`, counting no character twice.
pub fn count_of(s: &str, pat: &str) -> (r: usize)
    requires
        pat@.len() > 0,
    ensures
        r == count_from(s@, pat@, 0),
{
    let sv = chars_of(s);
    let pv = chars_of(pat);
    let len: usize = sv.len();
    let mut n: usize = 0;
    let mut i: usize = 0;
    loop
        invariant
            sv@ == s@,
            pv@ == pat@,
            pat@.len() > 0,
            n <= i <= sv@.len() <= usize::MAX,
            n + count_from(s@, pat@, i as int) == count_from(s@, pat@, 0),
        decreases sv@.len() - i,
    {
        match find_from(&sv, &pv, i) {
            None => {
                return n;
            },
            Some(j) => {
                assert(n <= j && j < sv@.len());
                n = n + 1;
                i = j + pv.len();
            },
        }
    }
}

/// `s` with every `from` replaced by `to`.
fn replace_chars(s: &str, fv: &Vec<char>, to: &str) -> (r: String)
    requires
        fv@.len() > 0,
    ensures
        r@ == replaced(s@, fv@, to@),
{
    let sv = chars_of(s);
    let len: usize = sv.len();
    let mut b = String::new();
    let mut i: usize = 0;
    loop
        invariant
            sv@ == s@,
            fv@.len() > 0,
            i <= sv@.len() <= usize::MAX,
            b@ + replace_from(s@, fv@, to@, i as int) == replaced(s@, fv@, to@),
        decreases sv@.len() - i,
    {
        match find_from(&sv, fv, i) {
            None => {
                b.append(s.substring_char(i, sv.len()));
                assert(s@.subrange(i as int, s@.len() as int) =~= s@.skip(i as int));
                return b;
            },
            Some(j) => {
                let ghost before = b@;
                let ghost at = i as int;
                b.append(s.substring_char(i, j));
                b.append(to);
                i = j + fv.len();
                assert(b@ + replace_from(s@, fv@, to@, i as int) =~= before + (s@.subrange(
                    at,
                    j as int,
                ) + to@ + replace_from(s@, fv@, to@, i as int)));
            },
        }
    }
}

/// `s` with every `from` replaced by `to`.
pub fn replace_all(s: &str, from: &str, to: &str) -> (r: String)
    requires
        from@.len() > 0,
    ensures
        r@ == replaced(s@, from@, to@),
{
    replace_chars(s, &chars_of(from), to)
}

/// `s` with the first `from` replaced by `to`.
pub fn replace_first(s: &str, from: &str, to: &str) -> (r: String)
    ensures
        r@ == replaced_once(s@, from@, to@),
{
    let sv = chars_of(s);
    let fv = chars_of(from);
    match find_from(&sv, &fv, 0) {
        None => s.to_owned(),
        Some(j) => {
            let len: usize = sv.len();
            let mut b = String::new();
            b.append(s.substring_char(0, j));
            b.append(to);
            b.append(s.substring_char(j + fv.len(), sv.len()));
            assert(s@.subrange(0, j as int) =~= s@.take(j as int));
            assert(s@.subrange(j + from@.len(), s@.len() as int) =~= s@.skip(j + from@.len()));
            assert(b@ =~= replaced_once(s@, from@, to@));
            b
        },
    }
}

/// The mark of a hole in a template: a letter in braces.
pub open spec fn mark(hole: char) -> Seq<char> {
    seq!['{', hole, '}']
}

/// The template with the hole filled by a text.
pub open spec fn with_text(template: Seq<char>, hole: char, value: Seq<char>) -> Seq<char> {
    replaced(template, mark(hole), value)
}

/// The template with the hole filled by the digits of `n`.
pub open spec fn with_num(template: Seq<char>, hole: char, n: nat) -> Seq<char> {
    with_text(template, hole, dec(n))
}

/// Fills a hole of a template with a text.
pub fn fill_text(template: &str, hole: char, value: &str) -> (r: String)
    ensures
        r@ == with_text(template@, hole, value@),
{
    let from = vec!['{', hole, '}'];
    assert(from@ =~= mark(hole));
    replace_chars(template, &from, value)
}

/// Fills a hole of a template with the digits of `n`.
pub fn fill_num(template: &str, hole: char, n: u64) -> (r: String)
    ensures
        r@ == with_num(template@, hole, n as nat),
{
    fill_text(template, hole, decimal(n).as_str())
}

/// `b` followed by the template once for each number from `lo` up to `hi`.
pub open spec fn each_text(b: Seq<char>, template: Seq<char>, hole: char, lo: nat, hi: nat) -> Seq<char>
    decreases hi,
{
    if hi <= lo {
        b
    } else {
        each_text(b, template, hole, lo, (hi - 1) as nat) + with_num(template, hole, (hi - 1) as nat)
    }
}

/// Appends the template once for each number from `lo` up to `hi`.
pub fn push_each(b: &mut String, template: &str, hole: char, lo: u64, hi: u64)
    ensures
        final(b)@ == each_text(old(b)@, template@, hole, lo as nat, hi as nat),
{
    if hi <= lo {
        return ;
    }
    let mut n: u64 = lo;
    while n < hi
        invariant
            lo <= n <= hi,
            b@ == each_text(old(b)@, template@, hole, lo as nat, n as nat),
        decreases hi - n,
    {
        let piece = fill_num(template, hole, n);
        b.append(piece.as_str());
        n = n + 1;
    }
}

/// `b` followed, for each number below `n`, by `open`, by `inner` for each number below `m`,
/// and by `close`. `outer` is the hole for the first number, `hole` the one for the second.
pub open spec fn nest_text(
    b: Seq<char>,
    open: Seq<char>,
    inner: Seq<char>,
    close: Seq<char>,
    outer: char,
    n: nat,
    hole: char,
    m: nat,
) -> Seq<char>
    decreases n,
{
    if n == 0 {
        b
    } else {
        let j = (n - 1) as nat;
        each_text(
            nest_text(b, open, inner, close, outer, j, hole, m) + with_num(open, outer, j),
            with_num(inner, outer, j),
            hole,
            0,
            m,
        ) + with_num(close, outer, j)
    }
}

/// Appends a doubly repeated template.
pub fn push_nest(
    b: &mut String,
    open: &str,
    inner: &str,
    close: &str,
    outer: char,
    n: u64,
    hole: char,
    m: u64,
)
    ensures
        final(b)@ == nest_text(
            old(b)@,
            open@,
            inner@,
            close@,
            outer,
            n as nat,
            hole,
            m as nat,
        ),
{
    let mut j: u64 = 0;
    while j < n
        invariant
            j <= n,
            b@ == nest_text(old(b)@, open@, inner@, close@, outer, j as nat, hole, m as nat),
        decreases n - j,
    {
        let head = fill_num(open, outer, j);
        b.append(head.as_str());
        let line = fill_num(inner, outer, j);
        push_each(b, line.as_str(), hole, 0, m);
        let tail = fill_num(close, outer, j);
        b.append(tail.as_str());
        j = j + 1;
    }
}

/// The decimal digits of `n` as a string.
pub fn decimal(n: u64) -> (r: String)
    ensures
        r@ == dec(n as nat),
{
    let mut b = String::new();
    push_dec(&mut b, n);
    assert(b@ =~= dec(n as nat));
    b
}

/// Whether two strings hold the same characters.
pub fn same_text(a: &str, b: &str) -> (r: bool)
    ensures
        r == (a@ == b@),
{
    let x = chars_of(a);
    let y = chars_of(b);
    if x.len() != y.len() {
        return false;
    }
    let mut i: usize = 0;
    while i < x.len()
        invariant
            i <= x@.len(),
            x@.len() == y@.len(),
            x@ == a@,
            y@ == b@,
            forall|j: int| 0 <= j < i ==> x@[j] == #[trigger] y@[j],
        decreases x.len() - i,
    {
        if x[i] != y[i] {
            assert(x@[i as int] != y@[i as int]);
            return false;
        }
        i = i + 1;
    }
    assert(x@ =~= y@);
    true
}

/// `b` followed by the template for each number `k` below `n`, with `k` in one hole and
/// `k * scale` in another.
pub open spec fn scaled_text(
    b: Seq<char>,
    template: Seq<char>,
    hole: char,
    scaled: char,
    scale: nat,
    n: nat,
) -> Seq<char>
    decreases n,
{
    if n == 0 {
        b
    } else {
        let k = (n - 1) as nat;
        scaled_text(b, template, hole, scaled, scale, k) + with_num(
            with_num(template, hole, k),
            scaled,
            k * scale,
        )
    }
}

/// Appends a template with a number and a multiple of it.
pub fn push_scaled(b: &mut String, template: &str, hole: char, scaled: char, scale: u64, n: u64)
    requires
        n * scale <= u64::MAX,
    ensures
        final(b)@ == scaled_text(old(b)@, template@, hole, scaled, scale as nat, n as nat),
{
    let mut k: u64 = 0;
    while k < n
        invariant
            k <= n,
            n * scale <= u64::MAX,
            b@ == scaled_text(old(b)@, template@, hole, scaled, scale as nat, k as nat),
        decreases n - k,
    {
        assert(k * scale <= n * scale) by (nonlinear_arith)
            requires
                k <= n,
        ;
        let piece = fill_num(template, hole, k);
        let piece = fill_num(piece.as_str(), scaled, k * scale);
        b.append(piece.as_str());
        k = k + 1;
    }
}

/// Whether `s` begins with `pat`.
pub fn starts_with(s: &str, pat: &str) -> (r: bool)
    ensures
        r == occurs_at(s@, pat@, 0),
{
    let v = chars_of(s);
    let p = chars_of(pat);
    p.len() <= v.len() && stands_at(&v, &p, 0)
}

/// `s` ends with `pat`.
pub open spec fn ends_in(s: Seq<char>, pat: Seq<char>) -> bool {
    occurs_at(s, pat, s.len() - pat.len())
}

/// Whether `s` ends with `pat`.
pub fn ends_with(s: &str, pat: &str) -> (r: bool)
    ensures
        r == ends_in(s@, pat@),
{
    let v = chars_of(s);
    let p = chars_of(pat);
    p.len() <= v.len() && stands_at(&v, &p, v.len() - p.len())
}

/// The texts of a list of strings.
pub open spec fn texts(v: Seq<String>) -> Seq<Seq<char>> {
    Seq::new(v.len(), |i: int| v[i]@)
}

} // verus!
