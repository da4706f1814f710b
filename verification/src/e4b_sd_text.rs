//! Which parts of a generated text the rewrite to shift-decoding can touch.
//!
//! Everything that the rewrite looks for, or leaves behind, holds one of a few telling
//! sequences of characters. A text without them is clean: the rewrite passes it by. Filling
//! the holes of a clean template with numbers and tags gives a clean text.
use vstd::prelude::*;
use crate::text::{
    contains, dec, digit, each_text, first_from, law_contains, lemma_first_from, mark, nest_text,
    occurs_at, replace_from, with_num, with_text,
};
use crate::text_laws::{
    lacks, lemma_absent, lemma_lacking, lemma_replaced_last, lemma_replaced_sum,
};

verus! {

/// The character at `i`, or a space behind the end.
pub open spec fn ch(s: Seq<char>, i: int) -> char {
    if i < s.len() {
        s[i]
    } else {
        ' '
    }
}

/// The telling sequences: of the decoders, the scales, the renamed calls, the folded factor
/// and the declaration, and two of templates.
pub open spec fn telling(kind: int, a: char, b: char, c: char) -> bool {
    if kind == 0 {
        a == 'k' && b == '_' && c == 'f'
    } else if kind == 1 {
        a == 'v' && b == '_' && c == 'f'
    } else if kind == 2 {
        a == 'k' && b == '_' && c == 's'
    } else if kind == 3 {
        a == 'v' && b == '_' && c == 's'
    } else if kind == 4 {
        a == 's' && b == 'd' && c == '('
    } else if kind == 5 {
        a == '7' && b == 'B'
    } else if kind == 6 {
        a == 'n' && b == ' ' && (c == 'e' || c == 'g')
    } else if kind == 7 {
        a == '{' && b == 'E'
    } else {
        kind == 8 && a == '}' && b == 'B'
    }
}

/// A telling sequence of a kind stands at `i`.
pub open spec fn tells(s: Seq<char>, kind: int, i: int) -> bool {
    0 <= i < s.len() && telling(kind, s[i], ch(s, i + 1), ch(s, i + 2))
}

/// No telling sequence stands at `i`.
pub open spec fn clean_at(s: Seq<char>, i: int) -> bool {
    let a = s[i];
    let b = ch(s, i + 1);
    let c = ch(s, i + 2);
    &&& !(b == '_' && (a == 'k' || a == 'v') && (c == 'f' || c == 's'))
    &&& !(a == 's' && b == 'd' && c == '(')
    &&& !((a == '7' || a == '}') && b == 'B')
    &&& !(a == 'n' && b == ' ' && (c == 'e' || c == 'g'))
    &&& !(a == '{' && b == 'E')
}

pub open spec fn clean(s: Seq<char>) -> bool {
    forall|i: int| 0 <= i < s.len() ==> #[trigger] clean_at(s, i)
}

/// Empty, or whole lines.
pub open spec fn lined(s: Seq<char>) -> bool {
    s.len() == 0 || s.last() == '\n'
}

pub proof fn lemma_clean_tells(s: Seq<char>)
    requires
        clean(s),
    ensures
        forall|kind: int, i: int| !#[trigger] tells(s, kind, i),
{
    assert forall|kind: int, i: int| !#[trigger] tells(s, kind, i) by {
        if 0 <= i < s.len() {
            assert(clean_at(s, i));
        }
    }
}

/// A pattern with a telling sequence stands only where such a sequence does.
pub proof fn lemma_tells_at(s: Seq<char>, p: Seq<char>, kind: int, k: int, x: int)
    requires
        tells(p, kind, k),
        k + 2 < p.len(),
        occurs_at(s, p, x),
    ensures
        tells(s, kind, x + k),
{
    let u = s.subrange(x, x + p.len());
    assert(u[k] == s[x + k]);
    assert(u[k + 1] == s[x + k + 1]);
    assert(u[k + 2] == s[x + k + 2]);
}

pub proof fn lemma_untold(s: Seq<char>, p: Seq<char>, kind: int, k: int)
    requires
        tells(p, kind, k),
        k + 2 < p.len(),
        forall|i: int| !#[trigger] tells(s, kind, i),
    ensures
        !contains(s, p),
{
    law_contains(s, p);
    if contains(s, p) {
        let x = choose|x: int| occurs_at(s, p, x);
        lemma_tells_at(s, p, kind, k, x);
    }
}

pub open spec fn is_digit(c: char) -> bool {
    '0' <= c <= '9'
}

/// Two characters that form no telling sequence with whatever stands around them.
pub open spec fn seam_ok(x: char, y: char) -> bool {
    ||| is_digit(y)
    ||| x == '\n'
    ||| (is_digit(x) || x == 'g' || x == 'b') && y != 'B'
}

pub proof fn lemma_clean_sum(a: Seq<char>, b: Seq<char>)
    requires
        clean(a),
        clean(b),
        a.len() == 0 || b.len() == 0 || seam_ok(a.last(), b[0]),
    ensures
        clean(a + b),
{
    let s = a + b;
    let n = a.len() as int;
    assert forall|i: int| 0 <= i < s.len() implies #[trigger] clean_at(s, i) by {
        if i >= n {
            assert(clean_at(b, i - n));
        } else {
            assert(clean_at(a, i));
        }
    }
}

pub proof fn lemma_clean_sub(s: Seq<char>, i: int, j: int)
    requires
        clean(s),
        0 <= i <= j <= s.len(),
    ensures
        clean(s.subrange(i, j)),
{
    let u = s.subrange(i, j);
    assert forall|k: int| 0 <= k < u.len() implies #[trigger] clean_at(u, k) by {
        assert(clean_at(s, i + k));
    }
}

/// A number, or a number and a tag.
pub open spec fn plain_value(v: Seq<char>) -> bool {
    &&& v.len() > 0
    &&& is_digit(v[0])
    &&& is_digit(v.last()) || v.last() == 'g' || v.last() == 'b'
    &&& forall|i: int|
        0 <= i < v.len() ==> is_digit(#[trigger] v[i]) || v[i] == 's' || v[i] == 'g' || v[i] == 'w'
            || v[i] == 'b'
}

pub proof fn lemma_plain_clean(v: Seq<char>)
    requires
        plain_value(v),
    ensures
        clean(v),
{
    assert forall|i: int| 0 <= i < v.len() implies #[trigger] clean_at(v, i) by {
        assert(is_digit(v[i]) || v[i] == 's' || v[i] == 'g' || v[i] == 'w' || v[i] == 'b');
        if i + 1 < v.len() {
            assert(is_digit(v[i + 1]) || v[i + 1] == 's' || v[i + 1] == 'g' || v[i + 1] == 'w'
                || v[i + 1] == 'b');
        }
    }
}

pub proof fn lemma_dec_digits(n: nat)
    ensures
        dec(n).len() > 0,
        forall|i: int| 0 <= i < dec(n).len() ==> is_digit(#[trigger] dec(n)[i]),
    decreases n,
{
    assert(forall|d: nat| d < 10 ==> is_digit(#[trigger] digit(d)));
    if n >= 10 {
        lemma_dec_digits(n / 10);
    }
}

pub proof fn lemma_dec_plain(n: nat)
    ensures
        plain_value(dec(n)),
{
    lemma_dec_digits(n);
}

/// A hole that a number or a tag is filled into.
pub open spec fn hole_ok(hole: char) -> bool {
    hole != '\n' && hole != ' ' && hole != '('
}

proof fn lemma_fill_clean_from(s: Seq<char>, hole: char, v: Seq<char>, i: int)
    requires
        clean(s),
        plain_value(v),
        0 <= i <= s.len(),
        i > 0 ==> s[i - 1] == '}',
    ensures
        clean(replace_from(s, mark(hole), v, i)),
        i > 0 && replace_from(s, mark(hole), v, i).len() > 0 ==> replace_from(
            s,
            mark(hole),
            v,
            i,
        )[0] != 'B',
    decreases s.len() - i,
{
    let m = mark(hole);
    let r = replace_from(s, m, v, i);
    lemma_first_from(s, m, i);
    if 0 < i < s.len() {
        assert(clean_at(s, i - 1));
    }
    match first_from(s, m, i) {
        Some(j) => {
            assert(s.subrange(j, j + 3)[2] == s[j + 2]);
            lemma_fill_clean_from(s, hole, v, j + 3);
            lemma_clean_sub(s, i, j);
            lemma_plain_clean(v);
            let head = s.subrange(i, j);
            lemma_clean_sum(head, v);
            let tail = replace_from(s, m, v, j + 3);
            lemma_clean_sum(head + v, tail);
            assert(r == head + v + tail);
            if j > i {
                assert(r[0] == s[i]);
            } else {
                assert(r[0] == v[0]);
            }
        },
        None => {
            lemma_clean_sub(s, i, s.len() as int);
            assert(s.skip(i) =~= s.subrange(i, s.len() as int));
        },
    }
}

/// A clean template filled with a number or a tag is clean.
pub proof fn lemma_fill_clean(s: Seq<char>, hole: char, v: Seq<char>)
    requires
        clean(s),
        plain_value(v),
    ensures
        clean(with_text(s, hole, v)),
{
    lemma_fill_clean_from(s, hole, v, 0);
}

/// Filling a hole keeps the last character, unless it could end a mark.
pub proof fn lemma_fill_last(s: Seq<char>, hole: char, v: Seq<char>)
    requires
        hole_ok(hole),
        s.len() > 0,
        s.last() == '\n' || s.last() == ' ' || s.last() == '(',
    ensures
        with_text(s, hole, v).len() > 0,
        with_text(s, hole, v).last() == s.last(),
{
    lemma_replaced_last(s, mark(hole), v);
}

pub proof fn lemma_fill_empty(hole: char, v: Seq<char>)
    ensures
        with_text(Seq::empty(), hole, v) == Seq::<char>::empty(),
{
    let e = Seq::<char>::empty();
    assert(first_from(e, mark(hole), 0) is None);
    assert(e.skip(0) =~= e);
}

pub proof fn lemma_fill_lined(s: Seq<char>, hole: char, v: Seq<char>)
    requires
        hole_ok(hole),
        lined(s),
    ensures
        lined(with_text(s, hole, v)),
{
    if s.len() > 0 {
        lemma_fill_last(s, hole, v);
    } else {
        assert(s =~= Seq::empty());
        lemma_fill_empty(hole, v);
    }
}

/// Where a text can be cut without cutting a mark.
pub open spec fn cuts(a: Seq<char>) -> bool {
    a.len() == 0 || a.last() == '\n' || a.last() == ' ' || a.last() == '('
}

pub proof fn lemma_fill_sum(a: Seq<char>, b: Seq<char>, hole: char, v: Seq<char>)
    requires
        hole_ok(hole),
        cuts(a),
    ensures
        with_text(a + b, hole, v) == with_text(a, hole, v) + with_text(b, hole, v),
        cuts(with_text(a, hole, v)),
{
    lemma_replaced_sum(a, b, mark(hole), v);
    if a.len() > 0 {
        lemma_fill_last(a, hole, v);
    } else {
        assert(a =~= Seq::empty());
        lemma_fill_empty(hole, v);
    }
}

/// A text without braces has no holes.
pub proof fn lemma_fill_none(s: Seq<char>, hole: char, v: Seq<char>)
    requires
        lacks(s, '{'),
    ensures
        with_text(s, hole, v) == s,
{
    assert(mark(hole)[0] == '{');
    lemma_lacking(s, mark(hole), 0);
    lemma_absent(s, mark(hole), v);
}

/// Holes filled one after the other, and the entry's last.
pub open spec fn filled(s: Seq<char>, fs: Seq<(char, Seq<char>)>) -> Seq<char>
    decreases fs.len(),
{
    if fs.len() == 0 {
        s
    } else {
        with_text(filled(s, fs.drop_last()), fs.last().0, fs.last().1)
    }
}

pub open spec fn fills_ok(fs: Seq<(char, Seq<char>)>) -> bool {
    forall|i: int|
        0 <= i < fs.len() ==> hole_ok((#[trigger] fs[i]).0) && fs[i].0 != 'E' && plain_value(fs[i].1)
}

pub proof fn lemma_filled_sum(a: Seq<char>, b: Seq<char>, fs: Seq<(char, Seq<char>)>)
    requires
        fills_ok(fs),
        cuts(a),
    ensures
        filled(a + b, fs) == filled(a, fs) + filled(b, fs),
        cuts(filled(a, fs)),
        a.len() > 0 ==> filled(a, fs).len() > 0 && filled(a, fs).last() == a.last(),
    decreases fs.len(),
{
    if fs.len() > 0 {
        let f = fs.last();
        assert(fs[fs.len() - 1] == f);
        assert(fills_ok(fs.drop_last())) by {
            assert forall|i: int| 0 <= i < fs.drop_last().len() implies hole_ok(
                (#[trigger] fs.drop_last()[i]).0,
            ) && fs.drop_last()[i].0 != 'E' && plain_value(fs.drop_last()[i].1) by {
                assert(fs[i] == fs.drop_last()[i]);
            }
        }
        lemma_filled_sum(a, b, fs.drop_last());
        lemma_fill_sum(filled(a, fs.drop_last()), filled(b, fs.drop_last()), f.0, f.1);
        if a.len() > 0 {
            lemma_fill_last(filled(a, fs.drop_last()), f.0, f.1);
        }
    }
}

pub proof fn lemma_filled_clean(s: Seq<char>, fs: Seq<(char, Seq<char>)>)
    requires
        fills_ok(fs),
        clean(s),
    ensures
        clean(filled(s, fs)),
    decreases fs.len(),
{
    if fs.len() > 0 {
        let f = fs.last();
        assert(fs[fs.len() - 1] == f);
        assert(fills_ok(fs.drop_last())) by {
            assert forall|i: int| 0 <= i < fs.drop_last().len() implies hole_ok(
                (#[trigger] fs.drop_last()[i]).0,
            ) && fs.drop_last()[i].0 != 'E' && plain_value(fs.drop_last()[i].1) by {
                assert(fs[i] == fs.drop_last()[i]);
            }
        }
        lemma_filled_clean(s, fs.drop_last());
        lemma_fill_clean(filled(s, fs.drop_last()), f.0, f.1);
    }
}

pub proof fn lemma_filled_none(s: Seq<char>, fs: Seq<(char, Seq<char>)>)
    requires
        lacks(s, '{'),
    ensures
        filled(s, fs) == s,
    decreases fs.len(),
{
    if fs.len() > 0 {
        lemma_filled_none(s, fs.drop_last());
        lemma_fill_none(s, fs.last().0, fs.last().1);
    }
}

/// A text with all its holes filled.
pub open spec fn phi(s: Seq<char>, fs: Seq<(char, Seq<char>)>, entry: Seq<char>) -> Seq<char> {
    with_text(filled(s, fs), 'E', entry)
}

pub proof fn lemma_phi_sum(a: Seq<char>, b: Seq<char>, fs: Seq<(char, Seq<char>)>, entry: Seq<char>)
    requires
        fills_ok(fs),
        cuts(a),
    ensures
        phi(a + b, fs, entry) == phi(a, fs, entry) + phi(b, fs, entry),
        cuts(phi(a, fs, entry)),
        a.len() > 0 ==> phi(a, fs, entry).len() > 0 && phi(a, fs, entry).last() == a.last(),
{
    lemma_filled_sum(a, b, fs);
    lemma_fill_sum(filled(a, fs), filled(b, fs), 'E', entry);
    if a.len() > 0 {
        lemma_fill_last(filled(a, fs), 'E', entry);
    }
}

/// A clean template has no hole for the entry, and stays clean.
pub proof fn lemma_phi_clean(s: Seq<char>, fs: Seq<(char, Seq<char>)>, entry: Seq<char>)
    requires
        fills_ok(fs),
        clean(s),
    ensures
        clean(phi(s, fs, entry)),
{
    lemma_filled_clean(s, fs);
    let t = filled(s, fs);
    let m = mark('E');
    lemma_clean_tells(t);
    assert(tells(m, 7, 0));
    lemma_untold(t, m, 7, 0);
    lemma_absent(t, m, entry);
}

pub proof fn lemma_phi_none(s: Seq<char>, fs: Seq<(char, Seq<char>)>, entry: Seq<char>)
    requires
        lacks(s, '{'),
    ensures
        phi(s, fs, entry) == s,
{
    lemma_filled_none(s, fs);
    lemma_fill_none(s, 'E', entry);
}

/// Repeated lines stand behind what was there.
pub proof fn lemma_each_behind(b: Seq<char>, t: Seq<char>, hole: char, lo: nat, hi: nat)
    ensures
        each_text(b, t, hole, lo, hi) == b + each_text(Seq::empty(), t, hole, lo, hi),
    decreases hi,
{
    if hi > lo {
        lemma_each_behind(b, t, hole, lo, (hi - 1) as nat);
        let e = each_text(Seq::empty(), t, hole, lo, (hi - 1) as nat);
        let l = with_num(t, hole, (hi - 1) as nat);
        assert((b + e) + l =~= b + (e + l));
    } else {
        assert(b + Seq::<char>::empty() =~= b);
    }
}

pub proof fn lemma_nest_behind(
    b: Seq<char>,
    open: Seq<char>,
    inner: Seq<char>,
    close: Seq<char>,
    outer: char,
    n: nat,
    hole: char,
    m: nat,
)
    ensures
        nest_text(b, open, inner, close, outer, n, hole, m) == b + nest_text(
            Seq::empty(),
            open,
            inner,
            close,
            outer,
            n,
            hole,
            m,
        ),
    decreases n,
{
    let none = Seq::<char>::empty();
    if n > 0 {
        let j = (n - 1) as nat;
        lemma_nest_behind(b, open, inner, close, outer, j, hole, m);
        let p = nest_text(none, open, inner, close, outer, j, hole, m);
        let o = with_num(open, outer, j);
        let i = with_num(inner, outer, j);
        let c = with_num(close, outer, j);
        let e = each_text(none, i, hole, 0, m);
        lemma_each_behind((b + p) + o, i, hole, 0, m);
        lemma_each_behind(p + o, i, hole, 0, m);
        assert(((b + p) + o + e) + c =~= b + ((p + o + e) + c));
    } else {
        assert(b + none =~= b);
    }
}

/// Repeated clean lines are clean lines.
pub proof fn lemma_each_clean(t: Seq<char>, hole: char, lo: nat, hi: nat)
    requires
        clean(t),
        lined(t),
        hole_ok(hole),
    ensures
        clean(each_text(Seq::empty(), t, hole, lo, hi)),
        lined(each_text(Seq::empty(), t, hole, lo, hi)),
    decreases hi,
{
    if hi > lo {
        let j = (hi - 1) as nat;
        lemma_each_clean(t, hole, lo, j);
        lemma_dec_plain(j);
        lemma_fill_clean(t, hole, dec(j));
        lemma_fill_lined(t, hole, dec(j));
        lemma_clean_sum(each_text(Seq::empty(), t, hole, lo, j), with_num(t, hole, j));
    }
}

/// Repeated clean blocks are clean lines.
pub proof fn lemma_nest_clean(
    open: Seq<char>,
    inner: Seq<char>,
    close: Seq<char>,
    outer: char,
    n: nat,
    hole: char,
    m: nat,
)
    requires
        clean(open) && lined(open),
        clean(inner) && lined(inner),
        clean(close) && lined(close),
        hole_ok(outer) && hole_ok(hole),
    ensures
        clean(nest_text(Seq::empty(), open, inner, close, outer, n, hole, m)),
        lined(nest_text(Seq::empty(), open, inner, close, outer, n, hole, m)),
    decreases n,
{
    let none = Seq::<char>::empty();
    if n > 0 {
        let j = (n - 1) as nat;
        lemma_nest_clean(open, inner, close, outer, j, hole, m);
        lemma_dec_plain(j);
        lemma_fill_clean(open, outer, dec(j));
        lemma_fill_lined(open, outer, dec(j));
        lemma_fill_clean(inner, outer, dec(j));
        lemma_fill_lined(inner, outer, dec(j));
        lemma_fill_clean(close, outer, dec(j));
        lemma_fill_lined(close, outer, dec(j));
        let p = nest_text(none, open, inner, close, outer, j, hole, m);
        let o = with_num(open, outer, j);
        let i = with_num(inner, outer, j);
        let c = with_num(close, outer, j);
        let e = each_text(none, i, hole, 0, m);
        lemma_each_clean(i, hole, 0, m);
        lemma_each_behind(p + o, i, hole, 0, m);
        lemma_clean_sum(p, o);
        lemma_clean_sum(p + o, e);
        lemma_clean_sum(p + o + e, c);
    }
}

} // verus!
