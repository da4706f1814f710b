//! How searching and replacing in a text follow from its parts.
use vstd::prelude::*;
use crate::text::{
    contains, count_from, first_from, law_contains, lemma_first_from, mark, occurs_at, replace_from,
    replaced, replaced_once, with_text,
};

verus! {

/// `c` does not stand in `p`.
pub open spec fn lacks(p: Seq<char>, c: char) -> bool {
    forall|i: int| 0 <= i < p.len() ==> #[trigger] p[i] != c
}

/// No `p` reaches over the end of `a`, whatever follows it.
pub open spec fn parted(a: Seq<char>, p: Seq<char>) -> bool {
    &&& p.len() > 0
    &&& a.len() == 0 || lacks(p, a.last())
}

pub proof fn lemma_occurs_sum(a: Seq<char>, b: Seq<char>, p: Seq<char>, i: int)
    requires
        parted(a, p),
        0 <= i,
    ensures
        occurs_at(a + b, p, i) == if i < a.len() {
            occurs_at(a, p, i)
        } else {
            occurs_at(b, p, i - a.len())
        },
{
    let s = a + b;
    let n = a.len() as int;
    if i >= n {
        if i + p.len() <= s.len() {
            assert(s.subrange(i, i + p.len()) =~= b.subrange(i - n, i - n + p.len()));
        }
    } else if i + p.len() <= n {
        assert(s.subrange(i, i + p.len()) =~= a.subrange(i, i + p.len()));
    } else if occurs_at(s, p, i) {
        assert(s.subrange(i, i + p.len())[n - 1 - i] == s[n - 1]);
        assert(p[n - 1 - i] == a.last());
    }
}

/// A pattern with a character that the text lacks stands nowhere in it.
pub proof fn lemma_lacking(s: Seq<char>, p: Seq<char>, k: int)
    requires
        0 <= k < p.len(),
        lacks(s, p[k]),
    ensures
        !contains(s, p),
{
    law_contains(s, p);
    if contains(s, p) {
        let i = choose|i: int| occurs_at(s, p, i);
        assert(s.subrange(i, i + p.len())[k] == s[i + k]);
    }
}

pub proof fn lemma_first_is(s: Seq<char>, p: Seq<char>, i: int, j: int)
    requires
        0 <= i <= j,
        occurs_at(s, p, j),
        forall|k: int| i <= k < j ==> !#[trigger] occurs_at(s, p, k),
    ensures
        first_from(s, p, i) == Some(j),
{
    lemma_first_from(s, p, i);
}

proof fn lemma_replace_shift(a: Seq<char>, b: Seq<char>, f: Seq<char>, t: Seq<char>, k: int)
    requires
        parted(a, f),
        0 <= k <= b.len(),
    ensures
        replace_from(a + b, f, t, a.len() + k) == replace_from(b, f, t, k),
    decreases b.len() - k,
{
    let s = a + b;
    let n = a.len() as int;
    lemma_first_from(b, f, k);
    lemma_first_from(s, f, n + k);
    assert forall|x: int| n <= x implies #[trigger] occurs_at(s, f, x) == occurs_at(b, f, x - n) by {
        lemma_occurs_sum(a, b, f, x);
    }
    match first_from(b, f, k) {
        Some(j) => {
            assert(occurs_at(s, f, n + j));
            assert forall|x: int| n + k <= x < n + j implies !#[trigger] occurs_at(s, f, x) by {
                assert(!occurs_at(b, f, x - n));
            }
            lemma_first_is(s, f, n + k, n + j);
            lemma_replace_shift(a, b, f, t, j + f.len());
            assert(s.subrange(n + k, n + j) =~= b.subrange(k, j));
        },
        None => {
            match first_from(s, f, n + k) {
                Some(x) => {
                    assert(occurs_at(b, f, x - n));
                },
                None => {},
            }
            assert(s.skip(n + k) =~= b.skip(k));
        },
    }
}

proof fn lemma_replace_sum(a: Seq<char>, b: Seq<char>, f: Seq<char>, t: Seq<char>, i: int)
    requires
        parted(a, f),
        0 <= i <= a.len(),
    ensures
        replace_from(a + b, f, t, i) == replace_from(a, f, t, i) + replace_from(b, f, t, 0),
    decreases a.len() - i,
{
    let s = a + b;
    let n = a.len() as int;
    lemma_first_from(a, f, i);
    assert forall|x: int| 0 <= x < n implies #[trigger] occurs_at(s, f, x) == occurs_at(a, f, x) by {
        lemma_occurs_sum(a, b, f, x);
    }
    assert forall|x: int| n <= x implies #[trigger] occurs_at(s, f, x) == occurs_at(b, f, x - n) by {
        lemma_occurs_sum(a, b, f, x);
    }
    let rest = replace_from(b, f, t, 0);
    match first_from(a, f, i) {
        Some(j) => {
            assert(occurs_at(s, f, j));
            lemma_first_is(s, f, i, j);
            lemma_replace_sum(a, b, f, t, j + f.len());
            assert(s.subrange(i, j) =~= a.subrange(i, j));
            let tail = replace_from(a, f, t, j + f.len());
            assert(a.subrange(i, j) + t + (tail + rest) =~= (a.subrange(i, j) + t + tail) + rest);
        },
        None => {
            lemma_first_from(b, f, 0);
            lemma_first_from(s, f, i);
            match first_from(b, f, 0) {
                Some(j) => {
                    assert(occurs_at(s, f, n + j));
                    assert forall|x: int| i <= x < n + j implies !#[trigger] occurs_at(s, f, x) by {
                        if x >= n {
                            assert(!occurs_at(b, f, x - n));
                        } else {
                            assert(!occurs_at(a, f, x));
                        }
                    }
                    lemma_first_is(s, f, i, n + j);
                    lemma_replace_shift(a, b, f, t, j + f.len());
                    let tail = replace_from(b, f, t, j + f.len());
                    assert(s.subrange(i, n + j) =~= a.skip(i) + b.subrange(0, j));
                    assert(s.subrange(i, n + j) + t + tail =~= a.skip(i) + (b.subrange(0, j) + t
                        + tail));
                },
                None => {
                    match first_from(s, f, i) {
                        Some(x) => {
                            if x >= n {
                                assert(occurs_at(b, f, x - n));
                            } else {
                                assert(occurs_at(a, f, x));
                            }
                        },
                        None => {},
                    }
                    assert(s.skip(i) =~= a.skip(i) + b.skip(0));
                },
            }
        },
    }
}

/// What is replaced in two texts is replaced in one after the other.
pub proof fn lemma_replaced_sum(a: Seq<char>, b: Seq<char>, f: Seq<char>, t: Seq<char>)
    requires
        parted(a, f),
    ensures
        replaced(a + b, f, t) == replaced(a, f, t) + replaced(b, f, t),
{
    lemma_replace_sum(a, b, f, t, 0);
}

proof fn lemma_count_shift(a: Seq<char>, b: Seq<char>, p: Seq<char>, k: int)
    requires
        parted(a, p),
        0 <= k <= b.len(),
    ensures
        count_from(a + b, p, a.len() + k) == count_from(b, p, k),
    decreases b.len() - k,
{
    let s = a + b;
    let n = a.len() as int;
    lemma_first_from(b, p, k);
    lemma_first_from(s, p, n + k);
    assert forall|x: int| n <= x implies #[trigger] occurs_at(s, p, x) == occurs_at(b, p, x - n) by {
        lemma_occurs_sum(a, b, p, x);
    }
    match first_from(b, p, k) {
        Some(j) => {
            assert(occurs_at(s, p, n + j));
            assert forall|x: int| n + k <= x < n + j implies !#[trigger] occurs_at(s, p, x) by {
                assert(!occurs_at(b, p, x - n));
            }
            lemma_first_is(s, p, n + k, n + j);
            lemma_count_shift(a, b, p, j + p.len());
        },
        None => {
            match first_from(s, p, n + k) {
                Some(x) => {
                    assert(occurs_at(b, p, x - n));
                },
                None => {},
            }
        },
    }
}

proof fn lemma_count_sum_from(a: Seq<char>, b: Seq<char>, p: Seq<char>, i: int)
    requires
        parted(a, p),
        0 <= i <= a.len(),
    ensures
        count_from(a + b, p, i) == count_from(a, p, i) + count_from(b, p, 0),
    decreases a.len() - i,
{
    let s = a + b;
    let n = a.len() as int;
    lemma_first_from(a, p, i);
    assert forall|x: int| 0 <= x < n implies #[trigger] occurs_at(s, p, x) == occurs_at(a, p, x) by {
        lemma_occurs_sum(a, b, p, x);
    }
    assert forall|x: int| n <= x implies #[trigger] occurs_at(s, p, x) == occurs_at(b, p, x - n) by {
        lemma_occurs_sum(a, b, p, x);
    }
    match first_from(a, p, i) {
        Some(j) => {
            assert(occurs_at(s, p, j));
            lemma_first_is(s, p, i, j);
            lemma_count_sum_from(a, b, p, j + p.len());
        },
        None => {
            lemma_first_from(b, p, 0);
            lemma_first_from(s, p, i);
            match first_from(b, p, 0) {
                Some(j) => {
                    assert(occurs_at(s, p, n + j));
                    assert forall|x: int| i <= x < n + j implies !#[trigger] occurs_at(s, p, x) by {
                        if x >= n {
                            assert(!occurs_at(b, p, x - n));
                        } else {
                            assert(!occurs_at(a, p, x));
                        }
                    }
                    lemma_first_is(s, p, i, n + j);
                    lemma_count_shift(a, b, p, j + p.len());
                },
                None => {
                    match first_from(s, p, i) {
                        Some(x) => {
                            if x >= n {
                                assert(occurs_at(b, p, x - n));
                            } else {
                                assert(occurs_at(a, p, x));
                            }
                        },
                        None => {},
                    }
                },
            }
        },
    }
}

/// A pattern stands in two texts as often as in one and in the other.
pub proof fn lemma_count_sum(a: Seq<char>, b: Seq<char>, p: Seq<char>)
    requires
        parted(a, p),
    ensures
        count_from(a + b, p, 0) == count_from(a, p, 0) + count_from(b, p, 0),
{
    lemma_count_sum_from(a, b, p, 0);
}

pub proof fn lemma_contains_sum(a: Seq<char>, b: Seq<char>, p: Seq<char>)
    requires
        parted(a, p),
    ensures
        contains(a + b, p) == (contains(a, p) || contains(b, p)),
{
    law_contains(a, p);
    law_contains(b, p);
    law_contains(a + b, p);
    if contains(a, p) {
        let i = choose|i: int| occurs_at(a, p, i);
        lemma_occurs_sum(a, b, p, i);
        assert(occurs_at(a + b, p, i));
    }
    if contains(b, p) {
        let i = choose|i: int| occurs_at(b, p, i);
        lemma_occurs_sum(a, b, p, a.len() + i);
        assert(occurs_at(a + b, p, a.len() + i));
    }
    if contains(a + b, p) {
        let i = choose|i: int| occurs_at(a + b, p, i);
        lemma_occurs_sum(a, b, p, i);
    }
}

/// A text without the pattern stays as it is.
pub proof fn lemma_absent(s: Seq<char>, p: Seq<char>, t: Seq<char>)
    requires
        !contains(s, p),
    ensures
        replaced(s, p, t) == s,
        count_from(s, p, 0) == 0,
{
    assert(s.skip(0) =~= s);
}

/// A pattern that stands at one place only.
pub proof fn lemma_single(s: Seq<char>, p: Seq<char>, t: Seq<char>, j: int)
    requires
        p.len() > 0,
        occurs_at(s, p, j),
        forall|k: int| 0 <= k && k != j ==> !#[trigger] occurs_at(s, p, k),
    ensures
        replaced(s, p, t) == s.take(j) + t + s.skip(j + p.len()),
        count_from(s, p, 0) == 1,
        contains(s, p),
{
    lemma_first_is(s, p, 0, j);
    let i = j + p.len();
    lemma_first_from(s, p, i);
    match first_from(s, p, i) {
        Some(x) => {
            assert(occurs_at(s, p, x));
        },
        None => {},
    }
    assert(count_from(s, p, i) == 0);
    assert(replace_from(s, p, t, i) == s.skip(i));
    assert(s.subrange(0, j) =~= s.take(j));
}

/// What stands once is replaced once.
pub proof fn lemma_once(s: Seq<char>, p: Seq<char>, t: Seq<char>)
    requires
        p.len() > 0,
        count_from(s, p, 0) == 1,
    ensures
        replaced_once(s, p, t) == replaced(s, p, t),
{
    lemma_first_from(s, p, 0);
    let j = first_from(s, p, 0)->0;
    let i = j + p.len();
    lemma_first_from(s, p, i);
    assert(count_from(s, p, i) == 0);
    match first_from(s, p, i) {
        Some(x) => {
            assert(occurs_at(s, p, x));
            assert(count_from(s, p, i) == 1 + count_from(s, p, x + p.len()));
        },
        None => {},
    }
    assert(replace_from(s, p, t, i) == s.skip(i));
    assert(s.subrange(0, j) =~= s.take(j));
}

proof fn lemma_replace_last(s: Seq<char>, f: Seq<char>, t: Seq<char>, i: int)
    requires
        0 <= i < s.len(),
        f.len() > 0,
        lacks(f, s.last()),
    ensures
        replace_from(s, f, t, i).len() > 0,
        replace_from(s, f, t, i).last() == s.last(),
    decreases s.len() - i,
{
    lemma_first_from(s, f, i);
    match first_from(s, f, i) {
        Some(j) => {
            let k = j + f.len();
            if k >= s.len() {
                assert(s.subrange(j, k)[f.len() - 1] == s.last());
                assert(f[f.len() - 1] == s.last());
            }
            lemma_replace_last(s, f, t, k);
        },
        None => {},
    }
}

/// The last character stays where the pattern lacks it.
pub proof fn lemma_replaced_last(s: Seq<char>, f: Seq<char>, t: Seq<char>)
    requires
        s.len() > 0,
        f.len() > 0,
        lacks(f, s.last()),
    ensures
        replaced(s, f, t).len() > 0,
        replaced(s, f, t).last() == s.last(),
{
    lemma_replace_last(s, f, t, 0);
}

/// A hole that stands alone in a text.
pub proof fn lemma_fill_at(l: Seq<char>, hole: char, r: Seq<char>, v: Seq<char>)
    requires
        lacks(l, '{'),
        lacks(r, '{'),
    ensures
        with_text(l + mark(hole) + r, hole, v) == l + v + r,
{
    let s = l + mark(hole) + r;
    let m = mark(hole);
    let n = l.len() as int;
    assert(s.subrange(n, n + 3) =~= m);
    assert(occurs_at(s, m, n));
    assert forall|k: int| 0 <= k && k != n implies !#[trigger] occurs_at(s, m, k) by {
        if occurs_at(s, m, k) {
            assert(s.subrange(k, k + 3)[0] == s[k]);
            if k < n {
                assert(s[k] == l[k]);
            } else if k >= n + 3 {
                assert(s[k] == r[k - n - 3]);
            } else {
                assert(s.subrange(k, k + 3)[0] == m[k - n]);
                assert(s.subrange(k, k + 3)[1] == s[k + 1]);
                assert(s.subrange(k, k + 3)[2] == s[k + 2]);
                if k == n + 1 {
                    assert(s[k] == hole && s[k + 1] == '}');
                    assert(m[1] == hole);
                }
            }
        }
    }
    lemma_single(s, m, v, n);
    assert(s.take(n) =~= l);
    assert(s.skip(n + 3) =~= r);
}

} // verus!
