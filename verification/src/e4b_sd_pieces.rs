//! The rewrite to shift-decoding, line by line: what it does to the parts of a kernel, and that
//! it can be undone.
use vstd::prelude::*;
use crate::e4b_flash_src::{
    decl_text, folded, sd_rewritten, sd_text, E4B_SD_K_SCALE_ANCHOR, E4B_SD_VSC_SCALE_ANCHOR,
    E4B_SD_W_V_SCALE_ANCHOR,
};
use crate::e4b_sd_text::{
    ch, clean, clean_at, lemma_clean_tells, lemma_tells_at, lemma_untold, lined, tells,
};
use crate::text::{contains, count_from, law_contains, occurs_at, replaced};
use crate::text_laws::{
    lacks, lemma_absent, lemma_contains_sum, lemma_count_sum, lemma_lacking, lemma_once,
    lemma_replaced_last, lemma_replaced_sum, lemma_single, parted,
};

verus! {

/// The factor that the rewrite folds into a scale.
pub open spec fn factor() -> Seq<char> {
    " * bitcast<f32>(0x7B800000u)"@
}

/// A rewritten kernel with its calls and its entry renamed back and the factors taken out.
pub open spec fn undone(s: Seq<char>) -> Seq<char> {
    replaced(replaced(s, "_sd("@, "("@), factor(), Seq::empty())
}

/// The names that the generated stages have.
pub open spec fn entry_ok(entry: Seq<char>) -> bool {
    &&& entry.len() > 0
    &&& entry[0] == 'e' || entry[0] == 'g'
    &&& lacks(entry, 'k') && lacks(entry, 'v') && lacks(entry, 'd') && lacks(entry, 'B')
    &&& lacks(entry, ' ') && lacks(entry, '\n') && lacks(entry, '{') && lacks(entry, '}')
}

pub open spec fn is_v_anchor(va: Seq<char>) -> bool {
    va == E4B_SD_W_V_SCALE_ANCHOR@ || va == E4B_SD_VSC_SCALE_ANCHOR@
}

/// Where the scale's name is in the statement.
spec fn v_at(va: Seq<char>) -> int {
    if va == E4B_SD_W_V_SCALE_ANCHOR@ {
        17
    } else {
        13
    }
}

/// A text that fits on a line.
pub open spec fn inline(p: Seq<char>) -> bool {
    p.len() > 0 && lacks(p, '\n')
}

pub open spec fn renamed(s: Seq<char>, entry: Seq<char>) -> Seq<char> {
    replaced(s, decl_text(entry), decl_text(entry + "_sd"@))
}

pub open spec fn recalled(s: Seq<char>, entry: Seq<char>) -> Seq<char> {
    replaced(
        replaced(renamed(s, entry), "fd_k_fp8("@, "fd_k_fp8_sd("@),
        "fd_v_fp8("@,
        "fd_v_fp8_sd("@,
    )
}

pub open spec fn k_folded(s: Seq<char>, entry: Seq<char>) -> Seq<char> {
    replaced(recalled(s, entry), E4B_SD_K_SCALE_ANCHOR@, folded(E4B_SD_K_SCALE_ANCHOR@))
}

/// The whole rewrite, with every replacement made wherever it can be.
pub open spec fn rewritten(s: Seq<char>, entry: Seq<char>, va: Seq<char>) -> Seq<char> {
    replaced(k_folded(s, entry), va, folded(va))
}

/// How often the parts that the rewrite looks for stand in a text.
pub ghost struct Tally {
    pub decls: nat,
    pub k_scales: nat,
    pub v_scales: nat,
    pub k_calls: bool,
    pub v_calls: bool,
}

impl Tally {
    pub open spec fn none() -> Tally {
        Tally { decls: 0, k_scales: 0, v_scales: 0, k_calls: false, v_calls: false }
    }

    pub open spec fn plus(self, o: Tally) -> Tally {
        Tally {
            decls: self.decls + o.decls,
            k_scales: self.k_scales + o.k_scales,
            v_scales: self.v_scales + o.v_scales,
            k_calls: self.k_calls || o.k_calls,
            v_calls: self.v_calls || o.v_calls,
        }
    }
}

/// Whole lines on which the rewrite acts as it should: `n` says what it finds.
#[verifier::opaque]
pub open spec fn piece(x: Seq<char>, entry: Seq<char>, va: Seq<char>, n: Tally) -> bool {
    let y = rewritten(x, entry, va);
    &&& lined(x)
    &&& undone(y) == x
    &&& !contains(y, "fd_k_fp8("@)
    &&& !contains(y, "fd_v_fp8("@)
    &&& count_from(x, decl_text(entry), 0) == n.decls
    &&& count_from(x, E4B_SD_K_SCALE_ANCHOR@, 0) == n.k_scales
    &&& count_from(x, "fd_k_scales"@, 0) == n.k_scales
    &&& count_from(x, va, 0) == n.v_scales
    &&& count_from(x, "fd_v_scales"@, 0) == n.v_scales
    &&& count_from(recalled(x, entry), E4B_SD_K_SCALE_ANCHOR@, 0) == n.k_scales
    &&& count_from(k_folded(x, entry), va, 0) == n.v_scales
    &&& count_from(y, "0x7B800000"@, 0) == n.k_scales + n.v_scales
    &&& count_from(y, factor(), 0) == n.k_scales + n.v_scales
    &&& n.decls > 0 ==> contains(y, decl_text(entry + "_sd"@))
    &&& n.k_scales > 0 ==> contains(y, folded(E4B_SD_K_SCALE_ANCHOR@))
    &&& n.v_scales > 0 ==> contains(y, folded(va))
    &&& n.k_calls ==> contains(x, "fd_k_fp8("@) && contains(y, "fd_k_fp8_sd("@)
    &&& n.v_calls ==> contains(x, "fd_v_fp8("@) && contains(y, "fd_v_fp8_sd("@)
}

proof fn lemma_calls()
    ensures
        inline("fd_k_fp8("@) && inline("fd_v_fp8("@),
        inline("fd_k_fp8_sd("@) && inline("fd_v_fp8_sd("@),
        "fd_k_fp8("@.len() == 9 && "fd_v_fp8("@.len() == 9,
        "fd_k_fp8_sd("@.len() == 12 && "fd_v_fp8_sd("@.len() == 12,
        tells("fd_k_fp8("@, 0, 3),
        tells("fd_v_fp8("@, 1, 3),
        forall|kind: int, j: int| #[trigger] tells("fd_k_fp8("@, kind, j) ==> kind == 0 && j == 3,
        forall|kind: int, j: int| #[trigger] tells("fd_v_fp8("@, kind, j) ==> kind == 1 && j == 3,
        forall|kind: int, j: int| #[trigger]
            tells("fd_k_fp8_sd("@, kind, j) ==> (kind == 0 && j == 3) || (kind == 4 && j == 9),
        forall|kind: int, j: int| #[trigger]
            tells("fd_v_fp8_sd("@, kind, j) ==> (kind == 1 && j == 3) || (kind == 4 && j == 9),
        "fd_k_fp8("@[8] == '(' && "fd_v_fp8("@[8] == '(',
        "fd_k_fp8("@[0] == 'f' && "fd_v_fp8("@[0] == 'f',
        "fd_k_fp8_sd("@[0] == 'f' && "fd_v_fp8_sd("@[0] == 'f',
        "fd_k_fp8_sd("@ == "fd_k_fp8("@.take(8) + "_sd("@,
        "fd_v_fp8_sd("@ == "fd_v_fp8("@.take(8) + "_sd("@,
        lacks("fd_k_fp8("@, '{') && lacks("fd_v_fp8("@, '{'),
{
    reveal_strlit("fd_k_fp8(");
    reveal_strlit("fd_v_fp8(");
    reveal_strlit("fd_k_fp8_sd(");
    reveal_strlit("fd_v_fp8_sd(");
    reveal_strlit("_sd(");
    assert("fd_k_fp8_sd("@ =~= "fd_k_fp8("@.take(8) + "_sd("@);
    assert("fd_v_fp8_sd("@ =~= "fd_v_fp8("@.take(8) + "_sd("@);
}

proof fn lemma_marks()
    ensures
        inline("fd_k_scales"@) && inline("fd_v_scales"@) && inline("_sd("@) && inline(factor())
            && inline("0x7B800000"@),
        "fd_k_scales"@.len() == 11 && "fd_v_scales"@.len() == 11,
        tells("fd_k_scales"@, 2, 3),
        tells("fd_v_scales"@, 3, 3),
        "_sd("@.len() == 4,
        tells("_sd("@, 4, 1),
        "_sd("@[0] == '_' && "_sd("@[3] == '(',
        factor().len() == 28,
        tells(factor(), 5, 18),
        "0x7B800000"@.len() == 10,
        tells("0x7B800000"@, 5, 2),
        factor().subrange(16, 26) == "0x7B800000"@,
        "("@ == seq!['('],
{
    reveal_strlit("fd_k_scales");
    reveal_strlit("fd_v_scales");
    reveal_strlit("_sd(");
    reveal_strlit(" * bitcast<f32>(0x7B800000u)");
    reveal_strlit("0x7B800000");
    reveal_strlit("(");
    assert(factor().subrange(16, 26) =~= "0x7B800000"@);
    assert("("@ =~= seq!['(']);
}

/// A statement that loads a scale: of the keys or of the values.
spec fn anchor_at(m: Seq<char>, kind: int, k: int) -> bool {
    ||| m == E4B_SD_K_SCALE_ANCHOR@ && kind == 2 && k == 8
    ||| is_v_anchor(m) && kind == 3 && k == v_at(m)
}

/// The name of the scale in the statement.
spec fn scale_name(kind: int) -> Seq<char> {
    if kind == 2 {
        "fd_k_scales"@
    } else {
        "fd_v_scales"@
    }
}

proof fn lemma_k_anchor()
    ensures
        ({
            let m = E4B_SD_K_SCALE_ANCHOR@;
            &&& inline(m)
            &&& m.len() == 33
            &&& m.last() == ';'
            &&& m[0] == 'k'
            &&& tells(m, 2, 8)
            &&& forall|kind: int, j: int| #[trigger] tells(m, kind, j) ==> kind == 2 && j == 8
            &&& m.subrange(5, 16) == "fd_k_scales"@
            &&& lacks(m, '{')
        }),
{
    reveal_strlit("ks = fd_k_scales[sp * nkv + kvh];");
    reveal_strlit("fd_k_scales");
    assert(E4B_SD_K_SCALE_ANCHOR@.subrange(5, 16) =~= "fd_k_scales"@);
}

proof fn lemma_v_anchor(m: Seq<char>)
    requires
        is_v_anchor(m),
    ensures
        inline(m),
        m.len() == v_at(m) + 25,
        m.last() == ';',
        m[0] == 'l',
        tells(m, 3, v_at(m)),
        forall|kind: int, j: int| #[trigger] tells(m, kind, j) ==> kind == 3 && j == v_at(m),
        m.subrange(v_at(m) - 3, v_at(m) + 8) == "fd_v_scales"@,
        lacks(m, '{'),
{
    reveal_strlit("fd_v_scales");
    reveal_strlit("let w_v = w * fd_v_scales[sp * nkv + kvh];");
    reveal_strlit("let vsc = fd_v_scales[sp * nkv + kvh];");
    assert(E4B_SD_W_V_SCALE_ANCHOR@.len() == 42);
    assert(E4B_SD_VSC_SCALE_ANCHOR@.len() == 38);
    assert(m.subrange(v_at(m) - 3, v_at(m) + 8) =~= "fd_v_scales"@);
}

proof fn lemma_folded(m: Seq<char>, kind: int, k: int)
    requires
        anchor_at(m, kind, k),
    ensures
        inline(folded(m)),
        folded(m).len() == m.len() + 28,
        folded(m)[0] == m[0],
        folded(m).last() == ';',
        folded(m) == m.drop_last() + factor() + seq![';'],
        tells(folded(m), kind, k),
        forall|i: int, j: int| #[trigger]
            tells(folded(m), i, j) ==> (i == kind && j == k) || (i == 5 && j == m.len() + 17),
        tells(folded(m), 5, m.len() as int + 17),
{
    reveal_strlit(" * bitcast<f32>(0x7B800000u);");
    reveal_strlit(" * bitcast<f32>(0x7B800000u)");
    let u = " * bitcast<f32>(0x7B800000u);"@;
    let f = folded(m);
    let d = m.drop_last();
    let n = d.len() as int;
    if kind == 2 {
        lemma_k_anchor();
    } else {
        lemma_v_anchor(m);
    }
    assert(u =~= factor() + seq![';']);
    assert(f =~= d + factor() + seq![';']);
    assert forall|i: int, j: int| #[trigger] tells(f, i, j) implies (i == kind && j == k) || (i == 5
        && j == m.len() + 17) by {
        if j < n - 2 {
            assert(f[j] == m[j] && f[j + 1] == m[j + 1] && f[j + 2] == m[j + 2]);
            assert(tells(m, i, j));
        } else if j >= n {
            assert(f[j] == u[j - n]);
        } else {
            assert(f[n - 2] == m[n - 2] && f[n - 1] == m[n - 1]);
            lemma_anchor_end(m, kind, k);
        }
    }
    assert(f[k] == m[k] && f[k + 1] == m[k + 1] && f[k + 2] == m[k + 2]);
    assert(f[n + 18] == u[18] && f[n + 19] == u[19]);
    assert(lacks(f, '\n')) by {
        assert forall|i: int| 0 <= i < f.len() implies #[trigger] f[i] != '\n' by {
            if i < n {
                assert(f[i] == m[i]);
            } else {
                assert(f[i] == u[i - n]);
            }
        }
    }
}

proof fn lemma_anchor_end(m: Seq<char>, kind: int, k: int)
    requires
        anchor_at(m, kind, k),
    ensures
        m.len() > 3,
        m[m.len() - 3] == 'h',
        m[m.len() - 2] == ']',
{
    reveal_strlit("ks = fd_k_scales[sp * nkv + kvh];");
    reveal_strlit("let w_v = w * fd_v_scales[sp * nkv + kvh];");
    reveal_strlit("let vsc = fd_v_scales[sp * nkv + kvh];");
}

proof fn lemma_decl(entry: Seq<char>)
    requires
        entry_ok(entry),
    ensures
        ({
            let d = decl_text(entry);
            let n = entry.len() as int;
            &&& inline(d)
            &&& d.len() == n + 4
            &&& d[0] == 'f'
            &&& d.last() == '('
            &&& tells(d, 6, 1)
            &&& d == "fn "@ + entry + "("@
            &&& "fn "@.len() == 3
            &&& forall|kind: int, j: int| #[trigger] tells(d, kind, j) ==> kind == 6 && j == 1
        }),
        ({
            let d = decl_text(entry + "_sd"@);
            let n = entry.len() as int;
            &&& inline(d)
            &&& d.len() == n + 7
            &&& d[0] == 'f'
            &&& d.last() == '('
            &&& d == "fn "@ + entry + "_sd("@
            &&& forall|kind: int, j: int| #[trigger]
                tells(d, kind, j) ==> (kind == 6 && j == 1) || (kind == 4 && j == n + 4)
        }),
{
    reveal_strlit("fn ");
    reveal_strlit("(");
    reveal_strlit("_sd");
    reveal_strlit("_sd(");
    let n = entry.len() as int;
    let d = decl_text(entry);
    let e = decl_text(entry + "_sd"@);
    assert(e =~= "fn "@ + entry + "_sd("@);
    assert forall|i: int| 3 <= i < n + 3 implies #[trigger] d[i] == entry[i - 3] by {}
    assert forall|i: int| 3 <= i < n + 3 implies #[trigger] e[i] == entry[i - 3] by {}
    assert(d[0] == 'f' && d[1] == 'n' && d[2] == ' ' && d[n + 3] == '(');
    assert(e[0] == 'f' && e[1] == 'n' && e[2] == ' ');
    assert(e[n + 3] == '_' && e[n + 4] == 's' && e[n + 5] == 'd' && e[n + 6] == '(');
    assert(d[3] == entry[0]);
    assert forall|kind: int, j: int| #[trigger] tells(d, kind, j) implies kind == 6 && j == 1 by {
        assert(d[j] == d[j]);
        if j + 1 < d.len() {
            assert(d[j + 1] == d[j + 1]);
        }
        if j + 2 < d.len() {
            assert(d[j + 2] == d[j + 2]);
        }
    }
    assert forall|kind: int, j: int| #[trigger] tells(e, kind, j) implies (kind == 6 && j == 1) || (
    kind == 4 && j == n + 4) by {
        assert(e[j] == e[j]);
        if j + 1 < e.len() {
            assert(e[j + 1] == e[j + 1]);
        }
        if j + 2 < e.len() {
            assert(e[j + 2] == e[j + 2]);
        }
    }
}

/// A pattern that tells of itself stands nowhere in a text that does not.
proof fn lemma_gone(s: Seq<char>, p: Seq<char>, t: Seq<char>, kind: int, k: int)
    requires
        tells(p, kind, k),
        k + 2 < p.len(),
        forall|i: int| !#[trigger] tells(s, kind, i),
    ensures
        !contains(s, p),
        replaced(s, p, t) == s,
        count_from(s, p, 0) == 0,
{
    lemma_untold(s, p, kind, k);
    lemma_absent(s, p, t);
}

/// A pattern that tells of itself stands once in a text that tells of it once.
proof fn lemma_only(s: Seq<char>, p: Seq<char>, t: Seq<char>, kind: int, k: int, j: int)
    requires
        tells(p, kind, k),
        k + 2 < p.len(),
        occurs_at(s, p, j),
        forall|i: int| #[trigger] tells(s, kind, i) ==> i == j + k,
    ensures
        replaced(s, p, t) == s.take(j) + t + s.skip(j + p.len()),
        count_from(s, p, 0) == 1,
        contains(s, p),
{
    assert forall|x: int| 0 <= x && x != j implies !#[trigger] occurs_at(s, p, x) by {
        if occurs_at(s, p, x) {
            lemma_tells_at(s, p, kind, k, x);
        }
    }
    lemma_single(s, p, t, j);
}

/// Between clean texts a part tells only of itself.
proof fn lemma_between(l: Seq<char>, m: Seq<char>, r: Seq<char>)
    requires
        clean(l),
        clean(r),
        l.len() == 0 || l.last() == ' ',
        m.len() >= 2,
        m[0] != 'e' && m[0] != 'g',
        m.last() == '(' || m.last() == ';',
    ensures
        forall|kind: int, i: int| #[trigger]
            tells(l + m + r, kind, i) ==> tells(m, kind, i - l.len()),
{
    let s = l + m + r;
    let n = l.len() as int;
    let e = n + m.len() as int;
    lemma_clean_tells(l);
    lemma_clean_tells(r);
    assert forall|kind: int, i: int| #[trigger] tells(s, kind, i) implies tells(m, kind, i - n) by {
        if i >= e {
            assert(s[i] == r[i - e]);
            assert(ch(s, i + 1) == ch(r, i - e + 1));
            assert(ch(s, i + 2) == ch(r, i - e + 2));
            assert(tells(r, kind, i - e));
        } else if i >= n {
            assert(s[i] == m[i - n]);
            if i + 1 < e {
                assert(s[i + 1] == m[i - n + 1]);
            }
            if i + 2 < e {
                assert(s[i + 2] == m[i - n + 2]);
            }
        } else {
            assert(s[i] == l[i]);
            assert(!tells(l, kind, i));
            if i + 1 < n {
                assert(s[i + 1] == l[i + 1]);
            } else {
                assert(s[i + 1] == m[0]);
            }
            if i + 2 < n {
                assert(s[i + 2] == l[i + 2]);
            } else if i + 2 == n {
                assert(s[i + 2] == m[0]);
            }
        }
    }
}

proof fn lemma_middle(l: Seq<char>, m: Seq<char>, r: Seq<char>)
    ensures
        occurs_at(l + m + r, m, l.len() as int),
        (l + m + r).take(l.len() as int) == l,
        (l + m + r).skip((l.len() + m.len()) as int) == r,
{
    let s = l + m + r;
    let n = l.len() as int;
    assert(s.subrange(n, n + m.len()) =~= m);
    assert(s.take(n) =~= l);
    assert(s.skip(n + m.len()) =~= r);
}

proof fn lemma_stands(l: Seq<char>, m: Seq<char>, r: Seq<char>)
    ensures
        contains(l + m + r, m),
{
    lemma_middle(l, m, r);
    law_contains(l + m + r, m);
}

/// The rewrite passes clean lines by.
pub proof fn lemma_clean_piece(x: Seq<char>, entry: Seq<char>, va: Seq<char>)
    requires
        clean(x),
        lined(x),
        entry_ok(entry),
        is_v_anchor(va),
    ensures
        piece(x, entry, va, Tally::none()),
{
    reveal(piece);
    lemma_clean_tells(x);
    lemma_calls();
    lemma_marks();
    lemma_k_anchor();
    lemma_v_anchor(va);
    lemma_decl(entry);
    lemma_gone(x, decl_text(entry), decl_text(entry + "_sd"@), 6, 1);
    lemma_gone(x, "fd_k_fp8("@, "fd_k_fp8_sd("@, 0, 3);
    lemma_gone(x, "fd_v_fp8("@, "fd_v_fp8_sd("@, 1, 3);
    lemma_gone(x, E4B_SD_K_SCALE_ANCHOR@, folded(E4B_SD_K_SCALE_ANCHOR@), 2, 8);
    lemma_gone(x, va, folded(va), 3, v_at(va));
    lemma_gone(x, "fd_k_scales"@, x, 2, 3);
    lemma_gone(x, "fd_v_scales"@, x, 3, 3);
    lemma_gone(x, "_sd("@, "("@, 4, 1);
    lemma_gone(x, factor(), Seq::empty(), 5, 18);
    lemma_gone(x, "0x7B800000"@, x, 5, 2);
}

/// The line that declares the stage.
pub proof fn lemma_decl_piece(entry: Seq<char>, va: Seq<char>)
    requires
        entry_ok(entry),
        is_v_anchor(va),
    ensures
        piece(decl_text(entry) + seq!['\n'], entry, va, Tally { decls: 1, ..Tally::none() }),
{
    reveal(piece);
    lemma_calls();
    lemma_marks();
    lemma_k_anchor();
    lemma_v_anchor(va);
    lemma_decl(entry);
    let none = Seq::<char>::empty();
    let r = seq!['\n'];
    let d = decl_text(entry);
    let e = decl_text(entry + "_sd"@);
    let x = d + r;
    let y = e + r;
    let n = entry.len() as int;
    assert(clean(none));
    assert(clean(r)) by {
        assert(clean_at(r, 0));
    }
    lemma_between(none, d, r);
    lemma_between(none, e, r);
    lemma_middle(none, d, r);
    lemma_middle(none, e, r);
    assert(none + d + r =~= x);
    assert(none + e + r =~= y);
    lemma_only(x, d, e, 6, 1, 0);
    assert(none + e + r =~= y);
    assert(renamed(x, entry) == y);
    lemma_gone(y, "fd_k_fp8("@, "fd_k_fp8_sd("@, 0, 3);
    lemma_gone(y, "fd_v_fp8("@, "fd_v_fp8_sd("@, 1, 3);
    lemma_gone(y, E4B_SD_K_SCALE_ANCHOR@, folded(E4B_SD_K_SCALE_ANCHOR@), 2, 8);
    lemma_gone(y, va, folded(va), 3, v_at(va));
    lemma_gone(x, E4B_SD_K_SCALE_ANCHOR@, x, 2, 8);
    lemma_gone(x, va, x, 3, v_at(va));
    lemma_gone(x, "fd_k_scales"@, x, 2, 3);
    lemma_gone(x, "fd_v_scales"@, x, 3, 3);
    lemma_gone(y, "0x7B800000"@, x, 5, 2);
    lemma_gone(y, factor(), x, 5, 18);
    // Back again.
    let head = "fn "@ + entry;
    assert(y =~= head + "_sd("@ + r);
    lemma_middle(head, "_sd("@, r);
    lemma_only(y, "_sd("@, "("@, 4, 1, n + 3);
    assert(head + "("@ + r =~= x);
    lemma_gone(x, factor(), Seq::empty(), 5, 18);
    law_contains(y, e);
    assert(occurs_at(y, e, 0));
}

/// A decoder and its twin.
pub open spec fn is_decoder(m: Seq<char>, t: Seq<char>, kind: int) -> bool {
    ||| m == "fd_k_fp8("@ && t == "fd_k_fp8_sd("@ && kind == 0
    ||| m == "fd_v_fp8("@ && t == "fd_v_fp8_sd("@ && kind == 1
}

/// Lines that call a decoder once.
pub proof fn lemma_decoder_piece(
    l: Seq<char>,
    m: Seq<char>,
    t: Seq<char>,
    kind: int,
    r: Seq<char>,
    entry: Seq<char>,
    va: Seq<char>,
)
    requires
        is_decoder(m, t, kind),
        clean(l),
        clean(r),
        l.len() > 0,
        l.last() == ' ',
        r.len() > 0,
        r.last() == '\n',
        entry_ok(entry),
        is_v_anchor(va),
    ensures
        piece(
            l + m + r,
            entry,
            va,
            Tally { k_calls: kind == 0, v_calls: kind == 1, ..Tally::none() },
        ),
{
    reveal(piece);
    lemma_calls();
    lemma_marks();
    lemma_k_anchor();
    lemma_v_anchor(va);
    lemma_decl(entry);
    let x = l + m + r;
    let y = l + t + r;
    let n = l.len() as int;
    let d = decl_text(entry);
    lemma_between(l, m, r);
    lemma_between(l, t, r);
    lemma_middle(l, m, r);
    lemma_middle(l, t, r);
    lemma_gone(x, d, decl_text(entry + "_sd"@), 6, 1);
    if kind == 0 {
        lemma_only(x, m, t, 0, 3, n);
        lemma_gone(y, "fd_v_fp8("@, "fd_v_fp8_sd("@, 1, 3);
    } else {
        lemma_gone(x, "fd_k_fp8("@, "fd_k_fp8_sd("@, 0, 3);
        lemma_only(x, m, t, 1, 3, n);
        lemma_gone(y, "fd_k_fp8("@, "fd_k_fp8_sd("@, 0, 3);
    }
    assert(recalled(x, entry) == y);
    lemma_gone(y, E4B_SD_K_SCALE_ANCHOR@, folded(E4B_SD_K_SCALE_ANCHOR@), 2, 8);
    lemma_gone(y, va, folded(va), 3, v_at(va));
    lemma_gone(x, E4B_SD_K_SCALE_ANCHOR@, x, 2, 8);
    lemma_gone(x, va, x, 3, v_at(va));
    lemma_gone(x, "fd_k_scales"@, x, 2, 3);
    lemma_gone(x, "fd_v_scales"@, x, 3, 3);
    lemma_gone(y, "0x7B800000"@, x, 5, 2);
    lemma_gone(y, factor(), x, 5, 18);
    // The old call is gone.
    law_contains(y, m);
    if contains(y, m) {
        let k = choose|k: int| occurs_at(y, m, k);
        lemma_tells_at(y, m, kind, 3, k);
        assert(k == n);
        assert(y.subrange(k, k + 9)[8] == y[n + 8]);
        assert(y[n + 8] == t[8]);
        assert(t[8] == "_sd("@[0]);
    }
    // Back again.
    let head = l + m.take(8);
    assert(y =~= head + "_sd("@ + r);
    lemma_middle(head, "_sd("@, r);
    lemma_only(y, "_sd("@, "("@, 4, 1, n + 8);
    assert(m =~= m.take(8) + "("@);
    assert(head + "("@ + r =~= x);
    lemma_gone(x, factor(), Seq::empty(), 5, 18);
    law_contains(y, t);
    assert(occurs_at(y, t, n));
}

/// The line that loads a scale, and the same with the factor folded in.
proof fn lemma_anchor_lines(l: Seq<char>, m: Seq<char>, kind: int, k: int)
    requires
        anchor_at(m, kind, k),
        clean(l),
        l.len() > 0,
        l.last() == ' ',
    ensures
        ({
            let x = l + m + seq!['\n'];
            let y = l + folded(m) + seq!['\n'];
            &&& replaced(x, m, folded(m)) == y
            &&& count_from(x, m, 0) == 1
            &&& count_from(x, scale_name(kind), 0) == 1
            &&& undone(y) == x
            &&& count_from(y, factor(), 0) == 1
            &&& count_from(y, "0x7B800000"@, 0) == 1
            &&& forall|i: int, j: int| #[trigger] tells(x, i, j) ==> i == kind
            &&& forall|i: int, j: int| #[trigger] tells(y, i, j) ==> i == kind || i == 5
        }),
{
    lemma_marks();
    if kind == 2 {
        lemma_k_anchor();
    } else {
        lemma_v_anchor(m);
    }
    lemma_folded(m, kind, k);
    let r = seq!['\n'];
    assert(clean(r)) by {
        assert(clean_at(r, 0));
    }
    let f = folded(m);
    let x = l + m + r;
    let y = l + f + r;
    let n = l.len() as int;
    lemma_between(l, m, r);
    lemma_between(l, f, r);
    lemma_middle(l, m, r);
    lemma_only(x, m, f, kind, k, n);
    let name = scale_name(kind);
    assert(m.subrange(k - 3, k + 8) == name);
    assert(x.subrange(n + k - 3, n + k + 8) =~= m.subrange(k - 3, k + 8));
    lemma_only(x, name, x, kind, 3, n + k - 3);
    // The factor stands once, and can be taken out.
    let head = l + m.drop_last();
    let tail = seq![';'] + r;
    let c = n + m.len() - 1;
    assert(y =~= head + factor() + tail);
    lemma_middle(head, factor(), tail);
    lemma_gone(y, "_sd("@, "("@, 4, 1);
    lemma_only(y, factor(), Seq::empty(), 5, 18, c);
    assert(m =~= m.drop_last() + seq![';']);
    assert(head + Seq::empty() + tail =~= x);
    assert(y.subrange(c + 16, c + 26) =~= factor().subrange(16, 26));
    lemma_only(y, "0x7B800000"@, x, 5, 2, c + 16);
}

/// The line that loads the scale of a key.
pub proof fn lemma_k_scale_piece(l: Seq<char>, entry: Seq<char>, va: Seq<char>)
    requires
        clean(l),
        l.len() > 0,
        l.last() == ' ',
        entry_ok(entry),
        is_v_anchor(va),
    ensures
        piece(
            l + E4B_SD_K_SCALE_ANCHOR@ + seq!['\n'],
            entry,
            va,
            Tally { k_scales: 1, ..Tally::none() },
        ),
{
    reveal(piece);
    let m = E4B_SD_K_SCALE_ANCHOR@;
    lemma_anchor_lines(l, m, 2, 8);
    lemma_stands(l, folded(m), seq!['\n']);
    lemma_calls();
    lemma_marks();
    lemma_v_anchor(va);
    lemma_decl(entry);
    let x = l + m + seq!['\n'];
    let y = l + folded(m) + seq!['\n'];
    lemma_gone(x, decl_text(entry), decl_text(entry + "_sd"@), 6, 1);
    lemma_gone(x, "fd_k_fp8("@, "fd_k_fp8_sd("@, 0, 3);
    lemma_gone(x, "fd_v_fp8("@, "fd_v_fp8_sd("@, 1, 3);
    lemma_gone(y, "fd_k_fp8("@, x, 0, 3);
    lemma_gone(y, "fd_v_fp8("@, x, 1, 3);
    lemma_gone(x, va, x, 3, v_at(va));
    lemma_gone(y, va, folded(va), 3, v_at(va));
    lemma_gone(x, "fd_v_scales"@, x, 3, 3);
}

/// The line that loads the scale of a value.
pub proof fn lemma_v_scale_piece(l: Seq<char>, entry: Seq<char>, va: Seq<char>)
    requires
        clean(l),
        l.len() > 0,
        l.last() == ' ',
        entry_ok(entry),
        is_v_anchor(va),
    ensures
        piece(l + va + seq!['\n'], entry, va, Tally { v_scales: 1, ..Tally::none() }),
{
    reveal(piece);
    lemma_anchor_lines(l, va, 3, v_at(va));
    lemma_stands(l, folded(va), seq!['\n']);
    lemma_calls();
    lemma_marks();
    lemma_k_anchor();
    lemma_decl(entry);
    let ka = E4B_SD_K_SCALE_ANCHOR@;
    let x = l + va + seq!['\n'];
    let y = l + folded(va) + seq!['\n'];
    lemma_gone(x, decl_text(entry), decl_text(entry + "_sd"@), 6, 1);
    lemma_gone(x, "fd_k_fp8("@, "fd_k_fp8_sd("@, 0, 3);
    lemma_gone(x, "fd_v_fp8("@, "fd_v_fp8_sd("@, 1, 3);
    lemma_gone(y, "fd_k_fp8("@, x, 0, 3);
    lemma_gone(y, "fd_v_fp8("@, x, 1, 3);
    lemma_gone(x, ka, folded(ka), 2, 8);
    lemma_gone(x, "fd_k_scales"@, x, 2, 3);
}

proof fn lemma_stays_lined(s: Seq<char>, f: Seq<char>, t: Seq<char>)
    requires
        lined(s),
        inline(f),
    ensures
        lined(replaced(s, f, t)),
{
    if s.len() > 0 {
        lemma_replaced_last(s, f, t);
    } else {
        lemma_lacking(s, f, 0);
        lemma_absent(s, f, t);
    }
}

proof fn lemma_add(a: Seq<char>, b: Seq<char>, f: Seq<char>, t: Seq<char>)
    requires
        lined(a),
        inline(f),
    ensures
        replaced(a + b, f, t) == replaced(a, f, t) + replaced(b, f, t),
        count_from(a + b, f, 0) == count_from(a, f, 0) + count_from(b, f, 0),
        contains(a + b, f) == (contains(a, f) || contains(b, f)),
        lined(replaced(a, f, t)),
{
    assert(parted(a, f));
    lemma_replaced_sum(a, b, f, t);
    lemma_count_sum(a, b, f);
    lemma_contains_sum(a, b, f);
    lemma_stays_lined(a, f, t);
}

/// Lines after lines: the rewrite acts on each by itself.
pub proof fn lemma_piece_sum(
    a: Seq<char>,
    na: Tally,
    b: Seq<char>,
    nb: Tally,
    entry: Seq<char>,
    va: Seq<char>,
)
    requires
        piece(a, entry, va, na),
        piece(b, entry, va, nb),
        entry_ok(entry),
        is_v_anchor(va),
    ensures
        piece(a + b, entry, va, na.plus(nb)),
{
    reveal(piece);
    lemma_calls();
    lemma_marks();
    lemma_k_anchor();
    lemma_v_anchor(va);
    lemma_decl(entry);
    let ka = E4B_SD_K_SCALE_ANCHOR@;
    let d = decl_text(entry);
    let e = decl_text(entry + "_sd"@);
    lemma_add(a, b, d, e);
    let a1 = renamed(a, entry);
    let b1 = renamed(b, entry);
    lemma_add(a1, b1, "fd_k_fp8("@, "fd_k_fp8_sd("@);
    let a2 = replaced(a1, "fd_k_fp8("@, "fd_k_fp8_sd("@);
    let b2 = replaced(b1, "fd_k_fp8("@, "fd_k_fp8_sd("@);
    lemma_add(a2, b2, "fd_v_fp8("@, "fd_v_fp8_sd("@);
    let a3 = recalled(a, entry);
    let b3 = recalled(b, entry);
    lemma_add(a3, b3, ka, folded(ka));
    let a4 = k_folded(a, entry);
    let b4 = k_folded(b, entry);
    lemma_add(a4, b4, va, folded(va));
    let a5 = rewritten(a, entry, va);
    let b5 = rewritten(b, entry, va);
    assert(rewritten(a + b, entry, va) == a5 + b5);
    lemma_add(a5, b5, "_sd("@, "("@);
    lemma_add(replaced(a5, "_sd("@, "("@), replaced(b5, "_sd("@, "("@), factor(), Seq::empty());
    lemma_add(a5, b5, factor(), Seq::empty());
    lemma_add(a5, b5, "0x7B800000"@, a);
    lemma_add(a5, b5, "fd_k_fp8("@, a);
    lemma_add(a5, b5, "fd_v_fp8("@, a);
    lemma_add(a5, b5, "fd_k_fp8_sd("@, a);
    lemma_add(a5, b5, "fd_v_fp8_sd("@, a);
    lemma_add(a5, b5, e, a);
    lemma_folded(ka, 2, 8);
    lemma_folded(va, 3, v_at(va));
    lemma_add(a5, b5, folded(ka), a);
    lemma_add(a5, b5, folded(va), a);
    lemma_add(a, b, ka, a);
    lemma_add(a, b, va, a);
    lemma_add(a, b, "fd_k_scales"@, a);
    lemma_add(a, b, "fd_v_scales"@, a);
    lemma_add(a, b, "fd_k_fp8("@, a);
    lemma_add(a, b, "fd_v_fp8("@, a);
    assert(lined(a + b));
}

/// What follows for a whole kernel: the rewrite succeeds, and can be undone.
pub proof fn lemma_kernel(base: Seq<char>, entry: Seq<char>, va: Seq<char>)
    requires
        entry_ok(entry),
        is_v_anchor(va),
        piece(
            base,
            entry,
            va,
            Tally { decls: 1, k_scales: 1, v_scales: 1, k_calls: true, v_calls: true },
        ),
    ensures
        shift_decodes(base, entry, va),
{
    reveal(piece);
    lemma_calls();
    lemma_marks();
    lemma_k_anchor();
    lemma_v_anchor(va);
    lemma_decl(entry);
    let ka = E4B_SD_K_SCALE_ANCHOR@;
    lemma_once(base, decl_text(entry), decl_text(entry + "_sd"@));
    lemma_once(recalled(base, entry), ka, folded(ka));
    lemma_once(k_folded(base, entry), va, folded(va));
    assert(sd_text(base, entry, ka, va) == rewritten(base, entry, va));
}

/// A kernel is rewritten to shift-decoding: its entry is declared under the new name, no call
/// of an old decoder is left, the factor stands twice, once at each scale, and undoing the
/// rewrite gives the kernel back.
pub open spec fn shift_decodes(base: Seq<char>, entry: Seq<char>, va: Seq<char>) -> bool {
    let ka = E4B_SD_K_SCALE_ANCHOR@;
    let s = sd_text(base, entry, ka, va);
    &&& sd_rewritten(base, entry, ka, va) == Some(s)
    &&& undone(s) == base
    &&& contains(s, decl_text(entry + "_sd"@))
    &&& !contains(s, "fd_k_fp8("@)
    &&& !contains(s, "fd_v_fp8("@)
    &&& count_from(s, factor(), 0) == 2
    &&& contains(s, folded(ka))
    &&& contains(s, folded(va))
}

} // verus!
