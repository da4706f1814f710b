//! The four-bit many-row kernels keep each row's sum in a scalar of its own: no array, no pointer,
//! and no scalar for a row that is not there.
use vstd::prelude::*;
use crate::e4b_gemm_src::{
    rows_text, w4_entry, w4_kernel_text, w4_mk_unrolled_text, w4_walk_text,
    CLOSE_FN, ENTRY_OPEN, ROW_ACC, W4_BLOCK_CLOSE, W4_BLOCK_DOT, W4_BLOCK_FMA, W4_BLOCK_LOOP,
    W4_BLOCK_SUM, W4_BLOCK_VARS, W4_BLOCK_WORDS, W4_FINISH, W4_HEAD, W4_OPEN, W4_SMALL_CLOSE,
    W4_SMALL_DOT, W4_SMALL_LOOP, W4_STORE_PK, W4_STORE_PK3, W4_V4_CLOSE, W4_V4_DOT, W4_V4_LOOP,
    W4_V4_VARS,
};
use crate::e4b_sd_text::{
    ch, is_digit, lemma_dec_digits, lemma_fill_lined, lemma_fill_sum, lined,
};
use crate::e4b_src_laws::{accumulator, law_w4_accumulators};
use crate::text::{
    contains, dec, digit, each_text, first_from, law_contains, lemma_first_from, mark, occurs_at,
    replace_from, with_num, with_text,
};
use crate::text_laws::{
    lacks, lemma_absent, lemma_contains_sum, lemma_fill_at, lemma_lacking, parted,
};

verus! {

/// Neither an array or a pointer nor a new accumulator begins at `i`.
spec fn tame_at(s: Seq<char>, i: int) -> bool {
    &&& !(s[i] == '<' && ch(s, i + 1) == 'f')
    &&& !(s[i] == 'r' && ch(s, i + 1) == ' ' && ch(s, i + 2) == 'a')
}

spec fn tame(s: Seq<char>) -> bool {
    forall|i: int| 0 <= i < s.len() ==> #[trigger] tame_at(s, i)
}

spec fn seam_tame(x: char, y: char) -> bool {
    ||| y != 'f' && y != 'a' && y != ' '
    ||| x != '<' && x != ' ' && x != 'r'
}

proof fn lemma_tame_sum(a: Seq<char>, b: Seq<char>)
    requires
        tame(a),
        tame(b),
        a.len() == 0 || b.len() == 0 || seam_tame(a.last(), b[0]),
    ensures
        tame(a + b),
{
    let s = a + b;
    let n = a.len() as int;
    assert forall|i: int| 0 <= i < s.len() implies #[trigger] tame_at(s, i) by {
        if i >= n {
            assert(tame_at(b, i - n));
        } else {
            assert(tame_at(a, i));
        }
    }
}

proof fn lemma_tame_sub(s: Seq<char>, i: int, j: int)
    requires
        tame(s),
        0 <= i <= j <= s.len(),
    ensures
        tame(s.subrange(i, j)),
{
    let u = s.subrange(i, j);
    assert forall|k: int| 0 <= k < u.len() implies #[trigger] tame_at(u, k) by {
        assert(tame_at(s, i + k));
    }
}

/// What can be filled into a hole.
spec fn tame_value(v: Seq<char>) -> bool {
    &&& v.len() > 0
    &&& tame(v)
    &&& v[0] != 'f' && v[0] != 'a' && v[0] != ' '
    &&& v.last() != '<' && v.last() != ' ' && v.last() != 'r'
}

proof fn lemma_fill_tame_from(s: Seq<char>, hole: char, v: Seq<char>, i: int)
    requires
        tame(s),
        tame_value(v),
        0 <= i <= s.len(),
    ensures
        tame(replace_from(s, mark(hole), v, i)),
    decreases s.len() - i,
{
    let m = mark(hole);
    lemma_first_from(s, m, i);
    match first_from(s, m, i) {
        Some(j) => {
            lemma_fill_tame_from(s, hole, v, j + 3);
            lemma_tame_sub(s, i, j);
            let head = s.subrange(i, j);
            lemma_tame_sum(head, v);
            assert((head + v).last() == v.last());
            lemma_tame_sum(head + v, replace_from(s, m, v, j + 3));
        },
        None => {
            lemma_tame_sub(s, i, s.len() as int);
            assert(s.skip(i) =~= s.subrange(i, s.len() as int));
        },
    }
}

/// A tame template stays tame, and its lines stay lines.
proof fn lemma_fill_tame(s: Seq<char>, hole: char, v: Seq<char>)
    requires
        tame(s),
        lined(s),
        tame_value(v),
        hole == 't' || hole == 'X' || hole == 'E',
    ensures
        tame(with_text(s, hole, v)),
        lined(with_text(s, hole, v)),
{
    lemma_fill_tame_from(s, hole, v, 0);
    lemma_fill_lined(s, hole, v);
}

proof fn lemma_dec_tame(n: nat)
    ensures
        tame_value(dec(n)),
{
    lemma_dec_digits(n);
    let d = dec(n);
    assert forall|i: int| 0 <= i < d.len() implies #[trigger] tame_at(d, i) by {
        assert(is_digit(d[i]));
    }
    assert(is_digit(d[0]) && is_digit(d.last()));
}

/// Lines without an array, a pointer or an accumulator from row `rows` on.
spec fn scalar(s: Seq<char>, rows: nat) -> bool {
    &&& lined(s)
    &&& !contains(s, "array<f32,"@)
    &&& !contains(s, "ptr<function"@)
    &&& forall|k: nat| k >= rows ==> !contains(s, #[trigger] accumulator(k))
}

proof fn lemma_shapes()
    ensures
        "array<f32,"@.len() == 10 && lacks("array<f32,"@, '\n'),
        "array<f32,"@[5] == '<' && "array<f32,"@[6] == 'f',
        "ptr<function"@.len() == 12 && lacks("ptr<function"@, '\n'),
        "ptr<function"@[3] == '<' && "ptr<function"@[4] == 'f',
{
    reveal_strlit("array<f32,");
    reveal_strlit("ptr<function");
}

/// An accumulator, character by character.
proof fn lemma_accumulator_text(k: nat)
    ensures
        ({
            let a = accumulator(k);
            let d = dec(k);
            let n = d.len() as int;
            &&& a.len() == n + 14
            &&& lacks(a, '\n')
            &&& a[2] == 'r' && a[3] == ' ' && a[4] == 'a' && a[5] == 'c' && a[6] == 'c'
            &&& n > 0
            &&& forall|i: int| 0 <= i < n ==> #[trigger] a[7 + i] == d[i] && is_digit(d[i])
            &&& a[7 + n] == ' '
            &&& a == "var acc"@ + d + " = 0.0;"@
        }),
{
    reveal_strlit("var acc");
    reveal_strlit(" = 0.0;");
    lemma_dec_digits(k);
    let a = accumulator(k);
    let d = dec(k);
    let n = d.len() as int;
    assert forall|i: int| 0 <= i < n implies #[trigger] a[7 + i] == d[i] && is_digit(d[i]) by {}
    assert forall|i: int| 0 <= i < a.len() implies #[trigger] a[i] != '\n' by {
        if 7 <= i < 7 + n {
            assert(a[7 + (i - 7)] == d[i - 7]);
        } else if i >= 7 + n {
            assert(a[i] == " = 0.0;"@[i - 7 - n]);
        }
    }
}

proof fn lemma_tame_scalar(s: Seq<char>, rows: nat)
    requires
        tame(s),
        lined(s),
    ensures
        scalar(s, rows),
{
    lemma_shapes();
    law_contains(s, "array<f32,"@);
    law_contains(s, "ptr<function"@);
    if contains(s, "array<f32,"@) {
        let i = choose|i: int| occurs_at(s, "array<f32,"@, i);
        assert(s.subrange(i, i + 10)[5] == s[i + 5] && s.subrange(i, i + 10)[6] == s[i + 6]);
        assert(tame_at(s, i + 5));
    }
    if contains(s, "ptr<function"@) {
        let i = choose|i: int| occurs_at(s, "ptr<function"@, i);
        assert(s.subrange(i, i + 12)[3] == s[i + 3] && s.subrange(i, i + 12)[4] == s[i + 4]);
        assert(tame_at(s, i + 3));
    }
    assert forall|k: nat| k >= rows implies !contains(s, #[trigger] accumulator(k)) by {
        let a = accumulator(k);
        lemma_accumulator_text(k);
        law_contains(s, a);
        if contains(s, a) {
            let i = choose|i: int| occurs_at(s, a, i);
            let u = s.subrange(i, i + a.len());
            assert(u[2] == s[i + 2] && u[3] == s[i + 3] && u[4] == s[i + 4]);
            assert(tame_at(s, i + 2));
        }
    }
}

proof fn lemma_scalar_sum(a: Seq<char>, b: Seq<char>, rows: nat)
    requires
        scalar(a, rows),
        scalar(b, rows),
    ensures
        scalar(a + b, rows),
{
    lemma_shapes();
    assert(parted(a, "array<f32,"@));
    lemma_contains_sum(a, b, "array<f32,"@);
    lemma_contains_sum(a, b, "ptr<function"@);
    assert forall|k: nat| k >= rows implies !contains(a + b, #[trigger] accumulator(k)) by {
        lemma_accumulator_text(k);
        lemma_contains_sum(a, b, accumulator(k));
    }
}

proof fn lemma_add_tame(a: Seq<char>, b: Seq<char>, rows: nat)
    requires
        scalar(a, rows),
        tame(b),
        lined(b),
    ensures
        scalar(a + b, rows),
{
    lemma_tame_scalar(b, rows);
    lemma_scalar_sum(a, b, rows);
}

proof fn lemma_add_each(b: Seq<char>, t: Seq<char>, lo: nat, hi: nat, rows: nat)
    requires
        scalar(b, rows),
        tame(t),
        lined(t),
    ensures
        scalar(each_text(b, t, 't', lo, hi), rows),
    decreases hi,
{
    if hi > lo {
        let j = (hi - 1) as nat;
        lemma_add_each(b, t, lo, j, rows);
        lemma_dec_tame(j);
        lemma_fill_tame(t, 't', dec(j));
        lemma_add_tame(each_text(b, t, 't', lo, j), with_num(t, 't', j), rows);
    }
}

proof fn lemma_add_rows(
    b: Seq<char>,
    t: Seq<char>,
    first: Seq<char>,
    rest: Seq<char>,
    n: nat,
    rows: nat,
)
    requires
        scalar(b, rows),
        tame(t),
        lined(t),
        tame_value(first),
        tame_value(rest),
    ensures
        scalar(rows_text(b, t, first, rest, n), rows),
{
    if n > 0 {
        lemma_fill_tame(t, 'X', first);
        lemma_fill_tame(t, 'X', rest);
        let f = with_text(t, 'X', first);
        lemma_dec_tame(0);
        lemma_fill_tame(f, 't', dec(0));
        lemma_add_tame(b, with_num(f, 't', 0), rows);
        lemma_add_each(b + with_num(f, 't', 0), with_text(t, 'X', rest), 1, n, rows);
    }
}

/// A number is known by its digits.
proof fn lemma_dec_differs(a: nat, b: nat)
    requires
        dec(a) == dec(b),
    ensures
        a == b,
    decreases a,
{
    lemma_dec_digits(a / 10);
    lemma_dec_digits(b / 10);
    assert(forall|x: nat, y: nat|
        x < 10 && y < 10 && #[trigger] digit(x) == #[trigger] digit(y) ==> x == y);
    if a < 10 {
        assert(dec(a).len() == 1);
        if b >= 10 {
            assert(dec(b).len() == dec(b / 10).len() + 1);
        } else {
            assert(dec(a)[0] == digit(a) && dec(b)[0] == digit(b));
        }
    } else {
        assert(dec(a).len() == dec(a / 10).len() + 1);
        if b < 10 {
            assert(dec(b).len() == 1);
        } else {
            assert(dec(a).drop_last() =~= dec(a / 10));
            assert(dec(b).drop_last() =~= dec(b / 10));
            lemma_dec_differs(a / 10, b / 10);
            assert(dec(a).last() == digit(a % 10) && dec(b).last() == digit(b % 10));
        }
    }
}

/// The accumulator of a row that is there.
proof fn lemma_row_scalar(t: nat, rows: nat)
    requires
        t < rows,
    ensures
        scalar(with_num(ROW_ACC@, 't', t), rows),
{
    reveal_strlit("    var acc{t} = 0.0;\n");
    reveal_strlit("    var acc");
    reveal_strlit(" = 0.0;\n");
    let l = "    var acc"@;
    let r = " = 0.0;\n"@;
    let d = dec(t);
    let n = d.len() as int;
    assert(ROW_ACC@ =~= l + mark('t') + r);
    lemma_fill_at(l, 't', r, d);
    let s = l + d + r;
    assert(with_num(ROW_ACC@, 't', t) == s);
    lemma_dec_digits(t);
    assert forall|i: int| 11 <= i < 11 + n implies is_digit(#[trigger] s[i]) by {
        assert(s[i] == d[i - 11]);
    }
    assert forall|i: int| 11 + n <= i < s.len() implies #[trigger] s[i] == r[i - 11 - n] by {}
    assert forall|i: int| 0 <= i < 11 implies #[trigger] s[i] == l[i] by {}
    lemma_shapes();
    assert(lacks(s, '<'));
    lemma_lacking(s, "array<f32,"@, 5);
    lemma_lacking(s, "ptr<function"@, 3);
    assert forall|k: nat| k >= rows implies !contains(s, #[trigger] accumulator(k)) by {
        let a = accumulator(k);
        let e = dec(k);
        let m = e.len() as int;
        lemma_accumulator_text(k);
        law_contains(s, a);
        if contains(s, a) {
            let i = choose|i: int| occurs_at(s, a, i);
            let u = s.subrange(i, i + a.len());
            assert forall|j: int| 0 <= j < a.len() implies s[i + j] == #[trigger] a[j] by {
                assert(u[j] == s[i + j]);
            }
            assert(s[i + 2] == 'r' && s[i + 3] == ' ');
            assert(i == 4);
            if m < n {
                assert(a[7 + m] == ' ');
                assert(s[i + (7 + m)] == a[7 + m]);
                assert(is_digit(s[11 + m]));
            }
            if n < m {
                assert(a[7 + n] == e[n] && is_digit(e[n]));
                assert(s[i + (7 + n)] == a[7 + n]);
                assert(s[11 + n] == r[0]);
            }
            assert(d =~= e) by {
                assert forall|j: int| 0 <= j < n implies d[j] == e[j] by {
                    assert(a[7 + j] == e[j]);
                    assert(s[i + (7 + j)] == a[7 + j]);
                    assert(s[11 + j] == d[j]);
                }
            }
            lemma_dec_differs(t, k);
        }
    }
}

proof fn lemma_add_accumulators(b: Seq<char>, n: nat, rows: nat)
    requires
        scalar(b, rows),
        n <= rows,
    ensures
        scalar(each_text(b, ROW_ACC@, 't', 0, n), rows),
    decreases n,
{
    if n > 0 {
        let j = (n - 1) as nat;
        lemma_add_accumulators(b, j, rows);
        lemma_row_scalar(j, rows);
        lemma_scalar_sum(each_text(b, ROW_ACC@, 't', 0, j), with_num(ROW_ACC@, 't', j), rows);
    }
}

proof fn lemma_w4_open()
    ensures
        tame(W4_OPEN@),
        lined(W4_OPEN@),
{
    reveal_strlit(r"    @builtin(workgroup_id) wid: vec3<u32>,
    @builtin(local_invocation_id) lid: vec3<u32>
) {
    let tid = lid.x;
    let lane = tid & (W4A16_LANES - 1u);
    let warp = tid / W4A16_LANES;
    let row = wid.x * W4A16_ROWS + warp;
    let live = row < w4a16_params.n_rows;
");
    let s = W4_OPEN@;
    assert forall|i: int| 0 <= i < s.len() implies #[trigger] tame_at(s, i) by {}
}

proof fn lemma_w4_block_vars()
    ensures
        tame(W4_BLOCK_VARS@),
        lined(W4_BLOCK_VARS@),
{
    reveal_strlit(r"    let kv = select(0u, w4a16_params.k_elems >> 5u, live);
    let wbase = select(0u, row * w4a16_params.w_row_words, live);
    let sbase = select(0u, row * w4a16_params.scale_row_stride, live);
    let gs = w4a16_params.gs;
    let mm = g4w_mk_params.m;
    let xs = g4w_mk_params.x_stride_words;
");
    let s = W4_BLOCK_VARS@;
    assert forall|i: int| 0 <= i < s.len() implies #[trigger] tame_at(s, i) by {}
}

proof fn lemma_w4_block_loop()
    ensures
        tame(W4_BLOCK_LOOP@),
        lined(W4_BLOCK_LOOP@),
{
    reveal_strlit(r"    if (gs >= 32u) {
        for (var v = lane; v < kv; v = v + W4A16_LANES) {
            let kbase = v * 32u;
            let sc = w4a16_scale_at(sbase, kbase / gs);
");
    let s = W4_BLOCK_LOOP@;
    assert forall|i: int| 0 <= i < s.len() implies #[trigger] tame_at(s, i) by {}
}

proof fn lemma_w4_block_sum()
    ensures
        tame(W4_BLOCK_SUM@),
        lined(W4_BLOCK_SUM@),
{
    reveal_strlit(r"            var blk{t} = 0.0;
");
    let s = W4_BLOCK_SUM@;
    assert forall|i: int| 0 <= i < s.len() implies #[trigger] tame_at(s, i) by {}
}

proof fn lemma_w4_block_words()
    ensures
        tame(W4_BLOCK_WORDS@),
        lined(W4_BLOCK_WORDS@),
{
    reveal_strlit(r"            for (var j = 0u; j < 4u; j = j + 1u) {
                let pv = w4a16_packed[wbase + v * 4u + j];
                let kb = kbase + j * 8u;
");
    let s = W4_BLOCK_WORDS@;
    assert forall|i: int| 0 <= i < s.len() implies #[trigger] tame_at(s, i) by {}
}

proof fn lemma_w4_block_dot()
    ensures
        tame(W4_BLOCK_DOT@),
        lined(W4_BLOCK_DOT@),
{
    reveal_strlit(r"                if ({t}u < mm) { blk{t} = w4a16_dot8_xoff(pv, kb, {X}, blk{t}); }
");
    let s = W4_BLOCK_DOT@;
    assert forall|i: int| 0 <= i < s.len() implies #[trigger] tame_at(s, i) by {}
}

proof fn lemma_w4_block_close()
    ensures
        tame(W4_BLOCK_CLOSE@),
        lined(W4_BLOCK_CLOSE@),
{
    reveal_strlit(r"            }
");
    let s = W4_BLOCK_CLOSE@;
    assert forall|i: int| 0 <= i < s.len() implies #[trigger] tame_at(s, i) by {}
}

proof fn lemma_w4_block_fma()
    ensures
        tame(W4_BLOCK_FMA@),
        lined(W4_BLOCK_FMA@),
{
    reveal_strlit(r"            if ({t}u < mm) { acc{t} = fma(sc, blk{t}, acc{t}); }
");
    let s = W4_BLOCK_FMA@;
    assert forall|i: int| 0 <= i < s.len() implies #[trigger] tame_at(s, i) by {}
}

proof fn lemma_w4_small_loop()
    ensures
        tame(W4_SMALL_LOOP@),
        lined(W4_SMALL_LOOP@),
{
    reveal_strlit(r"        }
    } else {
        for (var v = lane; v < kv; v = v + W4A16_LANES) {
            let kbase = v * 32u;
            for (var j = 0u; j < 4u; j = j + 1u) {
                let pv = w4a16_packed[wbase + v * 4u + j];
                let kb = kbase + j * 8u;
                let sc = w4a16_scale_at(sbase, kb / gs);
");
    let s = W4_SMALL_LOOP@;
    assert forall|i: int| 0 <= i < s.len() implies #[trigger] tame_at(s, i) by {}
}

proof fn lemma_w4_small_dot()
    ensures
        tame(W4_SMALL_DOT@),
        lined(W4_SMALL_DOT@),
{
    reveal_strlit(r"                if ({t}u < mm) { let a{t} = w4a16_dot8_xoff(pv, kb, {X}, 0.0); acc{t} = fma(a{t}, sc, acc{t}); }
");
    let s = W4_SMALL_DOT@;
    assert forall|i: int| 0 <= i < s.len() implies #[trigger] tame_at(s, i) by {}
}

proof fn lemma_w4_small_close()
    ensures
        tame(W4_SMALL_CLOSE@),
        lined(W4_SMALL_CLOSE@),
{
    reveal_strlit(r"            }
        }
    }
");
    let s = W4_SMALL_CLOSE@;
    assert forall|i: int| 0 <= i < s.len() implies #[trigger] tame_at(s, i) by {}
}

proof fn lemma_w4_v4_vars()
    ensures
        tame(W4_V4_VARS@),
        lined(W4_V4_VARS@),
{
    reveal_strlit(r"    let kv = select(0u, w4a16_params.k_elems >> 5u, live);
    let wbase4 = select(0u, row * (w4a16_params.w_row_words >> 2u), live);
    let sbase = select(0u, row * w4a16_params.scale_row_stride, live);
    let gs = w4a16_params.gs;
    let mm = g4w_mk_params.m;
    let xs4 = g4w_mk_params.x_stride_words >> 2u;
");
    let s = W4_V4_VARS@;
    assert forall|i: int| 0 <= i < s.len() implies #[trigger] tame_at(s, i) by {}
}

proof fn lemma_w4_v4_loop()
    ensures
        tame(W4_V4_LOOP@),
        lined(W4_V4_LOOP@),
{
    reveal_strlit(r"    for (var v = lane; v < kv; v = v + W4A16_LANES) {
        let sc = w4a16_scale_at(sbase, (v << 5u) / gs);
        let wv = w4a16_packed4[wbase4 + v];
");
    let s = W4_V4_LOOP@;
    assert forall|i: int| 0 <= i < s.len() implies #[trigger] tame_at(s, i) by {}
}

proof fn lemma_w4_v4_dot()
    ensures
        tame(W4_V4_DOT@),
        lined(W4_V4_DOT@),
{
    reveal_strlit(r"        if ({t}u < mm) { acc{t} = fma(sc, w4a16_dot32_v4(wv, {X}), acc{t}); }
");
    let s = W4_V4_DOT@;
    assert forall|i: int| 0 <= i < s.len() implies #[trigger] tame_at(s, i) by {}
}

proof fn lemma_w4_v4_close()
    ensures
        tame(W4_V4_CLOSE@),
        lined(W4_V4_CLOSE@),
{
    reveal_strlit(r"    }
");
    let s = W4_V4_CLOSE@;
    assert forall|i: int| 0 <= i < s.len() implies #[trigger] tame_at(s, i) by {}
}

proof fn lemma_w4_store_pk()
    ensures
        tame(W4_STORE_PK@),
        lined(W4_STORE_PK@),
{
    reveal_strlit(r"                w4a16_y[g4w_mk_params.dst_word_off + {t}u * g4w_mk_params.y_stride_words + (row >> 1u)] = word;
");
    let s = W4_STORE_PK@;
    assert forall|i: int| 0 <= i < s.len() implies #[trigger] tame_at(s, i) by {}
}

#[verifier::rlimit(60)]
proof fn lemma_w4_store_pk3()
    ensures
        tame(W4_STORE_PK3@),
        lined(W4_STORE_PK3@),
{
    reveal_strlit(r"                if (row < g4w_split_params.q_rows) {
                    g4w_y_q[{t}u * (g4w_split_params.q_rows >> 1u) + (row >> 1u)] = word;
                } else {
                    let kr = row - g4w_split_params.q_rows;
                    if (kr < g4w_split_params.kv_rows) {
                        g4w_y_k[{t}u * (g4w_split_params.kv_rows >> 1u) + (kr >> 1u)] = word;
                    }
                    if (row >= g4w_split_params.v_off) {
                        let vr = row - g4w_split_params.v_off;
                        if (vr < g4w_split_params.kv_rows) {
                            g4w_y_v[{t}u * (g4w_split_params.kv_rows >> 1u) + (vr >> 1u)] = word;
                        }
                    }
                }
");
    let s = W4_STORE_PK3@;
    assert forall|i: int| 0 <= i < s.len() implies #[trigger] tame_at(s, i) by {}
}

proof fn lemma_entry_open()
    ensures
        tame(ENTRY_OPEN@),
        lined(ENTRY_OPEN@),
{
    reveal_strlit(r"@compute @workgroup_size(256)
fn {E}(
");
    let s = ENTRY_OPEN@;
    assert forall|i: int| 0 <= i < s.len() implies #[trigger] tame_at(s, i) by {}
}

proof fn lemma_close_fn()
    ensures
        tame(CLOSE_FN@),
        lined(CLOSE_FN@),
{
    reveal_strlit(r"}

");
    let s = CLOSE_FN@;
    assert forall|i: int| 0 <= i < s.len() implies #[trigger] tame_at(s, i) by {}
}

/// The shared part has an accumulator, but none of a row.
#[verifier::rlimit(100)]
proof fn lemma_w4_head(rows: nat)
    ensures
        scalar(W4_HEAD@, rows),
{
    reveal_strlit(r"struct G4wSplitParams {
    q_rows: u32,
    kv_rows: u32,
    v_off: u32,
    pad0: u32,
};

struct G4wMkParams {
    m: u32,
    x_stride_words: u32,
    y_stride_words: u32,
    dst_word_off: u32,
};

@group(0) @binding(31) var<storage, read_write> g4w_y_q: array<u32>;
@group(0) @binding(32) var<storage, read_write> g4w_y_k: array<u32>;
@group(0) @binding(33) var<storage, read_write> g4w_y_v: array<u32>;
@group(0) @binding(34) var<uniform> g4w_split_params: G4wSplitParams;
@group(0) @binding(35) var<uniform> g4w_mk_params: G4wMkParams;

fn g4w_w4_pair_word(tid: u32, total: f32, hi_live: bool) -> u32 {
    let lo = bf16_encode(total) & 0xffffu;
    let hi = bf16_encode(w4a16_partial[tid + W4A16_LANES]) & 0xffffu;
    return lo | (select(0u, hi, hi_live) << 16u);
}

fn w4a16_dot8_xoff(pv: u32, kb: u32, xoff_words: u32, acc_in: f32) -> f32 {
    var acc = acc_in;
    let xb = (kb >> 1u) + xoff_words;
    for (var i = 0u; i < 4u; i = i + 1u) {
        let xp = w4a16_x_pair(xb + i);
        acc = fma(w4a16_q(pv, 2u * i), xp.x, acc);
        acc = fma(w4a16_q(pv, 2u * i + 1u), xp.y, acc);
    }
    return acc;
}

");
    let s = W4_HEAD@;
    assert forall|i: int| 0 <= i < s.len() - 2 implies !(#[trigger] s[i] == 'c' && s[i + 1] == 'c'
        && is_digit(s[i + 2])) && !(s[i] == '<' && s[i + 1] == 'f') by {}
    lemma_shapes();
    law_contains(s, "array<f32,"@);
    law_contains(s, "ptr<function"@);
    if contains(s, "array<f32,"@) {
        let i = choose|i: int| occurs_at(s, "array<f32,"@, i);
        assert(s.subrange(i, i + 10)[5] == s[i + 5] && s.subrange(i, i + 10)[6] == s[i + 6]);
    }
    if contains(s, "ptr<function"@) {
        let i = choose|i: int| occurs_at(s, "ptr<function"@, i);
        assert(s.subrange(i, i + 12)[3] == s[i + 3] && s.subrange(i, i + 12)[4] == s[i + 4]);
    }
    assert forall|k: nat| k >= rows implies !contains(s, #[trigger] accumulator(k)) by {
        let a = accumulator(k);
        lemma_accumulator_text(k);
        law_contains(s, a);
        if contains(s, a) {
            let i = choose|i: int| occurs_at(s, a, i);
            let u = s.subrange(i, i + a.len());
            assert(a[7 + 0int] == dec(k)[0] && is_digit(dec(k)[0]));
            assert(u[5] == s[i + 5] && u[6] == s[i + 6] && u[7] == s[i + 7]);
        }
    }
}

/// The end of a row, with its store in place.
proof fn lemma_finish(store: Seq<char>)
    requires
        tame(store),
        store.len() > 0,
        store.last() == '\n',
    ensures
        tame(with_text(W4_FINISH@, 'S', store)),
        lined(with_text(W4_FINISH@, 'S', store)),
{
    reveal_strlit(r"    if ({t}u < mm) {
        let total = w4a16_lane_reduce(tid, lane, acc{t});
        if (lane == 0u && live && (warp & 1u) == 0u) {
            let word = g4w_w4_pair_word(tid, total, row + 1u < w4a16_params.n_rows);
{S}        }
        workgroupBarrier();
    }
");
    reveal_strlit(r"    if ({t}u < mm) {
        let total = w4a16_lane_reduce(tid, lane, acc{t});
        if (lane == 0u && live && (warp & 1u) == 0u) {
            let word = g4w_w4_pair_word(tid, total, row + 1u < w4a16_params.n_rows);
");
    reveal_strlit(r"        }
        workgroupBarrier();
    }
");
    let a = r"    if ({t}u < mm) {
        let total = w4a16_lane_reduce(tid, lane, acc{t});
        if (lane == 0u && live && (warp & 1u) == 0u) {
            let word = g4w_w4_pair_word(tid, total, row + 1u < w4a16_params.n_rows);
"@;
    let b = r"        }
        workgroupBarrier();
    }
"@;
    let m = mark('S');
    let none = Seq::<char>::empty();
    assert(W4_FINISH@ =~= a + (m + b));
    assert forall|i: int| 0 <= i < a.len() implies #[trigger] tame_at(a, i) by {}
    assert forall|i: int| 0 <= i < b.len() implies #[trigger] tame_at(b, i) by {}
    lemma_fill_sum(a, m + b, 'S', store);
    law_contains(a, m);
    if contains(a, m) {
        let k = choose|k: int| occurs_at(a, m, k);
        assert(a.subrange(k, k + 3)[0] == a[k] && a.subrange(k, k + 3)[1] == a[k + 1]);
    }
    lemma_absent(a, m, store);
    assert(m + b =~= none + m + b);
    lemma_fill_at(none, 'S', b, store);
    assert(none + store + b =~= store + b);
    lemma_tame_sum(store, b);
    lemma_tame_sum(a, store + b);
}

proof fn lemma_offsets()
    ensures
        tame_value("(v << 2u)"@),
        tame_value("{t}u * xs4 + (v << 2u)"@),
        tame_value("0u"@),
        tame_value("{t}u * xs"@),
{
    reveal_strlit("(v << 2u)");
    reveal_strlit("{t}u * xs4 + (v << 2u)");
    reveal_strlit("0u");
    reveal_strlit("{t}u * xs");
}

proof fn lemma_entries(v4: bool, split: bool)
    ensures
        tame_value(w4_entry(v4, split)),
{
    reveal_strlit("g4w_gemm_w4a16_v4_mk_pk3");
    reveal_strlit("g4w_gemm_w4a16_v4_mk_pk");
    reveal_strlit("g4w_gemm_w4a16_block_mk_pk3");
    reveal_strlit("g4w_gemm_w4a16_block_mk_pk");
}

proof fn lemma_walk(b: Seq<char>, v4: bool, rows: nat)
    requires
        scalar(b, rows),
    ensures
        scalar(w4_walk_text(b, v4, rows), rows),
{
    lemma_offsets();
    if v4 {
        lemma_w4_v4_vars();
        lemma_w4_v4_loop();
        lemma_w4_v4_dot();
        lemma_w4_v4_close();
        lemma_add_tame(b, W4_V4_VARS@, rows);
        let b = b + W4_V4_VARS@;
        lemma_add_accumulators(b, rows, rows);
        let b = each_text(b, ROW_ACC@, 't', 0, rows);
        lemma_add_tame(b, W4_V4_LOOP@, rows);
        let b = b + W4_V4_LOOP@;
        lemma_add_rows(b, W4_V4_DOT@, "(v << 2u)"@, "{t}u * xs4 + (v << 2u)"@, rows, rows);
        lemma_add_tame(
            rows_text(b, W4_V4_DOT@, "(v << 2u)"@, "{t}u * xs4 + (v << 2u)"@, rows),
            W4_V4_CLOSE@,
            rows,
        );
    } else {
        lemma_w4_block_vars();
        lemma_w4_block_loop();
        lemma_w4_block_sum();
        lemma_w4_block_words();
        lemma_w4_block_dot();
        lemma_w4_block_close();
        lemma_w4_block_fma();
        lemma_w4_small_loop();
        lemma_w4_small_dot();
        lemma_w4_small_close();
        lemma_add_tame(b, W4_BLOCK_VARS@, rows);
        let b = b + W4_BLOCK_VARS@;
        lemma_add_accumulators(b, rows, rows);
        let b = each_text(b, ROW_ACC@, 't', 0, rows);
        lemma_add_tame(b, W4_BLOCK_LOOP@, rows);
        let b = b + W4_BLOCK_LOOP@;
        lemma_add_each(b, W4_BLOCK_SUM@, 0, rows, rows);
        let b = each_text(b, W4_BLOCK_SUM@, 't', 0, rows);
        lemma_add_tame(b, W4_BLOCK_WORDS@, rows);
        let b = b + W4_BLOCK_WORDS@;
        lemma_add_rows(b, W4_BLOCK_DOT@, "0u"@, "{t}u * xs"@, rows, rows);
        let b = rows_text(b, W4_BLOCK_DOT@, "0u"@, "{t}u * xs"@, rows);
        lemma_add_tame(b, W4_BLOCK_CLOSE@, rows);
        let b = b + W4_BLOCK_CLOSE@;
        lemma_add_each(b, W4_BLOCK_FMA@, 0, rows, rows);
        let b = each_text(b, W4_BLOCK_FMA@, 't', 0, rows);
        lemma_add_tame(b, W4_SMALL_LOOP@, rows);
        let b = b + W4_SMALL_LOOP@;
        lemma_add_rows(b, W4_SMALL_DOT@, "0u"@, "{t}u * xs"@, rows, rows);
        lemma_add_tame(
            rows_text(b, W4_SMALL_DOT@, "0u"@, "{t}u * xs"@, rows),
            W4_SMALL_CLOSE@,
            rows,
        );
    }
}

proof fn lemma_kernel(b: Seq<char>, v4: bool, split: bool, rows: nat)
    requires
        scalar(b, rows),
    ensures
        scalar(w4_kernel_text(b, v4, split, rows), rows),
{
    let line = with_text(ENTRY_OPEN@, 'E', w4_entry(v4, split));
    lemma_entry_open();
    lemma_w4_open();
    lemma_close_fn();
    lemma_w4_store_pk();
    lemma_w4_store_pk3();
    lemma_entries(v4, split);
    lemma_fill_tame(ENTRY_OPEN@, 'E', w4_entry(v4, split));
    lemma_tame_sum(line, W4_OPEN@);
    lemma_add_tame(b, line + W4_OPEN@, rows);
    let b = b + (line + W4_OPEN@);
    lemma_walk(b, v4, rows);
    let b = w4_walk_text(b, v4, rows);
    let store = if split {
        W4_STORE_PK3@
    } else {
        W4_STORE_PK@
    };
    lemma_stores();
    lemma_finish(store);
    let finish = with_text(W4_FINISH@, 'S', store);
    lemma_add_each(b, finish, 0, rows, rows);
    lemma_add_tame(each_text(b, finish, 't', 0, rows), CLOSE_FN@, rows);
}

proof fn lemma_stores()
    ensures
        W4_STORE_PK@.len() > 0,
        W4_STORE_PK3@.len() > 0,
{
    reveal_strlit(r"                w4a16_y[g4w_mk_params.dst_word_off + {t}u * g4w_mk_params.y_stride_words + (row >> 1u)] = word;
");
    reveal_strlit(r"                if (row < g4w_split_params.q_rows) {
                    g4w_y_q[{t}u * (g4w_split_params.q_rows >> 1u) + (row >> 1u)] = word;
                } else {
                    let kr = row - g4w_split_params.q_rows;
                    if (kr < g4w_split_params.kv_rows) {
                        g4w_y_k[{t}u * (g4w_split_params.kv_rows >> 1u) + (kr >> 1u)] = word;
                    }
                    if (row >= g4w_split_params.v_off) {
                        let vr = row - g4w_split_params.v_off;
                        if (vr < g4w_split_params.kv_rows) {
                            g4w_y_v[{t}u * (g4w_split_params.kv_rows >> 1u) + (vr >> 1u)] = word;
                        }
                    }
                }
");
}

/// The four-bit many-row kernels have an accumulator for each row and for no other, and hold
/// the rows' sums in no array and behind no pointer, whatever the number of rows.
pub proof fn law_w4_scalars(rows: nat)
    ensures
        !contains(w4_mk_unrolled_text(rows), "array<f32,"@),
        !contains(w4_mk_unrolled_text(rows), "ptr<function"@),
        forall|k: nat|
            contains(w4_mk_unrolled_text(rows), #[trigger] accumulator(k)) <==> k < rows,
{
    let none = Seq::<char>::empty();
    let b = none + W4_HEAD@;
    assert(b =~= W4_HEAD@);
    lemma_w4_head(rows);
    lemma_kernel(b, false, false, rows);
    let b = w4_kernel_text(b, false, false, rows);
    lemma_kernel(b, false, true, rows);
    let b = w4_kernel_text(b, false, true, rows);
    lemma_kernel(b, true, false, rows);
    let b = w4_kernel_text(b, true, false, rows);
    lemma_kernel(b, true, true, rows);
    assert forall|k: nat|
        contains(w4_mk_unrolled_text(rows), #[trigger] accumulator(k)) <==> k < rows by {
        if k < rows {
            law_w4_accumulators(rows, k);
        }
    }
}

} // verus!
