//! What the generated kernel texts hold, for every number of rows.
use vstd::prelude::*;
use crate::e4b_emit::Toolkit;
use crate::e4b_gemm_src::{
    i8_kernel_text, mk_kernel_text, mk_unrolled_i8_text, mk_unrolled_text, rows_text,
    verify_smk_live_text, w4_entry, w4_kernel_text, w4_mk_unrolled_text, w4_walk_text, ENTRY_OPEN,
    I8_HEAD, I8_OPEN, MK_HEAD, MK_OPEN, ROW_ACC, SMK_HEAD, SMK_LIVE_ENTRY, SMK_OPEN, W4_BLOCK_VARS,
    W4_HEAD, W4_OPEN,
};
use crate::e4b_ir::{MkPipe, Pipe};
use crate::e4b_kernels::{lines, rows_of, source_model, KernelTexts, SourceModel};
use crate::e4b_pipelines::{entry_text, PipeOptions};
use crate::text::{
    contains, dec, each_text, first_from, law_contains, lemma_first_from, mark, occurs_at, replace_from,
    with_num, with_text,
};

verus! {

/// The text before the first hole of a template is kept, and the value follows it.
proof fn lemma_filled(s: Seq<char>, hole: char, v: Seq<char>, n: int, more: int)
    requires
        0 <= n,
        0 <= more,
        n + 3 + more <= s.len(),
        forall|k: int| 0 <= k < n ==> #[trigger] s[k] != '{',
        s.subrange(n, n + 3) == mark(hole),
        forall|k: int| n + 3 <= k < n + 3 + more ==> !#[trigger] occurs_at(s, mark(hole), k),
    ensures
        (s.take(n) + v + s.subrange(n + 3, n + 3 + more)).is_prefix_of(with_text(s, hole, v)),
{
    let m = mark(hole);
    lemma_first_from(s, m, 0);
    assert(occurs_at(s, m, n));
    assert forall|k: int| 0 <= k < n implies !#[trigger] occurs_at(s, m, k) by {
        if occurs_at(s, m, k) {
            assert(s.subrange(k, k + 3)[0] == s[k]);
        }
    }
    assert(first_from(s, m, 0) == Some(n));
    lemma_first_from(s, m, n + 3);
    let rest = replace_from(s, m, v, n + 3);
    let u = s.subrange(n + 3, n + 3 + more);
    assert(u.is_prefix_of(rest)) by {
        match first_from(s, m, n + 3) {
            Some(j) => {
                assert(j >= n + 3 + more);
                assert(s.subrange(n + 3, j).take(more) =~= u);
                assert(rest.take(more) =~= u);
            },
            None => {
                assert(rest.take(more) =~= u);
            },
        }
    }
    let t = with_text(s, hole, v);
    assert(t == s.subrange(0, n) + v + rest);
    let p = s.take(n) + v + u;
    assert(t.take(p.len() as int) =~= p) by {
        assert(rest.take(more) == u);
    }
}

/// A part of a text that stands behind another.
proof fn lemma_part(b: Seq<char>, part: Seq<char>, t: Seq<char>, pat: Seq<char>)
    requires
        (b + part).is_prefix_of(t),
        contains(part, pat),
    ensures
        contains(t, pat),
{
    law_contains(part, pat);
    law_contains(t, pat);
    let i = choose|i: int| occurs_at(part, pat, i);
    let j = b.len() + i;
    let whole = b + part;
    assert(t.subrange(0, whole.len() as int) == whole);
    assert forall|k: int| 0 <= k < pat.len() implies t.subrange(j, j + pat.len())[k] == pat[k] by {
        assert(whole[j + k] == part[i + k]);
        assert(t.subrange(0, whole.len() as int)[j + k] == t[j + k]);
        assert(part.subrange(i, i + pat.len())[k] == part[i + k]);
    }
    assert(t.subrange(j, j + pat.len()) =~= pat);
    assert(occurs_at(t, pat, j));
}

proof fn lemma_longer(a: Seq<char>, b: Seq<char>, c: Seq<char>)
    requires
        a.is_prefix_of(b),
        b.is_prefix_of(c),
    ensures
        a.is_prefix_of(c),
{
    assert(c.take(a.len() as int) =~= a);
}

broadcast proof fn lemma_appended(a: Seq<char>, b: Seq<char>, c: Seq<char>)
    requires
        a.is_prefix_of(b),
    ensures
        #[trigger] a.is_prefix_of(b + c),
{
    assert((b + c).take(a.len() as int) =~= a);
}

broadcast proof fn lemma_each_longer(
    a: Seq<char>,
    b: Seq<char>,
    template: Seq<char>,
    hole: char,
    lo: nat,
    hi: nat,
)
    requires
        a.is_prefix_of(b),
    ensures
        #[trigger] a.is_prefix_of(each_text(b, template, hole, lo, hi)),
    decreases hi,
{
    if hi > lo {
        lemma_each_longer(a, b, template, hole, lo, (hi - 1) as nat);
        lemma_appended(
            a,
            each_text(b, template, hole, lo, (hi - 1) as nat),
            with_num(template, hole, (hi - 1) as nat),
        );
    }
}

broadcast proof fn lemma_rows_longer(
    a: Seq<char>,
    b: Seq<char>,
    template: Seq<char>,
    first: Seq<char>,
    rest: Seq<char>,
    rows: nat,
)
    requires
        a.is_prefix_of(b),
    ensures
        #[trigger] a.is_prefix_of(rows_text(b, template, first, rest, rows)),
{
    broadcast use {lemma_appended, lemma_each_longer};

}

/// The declaration of an entry point.
pub open spec fn declaration(entry: Seq<char>) -> Seq<char> {
    "fn "@ + entry + "("@
}

/// The start of a kernel declares its entry point.
proof fn lemma_declared(entry: Seq<char>)
    ensures
        contains(with_text(ENTRY_OPEN@, 'E', entry), declaration(entry)),
{
    reveal_strlit("@compute @workgroup_size(256)\nfn {E}(\n");
    reveal_strlit("fn ");
    reveal_strlit("(");
    let open = ENTRY_OPEN@;
    let m = mark('E');
    assert(open.subrange(33, 36) =~= m);
    assert forall|k: int| 36 <= k < 37 implies !#[trigger] occurs_at(open, m, k) by {
        if occurs_at(open, m, k) {
            assert(open.subrange(k, k + 3)[0] == open[36]);
        }
    }
    lemma_filled(open, 'E', entry, 33, 1);
    let t = with_text(open, 'E', entry);
    let p = open.take(33) + entry + open.subrange(36, 37);
    let n = p.len() as int;
    assert(p.subrange(30, n) =~= declaration(entry)) by {
        assert(open.subrange(36, 37) =~= "("@);
        assert(open.take(33).subrange(30, 33) =~= "fn "@);
    }
    assert(t.subrange(30, n) =~= p.subrange(30, n)) by {
        assert(t.take(n) =~= p);
    }
    assert(occurs_at(t, declaration(entry), 30));
    law_contains(t, declaration(entry));
}

/// A kernel's text that begins as `b` and goes on with its start declares its entry point.
proof fn lemma_kernel_declared(b: Seq<char>, entry: Seq<char>, open: Seq<char>, t: Seq<char>)
    requires
        (b + (with_text(ENTRY_OPEN@, 'E', entry) + open)).is_prefix_of(t),
    ensures
        contains(t, declaration(entry)),
{
    let line = with_text(ENTRY_OPEN@, 'E', entry);
    lemma_declared(entry);
    assert(b + (line + open) =~= (b + line) + open);
    assert(t.take((b + line).len() as int) =~= b + line);
    lemma_part(b, line, t, declaration(entry));
}

proof fn lemma_kept(a: Seq<char>, t: Seq<char>, pat: Seq<char>)
    requires
        a.is_prefix_of(t),
        contains(a, pat),
    ensures
        contains(t, pat),
{
    assert(Seq::<char>::empty() + a =~= a);
    lemma_part(Seq::empty(), a, t, pat);
}

proof fn lemma_w4_kernel(b: Seq<char>, v4: bool, split: bool, rows: nat)
    ensures
        b.is_prefix_of(w4_kernel_text(b, v4, split, rows)),
        contains(w4_kernel_text(b, v4, split, rows), declaration(w4_entry(v4, split))),
{
    broadcast use {lemma_appended, lemma_each_longer, lemma_rows_longer};

    let t = w4_kernel_text(b, v4, split, rows);
    let start = b + (with_text(ENTRY_OPEN@, 'E', w4_entry(v4, split)) + W4_OPEN@);
    assert(start.take(start.len() as int) =~= start);
    assert(start.is_prefix_of(w4_walk_text(start, v4, rows)));
    assert(start.is_prefix_of(t));
    lemma_kernel_declared(b, w4_entry(v4, split), W4_OPEN@, t);
    assert(start.take(b.len() as int) =~= b);
    lemma_longer(b, start, t);
}

/// The four-bit many-row kernels are all declared, whatever the number of rows.
pub proof fn law_w4_entries(rows: nat, v4: bool, split: bool)
    ensures
        contains(w4_mk_unrolled_text(rows), declaration(w4_entry(v4, split))),
{
    let b0 = Seq::<char>::empty() + W4_HEAD@;
    let b1 = w4_kernel_text(b0, false, false, rows);
    let b2 = w4_kernel_text(b1, false, true, rows);
    let b3 = w4_kernel_text(b2, true, false, rows);
    let t = w4_mk_unrolled_text(rows);
    lemma_w4_kernel(b0, false, false, rows);
    lemma_w4_kernel(b1, false, true, rows);
    lemma_w4_kernel(b2, true, false, rows);
    lemma_w4_kernel(b3, true, true, rows);
    lemma_longer(b2, b3, t);
    lemma_longer(b1, b2, t);
    if !v4 && !split {
        lemma_kept(b1, t, declaration(w4_entry(v4, split)));
    } else if !v4 {
        lemma_kept(b2, t, declaration(w4_entry(v4, split)));
    } else if !split {
        lemma_kept(b3, t, declaration(w4_entry(v4, split)));
    }
}

proof fn lemma_mk_kernel(b: Seq<char>, entry: Seq<char>, split: bool, rows: nat)
    ensures
        b.is_prefix_of(mk_kernel_text(b, entry, split, rows)),
        contains(mk_kernel_text(b, entry, split, rows), declaration(entry)),
{
    broadcast use {lemma_appended, lemma_each_longer};

    let t = mk_kernel_text(b, entry, split, rows);
    let start = b + (with_text(ENTRY_OPEN@, 'E', entry) + MK_OPEN@);
    assert(start.take(start.len() as int) =~= start);
    assert(start.is_prefix_of(t));
    lemma_kernel_declared(b, entry, MK_OPEN@, t);
    assert(start.take(b.len() as int) =~= b);
    lemma_longer(b, start, t);
}

/// The bf16 many-row kernels are both declared, whatever the number of rows.
pub proof fn law_mk_entries(rows: nat)
    ensures
        contains(mk_unrolled_text(rows), declaration("g4w_gemm_bf16_mk_pk"@)),
        contains(mk_unrolled_text(rows), declaration("g4w_gemm_bf16_mk_pk3"@)),
{
    let b0 = Seq::<char>::empty() + MK_HEAD@;
    let b1 = mk_kernel_text(b0, "g4w_gemm_bf16_mk_pk"@, false, rows);
    lemma_mk_kernel(b0, "g4w_gemm_bf16_mk_pk"@, false, rows);
    lemma_mk_kernel(b1, "g4w_gemm_bf16_mk_pk3"@, true, rows);
    lemma_kept(b1, mk_unrolled_text(rows), declaration("g4w_gemm_bf16_mk_pk"@));
}

proof fn lemma_i8_kernel(b: Seq<char>, entry: Seq<char>, grouped: bool, split: bool, rows: nat)
    ensures
        b.is_prefix_of(i8_kernel_text(b, entry, grouped, split, rows)),
        contains(i8_kernel_text(b, entry, grouped, split, rows), declaration(entry)),
{
    broadcast use {lemma_appended, lemma_each_longer, lemma_rows_longer};

    let t = i8_kernel_text(b, entry, grouped, split, rows);
    let start = b + (with_text(ENTRY_OPEN@, 'E', entry) + I8_OPEN@);
    assert(start.take(start.len() as int) =~= start);
    assert(start.is_prefix_of(t));
    lemma_kernel_declared(b, entry, I8_OPEN@, t);
    assert(start.take(b.len() as int) =~= b);
    lemma_longer(b, start, t);
}

/// The eight-bit many-row kernels are all declared, whatever the number of rows.
pub proof fn law_i8_entries(rows: nat)
    ensures
        contains(mk_unrolled_i8_text(rows), declaration("g4w_gemm_i8_mk_pk"@)),
        contains(mk_unrolled_i8_text(rows), declaration("g4w_gemm_i8_mk_pk3"@)),
        contains(mk_unrolled_i8_text(rows), declaration("g4w_gemm_i8g_mk_pk"@)),
        contains(mk_unrolled_i8_text(rows), declaration("g4w_gemm_i8g_mk_pk3"@)),
{
    let b0 = Seq::<char>::empty() + I8_HEAD@;
    let b1 = i8_kernel_text(b0, "g4w_gemm_i8_mk_pk"@, false, false, rows);
    let b2 = i8_kernel_text(b1, "g4w_gemm_i8_mk_pk3"@, false, true, rows);
    let b3 = i8_kernel_text(b2, "g4w_gemm_i8g_mk_pk"@, true, false, rows);
    let t = mk_unrolled_i8_text(rows);
    lemma_i8_kernel(b0, "g4w_gemm_i8_mk_pk"@, false, false, rows);
    lemma_i8_kernel(b1, "g4w_gemm_i8_mk_pk3"@, false, true, rows);
    lemma_i8_kernel(b2, "g4w_gemm_i8g_mk_pk"@, true, false, rows);
    lemma_i8_kernel(b3, "g4w_gemm_i8g_mk_pk3"@, true, true, rows);
    lemma_longer(b2, b3, t);
    lemma_longer(b1, b2, t);
    lemma_kept(b1, t, declaration("g4w_gemm_i8_mk_pk"@));
    lemma_kept(b2, t, declaration("g4w_gemm_i8_mk_pk3"@));
    lemma_kept(b3, t, declaration("g4w_gemm_i8g_mk_pk"@));
}

/// The accumulator of a row.
pub open spec fn accumulator(row: nat) -> Seq<char> {
    "var acc"@ + dec(row) + " = 0.0;"@
}

proof fn lemma_accumulator(row: nat)
    ensures
        contains(with_num(ROW_ACC@, 't', row), accumulator(row)),
{
    reveal_strlit("    var acc{t} = 0.0;\n");
    reveal_strlit("var acc");
    reveal_strlit(" = 0.0;");
    let s = ROW_ACC@;
    let m = mark('t');
    assert(s.subrange(11, 14) =~= m);
    assert forall|k: int| 14 <= k < 21 implies !#[trigger] occurs_at(s, m, k) by {
        if occurs_at(s, m, k) {
            assert(s.subrange(k, k + 3)[0] == s[k]);
        }
    }
    lemma_filled(s, 't', dec(row), 11, 7);
    let t = with_num(s, 't', row);
    let p = s.take(11) + dec(row) + s.subrange(14, 21);
    let n = p.len() as int;
    assert(p.subrange(4, n) =~= accumulator(row)) by {
        assert(s.take(11).subrange(4, 11) =~= "var acc"@);
        assert(s.subrange(14, 21) =~= " = 0.0;"@);
    }
    assert(t.subrange(4, n) =~= p.subrange(4, n)) by {
        assert(t.take(n) =~= p);
    }
    assert(occurs_at(t, accumulator(row), 4));
    law_contains(t, accumulator(row));
}

/// The text of each number is a part of the text of all of them.
proof fn lemma_each_part(
    b: Seq<char>,
    template: Seq<char>,
    hole: char,
    lo: nat,
    hi: nat,
    i: nat,
    pat: Seq<char>,
)
    requires
        lo <= i < hi,
        contains(with_num(template, hole, i), pat),
    ensures
        contains(each_text(b, template, hole, lo, hi), pat),
    decreases hi,
{
    let before = each_text(b, template, hole, lo, (hi - 1) as nat);
    let part = with_num(template, hole, (hi - 1) as nat);
    let t = each_text(b, template, hole, lo, hi);
    assert(t == before + part);
    assert(t.take(t.len() as int) =~= t);
    if i == hi - 1 {
        lemma_part(before, part, t, pat);
    } else {
        lemma_each_part(b, template, hole, lo, (hi - 1) as nat, i, pat);
        assert(t.take(before.len() as int) =~= before);
        lemma_kept(before, t, pat);
    }
}

/// Every row of the four-bit many-row kernels has an accumulator of its own.
pub proof fn law_w4_accumulators(rows: nat, row: nat)
    requires
        row < rows,
    ensures
        contains(w4_mk_unrolled_text(rows), accumulator(row)),
{
    broadcast use {lemma_appended, lemma_each_longer, lemma_rows_longer};

    let b0 = Seq::<char>::empty() + W4_HEAD@;
    let start = b0 + (with_text(ENTRY_OPEN@, 'E', w4_entry(false, false)) + W4_OPEN@);
    let accs = each_text(start + W4_BLOCK_VARS@, ROW_ACC@, 't', 0, rows);
    lemma_accumulator(row);
    lemma_each_part(start + W4_BLOCK_VARS@, ROW_ACC@, 't', 0, rows, row, accumulator(row));
    let b1 = w4_kernel_text(b0, false, false, rows);
    assert(accs.take(accs.len() as int) =~= accs);
    assert(accs.is_prefix_of(w4_walk_text(start, false, rows)));
    assert(accs.is_prefix_of(b1));
    let b2 = w4_kernel_text(b1, false, true, rows);
    let b3 = w4_kernel_text(b2, true, false, rows);
    let t = w4_mk_unrolled_text(rows);
    lemma_w4_kernel(b1, false, true, rows);
    lemma_w4_kernel(b2, true, false, rows);
    lemma_w4_kernel(b3, true, true, rows);
    lemma_longer(b2, b3, t);
    lemma_longer(b1, b2, t);
    lemma_longer(accs, b1, t);
    lemma_kept(accs, t, accumulator(row));
}

/// The verify head is declared, whatever the number of rows.
pub proof fn law_verify_entry(rows: nat)
    ensures
        contains(verify_smk_live_text(rows), declaration(SMK_LIVE_ENTRY@)),
{
    broadcast use {lemma_appended, lemma_each_longer, lemma_rows_longer};

    let b = Seq::<char>::empty() + SMK_HEAD@;
    let start = b + (with_text(ENTRY_OPEN@, 'E', SMK_LIVE_ENTRY@) + SMK_OPEN@);
    let t = verify_smk_live_text(rows);
    assert(start.take(start.len() as int) =~= start);
    assert(start.is_prefix_of(t));
    lemma_kernel_declared(b, SMK_LIVE_ENTRY@, SMK_OPEN@, t);
}

/// The many-row kernels whose text is generated.
pub open spec fn generated(mk: MkPipe) -> bool {
    match mk {
        MkPipe::GemmBf16Pk | MkPipe::GemmBf16Pk3 | MkPipe::GemmI8Pk | MkPipe::GemmI8Pk3
        | MkPipe::GemmI8gPk | MkPipe::GemmI8gPk3 | MkPipe::GemmW4Pk | MkPipe::GemmW4Pk3
        | MkPipe::GemmW4V4Pk | MkPipe::GemmW4V4Pk3 => true,
        _ => false,
    }
}

/// The text that a generated many-row kernel is compiled from declares the entry point that
/// it is entered by.
pub proof fn law_entry_in_source(
    verify: bool,
    mk: MkPipe,
    o: PipeOptions,
    k: KernelTexts,
    kit: Toolkit,
)
    requires
        generated(mk),
        k.mk_unroll,
        rows_of(verify, kit.pl) is Some,
    ensures
        ({
            let pipe = Pipe::Mk(verify, mk);
            &&& source_model(pipe, o, k, kit) matches Some(SourceModel::Whole(t)) && contains(
                t,
                declaration(entry_text(pipe, o)->0),
            )
            &&& entry_text(pipe, o) is Some
        }),
{
    let pipe = Pipe::Mk(verify, mk);
    let rows = rows_of(verify, kit.pl)->0;
    law_mk_entries(rows);
    law_i8_entries(rows);
    law_w4_entries(rows, false, false);
    law_w4_entries(rows, false, true);
    law_w4_entries(rows, true, false);
    law_w4_entries(rows, true, true);
    let entry = entry_text(pipe, o)->0;
    let (base, text) = match mk {
        MkPipe::GemmBf16Pk | MkPipe::GemmBf16Pk3 => (k.gemv_bf16@, mk_unrolled_text(rows)),
        MkPipe::GemmI8Pk | MkPipe::GemmI8Pk3 | MkPipe::GemmI8gPk | MkPipe::GemmI8gPk3 => (
            k.gemv_bf16@,
            mk_unrolled_i8_text(rows),
        ),
        _ => (k.gemv_w4a16@, w4_mk_unrolled_text(rows)),
    };
    assert(contains(text, declaration(entry)));
    let t = lines(base, text);
    assert(t == (base + "\n"@) + text);
    assert(t.take(t.len() as int) =~= t);
    lemma_part(base + "\n"@, text, t, declaration(entry));
}

} // verus!
