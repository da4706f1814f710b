//! The generated attention stages can be rewritten to decode by shifts, and the rewrite can be
//! undone.
use vstd::prelude::*;
use crate::e4b_flash_src::{
    decl_text, flash1_body_text, flash1_entry_text, flash1_tag_text, flash1_text, head_width_ok,
    qtile_body_text, qtile_entry_text, qtile_ok, qtile_text, E4B_SD_K_SCALE_ANCHOR,
    E4B_SD_VSC_SCALE_ANCHOR, E4B_SD_W_V_SCALE_ANCHOR, F1_ACC, F1_AFTER, F1_BODY, F1_DECL, F1_DOT, F1_END,
    F1_EPILOGUE, F1_KEEP, F1_KEY, F1_KEY_ELEM, F1_KEY_FIRST, F1_KEY_REST, F1_KEY_SCALE, F1_LOOP,
    F1_REDUCE_SG, F1_REDUCE_WB, F1_SCORE, F1_VALUE, F1_VALUE_SCALE, QT_ACC, QT_DOT1, QT_DOT4, QT_END,
    QT_HEAD, QT_KEEP, QT_KEY, QT_KEY_ELEM, QT_KEY_END, QT_KEY_REST, QT_KEY_SCALAR, QT_KEY_SCALE,
    QT_KEY_WALK, QT_OUT_CLOSE, QT_OUT_OPEN, QT_PARTIAL, QT_ROUNDS, QT_ROUNDS_END, QT_ROW_VARS, QT_SCORE,
    QT_SOFTMAX, QT_STAGE, QT_VALUE, QT_VALUE_CLOSE, QT_VALUE_OPEN, QT_VALUES, QT_VALUE_SCALE, STAGE_DECL,
};
use crate::e4b_sd_lines::{
    calls, calls_once, lemma_f1_acc, lemma_f1_after, lemma_f1_body, lemma_f1_decl, lemma_f1_dot,
    lemma_f1_end, lemma_f1_epilogue, lemma_f1_keep, lemma_f1_key, lemma_f1_key_elem, lemma_f1_key_first,
    lemma_f1_key_rest, lemma_f1_loop, lemma_f1_reduce_sg, lemma_f1_reduce_wb, lemma_f1_score,
    lemma_f1_value, lemma_fill_calls, lemma_qt_acc, lemma_qt_dot1, lemma_qt_dot4, lemma_qt_end,
    lemma_qt_head, lemma_qt_keep, lemma_qt_key, lemma_qt_key_elem, lemma_qt_key_end, lemma_qt_key_rest,
    lemma_qt_key_scalar, lemma_qt_key_walk, lemma_qt_out_close, lemma_qt_out_open, lemma_qt_partial,
    lemma_qt_rounds, lemma_qt_rounds_end, lemma_qt_row_vars, lemma_qt_score, lemma_qt_softmax,
    lemma_qt_stage, lemma_qt_value, lemma_qt_value_close, lemma_qt_value_open, lemma_qt_values,
};
use crate::e4b_sd_pieces::{
    entry_ok, is_decoder, is_v_anchor, lemma_clean_piece, lemma_decl_piece, lemma_decoder_piece,
    lemma_k_scale_piece, lemma_kernel, lemma_piece_sum, lemma_v_scale_piece, piece, shift_decodes, Tally,
};
use crate::e4b_sd_text::{
    clean, clean_at, filled, fills_ok, is_digit, lemma_dec_digits, lemma_dec_plain, lemma_each_behind,
    lemma_each_clean, lemma_fill_clean, lemma_fill_lined, lemma_nest_behind, lemma_nest_clean,
    lemma_phi_clean, lemma_phi_none, lemma_phi_sum, lined, phi, plain_value,
};
use crate::text::{dec, each_text, mark, nest_text, occurs_at, with_num};
use crate::text_laws::{lacks, lemma_absent, lemma_fill_at, lemma_single};

verus! {

/// What the holes of a stage are filled with, its entry, and how it loads a value's scale.
ghost struct Stage {
    fills: Seq<(char, Seq<char>)>,
    entry: Seq<char>,
    anchor: Seq<char>,
}

impl Stage {
    spec fn wf(self) -> bool {
        fills_ok(self.fills) && entry_ok(self.entry) && is_v_anchor(self.anchor)
    }

    spec fn text(self, b: Seq<char>) -> Seq<char> {
        phi(b, self.fills, self.entry)
    }

    /// Lines of a template on which the rewrite acts as it should once they are filled.
    spec fn takes(self, b: Seq<char>, n: Tally) -> bool {
        lined(b) && piece(self.text(b), self.entry, self.anchor, n)
    }

    proof fn clean(self, b: Seq<char>)
        requires
            self.wf(),
            clean(b),
            lined(b),
        ensures
            self.takes(b, Tally::none()),
    {
        let none = Seq::<char>::empty();
        lemma_phi_clean(b, self.fills, self.entry);
        lemma_phi_sum(b, none, self.fills, self.entry);
        if b.len() == 0 {
            assert(lacks(b, '{'));
            lemma_phi_none(b, self.fills, self.entry);
        }
        lemma_clean_piece(self.text(b), self.entry, self.anchor);
    }

    proof fn plus(self, a: Seq<char>, na: Tally, b: Seq<char>, nb: Tally)
        requires
            self.wf(),
            self.takes(a, na),
            self.takes(b, nb),
        ensures
            self.takes(a + b, na.plus(nb)),
    {
        lemma_phi_sum(a, b, self.fills, self.entry);
        lemma_piece_sum(self.text(a), na, self.text(b), nb, self.entry, self.anchor);
    }

    /// Clean lines behind others.
    proof fn then_clean(self, a: Seq<char>, n: Tally, b: Seq<char>)
        requires
            self.wf(),
            self.takes(a, n),
            clean(b),
            lined(b),
        ensures
            self.takes(a + b, n),
    {
        self.clean(b);
        self.plus(a, n, b, Tally::none());
        assert(n.plus(Tally::none()) == n);
    }

    proof fn then_each(self, a: Seq<char>, n: Tally, t: Seq<char>, hole: char, lo: nat, hi: nat)
        requires
            self.wf(),
            self.takes(a, n),
            clean(t),
            lined(t),
            hole == 'i' || hole == 'j',
        ensures
            self.takes(each_text(a, t, hole, lo, hi), n),
    {
        lemma_each_behind(a, t, hole, lo, hi);
        lemma_each_clean(t, hole, lo, hi);
        self.then_clean(a, n, each_text(Seq::empty(), t, hole, lo, hi));
    }

    proof fn then_nest(
        self,
        a: Seq<char>,
        n: Tally,
        open: Seq<char>,
        inner: Seq<char>,
        close: Seq<char>,
        outer: char,
        x: nat,
        hole: char,
        y: nat,
    )
        requires
            self.wf(),
            self.takes(a, n),
            clean(open) && lined(open),
            clean(inner) && lined(inner),
            clean(close) && lined(close),
            outer == 'i' || outer == 'j',
            hole == 'i' || hole == 'j',
        ensures
            self.takes(nest_text(a, open, inner, close, outer, x, hole, y), n),
    {
        lemma_nest_behind(a, open, inner, close, outer, x, hole, y);
        lemma_nest_clean(open, inner, close, outer, x, hole, y);
        self.then_clean(a, n, nest_text(Seq::empty(), open, inner, close, outer, x, hole, y));
    }

    /// Lines that call a decoder.
    proof fn call(self, s: Seq<char>, m: Seq<char>, t: Seq<char>, kind: int)
        requires
            self.wf(),
            is_decoder(m, t, kind),
            calls_once(s, m),
        ensures
            self.takes(s, call_of(kind)),
    {
        lemma_decoder_ends();
        let (l, r) = choose|l: Seq<char>, r: Seq<char>| #[trigger] calls(s, m, l, r);
        lemma_phi_sum(l + m, r, self.fills, self.entry);
        lemma_phi_sum(l, m, self.fills, self.entry);
        lemma_phi_sum(r, Seq::empty(), self.fills, self.entry);
        lemma_phi_none(m, self.fills, self.entry);
        lemma_phi_clean(l, self.fills, self.entry);
        lemma_phi_clean(r, self.fills, self.entry);
        lemma_decoder_piece(
            self.text(l),
            m,
            t,
            kind,
            self.text(r),
            self.entry,
            self.anchor,
        );
        assert(s.last() == r.last());
    }

    proof fn each_call(self, s: Seq<char>, m: Seq<char>, t: Seq<char>, kind: int, lo: nat, hi: nat)
        requires
            self.wf(),
            is_decoder(m, t, kind),
            calls_once(s, m),
        ensures
            self.takes(
                each_text(Seq::empty(), s, 'i', lo, hi),
                if hi > lo {
                    call_of(kind)
                } else {
                    Tally::none()
                },
            ),
        decreases hi,
    {
        let none = Seq::<char>::empty();
        if hi > lo {
            let j = (hi - 1) as nat;
            self.each_call(s, m, t, kind, lo, j);
            self.filled_call(s, m, t, kind, j);
            let before = each_text(none, s, 'i', lo, j);
            let n = if j > lo {
                call_of(kind)
            } else {
                Tally::none()
            };
            self.plus(before, n, with_num(s, 'i', j), call_of(kind));
            assert(n.plus(call_of(kind)) == call_of(kind));
        } else {
            assert(clean(none));
            self.clean(none);
        }
    }

    proof fn filled_call(self, s: Seq<char>, m: Seq<char>, t: Seq<char>, kind: int, j: nat)
        requires
            self.wf(),
            is_decoder(m, t, kind),
            calls_once(s, m),
        ensures
            self.takes(with_num(s, 'i', j), call_of(kind)),
    {
        lemma_decoder_ends();
        let (l, r) = choose|l: Seq<char>, r: Seq<char>| #[trigger] calls(s, m, l, r);
        lemma_dec_plain(j);
        lemma_fill_calls(s, m, l, r, 'i', dec(j));
        self.call(with_num(s, 'i', j), m, t, kind);
    }

    proof fn nest_call(
        self,
        s: Seq<char>,
        m: Seq<char>,
        t: Seq<char>,
        kind: int,
        inner: Seq<char>,
        close: Seq<char>,
        x: nat,
        y: nat,
    )
        requires
            self.wf(),
            is_decoder(m, t, kind),
            calls_once(s, m),
            clean(inner) && lined(inner),
            clean(close) && lined(close),
        ensures
            self.takes(
                nest_text(Seq::empty(), s, inner, close, 'i', x, 'j', y),
                if x > 0 {
                    call_of(kind)
                } else {
                    Tally::none()
                },
            ),
        decreases x,
    {
        let none = Seq::<char>::empty();
        if x > 0 {
            let j = (x - 1) as nat;
            self.nest_call(s, m, t, kind, inner, close, j, y);
            self.filled_call(s, m, t, kind, j);
            let before = nest_text(none, s, inner, close, 'i', j, 'j', y);
            let n = if j > 0 {
                call_of(kind)
            } else {
                Tally::none()
            };
            let o = with_num(s, 'i', j);
            self.plus(before, n, o, call_of(kind));
            assert(n.plus(call_of(kind)) == call_of(kind));
            lemma_dec_plain(j);
            lemma_fill_clean(inner, 'i', dec(j));
            lemma_fill_lined(inner, 'i', dec(j));
            lemma_fill_clean(close, 'i', dec(j));
            lemma_fill_lined(close, 'i', dec(j));
            let i = with_num(inner, 'i', j);
            self.then_each(before + o, call_of(kind), i, 'j', 0, y);
            self.then_clean(
                each_text(before + o, i, 'j', 0, y),
                call_of(kind),
                with_num(close, 'i', j),
            );
        } else {
            assert(clean(none));
            self.clean(none);
        }
    }

    /// The declaration of the stage.
    proof fn decl(self)
        requires
            self.wf(),
        ensures
            self.takes(STAGE_DECL@, Tally { decls: 1, ..Tally::none() }),
    {
        reveal_strlit("fn {E}(\n");
        reveal_strlit("fn ");
        reveal_strlit("(");
        let s = STAGE_DECL@;
        lemma_decl_holes(self.fills);
        let m = mark('E');
        assert(s.subrange(3, 6) =~= m);
        assert forall|k: int| 0 <= k && k != 3 implies !#[trigger] occurs_at(s, m, k) by {
            if occurs_at(s, m, k) {
                assert(s.subrange(k, k + 3)[0] == s[k]);
            }
        }
        lemma_single(s, m, self.entry, 3);
        assert(s.take(3) =~= "fn "@);
        assert(s.skip(6) =~= "("@ + seq!['\n']);
        assert(s.take(3) + self.entry + s.skip(6) =~= decl_text(self.entry) + seq!['\n']);
        lemma_decl_piece(self.entry, self.anchor);
    }

    /// A line that loads the scale of a key.
    proof fn k_scale(self, indent: Seq<char>)
        requires
            self.wf(),
            blank(indent),
        ensures
            self.takes(
                indent + E4B_SD_K_SCALE_ANCHOR@ + seq!['\n'],
                Tally { k_scales: 1, ..Tally::none() },
            ),
    {
        let s = indent + E4B_SD_K_SCALE_ANCHOR@ + seq!['\n'];
        lemma_blank(indent);
        lemma_anchors_plain();
        assert(lacks(s, '{'));
        lemma_phi_none(s, self.fills, self.entry);
        lemma_k_scale_piece(indent, self.entry, self.anchor);
    }

    /// A line that loads the scale of a value.
    proof fn v_scale(self, indent: Seq<char>)
        requires
            self.wf(),
            blank(indent),
        ensures
            self.takes(
                indent + self.anchor + seq!['\n'],
                Tally { v_scales: 1, ..Tally::none() },
            ),
    {
        let s = indent + self.anchor + seq!['\n'];
        lemma_blank(indent);
        lemma_anchors_plain();
        assert(lacks(s, '{'));
        lemma_phi_none(s, self.fills, self.entry);
        lemma_v_scale_piece(indent, self.entry, self.anchor);
    }
}

spec fn call_of(kind: int) -> Tally {
    Tally { k_calls: kind == 0, v_calls: kind == 1, ..Tally::none() }
}

spec fn blank(s: Seq<char>) -> bool {
    s.len() > 0 && forall|i: int| 0 <= i < s.len() ==> #[trigger] s[i] == ' '
}

proof fn lemma_blank(s: Seq<char>)
    requires
        blank(s),
    ensures
        clean(s),
        lacks(s, '{'),
        s.last() == ' ',
{
    assert forall|i: int| 0 <= i < s.len() implies #[trigger] clean_at(s, i) by {
        assert(s[i] == ' ');
    }
}

proof fn lemma_anchors_plain()
    ensures
        lacks(E4B_SD_K_SCALE_ANCHOR@, '{'),
        lacks(E4B_SD_W_V_SCALE_ANCHOR@, '{'),
        lacks(E4B_SD_VSC_SCALE_ANCHOR@, '{'),
{
    reveal_strlit("ks = fd_k_scales[sp * nkv + kvh];");
    reveal_strlit("let w_v = w * fd_v_scales[sp * nkv + kvh];");
    reveal_strlit("let vsc = fd_v_scales[sp * nkv + kvh];");
}

proof fn lemma_decoder_ends()
    ensures
        "fd_k_fp8("@.len() > 0 && "fd_k_fp8("@.last() == '(' && lacks("fd_k_fp8("@, '{'),
        "fd_v_fp8("@.len() > 0 && "fd_v_fp8("@.last() == '(' && lacks("fd_v_fp8("@, '{'),
{
    reveal_strlit("fd_k_fp8(");
    reveal_strlit("fd_v_fp8(");
}

/// The declaration has a hole for the entry alone.
proof fn lemma_decl_holes(fs: Seq<(char, Seq<char>)>)
    requires
        fills_ok(fs),
    ensures
        filled(STAGE_DECL@, fs) == STAGE_DECL@,
    decreases fs.len(),
{
    if fs.len() > 0 {
        let f = fs.last();
        assert(fs[fs.len() - 1] == f);
        assert(fills_ok(fs.drop_last())) by {
            assert forall|i: int| 0 <= i < fs.drop_last().len() implies crate::e4b_sd_text::hole_ok(
                (#[trigger] fs.drop_last()[i]).0,
            ) && fs.drop_last()[i].0 != 'E' && plain_value(fs.drop_last()[i].1) by {
                assert(fs[i] == fs.drop_last()[i]);
            }
        }
        lemma_decl_holes(fs.drop_last());
        reveal_strlit("fn {E}(\n");
        let s = STAGE_DECL@;
        let m = mark(f.0);
        crate::text::law_contains(s, m);
        if crate::text::contains(s, m) {
            let k = choose|k: int| occurs_at(s, m, k);
            assert(s.subrange(k, k + 3)[0] == s[k]);
            assert(s.subrange(k, k + 3)[1] == s[k + 1]);
        }
        lemma_absent(s, m, f.1);
    }
}

/// The characters of a number are none of those that tell anything.
proof fn lemma_dec_name(n: nat, c: char)
    requires
        !is_digit(c),
    ensures
        lacks(dec(n), c),
{
    lemma_dec_digits(n);
    assert forall|i: int| 0 <= i < dec(n).len() implies #[trigger] dec(n)[i] != c by {
        assert(is_digit(dec(n)[i]));
    }
}

spec fn name_part(s: Seq<char>) -> bool {
    &&& lacks(s, 'k') && lacks(s, 'v') && lacks(s, 'd') && lacks(s, 'B')
    &&& lacks(s, ' ') && lacks(s, '\n') && lacks(s, '{') && lacks(s, '}')
}

proof fn lemma_name_sum(a: Seq<char>, b: Seq<char>)
    requires
        name_part(a),
        name_part(b),
    ensures
        name_part(a + b),
{
}

proof fn lemma_dec_part(n: nat)
    ensures
        name_part(dec(n)),
{
    lemma_dec_name(n, 'k');
    lemma_dec_name(n, 'v');
    lemma_dec_name(n, 'd');
    lemma_dec_name(n, 'B');
    lemma_dec_name(n, ' ');
    lemma_dec_name(n, '\n');
    lemma_dec_name(n, '{');
    lemma_dec_name(n, '}');
}

proof fn lemma_tag(hd: u32, sg: bool)
    ensures
        plain_value(flash1_tag_text(hd, sg)),
        name_part(flash1_tag_text(hd, sg)),
{
    reveal_strlit("sg");
    reveal_strlit("wb");
    let d = dec(hd as nat);
    let e = if sg {
        "sg"@
    } else {
        "wb"@
    };
    let t = d + e;
    lemma_dec_digits(hd as nat);
    lemma_dec_part(hd as nat);
    lemma_name_sum(d, e);
    assert(t[0] == d[0] && t.last() == e.last());
    assert forall|i: int| 0 <= i < t.len() implies is_digit(#[trigger] t[i]) || t[i] == 's' || t[i]
        == 'g' || t[i] == 'w' || t[i] == 'b' by {
        if i < d.len() {
            assert(t[i] == d[i]);
        } else {
            assert(t[i] == e[i - d.len()]);
        }
    }
}

proof fn lemma_flash1_entry(hd: u32, sg: bool)
    ensures
        entry_ok(flash1_entry_text(hd, sg)),
{
    reveal_strlit("e4b_flash1_{T}_fp8");
    reveal_strlit("e4b_flash1_");
    reveal_strlit("_fp8");
    let a = "e4b_flash1_"@;
    let b = "_fp8"@;
    let t = flash1_tag_text(hd, sg);
    lemma_tag(hd, sg);
    assert("e4b_flash1_{T}_fp8"@ =~= a + mark('T') + b);
    lemma_fill_at(a, 'T', b, t);
    lemma_name_sum(a, t);
    lemma_name_sum(a + t, b);
}

proof fn lemma_qtile_entry(hd: u32, tile: u32)
    ensures
        entry_ok(qtile_entry_text(hd, tile)),
{
    reveal_strlit("g4w_flash_rows_stage1_fp8_q{H}_{Q}");
    reveal_strlit("g4w_flash_rows_stage1_fp8_q");
    reveal_strlit("_");
    let s = "g4w_flash_rows_stage1_fp8_q{H}_{Q}"@;
    let a = "g4w_flash_rows_stage1_fp8_q"@;
    let d = dec(hd as nat);
    let e = dec(tile as nat);
    let m = mark('H');
    assert(s.subrange(27, 30) =~= m);
    assert forall|k: int| 0 <= k && k != 27 implies !#[trigger] occurs_at(s, m, k) by {
        if occurs_at(s, m, k) {
            assert(s.subrange(k, k + 3)[0] == s[k]);
            assert(s.subrange(k, k + 3)[1] == s[k + 1]);
        }
    }
    lemma_single(s, m, d, 27);
    assert(s.take(27) =~= a);
    assert(s.skip(30) =~= "_"@ + mark('Q'));
    let none = Seq::<char>::empty();
    assert(a + d + ("_"@ + mark('Q')) =~= (a + d + "_"@) + mark('Q') + none);
    lemma_dec_part(hd as nat);
    lemma_dec_part(tile as nat);
    lemma_name_sum(a, d);
    lemma_name_sum(a + d, "_"@);
    lemma_name_sum(a + d + "_"@, e);
    lemma_fill_at(a + d + "_"@, 'Q', none, e);
    assert(a + d + "_"@ + e + none =~= a + d + "_"@ + e);
}

spec fn flash1_stage(hd: u32, sg: bool) -> Stage {
    Stage {
        fills: seq![
            ('T', flash1_tag_text(hd, sg)),
            ('H', dec(hd as nat)),
            ('A', dec((hd * 8) as nat)),
        ],
        entry: flash1_entry_text(hd, sg),
        anchor: E4B_SD_W_V_SCALE_ANCHOR@,
    }
}

proof fn lemma_flash1_stage(hd: u32, sg: bool)
    ensures
        flash1_stage(hd, sg).wf(),
        flash1_text(hd, sg) == flash1_stage(hd, sg).text(
            flash1_body_text(sg, (hd / 32) as nat),
        ),
{
    let g = flash1_stage(hd, sg);
    let f = g.fills;
    lemma_tag(hd, sg);
    lemma_dec_plain(hd as nat);
    lemma_dec_plain((hd * 8) as nat);
    lemma_flash1_entry(hd, sg);
    let b = flash1_body_text(sg, (hd / 32) as nat);
    assert(f.drop_last() =~= seq![f[0], f[1]]);
    assert(f.drop_last().drop_last() =~= seq![f[0]]);
    assert(f.drop_last().drop_last().drop_last() =~= Seq::empty());
    reveal_with_fuel(filled, 4);
}

/// The first attention stage up to its walk over keys.
proof fn lemma_flash1_head(g: Stage, sg: bool, accs: nat)
    requires
        g.wf(),
    ensures
        ({
            let b = Seq::<char>::empty() + F1_DECL@ + (if sg {
                F1_REDUCE_SG@
            } else {
                F1_REDUCE_WB@
            }) + F1_EPILOGUE@ + STAGE_DECL@ + F1_BODY@;
            g.takes(
                each_text(b, F1_ACC@, 'i', 0, accs) + F1_LOOP@,
                Tally { decls: 1, ..Tally::none() },
            )
        }),
{
    let n = Tally::none();
    let one = Tally { decls: 1, ..n };
    let b0 = Seq::<char>::empty();
    let red = if sg {
        F1_REDUCE_SG@
    } else {
        F1_REDUCE_WB@
    };
    lemma_f1_decl();
    lemma_f1_reduce_sg();
    lemma_f1_reduce_wb();
    lemma_f1_epilogue();
    lemma_f1_body();
    lemma_f1_acc();
    lemma_f1_loop();
    assert(clean(b0));
    g.clean(b0);
    g.then_clean(b0, n, F1_DECL@);
    g.then_clean(b0 + F1_DECL@, n, red);
    g.then_clean(b0 + F1_DECL@ + red, n, F1_EPILOGUE@);
    g.decl();
    let b1 = b0 + F1_DECL@ + red + F1_EPILOGUE@;
    g.plus(b1, n, STAGE_DECL@, one);
    assert(n.plus(one) == one);
    g.then_clean(b1 + STAGE_DECL@, one, F1_BODY@);
    let b2 = b1 + STAGE_DECL@ + F1_BODY@;
    g.then_each(b2, one, F1_ACC@, 'i', 0, accs);
    g.then_clean(each_text(b2, F1_ACC@, 'i', 0, accs), one, F1_LOOP@);
}

proof fn lemma_flash1_scales()
    ensures
        blank("            "@),
        F1_KEY_SCALE@ == "            "@ + E4B_SD_K_SCALE_ANCHOR@ + seq!['\n'],
        F1_VALUE_SCALE@ == "            "@ + E4B_SD_W_V_SCALE_ANCHOR@ + seq!['\n'],
{
    reveal_strlit("            ");
    reveal_strlit("            ks = fd_k_scales[sp * nkv + kvh];\n");
    reveal_strlit("ks = fd_k_scales[sp * nkv + kvh];");
    reveal_strlit("            let w_v = w * fd_v_scales[sp * nkv + kvh];\n");
    reveal_strlit("let w_v = w * fd_v_scales[sp * nkv + kvh];");
    assert(F1_KEY_SCALE@ =~= "            "@ + E4B_SD_K_SCALE_ANCHOR@ + seq!['\n']);
    assert(F1_VALUE_SCALE@ =~= "            "@ + E4B_SD_W_V_SCALE_ANCHOR@ + seq!['\n']);
}

/// Its keys.
proof fn lemma_flash1_keys(g: Stage, b: Seq<char>)
    requires
        g.wf(),
        g.anchor == E4B_SD_W_V_SCALE_ANCHOR@,
        g.takes(b, Tally { decls: 1, ..Tally::none() }),
    ensures
        g.takes(
            each_text(b + F1_KEY_SCALE@ + F1_KEY@ + F1_KEY_FIRST@, F1_KEY_ELEM@, 'i', 1, 4)
                + F1_DOT@ + F1_KEY_REST@ + F1_SCORE@ + F1_VALUE_SCALE@,
            Tally { decls: 1, k_scales: 1, v_scales: 1, k_calls: true, v_calls: false },
        ),
{
    let n = Tally { decls: 1, ..Tally::none() };
    let k = Tally { k_scales: 1, ..Tally::none() };
    let v = Tally { v_scales: 1, ..Tally::none() };
    let c = call_of(0);
    let kf = "fd_k_fp8("@;
    let kt = "fd_k_fp8_sd("@;
    lemma_flash1_scales();
    lemma_f1_key();
    lemma_f1_key_first();
    lemma_f1_key_elem();
    lemma_f1_dot();
    lemma_f1_key_rest();
    lemma_f1_score();
    g.k_scale("            "@);
    g.v_scale("            "@);
    g.plus(b, n, F1_KEY_SCALE@, k);
    let n1 = n.plus(k);
    g.then_clean(b + F1_KEY_SCALE@, n1, F1_KEY@);
    g.call(F1_KEY_FIRST@, kf, kt, 0);
    g.plus(b + F1_KEY_SCALE@ + F1_KEY@, n1, F1_KEY_FIRST@, c);
    let b1 = b + F1_KEY_SCALE@ + F1_KEY@ + F1_KEY_FIRST@;
    let n2 = n1.plus(c);
    g.each_call(F1_KEY_ELEM@, kf, kt, 0, 1, 4);
    lemma_each_behind(b1, F1_KEY_ELEM@, 'i', 1, 4);
    g.plus(b1, n2, each_text(Seq::empty(), F1_KEY_ELEM@, 'i', 1, 4), c);
    assert(n2.plus(c) == n2);
    let b2 = each_text(b1, F1_KEY_ELEM@, 'i', 1, 4);
    g.then_clean(b2, n2, F1_DOT@);
    g.call(F1_KEY_REST@, kf, kt, 0);
    g.plus(b2 + F1_DOT@, n2, F1_KEY_REST@, c);
    g.then_clean(b2 + F1_DOT@ + F1_KEY_REST@, n2, F1_SCORE@);
    g.plus(b2 + F1_DOT@ + F1_KEY_REST@ + F1_SCORE@, n2, F1_VALUE_SCALE@, v);
}

/// The first attention stage of a decode row can be rewritten to decode by shifts, whatever
/// the width of its heads, and the rewrite can be undone.
pub proof fn law_flash1_shift_decodes(hd: u32, sg: bool)
    requires
        head_width_ok(hd),
    ensures
        shift_decodes(
            flash1_text(hd, sg),
            flash1_entry_text(hd, sg),
            E4B_SD_W_V_SCALE_ANCHOR@,
        ),
{
    let g = flash1_stage(hd, sg);
    let accs = (hd / 32) as nat;
    lemma_flash1_stage(hd, sg);
    lemma_flash1_head(g, sg, accs);
    let b = Seq::<char>::empty() + F1_DECL@ + (if sg {
        F1_REDUCE_SG@
    } else {
        F1_REDUCE_WB@
    }) + F1_EPILOGUE@ + STAGE_DECL@ + F1_BODY@;
    let b1 = each_text(b, F1_ACC@, 'i', 0, accs) + F1_LOOP@;
    lemma_flash1_keys(g, b1);
    let b2 = each_text(b1 + F1_KEY_SCALE@ + F1_KEY@ + F1_KEY_FIRST@, F1_KEY_ELEM@, 'i', 1, 4)
        + F1_DOT@ + F1_KEY_REST@ + F1_SCORE@ + F1_VALUE_SCALE@;
    let n = Tally { decls: 1, k_scales: 1, v_scales: 1, k_calls: true, v_calls: false };
    let all = Tally { decls: 1, k_scales: 1, v_scales: 1, k_calls: true, v_calls: true };
    lemma_f1_value();
    lemma_f1_after();
    lemma_f1_keep();
    lemma_f1_end();
    g.each_call(F1_VALUE@, "fd_v_fp8("@, "fd_v_fp8_sd("@, 1, 0, accs);
    lemma_each_behind(b2, F1_VALUE@, 'i', 0, accs);
    assert(accs > 0);
    g.plus(b2, n, each_text(Seq::empty(), F1_VALUE@, 'i', 0, accs), call_of(1));
    assert(n.plus(call_of(1)) == all);
    let b3 = each_text(b2, F1_VALUE@, 'i', 0, accs);
    g.then_clean(b3, all, F1_AFTER@);
    g.then_each(b3 + F1_AFTER@, all, F1_KEEP@, 'i', 0, accs);
    let b4 = each_text(b3 + F1_AFTER@, F1_KEEP@, 'i', 0, accs);
    g.then_clean(b4, all, F1_END@);
    assert(flash1_body_text(sg, accs) == b4 + F1_END@);
    lemma_kernel(flash1_text(hd, sg), g.entry, g.anchor);
}

spec fn qtile_stage(hd: u32, tile: u32) -> Stage {
    Stage {
        fills: seq![('Q', dec(tile as nat))],
        entry: qtile_entry_text(hd, tile),
        anchor: E4B_SD_VSC_SCALE_ANCHOR@,
    }
}

proof fn lemma_qtile_stage(hd: u32, tile: u32)
    ensures
        qtile_stage(hd, tile).wf(),
        qtile_text(hd, tile) == qtile_stage(hd, tile).text(
            qtile_body_text(tile as nat, (hd / 32) as nat),
        ),
{
    let f = qtile_stage(hd, tile).fills;
    lemma_dec_plain(tile as nat);
    lemma_qtile_entry(hd, tile);
    assert(f.drop_last() =~= Seq::empty());
    reveal_with_fuel(filled, 2);
}

proof fn lemma_qtile_scales()
    ensures
        blank("                "@),
        QT_KEY_SCALE@ == "                "@ + E4B_SD_K_SCALE_ANCHOR@ + seq!['\n'],
        QT_VALUE_SCALE@ == "                "@ + E4B_SD_VSC_SCALE_ANCHOR@ + seq!['\n'],
{
    reveal_strlit("                ");
    reveal_strlit("                ks = fd_k_scales[sp * nkv + kvh];\n");
    reveal_strlit("ks = fd_k_scales[sp * nkv + kvh];");
    reveal_strlit("                let vsc = fd_v_scales[sp * nkv + kvh];\n");
    reveal_strlit("let vsc = fd_v_scales[sp * nkv + kvh];");
    assert(QT_KEY_SCALE@ =~= "                "@ + E4B_SD_K_SCALE_ANCHOR@ + seq!['\n']);
    assert(QT_VALUE_SCALE@ =~= "                "@ + E4B_SD_VSC_SCALE_ANCHOR@ + seq!['\n']);
}

/// The query-tiled stage up to a key's elements.
proof fn lemma_qtile_head(g: Stage, tile: nat, accs: nat)
    requires
        g.wf(),
    ensures
        ({
            let b = Seq::<char>::empty() + QT_HEAD@ + STAGE_DECL@ + QT_STAGE@;
            let b = nest_text(b, QT_ROW_VARS@, QT_ACC@, ""@, 'j', tile, 'i', accs) + QT_ROUNDS@;
            let b = each_text(b, QT_PARTIAL@, 'j', 0, tile) + QT_KEY@ + QT_KEY_SCALE@
                + QT_KEY_WALK@;
            g.takes(b, Tally { decls: 1, k_scales: 1, ..Tally::none() })
        }),
{
    let n = Tally::none();
    let one = Tally { decls: 1, ..n };
    let k = Tally { k_scales: 1, ..n };
    let b0 = Seq::<char>::empty();
    reveal_strlit("");
    lemma_qt_head();
    lemma_qt_stage();
    lemma_qt_row_vars();
    lemma_qt_acc();
    lemma_qt_rounds();
    lemma_qt_partial();
    lemma_qt_key();
    lemma_qt_key_walk();
    lemma_qtile_scales();
    assert(clean(b0));
    assert(clean(""@) && lined(""@));
    g.clean(b0);
    g.then_clean(b0, n, QT_HEAD@);
    g.decl();
    g.plus(b0 + QT_HEAD@, n, STAGE_DECL@, one);
    assert(n.plus(one) == one);
    g.then_clean(b0 + QT_HEAD@ + STAGE_DECL@, one, QT_STAGE@);
    let b1 = b0 + QT_HEAD@ + STAGE_DECL@ + QT_STAGE@;
    g.then_nest(b1, one, QT_ROW_VARS@, QT_ACC@, ""@, 'j', tile, 'i', accs);
    let b2 = nest_text(b1, QT_ROW_VARS@, QT_ACC@, ""@, 'j', tile, 'i', accs);
    g.then_clean(b2, one, QT_ROUNDS@);
    g.then_each(b2 + QT_ROUNDS@, one, QT_PARTIAL@, 'j', 0, tile);
    let b3 = each_text(b2 + QT_ROUNDS@, QT_PARTIAL@, 'j', 0, tile);
    g.then_clean(b3, one, QT_KEY@);
    g.k_scale("                "@);
    g.plus(b3 + QT_KEY@, one, QT_KEY_SCALE@, k);
    g.then_clean(b3 + QT_KEY@ + QT_KEY_SCALE@, one.plus(k), QT_KEY_WALK@);
}

/// Its keys and scores.
proof fn lemma_qtile_keys(g: Stage, b: Seq<char>, tile: nat)
    requires
        g.wf(),
        g.anchor == E4B_SD_VSC_SCALE_ANCHOR@,
        g.takes(b, Tally { decls: 1, k_scales: 1, ..Tally::none() }),
    ensures
        ({
            let b = each_text(b, QT_KEY_ELEM@, 'i', 0, 4);
            let b = each_text(b, QT_DOT4@, 'j', 0, tile) + QT_KEY_SCALAR@ + QT_KEY_REST@;
            let b = each_text(b, QT_DOT1@, 'j', 0, tile) + QT_KEY_END@;
            let b = each_text(b, QT_SCORE@, 'j', 0, tile) + QT_VALUES@ + QT_VALUE_SCALE@;
            g.takes(
                each_text(b, QT_SOFTMAX@, 'j', 0, tile),
                Tally { decls: 1, k_scales: 1, v_scales: 1, k_calls: true, v_calls: false },
            )
        }),
{
    let n = Tally { decls: 1, k_scales: 1, ..Tally::none() };
    let v = Tally { v_scales: 1, ..Tally::none() };
    let c = call_of(0);
    let kf = "fd_k_fp8("@;
    let kt = "fd_k_fp8_sd("@;
    lemma_qtile_scales();
    lemma_qt_key_elem();
    lemma_qt_dot4();
    lemma_qt_key_scalar();
    lemma_qt_key_rest();
    lemma_qt_dot1();
    lemma_qt_key_end();
    lemma_qt_score();
    lemma_qt_values();
    lemma_qt_softmax();
    g.v_scale("                "@);
    g.each_call(QT_KEY_ELEM@, kf, kt, 0, 0, 4);
    lemma_each_behind(b, QT_KEY_ELEM@, 'i', 0, 4);
    g.plus(b, n, each_text(Seq::empty(), QT_KEY_ELEM@, 'i', 0, 4), c);
    let n1 = n.plus(c);
    let b1 = each_text(b, QT_KEY_ELEM@, 'i', 0, 4);
    g.then_each(b1, n1, QT_DOT4@, 'j', 0, tile);
    let b2 = each_text(b1, QT_DOT4@, 'j', 0, tile);
    g.then_clean(b2, n1, QT_KEY_SCALAR@);
    g.call(QT_KEY_REST@, kf, kt, 0);
    g.plus(b2 + QT_KEY_SCALAR@, n1, QT_KEY_REST@, c);
    assert(n1.plus(c) == n1);
    let b3 = b2 + QT_KEY_SCALAR@ + QT_KEY_REST@;
    g.then_each(b3, n1, QT_DOT1@, 'j', 0, tile);
    let b4 = each_text(b3, QT_DOT1@, 'j', 0, tile);
    g.then_clean(b4, n1, QT_KEY_END@);
    g.then_each(b4 + QT_KEY_END@, n1, QT_SCORE@, 'j', 0, tile);
    let b5 = each_text(b4 + QT_KEY_END@, QT_SCORE@, 'j', 0, tile);
    g.then_clean(b5, n1, QT_VALUES@);
    g.plus(b5 + QT_VALUES@, n1, QT_VALUE_SCALE@, v);
    g.then_each(b5 + QT_VALUES@ + QT_VALUE_SCALE@, n1.plus(v), QT_SOFTMAX@, 'j', 0, tile);
}

/// The query-tiled stage can be rewritten to decode by shifts, whatever the width of its heads
/// and the tile, and the rewrite can be undone.
pub proof fn law_qtile_shift_decodes(hd: u32, tile: u32)
    requires
        qtile_ok(hd, tile),
    ensures
        shift_decodes(
            qtile_text(hd, tile),
            qtile_entry_text(hd, tile),
            E4B_SD_VSC_SCALE_ANCHOR@,
        ),
{
    let g = qtile_stage(hd, tile);
    let accs = (hd / 32) as nat;
    let rows = tile as nat;
    lemma_qtile_stage(hd, tile);
    lemma_qtile_head(g, rows, accs);
    let b = Seq::<char>::empty() + QT_HEAD@ + STAGE_DECL@ + QT_STAGE@;
    let b = nest_text(b, QT_ROW_VARS@, QT_ACC@, ""@, 'j', rows, 'i', accs) + QT_ROUNDS@;
    let b = each_text(b, QT_PARTIAL@, 'j', 0, rows) + QT_KEY@ + QT_KEY_SCALE@ + QT_KEY_WALK@;
    lemma_qtile_keys(g, b, rows);
    let b = each_text(b, QT_KEY_ELEM@, 'i', 0, 4);
    let b = each_text(b, QT_DOT4@, 'j', 0, rows) + QT_KEY_SCALAR@ + QT_KEY_REST@;
    let b = each_text(b, QT_DOT1@, 'j', 0, rows) + QT_KEY_END@;
    let b = each_text(b, QT_SCORE@, 'j', 0, rows) + QT_VALUES@ + QT_VALUE_SCALE@;
    let b1 = each_text(b, QT_SOFTMAX@, 'j', 0, rows);
    let n = Tally { decls: 1, k_scales: 1, v_scales: 1, k_calls: true, v_calls: false };
    let all = Tally { decls: 1, k_scales: 1, v_scales: 1, k_calls: true, v_calls: true };
    lemma_qt_value_open();
    lemma_qt_value();
    lemma_qt_value_close();
    lemma_qt_rounds_end();
    lemma_qt_out_open();
    lemma_qt_keep();
    lemma_qt_out_close();
    lemma_qt_end();
    g.nest_call(
        QT_VALUE_OPEN@,
        "fd_v_fp8("@,
        "fd_v_fp8_sd("@,
        1,
        QT_VALUE@,
        QT_VALUE_CLOSE@,
        accs,
        rows,
    );
    lemma_nest_behind(b1, QT_VALUE_OPEN@, QT_VALUE@, QT_VALUE_CLOSE@, 'i', accs, 'j', rows);
    assert(accs > 0);
    g.plus(
        b1,
        n,
        nest_text(
            Seq::empty(),
            QT_VALUE_OPEN@,
            QT_VALUE@,
            QT_VALUE_CLOSE@,
            'i',
            accs,
            'j',
            rows,
        ),
        call_of(1),
    );
    assert(n.plus(call_of(1)) == all);
    let b2 = nest_text(b1, QT_VALUE_OPEN@, QT_VALUE@, QT_VALUE_CLOSE@, 'i', accs, 'j', rows);
    g.then_clean(b2, all, QT_ROUNDS_END@);
    g.then_nest(
        b2 + QT_ROUNDS_END@,
        all,
        QT_OUT_OPEN@,
        QT_KEEP@,
        QT_OUT_CLOSE@,
        'j',
        rows,
        'i',
        accs,
    );
    let b3 = nest_text(
        b2 + QT_ROUNDS_END@,
        QT_OUT_OPEN@,
        QT_KEEP@,
        QT_OUT_CLOSE@,
        'j',
        rows,
        'i',
        accs,
    );
    g.then_clean(b3, all, QT_END@);
    assert(qtile_body_text(rows, accs) == b3 + QT_END@);
    lemma_kernel(qtile_text(hd, tile), g.entry, g.anchor);
}

} // verus!
