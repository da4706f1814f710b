//! The words that uniform buffers hold, in the order in which the kernels read them.
use vstd::prelude::*;
use crate::e4b_emit::F32_ONE;
use crate::e4b_ir::Uniform;
use crate::e4b_sizes::FdParams;
use crate::moe_ir::MoeUniform;
use crate::moe_session::FlashDecodeParams;

verus! {

fn words4(a: u32, b: u32, c: u32, d: u32) -> (r: Vec<u32>)
    ensures
        r@ == seq![a, b, c, d],
{
    let mut v: Vec<u32> = Vec::new();
    v.push(a);
    v.push(b);
    v.push(c);
    v.push(d);
    assert(v@ =~= seq![a, b, c, d]);
    v
}

fn words6(a: u32, b: u32, c: u32, d: u32, e: u32, f: u32) -> (r: Vec<u32>)
    ensures
        r@ == seq![a, b, c, d, e, f],
{
    let mut v: Vec<u32> = Vec::new();
    v.push(a);
    v.push(b);
    v.push(c);
    v.push(d);
    v.push(e);
    v.push(f);
    assert(v@ =~= seq![a, b, c, d, e, f]);
    v
}

fn words8(a: u32, b: u32, c: u32, d: u32, e: u32, f: u32, g: u32, h: u32) -> (r: Vec<u32>)
    ensures
        r@ == seq![a, b, c, d, e, f, g, h],
{
    let mut v: Vec<u32> = Vec::new();
    v.push(a);
    v.push(b);
    v.push(c);
    v.push(d);
    v.push(e);
    v.push(f);
    v.push(g);
    v.push(h);
    assert(v@ =~= seq![a, b, c, d, e, f, g, h]);
    v
}

fn words12(
    a: u32, b: u32, c: u32, d: u32, e: u32, f: u32, g: u32, h: u32, i: u32, j: u32, k: u32, l:
    u32,
) -> (r: Vec<u32>)
    ensures
        r@ == seq![a, b, c, d, e, f, g, h, i, j, k, l],
{
    let mut v: Vec<u32> = Vec::new();
    v.push(a);
    v.push(b);
    v.push(c);
    v.push(d);
    v.push(e);
    v.push(f);
    v.push(g);
    v.push(h);
    v.push(i);
    v.push(j);
    v.push(k);
    v.push(l);
    assert(v@ =~= seq![a, b, c, d, e, f, g, h, i, j, k, l]);
    v
}

fn words16(
    a: u32, b: u32, c: u32, d: u32, e: u32, f: u32, g: u32, h: u32, i: u32, j: u32, k: u32, l:
    u32, m: u32, n: u32, o: u32, p: u32,
) -> (r: Vec<u32>)
    ensures
        r@ == seq![a, b, c, d, e, f, g, h, i, j, k, l, m, n, o, p],
{
    let mut v: Vec<u32> = Vec::new();
    v.push(a);
    v.push(b);
    v.push(c);
    v.push(d);
    v.push(e);
    v.push(f);
    v.push(g);
    v.push(h);
    v.push(i);
    v.push(j);
    v.push(k);
    v.push(l);
    v.push(m);
    v.push(n);
    v.push(o);
    v.push(p);
    assert(v@ =~= seq![a, b, c, d, e, f, g, h, i, j, k, l, m, n, o, p]);
    v
}

impl Uniform {
    /// The words of a uniform; `groups_x` is the first extent of the launch that it goes
    /// with. None for the ones whose layout the kernels keep to themselves.
    pub open spec fn spec_words(self, groups_x: u32) -> Option<Seq<u32>> {
        match self {
            Uniform::Gather { rows_per_chunk, row_words, total_rows, n_chunks } => Some(seq![
                rows_per_chunk, row_words, total_rows, n_chunks,
            ]),
            Uniform::Scale { n, n_words, scale, cap, inv_cap } => Some(seq![
                n, n_words, scale, cap, inv_cap, 0u32, 0u32, 0u32,
            ]),
            Uniform::Rms { hidden, batch, eps, words_per_row } => Some(seq![
                hidden, batch, eps, words_per_row,
            ]),
            Uniform::Fnc { hidden, batch, eps, words_per_row, scale } => Some(seq![
                hidden, batch, eps, words_per_row, scale, 0u32, 0u32, 0u32,
            ]),
            Uniform::Axpby { n_words, sa, sb } => Some(seq![n_words, sa, sb, 0u32]),
            Uniform::GateMul { n_words, pli_word_off, tok_words, pli_stride } => Some(seq![
                n_words, pli_word_off, tok_words, pli_stride,
            ]),
            Uniform::PkOff { dst_word_off } => Some(seq![dst_word_off, 0u32, 0u32, 0u32]),
            Uniform::Split { q_rows, kv_rows, v_off } => Some(seq![q_rows, kv_rows, v_off, 0u32]),
            Uniform::Mk { params, .. } => Some(seq![
                params.m, params.x_stride_words, params.y_stride_words, params.dst_word_off,
            ]),
            Uniform::Rope { n_heads, half_dim, total_words, table_rows } => Some(seq![
                n_heads, half_dim, total_words, table_rows,
            ]),
            Uniform::KvFp8 { n_tokens, n_kv, head_dim, pairs, slots } => Some(seq![
                n_tokens, n_kv, head_dim, 0u32, pairs, 0u32, slots, 0u32,
            ]),
            Uniform::Gelu { inter, inter_words, rows, tot_pairs } => Some(seq![
                inter, inter_words, rows, tot_pairs,
            ]),
            Uniform::GemvBf16 { n_rows, k_elems, w_row_words, .. } => Some(seq![
                n_rows, k_elems, w_row_words, groups_x,
            ]),
            Uniform::GemvW4 { n_rows, k_elems, gs, w_row_words, scale_row_stride, .. } => Some(seq![
                n_rows, k_elems, gs, w_row_words, scale_row_stride, groups_x,
            ]),
            Uniform::LmI8 { n_rows, k_elems, dst_word_off, .. } => Some(seq![
                n_rows, k_elems, groups_x, dst_word_off,
            ]),
            Uniform::ArgmaxRows { rows, n } => Some(seq![rows, n, 0u32, 0u32]),
            Uniform::Smk { n_rows, k_elems, row_words, m_live, .. } => Some(seq![
                n_rows, k_elems, row_words, groups_x, m_live, 0u32, 0u32, 0u32,
            ]),
            Uniform::VerifyCap { n_rows, row_off, vocab, m, cap, inv_cap, softcap } => Some(seq![
                n_rows, row_off, vocab, m, cap, inv_cap, softcap, 0u32,
            ]),
            Uniform::LoraCvt {
                m, width, pk_row_words, wide_row_elems, wide_col_off, total,
            } => Some(seq![
                m, width, pk_row_words, wide_row_elems, wide_col_off, total, 0u32, 0u32,
            ]),
            Uniform::LoraFused {
                m, rank, k, a_stride, y_row_stride, win_len, off_counts, off_start, off_active,
                off_slice_n, off_slice_start, off_b_off, off_b_d0,
            } => Some(seq![
                m, rank, k, a_stride, a_stride, y_row_stride, 0u32, win_len, F32_ONE,
                off_counts, off_start, off_active, off_slice_n, off_slice_start, off_b_off,
                off_b_d0,
            ]),
            Uniform::TensorOps { .. } | Uniform::Fac { .. } | Uniform::ArgmaxCap { .. } => None,
        }
    }

    pub fn words(&self, groups_x: u32) -> (r: Option<Vec<u32>>)
        ensures
            match r {
                Some(v) => self.spec_words(groups_x) == Some(v@),
                None => self.spec_words(groups_x) is None,
            },
    {
        match *self {
            Uniform::Gather { rows_per_chunk, row_words, total_rows, n_chunks } => Some(words4(
                rows_per_chunk, row_words, total_rows, n_chunks,
            )),
            Uniform::Scale { n, n_words, scale, cap, inv_cap } => Some(words8(
                n, n_words, scale, cap, inv_cap, 0, 0, 0,
            )),
            Uniform::Rms { hidden, batch, eps, words_per_row } => Some(words4(
                hidden, batch, eps, words_per_row,
            )),
            Uniform::Fnc { hidden, batch, eps, words_per_row, scale } => Some(words8(
                hidden, batch, eps, words_per_row, scale, 0, 0, 0,
            )),
            Uniform::Axpby { n_words, sa, sb } => Some(words4(n_words, sa, sb, 0)),
            Uniform::GateMul { n_words, pli_word_off, tok_words, pli_stride } => Some(words4(
                n_words, pli_word_off, tok_words, pli_stride,
            )),
            Uniform::PkOff { dst_word_off } => Some(words4(dst_word_off, 0, 0, 0)),
            Uniform::Split { q_rows, kv_rows, v_off } => Some(words4(q_rows, kv_rows, v_off, 0)),
            Uniform::Mk { params, .. } => Some(words4(
                params.m, params.x_stride_words, params.y_stride_words, params.dst_word_off,
            )),
            Uniform::Rope { n_heads, half_dim, total_words, table_rows } => Some(words4(
                n_heads, half_dim, total_words, table_rows,
            )),
            Uniform::KvFp8 { n_tokens, n_kv, head_dim, pairs, slots } => Some(words8(
                n_tokens, n_kv, head_dim, 0, pairs, 0, slots, 0,
            )),
            Uniform::Gelu { inter, inter_words, rows, tot_pairs } => Some(words4(
                inter, inter_words, rows, tot_pairs,
            )),
            Uniform::GemvBf16 { n_rows, k_elems, w_row_words, .. } => Some(words4(
                n_rows, k_elems, w_row_words, groups_x,
            )),
            Uniform::GemvW4 {
                n_rows, k_elems, gs, w_row_words, scale_row_stride, ..
            } => Some(words6(
                n_rows, k_elems, gs, w_row_words, scale_row_stride, groups_x,
            )),
            Uniform::LmI8 { n_rows, k_elems, dst_word_off, .. } => Some(words4(
                n_rows, k_elems, groups_x, dst_word_off,
            )),
            Uniform::ArgmaxRows { rows, n } => Some(words4(rows, n, 0, 0)),
            Uniform::Smk { n_rows, k_elems, row_words, m_live, .. } => Some(words8(
                n_rows, k_elems, row_words, groups_x, m_live, 0, 0, 0,
            )),
            Uniform::VerifyCap { n_rows, row_off, vocab, m, cap, inv_cap, softcap } => Some(words8(
                n_rows, row_off, vocab, m, cap, inv_cap, softcap, 0,
            )),
            Uniform::LoraCvt {
                m, width, pk_row_words, wide_row_elems, wide_col_off, total,
            } => Some(words8(
                m, width, pk_row_words, wide_row_elems, wide_col_off, total, 0, 0,
            )),
            Uniform::LoraFused {
                m, rank, k, a_stride, y_row_stride, win_len, off_counts, off_start, off_active,
                off_slice_n, off_slice_start, off_b_off, off_b_d0,
            } => Some(words16(
                m, rank, k, a_stride, a_stride, y_row_stride, 0, win_len, F32_ONE, off_counts,
                off_start, off_active, off_slice_n, off_slice_start, off_b_off, off_b_d0,
            )),
            Uniform::TensorOps { .. } | Uniform::Fac { .. } | Uniform::ArgmaxCap { .. } => None,
        }
    }
}

impl MoeUniform {
    /// The words of a uniform; `groups_x` is the first extent of the launch that it goes
    /// with.
    pub open spec fn spec_words(self, groups_x: u32) -> Seq<u32> {
        match self {
            MoeUniform::Gemv(p) => seq![
                p.n_rows, p.k_words, groups_x, p.out_f32, p.w_row_words, p.x_off_words,
                p.y_off_words, p.wide, p.alpha, 0u32, 0u32, 0u32,
            ],
            MoeUniform::GemvI8(p) => seq![
                p.n_rows, p.k_words, groups_x, p.out_f32, p.w_row_words, p.x_off_words,
                p.y_off_words, p.s_row_elems, p.alpha, 0u32, 0u32, 0u32,
            ],
            MoeUniform::W4(p) => seq![
                p.n_rows, p.groups, groups_x, p.w_e_stride_words, p.s_e_stride_elems,
                p.x_slot_stride_words, p.y_slot_stride_words, p.k_top,
            ],
            MoeUniform::PfW4(p) => seq![
                p.n_rows, p.groups, groups_x, p.w_e_stride_words, p.s_e_stride_elems,
                p.x_slot_stride_words, p.y_slot_stride_words, p.x_tok_stride_words, p.k_top,
                0u32, 0u32, 0u32,
            ],
            MoeUniform::Norm { hidden, words, eps, scale } => seq![hidden, words, eps, scale],
            MoeUniform::ResScale { n, n_words, scale, cap, inv_cap } => seq![
                n, n_words, scale, cap, inv_cap, 0u32, 0u32, 0u32,
            ],
            MoeUniform::NormRope {
                n_rows, head_dim, src_stride, rot_half, has_rope, n_q, n_kv, eps,
            } => seq![
                n_rows, head_dim, src_stride, rot_half, has_rope, n_q, n_kv, eps,
            ],
            MoeUniform::KvWrite { words, ring, k_off_words } => seq![
                words, ring, k_off_words, 0u32,
            ],
            MoeUniform::KvFp8 { n_tokens, n_kv, head_dim, ring, pairs, slots } => seq![
                n_tokens, n_kv, head_dim, ring, pairs, 0u32, slots, 0u32,
            ],
            MoeUniform::AttnDecode {
                n_heads, n_kv, head_dim, max_seq, group, window, ring, scale,
            } => seq![
                n_heads, n_kv, head_dim, max_seq, group, window, ring, scale,
            ],
            MoeUniform::Router { n_experts, k } => seq![n_experts, k, 0u32, 0u32],
            MoeUniform::Words { n_words } => seq![n_words, 0u32, 0u32, 0u32],
            MoeUniform::Combine { hidden_words, k, slot_stride_words } => seq![
                hidden_words, k, slot_stride_words, 0u32,
            ],
            MoeUniform::Gather { row_off, n_rows, hidden_words, vocab, scale } => seq![
                row_off, n_rows, hidden_words, vocab, scale, 0u32, 0u32, 0u32,
            ],
            MoeUniform::Argmax { n, groups } => seq![n, groups, 0u32, 0u32],
            MoeUniform::PfGather { row_off, n_rows, hidden_words, vocab, scale, m } => seq![
                row_off, n_rows, hidden_words, vocab, scale, m, 0u32, 0u32,
            ],
            MoeUniform::PfSplice { hidden_words, m } => seq![hidden_words, m, 0u32, 0u32],
            MoeUniform::PfArgmax { n, groups } => seq![n, groups, 0u32, 0u32],
            MoeUniform::PfNorm { hidden, words, eps, m } => seq![hidden, words, eps, m],
            MoeUniform::PfGemm {
                n_rows, k_words, out_f32, w_row_words, x_stride_words, y_stride_words, alpha, ..
            } => seq![
                n_rows, k_words, groups_x, out_f32, w_row_words, x_stride_words, y_stride_words,
                0u32, alpha, 0u32, 0u32, 0u32,
            ],
            MoeUniform::PfRope {
                n_rows, head_dim, src_stride, rot_half, has_rope, tok_src_stride,
                tok_dst_stride, eps,
            } => seq![
                n_rows, head_dim, src_stride, rot_half, has_rope, tok_src_stride,
                tok_dst_stride, 0u32, eps, 0u32, 0u32, 0u32,
            ],
            MoeUniform::PfKv { words, m, ring } => seq![words, m, ring, 0u32],
            MoeUniform::PfAttn {
                n_heads, n_kv, head_dim, max_seq, group, window, m, ring, scale,
            } => seq![
                n_heads, n_kv, head_dim, max_seq, group, window, m, ring, scale, 0u32, 0u32,
                0u32,
            ],
            MoeUniform::PfRouter { n_experts, k, m } => seq![n_experts, k, m, 0u32],
            MoeUniform::PfMul { row_words, m } => seq![row_words, m, 0u32, 0u32],
            MoeUniform::PfCombine { hidden_words, k, slot_stride_words, m } => seq![
                hidden_words, k, slot_stride_words, m,
            ],
        }
    }

    pub fn words(&self, groups_x: u32) -> (r: Vec<u32>)
        ensures
            r@ == self.spec_words(groups_x),
    {
        match *self {
            MoeUniform::Gemv(p) => words12(
                p.n_rows, p.k_words, groups_x, p.out_f32, p.w_row_words, p.x_off_words,
                p.y_off_words, p.wide, p.alpha, 0, 0, 0,
            ),
            MoeUniform::GemvI8(p) => words12(
                p.n_rows, p.k_words, groups_x, p.out_f32, p.w_row_words, p.x_off_words,
                p.y_off_words, p.s_row_elems, p.alpha, 0, 0, 0,
            ),
            MoeUniform::W4(p) => words8(
                p.n_rows, p.groups, groups_x, p.w_e_stride_words, p.s_e_stride_elems,
                p.x_slot_stride_words, p.y_slot_stride_words, p.k_top,
            ),
            MoeUniform::PfW4(p) => words12(
                p.n_rows, p.groups, groups_x, p.w_e_stride_words, p.s_e_stride_elems,
                p.x_slot_stride_words, p.y_slot_stride_words, p.x_tok_stride_words, p.k_top, 0,
                0, 0,
            ),
            MoeUniform::Norm { hidden, words, eps, scale } => words4(hidden, words, eps, scale),
            MoeUniform::ResScale { n, n_words, scale, cap, inv_cap } => words8(
                n, n_words, scale, cap, inv_cap, 0, 0, 0,
            ),
            MoeUniform::NormRope {
                n_rows, head_dim, src_stride, rot_half, has_rope, n_q, n_kv, eps,
            } => words8(
                n_rows, head_dim, src_stride, rot_half, has_rope, n_q, n_kv, eps,
            ),
            MoeUniform::KvWrite { words, ring, k_off_words } => words4(words, ring, k_off_words, 0),
            MoeUniform::KvFp8 { n_tokens, n_kv, head_dim, ring, pairs, slots } => words8(
                n_tokens, n_kv, head_dim, ring, pairs, 0, slots, 0,
            ),
            MoeUniform::AttnDecode {
                n_heads, n_kv, head_dim, max_seq, group, window, ring, scale,
            } => words8(
                n_heads, n_kv, head_dim, max_seq, group, window, ring, scale,
            ),
            MoeUniform::Router { n_experts, k } => words4(n_experts, k, 0, 0),
            MoeUniform::Words { n_words } => words4(n_words, 0, 0, 0),
            MoeUniform::Combine { hidden_words, k, slot_stride_words } => words4(
                hidden_words, k, slot_stride_words, 0,
            ),
            MoeUniform::Gather { row_off, n_rows, hidden_words, vocab, scale } => words8(
                row_off, n_rows, hidden_words, vocab, scale, 0, 0, 0,
            ),
            MoeUniform::Argmax { n, groups } => words4(n, groups, 0, 0),
            MoeUniform::PfGather { row_off, n_rows, hidden_words, vocab, scale, m } => words8(
                row_off, n_rows, hidden_words, vocab, scale, m, 0, 0,
            ),
            MoeUniform::PfSplice { hidden_words, m } => words4(hidden_words, m, 0, 0),
            MoeUniform::PfArgmax { n, groups } => words4(n, groups, 0, 0),
            MoeUniform::PfNorm { hidden, words, eps, m } => words4(hidden, words, eps, m),
            MoeUniform::PfGemm {
                n_rows, k_words, out_f32, w_row_words, x_stride_words, y_stride_words, alpha, ..
            } => words12(
                n_rows, k_words, groups_x, out_f32, w_row_words, x_stride_words, y_stride_words,
                0, alpha, 0, 0, 0,
            ),
            MoeUniform::PfRope {
                n_rows, head_dim, src_stride, rot_half, has_rope, tok_src_stride,
                tok_dst_stride, eps,
            } => words12(
                n_rows, head_dim, src_stride, rot_half, has_rope, tok_src_stride,
                tok_dst_stride, 0, eps, 0, 0, 0,
            ),
            MoeUniform::PfKv { words, m, ring } => words4(words, m, ring, 0),
            MoeUniform::PfAttn {
                n_heads, n_kv, head_dim, max_seq, group, window, m, ring, scale,
            } => words12(
                n_heads, n_kv, head_dim, max_seq, group, window, m, ring, scale, 0, 0, 0,
            ),
            MoeUniform::PfRouter { n_experts, k, m } => words4(n_experts, k, m, 0),
            MoeUniform::PfMul { row_words, m } => words4(row_words, m, 0, 0),
            MoeUniform::PfCombine { hidden_words, k, slot_stride_words, m } => words4(
                hidden_words, k, slot_stride_words, m,
            ),
        }
    }
}

impl FdParams {
    pub open spec fn spec_words(self) -> Seq<u32> {
        seq![
            self.n_heads, self.n_kv, self.head_dim, self.total, self.start, self.splits,
            self.ring, self.out_bf16, self.scaling, 0u32, self.fused, 0u32, self.m_rows,
            self.window, 0u32, 0u32,
        ]
    }

    /// The words of the attention parameters.
    pub fn words(&self) -> (r: Vec<u32>)
        ensures
            r@ == self.spec_words(),
    {
        words16(
            self.n_heads, self.n_kv, self.head_dim, self.total, self.start, self.splits,
            self.ring, self.out_bf16, self.scaling, 0, self.fused, 0, self.m_rows, self.window,
            0, 0,
        )
    }
}

impl FlashDecodeParams {
    pub open spec fn spec_words(self) -> Seq<u32> {
        seq![
            self.n_heads, self.n_kv, self.head_dim, self.splits, self.total, self.start,
            self.ring, self.scale,
        ]
    }

    /// The words of the attention parameters.
    pub fn words(&self) -> (r: Vec<u32>)
        ensures
            r@ == self.spec_words(),
    {
        words8(
            self.n_heads, self.n_kv, self.head_dim, self.splits, self.total, self.start,
            self.ring, self.scale,
        )
    }
}

/// Uniforms are whole vectors of four words, but for the six words of a four-bit matrix.
pub proof fn law_whole_vectors(u: Uniform, m: MoeUniform, groups_x: u32)
    ensures
        u.spec_words(groups_x) matches Some(w) ==> w.len() % 4 == 0 || (u is GemvW4 && w.len() == 6),
        m.spec_words(groups_x).len() % 4 == 0,
{
}

} // verus!
