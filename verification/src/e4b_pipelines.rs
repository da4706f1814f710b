//! Which kernels the E4B graph needs, and what each is called, built from and entered by.
use vstd::prelude::*;
use crate::e4b_emit::{Limits, MkSet, Pipelines};
use crate::e4b_flash_src::{
    deep_tpw_entry, deep_tpw_entry_text, flash1_e4b_entry, flash1_entry_text, flash1_mk_qtile_entry,
    qtile_entry_text, qtile_ok, FLASH2_DEEP_ENTRY, FLASH_ROWS_STAGE1_ENTRY, FNCU_ENTRY_A,
    FNCU_ENTRY_B, FNCU_ENTRY_C,
};
use crate::e4b_gemm_src::SMK_LIVE_ENTRY;
use crate::e4b_ir::{MkPipe, Pipe};
use crate::e4b_layer::first_covering;
use crate::text::{dec, decimal, replace_first, replaced_once, same_text, with_num, fill_num};

verus! {

/// The name under which a kernel is reported; `None` for the tensor-ops kernels, which carry
/// names of their own.
pub open spec fn pipeline_name_text(pipe: Pipe) -> Option<Seq<char>> {
    match pipe {
        Pipe::TensorOpsPk | Pipe::TensorOpsPk3 | Pipe::TensorOpsAttn | Pipe::TensorOpsAttnWide => None,
        Pipe::Gather => Some("embed_gather"@),
        Pipe::Scale => Some("embed_scale"@),
        Pipe::Rms => Some("rmsnorm"@),
        Pipe::RmsRes => Some("rmsnorm_residual"@),
        Pipe::ResAdd => Some("residual_add"@),
        Pipe::CastF32 => Some("cast_f32"@),
        Pipe::Softcap => Some("softcap"@),
        Pipe::Rope => Some("rope"@),
        Pipe::RopeF32 => Some("rope_f32"@),
        Pipe::KvQuant => Some("kv_fp8_quant"@),
        Pipe::Flash1(_) | Pipe::Flash1Fold(_) | Pipe::Flash1FoldDeep(_) => Some("flash_stage1"@),
        Pipe::Flash2Pk | Pipe::Flash2PkDeep => Some("flash_stage2"@),
        Pipe::GemvPk => Some("gemv_bf16"@),
        Pipe::GemvPk3 => Some("gemv_bf16_qkv"@),
        Pipe::GemvW4Pk => Some("gemv_w4_block"@),
        Pipe::GemvW4Pk3 => Some("gemv_w4_block_qkv"@),
        Pipe::GemvW4V4Pk => Some("gemv_w4_v4"@),
        Pipe::GemvW4V4Pk3 => Some("gemv_w4_v4_qkv"@),
        Pipe::GemvW4SgPk | Pipe::GemvW4SgPkm => Some("gemv_w4_sg16"@),
        Pipe::GemvW4SgPk3 | Pipe::GemvW4SgPkm3 => Some("gemv_w4_sg16_qkv"@),
        Pipe::LmHeadSg => Some("lmhead_bf16_sg"@),
        Pipe::LmHeadI8 => Some("lmhead_int8"@),
        Pipe::GeluEven => Some("gelu_mul"@),
        Pipe::Axpby => Some("axpby"@),
        Pipe::GateMul => Some("gatemul"@),
        Pipe::ArgmaxStage1 => Some("argmax_stage1"@),
        Pipe::ArgmaxStage2 => Some("argmax_stage2"@),
        Pipe::FncA => Some("fused_norm_a"@),
        Pipe::FncB => Some("fused_norm_b"@),
        Pipe::FncC => Some("fused_norm_c"@),
        Pipe::FacQ => Some("fused_attn_q"@),
        Pipe::FacK => Some("fused_attn_k"@),
        Pipe::FacV => Some("fused_attn_v"@),
        Pipe::Mk(_, k) => Some(
            match k {
                MkPipe::Gather => "mk_gather"@,
                MkPipe::GemmBf16Pk => "mk_gemm_bf16"@,
                MkPipe::GemmBf16Pk3 => "mk_gemm_bf16_qkv"@,
                MkPipe::GemmW4Pk | MkPipe::GemmW4V4Pk => "mk_gemm_w4"@,
                MkPipe::GemmW4Pk3 | MkPipe::GemmW4V4Pk3 => "mk_gemm_w4_qkv"@,
                MkPipe::GemmW4SgPk => "mk_gemm_w4_sg16"@,
                MkPipe::GemmW4SgPk3 => "mk_gemm_w4_sg16_qkv"@,
                MkPipe::GemmI8Pk | MkPipe::GemmI8gPk => "mk_gemm_i8"@,
                MkPipe::GemmI8Pk3 | MkPipe::GemmI8gPk3 => "mk_gemm_i8_qkv"@,
                MkPipe::Flash1 => "mk_flash_stage1"@,
                MkPipe::Flash2Pk => "mk_flash_stage2"@,
                MkPipe::GateMul => "mk_gatemul"@,
                MkPipe::Flash1Qtile => "other"@,
            },
        ),
        Pipe::GemvI8Pk | Pipe::GemvI8Pk3 | Pipe::GemvI8gPk | Pipe::GemvI8gPk3
        | Pipe::ArgmaxCapStage1 | Pipe::VerifySmk | Pipe::VerifyCap | Pipe::LoraFused
        | Pipe::LoraWiden | Pipe::LoraRepack => Some("other"@),
    }
}

pub fn pipeline_name(pipe: Pipe) -> (r: Option<&'static str>)
    ensures
        match r {
            Some(s) => pipeline_name_text(pipe) == Some(s@),
            None => pipeline_name_text(pipe) is None,
        },
{
    match pipe {
        Pipe::TensorOpsPk | Pipe::TensorOpsPk3 | Pipe::TensorOpsAttn | Pipe::TensorOpsAttnWide => None,
        Pipe::Gather => Some("embed_gather"),
        Pipe::Scale => Some("embed_scale"),
        Pipe::Rms => Some("rmsnorm"),
        Pipe::RmsRes => Some("rmsnorm_residual"),
        Pipe::ResAdd => Some("residual_add"),
        Pipe::CastF32 => Some("cast_f32"),
        Pipe::Softcap => Some("softcap"),
        Pipe::Rope => Some("rope"),
        Pipe::RopeF32 => Some("rope_f32"),
        Pipe::KvQuant => Some("kv_fp8_quant"),
        Pipe::Flash1(_) | Pipe::Flash1Fold(_) | Pipe::Flash1FoldDeep(_) => Some("flash_stage1"),
        Pipe::Flash2Pk | Pipe::Flash2PkDeep => Some("flash_stage2"),
        Pipe::GemvPk => Some("gemv_bf16"),
        Pipe::GemvPk3 => Some("gemv_bf16_qkv"),
        Pipe::GemvW4Pk => Some("gemv_w4_block"),
        Pipe::GemvW4Pk3 => Some("gemv_w4_block_qkv"),
        Pipe::GemvW4V4Pk => Some("gemv_w4_v4"),
        Pipe::GemvW4V4Pk3 => Some("gemv_w4_v4_qkv"),
        Pipe::GemvW4SgPk | Pipe::GemvW4SgPkm => Some("gemv_w4_sg16"),
        Pipe::GemvW4SgPk3 | Pipe::GemvW4SgPkm3 => Some("gemv_w4_sg16_qkv"),
        Pipe::LmHeadSg => Some("lmhead_bf16_sg"),
        Pipe::LmHeadI8 => Some("lmhead_int8"),
        Pipe::GeluEven => Some("gelu_mul"),
        Pipe::Axpby => Some("axpby"),
        Pipe::GateMul => Some("gatemul"),
        Pipe::ArgmaxStage1 => Some("argmax_stage1"),
        Pipe::ArgmaxStage2 => Some("argmax_stage2"),
        Pipe::FncA => Some("fused_norm_a"),
        Pipe::FncB => Some("fused_norm_b"),
        Pipe::FncC => Some("fused_norm_c"),
        Pipe::FacQ => Some("fused_attn_q"),
        Pipe::FacK => Some("fused_attn_k"),
        Pipe::FacV => Some("fused_attn_v"),
        Pipe::Mk(_, k) => Some(
            match k {
                MkPipe::Gather => "mk_gather",
                MkPipe::GemmBf16Pk => "mk_gemm_bf16",
                MkPipe::GemmBf16Pk3 => "mk_gemm_bf16_qkv",
                MkPipe::GemmW4Pk | MkPipe::GemmW4V4Pk => "mk_gemm_w4",
                MkPipe::GemmW4Pk3 | MkPipe::GemmW4V4Pk3 => "mk_gemm_w4_qkv",
                MkPipe::GemmW4SgPk => "mk_gemm_w4_sg16",
                MkPipe::GemmW4SgPk3 => "mk_gemm_w4_sg16_qkv",
                MkPipe::GemmI8Pk | MkPipe::GemmI8gPk => "mk_gemm_i8",
                MkPipe::GemmI8Pk3 | MkPipe::GemmI8gPk3 => "mk_gemm_i8_qkv",
                MkPipe::Flash1 => "mk_flash_stage1",
                MkPipe::Flash2Pk => "mk_flash_stage2",
                MkPipe::GateMul => "mk_gatemul",
                MkPipe::Flash1Qtile => "other",
            },
        ),
        Pipe::GemvI8Pk | Pipe::GemvI8Pk3 | Pipe::GemvI8gPk | Pipe::GemvI8gPk3
        | Pipe::ArgmaxCapStage1 | Pipe::VerifySmk | Pipe::VerifyCap | Pipe::LoraFused
        | Pipe::LoraWiden | Pipe::LoraRepack => Some("other"),
    }
}

/// A pass as it is reported: its name and the extents of its launch.
pub fn pass_label(name: &str, x: u32, y: u32, z: u32) -> (r: String)
    ensures
        r@ == name@ + " ["@ + dec(x as nat) + "x"@ + dec(y as nat) + "x"@ + dec(z as nat) + "]"@,
{
    let mut b = name.to_owned();
    b.append(" [");
    b.append(decimal(x as u64).as_str());
    b.append("x");
    b.append(decimal(y as u64).as_str());
    b.append("x");
    b.append(decimal(z as u64).as_str());
    b.append("]");
    b
}

/// What decides which kernels are built.
pub struct PipeOptions {
    pub sg16: bool,
    pub lmhead_i8: bool,
    pub lmhead_sg: bool,
    pub prefill_m: usize,
    pub verify_m: Option<usize>,
    pub fuse_norms: bool,
    pub fuse_attn: bool,
    /// The head widths of the model's layers.
    pub flash1_hds: Vec<u32>,
    pub hd_specialize: bool,
    /// The kernels decode the cache by shifts.
    pub sd: bool,
    /// The first attention stage reduces by subgroup shuffles.
    pub sg: bool,
    pub gqa_fold: u32,
    pub deep_fold: u32,
    pub tpw: u32,
    pub decode_splits: u32,
    /// The depth past which the deep arm is used, and its split count.
    pub deep_arm: Option<(u32, u32)>,
    pub deep_full_only: bool,
    pub deep_stage2_legacy: bool,
    pub w8: bool,
    pub w8_group: usize,
    pub w4_mr: u32,
    pub qtile: u32,
    /// Which of the three norm chains run unrolled.
    pub fnc_unrolled: [bool; 3],
    pub tensor_route: bool,
    pub tensor_attn: bool,
    pub tensor_pk: bool,
    pub tensor_pk3: bool,
    pub tensor_attn_narrow: bool,
    pub tensor_attn_wide: bool,
}

/// The largest of the widths.
pub open spec fn widest_of(hds: Seq<u32>) -> u32
    decreases hds.len(),
{
    if hds.len() == 0 {
        0
    } else if hds.last() > widest_of(hds.drop_last()) {
        hds.last()
    } else {
        widest_of(hds.drop_last())
    }
}

pub proof fn lemma_widest(hds: Seq<u32>)
    ensures
        forall|i: int| 0 <= i < hds.len() ==> #[trigger] hds[i] <= widest_of(hds),
        hds.len() > 0 ==> hds.contains(widest_of(hds)),
    decreases hds.len(),
{
    if hds.len() > 0 {
        lemma_widest(hds.drop_last());
        assert forall|i: int| 0 <= i < hds.len() implies #[trigger] hds[i] <= widest_of(hds) by {
            if i < hds.len() - 1 {
                assert(hds.drop_last()[i] == hds[i]);
            }
        }
        if hds.last() > widest_of(hds.drop_last()) {
            assert(hds[hds.len() - 1] == widest_of(hds));
        } else if hds.len() == 1 {
            assert(widest_of(hds.drop_last()) == 0);
            assert(hds[0] == widest_of(hds));
        } else {
            let j = choose|j: int| 0 <= j < hds.len() - 1 && hds.drop_last()[j] == widest_of(
                hds.drop_last(),
            );
            assert(hds[j] == widest_of(hds));
        }
    }
}

pub open spec fn strictly_increasing(s: Seq<u32>) -> bool {
    forall|i: int, j: int| 0 <= i < j < s.len() ==> #[trigger] s[i] < #[trigger] s[j]
}

/// `s` holds the members of `hds`, each once, in increasing order.
#[verifier::opaque]
pub open spec fn sorted_distinct(s: Seq<u32>, hds: Seq<u32>) -> bool {
    &&& strictly_increasing(s)
    &&& forall|x: u32| #[trigger] s.contains(x) <==> hds.contains(x)
}

fn insert_distinct(v: &mut Vec<u32>, x: u32)
    requires
        strictly_increasing(old(v)@),
    ensures
        strictly_increasing(final(v)@),
        forall|y: u32| #[trigger] final(v)@.contains(y) <==> old(v)@.contains(y) || y == x,
{
    let ghost before = v@;
    let mut i: usize = 0;
    while i < v.len() && v[i] < x
        invariant
            i <= v@.len(),
            v@ == before,
            forall|j: int| 0 <= j < i ==> #[trigger] v@[j] < x,
        decreases v.len() - i,
    {
        i = i + 1;
    }
    if i < v.len() && v[i] == x {
        assert(before[i as int] == x);
        return ;
    }
    v.insert(i, x);
    assert(v@ =~= before.insert(i as int, x));
    assert forall|a: int, b: int| 0 <= a < b < v@.len() implies #[trigger] v@[a] < #[trigger] v@[b] by {
        if a < i && b > i {
            assert(before[a] < before[b - 1]);
        } else if a > i {
            assert(before[a - 1] < before[b - 1]);
        } else if a == i {
            if b - 1 > i {
                assert(before[i as int] < before[b - 1]);
            }
        }
    }
    assert forall|y: u32| #[trigger] v@.contains(y) <==> before.contains(y) || y == x by {
        if before.contains(y) {
            let k = choose|k: int| 0 <= k < before.len() && before[k] == y;
            if k < i {
                assert(v@[k] == y);
            } else {
                assert(v@[k + 1] == y);
            }
        }
        if y == x {
            assert(v@[i as int] == x);
        }
        if v@.contains(y) {
            let k = choose|k: int| 0 <= k < v@.len() && v@[k] == y;
            if k < i {
                assert(before[k] == y);
            } else if k > i {
                assert(before[k - 1] == y);
            }
        }
    }
}

/// The widths in increasing order, each once.
pub fn sort_distinct(hds: &Vec<u32>) -> (r: Vec<u32>)
    ensures
        sorted_distinct(r@, hds@),
{
    proof {
        reveal(sorted_distinct);
    }
    let mut v: Vec<u32> = Vec::new();
    let mut i: usize = 0;
    while i < hds.len()
        invariant
            i <= hds@.len(),
            sorted_distinct(v@, hds@.take(i as int)),
        decreases hds.len() - i,
    {
        proof {
            reveal(sorted_distinct);
        }
        let ghost before = v@;
        insert_distinct(&mut v, hds[i]);
        assert forall|x: u32| #[trigger] v@.contains(x) <==> hds@.take(i + 1).contains(x) by {
            let t = hds@.take(i as int);
            let u = hds@.take(i + 1);
            assert(before.contains(x) <==> t.contains(x));
            if t.contains(x) {
                let k = choose|k: int| 0 <= k < t.len() && t[k] == x;
                assert(u[k] == x);
            }
            if x == hds@[i as int] {
                assert(u[i as int] == x);
            }
            if u.contains(x) {
                let k = choose|k: int| 0 <= k < u.len() && u[k] == x;
                if k < i {
                    assert(t[k] == x);
                }
            }
        }
        i = i + 1;
    }
    assert(hds@.take(i as int) =~= hds@);
    v
}

pub(crate) fn max_of(hds: &Vec<u32>) -> (r: u32)
    ensures
        r == widest_of(hds@),
{
    let mut best: u32 = 0;
    let mut i: usize = 0;
    while i < hds.len()
        invariant
            i <= hds@.len(),
            best == widest_of(hds@.take(i as int)),
        decreases hds.len() - i,
    {
        if hds[i] > best {
            best = hds[i];
        }
        i = i + 1;
        assert(hds@.take(i as int).drop_last() =~= hds@.take(i - 1));
    }
    assert(hds@.take(i as int) =~= hds@);
    best
}

/// The widths that the first attention stage is built for: all of them, or just the widest.
pub open spec fn stage_widths(o: PipeOptions, s: Seq<u32>) -> bool {
    if o.hd_specialize {
        sorted_distinct(s, o.flash1_hds@)
    } else {
        s == seq![widest_of(o.flash1_hds@)]
    }
}

/// The fold of the deep arm: its own, or the decode fold where several positions are in flight.
pub open spec fn deep_fold_of(o: PipeOptions) -> u32 {
    if o.deep_fold == 0 && o.tpw > 1 {
        if o.gqa_fold > 1 {
            o.gqa_fold
        } else {
            1
        }
    } else {
        o.deep_fold
    }
}

/// Whether the deep arm has first stages of its own.
pub open spec fn has_deep_stage1(o: PipeOptions) -> bool {
    deep_fold_of(o) > 1 || o.tpw > 1
}

pub open spec fn mk_built(o: PipeOptions, rows: int) -> MkSet {
    MkSet {
        rows: rows as usize,
        sg: o.sg16,
        i8: o.w8,
        i8g: o.w8 && o.w8_group > 0,
        qtile: o.qtile != 1,
    }
}

pub open spec fn mk_rows_of(o: PipeOptions, lim: Limits) -> int {
    if o.prefill_m <= lim.slab_rows {
        o.prefill_m as int
    } else {
        lim.slab_rows as int
    }
}

/// What the kernels assume of the options.
pub open spec fn options_ok(o: PipeOptions, lim: Limits) -> bool {
    &&& o.flash1_hds@.len() > 0
    &&& widest_of(o.flash1_hds@) <= lim.flash_max_head_dim
    &&& has_deep_stage1(o) ==> o.sg
    &&& o.prefill_m > 0 && o.qtile != 1 ==> qtile_ok(widest_of(o.flash1_hds@), o.qtile)
}

/// The kernels that the graph is emitted for.
pub open spec fn built(o: PipeOptions, lim: Limits, p: Pipelines) -> bool {
    &&& stage_widths(o, p.flash1@)
    &&& p.flash1_fold@ == if o.gqa_fold > 1 { p.flash1@ } else { Seq::empty() }
    &&& p.flash1_fold_deep@ == if has_deep_stage1(o) { p.flash1@ } else { Seq::empty() }
    &&& p.gqa_fold == o.gqa_fold
    &&& p.deep_fold == if has_deep_stage1(o) {
        if deep_fold_of(o) > 1 { deep_fold_of(o) } else { 1 }
    } else {
        0
    }
    &&& p.decode_splits == o.decode_splits
    &&& p.deep_splits == match o.deep_arm {
        Some((_, s)) => Some(s),
        None => None,
    }
    &&& p.deep_full_only == o.deep_full_only
    &&& p.sg == o.sg16
    &&& p.sgm == (o.sg16 && o.w4_mr > 1)
    &&& p.i8 == o.w8
    &&& p.i8g == (o.w8 && o.w8_group > 0)
    &&& p.lmhead_sg == o.lmhead_sg
    &&& p.lmhead_i8 == o.lmhead_i8
    &&& p.fnc == o.fuse_norms
    &&& p.fac == o.fuse_attn
    &&& p.mk == if o.prefill_m > 0 { Some(mk_built(o, mk_rows_of(o, lim))) } else { None }
    &&& p.mk_verify == match o.verify_m {
        Some(v) => if o.prefill_m > 0 && v < mk_rows_of(o, lim) {
            Some(mk_built(o, v as int))
        } else {
            None
        },
        None => None,
    }
    &&& p.tensor_route == o.tensor_route
    &&& p.tensor_attn == o.tensor_attn
    &&& p.tensor_pk == o.tensor_pk
    &&& p.tensor_pk3 == o.tensor_pk3
    &&& p.tensor_attn_narrow == o.tensor_attn_narrow
    &&& p.tensor_attn_wide == o.tensor_attn_wide
}

fn copy_widths(v: &Vec<u32>) -> (r: Vec<u32>)
    ensures
        r@ == v@,
{
    let mut r: Vec<u32> = Vec::new();
    let mut i: usize = 0;
    while i < v.len()
        invariant
            i <= v@.len(),
            r@ == v@.take(i as int),
        decreases v.len() - i,
    {
        r.push(v[i]);
        i = i + 1;
        assert(v@.take(i as int) =~= v@.take(i - 1).push(v@[i - 1]));
    }
    assert(v@.take(i as int) =~= v@);
    r
}

fn mk_set_of(o: &PipeOptions, rows: usize) -> (r: MkSet)
    ensures
        r == mk_built(*o, rows as int),
{
    MkSet { rows, sg: o.sg16, i8: o.w8, i8g: o.w8 && o.w8_group > 0, qtile: o.qtile != 1 }
}

fn stage1_widths(o: &PipeOptions) -> (r: Vec<u32>)
    ensures
        stage_widths(*o, r@),
{
    if o.hd_specialize {
        sort_distinct(&o.flash1_hds)
    } else {
        let v = vec![max_of(&o.flash1_hds)];
        assert(v@ =~= seq![widest_of(o.flash1_hds@)]);
        v
    }
}

fn widths_if(wanted: bool, v: &Vec<u32>) -> (r: Vec<u32>)
    ensures
        r@ == if wanted { v@ } else { Seq::empty() },
{
    if wanted {
        copy_widths(v)
    } else {
        Vec::new()
    }
}

pub(crate) fn pick_deep_fold(o: &PipeOptions) -> (r: u32)
    ensures
        r == deep_fold_of(*o),
{
    if o.deep_fold == 0 && o.tpw > 1 {
        if o.gqa_fold > 1 {
            o.gqa_fold
        } else {
            1
        }
    } else {
        o.deep_fold
    }
}

fn mk_sets(o: &PipeOptions, lim: &Limits) -> (r: (Option<MkSet>, Option<MkSet>))
    ensures
        r.0 == if o.prefill_m > 0 { Some(mk_built(*o, mk_rows_of(*o, *lim))) } else { None },
        r.1 == match o.verify_m {
            Some(v) => if o.prefill_m > 0 && v < mk_rows_of(*o, *lim) {
                Some(mk_built(*o, v as int))
            } else {
                None
            },
            None => None,
        },
{
    let mk_rows: usize = if o.prefill_m <= lim.slab_rows { o.prefill_m } else { lim.slab_rows };
    if o.prefill_m == 0 {
        return (None, None);
    }
    let verify = match o.verify_m {
        Some(v) => if v < mk_rows {
            Some(mk_set_of(o, v))
        } else {
            None
        },
        None => None,
    };
    (Some(mk_set_of(o, mk_rows)), verify)
}

fn arm_splits(arm: Option<(u32, u32)>) -> (r: Option<u32>)
    ensures
        r == match arm {
            Some((_, s)) => Some(s),
            None => None,
        },
{
    match arm {
        Some((_, s)) => Some(s),
        None => None,
    }
}

/// Decides which kernels the graph is emitted for.
pub fn build_pipelines(o: &PipeOptions, lim: &Limits) -> (p: Pipelines)
    requires
        options_ok(*o, *lim),
    ensures
        built(*o, *lim, p),
{
    let flash1 = stage1_widths(o);
    let flash1_fold = widths_if(o.gqa_fold > 1, &flash1);
    let picked: u32 = pick_deep_fold(o);
    let deep = picked > 1 || o.tpw > 1;
    let flash1_fold_deep = widths_if(deep, &flash1);
    let (mk, mk_verify) = mk_sets(o, lim);
    let deep_fold: u32 = if !deep {
        0
    } else if picked > 1 {
        picked
    } else {
        1
    };
    Pipelines {
        flash1,
        flash1_fold,
        flash1_fold_deep,
        gqa_fold: o.gqa_fold,
        deep_fold,
        decode_splits: o.decode_splits,
        deep_splits: arm_splits(o.deep_arm),
        deep_full_only: o.deep_full_only,
        sg: o.sg16,
        sgm: o.sg16 && o.w4_mr > 1,
        i8: o.w8,
        i8g: o.w8 && o.w8_group > 0,
        lmhead_sg: o.lmhead_sg,
        lmhead_i8: o.lmhead_i8,
        fnc: o.fuse_norms,
        fac: o.fuse_attn,
        mk,
        mk_verify,
        tensor_route: o.tensor_route,
        tensor_attn: o.tensor_attn,
        tensor_pk: o.tensor_pk,
        tensor_pk3: o.tensor_pk3,
        tensor_attn_narrow: o.tensor_attn_narrow,
        tensor_attn_wide: o.tensor_attn_wide,
    }
}

proof fn lemma_covering(caps: Seq<u32>, hd: int, k: int)
    requires
        0 <= k < caps.len(),
        caps[k] >= hd,
    ensures
        first_covering(caps, hd) is Some,
        first_covering(caps, hd)->0 >= hd,
        caps.contains(first_covering(caps, hd)->0),
    decreases caps.len(),
{
    if caps[0] >= hd {
        assert(caps.contains(caps[0]));
    } else {
        lemma_covering(caps.drop_first(), hd, k - 1);
        let c = first_covering(caps.drop_first(), hd)->0;
        let j = choose|j: int| 0 <= j < caps.drop_first().len() && caps.drop_first()[j] == c;
        assert(caps[j + 1] == c);
    }
}

/// Every head width of the model is served by a first attention stage at least as wide, and
/// where the stages are specialised by one of exactly that width.
pub proof fn law_widths_covered(o: PipeOptions, lim: Limits, p: Pipelines, hd: u32)
    requires
        options_ok(o, lim),
        built(o, lim, p),
        o.flash1_hds@.contains(hd),
    ensures
        first_covering(p.flash1@, hd as int) is Some,
        first_covering(p.flash1@, hd as int)->0 >= hd,
        o.hd_specialize ==> first_covering(p.flash1@, hd as int) == Some(hd),
        o.gqa_fold > 1 ==> first_covering(p.flash1_fold@, hd as int) is Some,
        p.flash1_fold_deep@.len() > 0 ==> first_covering(p.flash1_fold_deep@, hd as int) is Some,
{
    lemma_widest(o.flash1_hds@);
    let k = choose|k: int| 0 <= k < o.flash1_hds@.len() && o.flash1_hds@[k] == hd;
    assert(o.flash1_hds@[k] <= widest_of(o.flash1_hds@));
    if o.hd_specialize {
        reveal(sorted_distinct);
        assert(p.flash1@.contains(hd));
        let j = choose|j: int| 0 <= j < p.flash1@.len() && p.flash1@[j] == hd;
        lemma_covering(p.flash1@, hd as int, j);
        lemma_exact_cover(p.flash1@, hd, j);
    } else {
        lemma_covering(p.flash1@, hd as int, 0);
    }
}

proof fn lemma_exact_cover(caps: Seq<u32>, hd: u32, j: int)
    requires
        strictly_increasing(caps),
        0 <= j < caps.len(),
        caps[j] == hd,
    ensures
        first_covering(caps, hd as int) == Some(hd),
    decreases caps.len(),
{
    if j > 0 {
        assert(caps[0] < caps[j]);
        assert(strictly_increasing(caps.drop_first())) by {
            assert forall|a: int, b: int| 0 <= a < b < caps.drop_first().len() implies (
            #[trigger] caps.drop_first()[a]) < #[trigger] caps.drop_first()[b] by {
                assert(caps[a + 1] < caps[b + 1]);
            }
        }
        lemma_exact_cover(caps.drop_first(), hd, j - 1);
    }
}

/// The second attention stage with its split count folded in.
pub open spec fn folded_flash2(src: Seq<char>, splits: u32) -> Seq<char> {
    replaced_once(src, "let splits = 16u;"@, with_num("let splits = {N}u;"@, 'N', splits as nat))
}

/// Folds a split count into the second attention stage; `None` when the source has no place
/// for it, so that another count would be ignored.
pub fn fold_flash2(src: &str, splits: u32) -> (r: Option<String>)
    ensures
        match r {
            Some(t) => t@ == folded_flash2(src@, splits) && (splits == 16 || t@ != src@),
            None => splits != 16 && folded_flash2(src@, splits) == src@,
        },
{
    let to = fill_num("let splits = {N}u;", 'N', splits as u64);
    let t = replace_first(src, "let splits = 16u;", to.as_str());
    if splits != 16 && same_text(t.as_str(), src) {
        return None;
    }
    Some(t)
}

/// The labels that depend on the kernel alone.
pub open spec fn fixed_label_text(pipe: Pipe) -> Option<Seq<char>> {
    match pipe {
        Pipe::Gather => Some("e4bw-gather"@),
        Pipe::Scale => Some("e4bw-scale"@),
        Pipe::Rms => Some("e4bw-rms"@),
        Pipe::RmsRes => Some("e4bw-rmsres"@),
        Pipe::ResAdd => Some("e4bw-resadd"@),
        Pipe::CastF32 => Some("e4bw-cast"@),
        Pipe::Softcap => Some("e4bw-softcap"@),
        Pipe::Rope => Some("e4bw-rope"@),
        Pipe::RopeF32 => Some("e4bw-rope-f32"@),
        Pipe::KvQuant => Some("e4bw-kvq"@),
        Pipe::Flash2Pk => Some("e4bw-flash2-pk"@),
        Pipe::Flash2PkDeep => Some("e4bw-flash2-pk-deep"@),
        Pipe::GemvI8Pk => Some("e4bw-gemv-i8-pk"@),
        Pipe::GemvI8Pk3 => Some("e4bw-gemv-i8-pk3"@),
        Pipe::GemvI8gPk => Some("e4bw-gemv-i8g-pk"@),
        Pipe::GemvI8gPk3 => Some("e4bw-gemv-i8g-pk3"@),
        Pipe::GemvPk => Some("e4bw-gemv8-pk"@),
        Pipe::GemvPk3 => Some("e4bw-gemv8-pk3"@),
        Pipe::GemvW4Pk => Some("e4bw-gemv-w4-pk"@),
        Pipe::GemvW4Pk3 => Some("e4bw-gemv-w4-pk3"@),
        Pipe::GemvW4V4Pk => Some("e4bw-gemv-w4-v4-pk"@),
        Pipe::GemvW4V4Pk3 => Some("e4bw-gemv-w4-v4-pk3"@),
        Pipe::GemvW4SgPk => Some("e4bw-gemv-w4-sg-pk"@),
        Pipe::GemvW4SgPk3 => Some("e4bw-gemv-w4-sg-pk3"@),
        Pipe::GemvW4SgPkm => Some("e4bw-gemv-w4-sg-pkm"@),
        Pipe::GemvW4SgPkm3 => Some("e4bw-gemv-w4-sg-pkm3"@),
        Pipe::LmHeadSg => Some("e4bw-lmhead-sg-pk"@),
        Pipe::LmHeadI8 => Some("e4bw-lmhead-i8"@),
        Pipe::GeluEven => Some("e4bw-gelu"@),
        Pipe::Axpby => Some("e4bw-axpby"@),
        Pipe::GateMul => Some("e4bw-gatemul"@),
        Pipe::ArgmaxStage1 => Some("e4bw-am1"@),
        Pipe::ArgmaxStage2 => Some("e4bw-am2"@),
        Pipe::ArgmaxCapStage1 => Some("e4bw-am1-cap"@),
        Pipe::FacQ => Some("e4bw-fac-q"@),
        Pipe::FacK => Some("e4bw-fac-k"@),
        Pipe::FacV => Some("e4bw-fac-v"@),
        Pipe::Mk(_, MkPipe::Gather) => Some("e4bw-gather-mk"@),
        Pipe::Mk(_, MkPipe::GemmBf16Pk) => Some("e4bw-gemm-bf16-mk-pk"@),
        Pipe::Mk(_, MkPipe::GemmBf16Pk3) => Some("e4bw-gemm-bf16-mk-pk3"@),
        Pipe::Mk(_, MkPipe::GemmI8Pk) => Some("e4bw-gemm-i8-mk-pk"@),
        Pipe::Mk(_, MkPipe::GemmI8Pk3) => Some("e4bw-gemm-i8-mk-pk3"@),
        Pipe::Mk(_, MkPipe::GemmI8gPk) => Some("e4bw-gemm-i8g-mk-pk"@),
        Pipe::Mk(_, MkPipe::GemmI8gPk3) => Some("e4bw-gemm-i8g-mk-pk3"@),
        Pipe::Mk(_, MkPipe::GemmW4Pk) => Some("e4bw-gemm-w4-mk-pk"@),
        Pipe::Mk(_, MkPipe::GemmW4Pk3) => Some("e4bw-gemm-w4-mk-pk3"@),
        Pipe::Mk(_, MkPipe::GemmW4V4Pk) => Some("e4bw-gemm-w4-v4-mk-pk"@),
        Pipe::Mk(_, MkPipe::GemmW4V4Pk3) => Some("e4bw-gemm-w4-v4-mk-pk3"@),
        Pipe::Mk(_, MkPipe::GemmW4SgPk) => Some("e4bw-gemm-w4-sg-mk-pk"@),
        Pipe::Mk(_, MkPipe::GemmW4SgPk3) => Some("e4bw-gemm-w4-sg-mk-pk3"@),
        Pipe::Mk(_, MkPipe::Flash1Qtile) => Some("e4bw-flash-rows1-qtile"@),
        Pipe::Mk(_, MkPipe::Flash2Pk) => Some("e4bw-flash-rows2-pk"@),
        Pipe::Mk(_, MkPipe::GateMul) => Some("e4bw-gatemul-mk"@),
        Pipe::VerifySmk => Some("e4bw-verify-lm-smk-live"@),
        Pipe::VerifyCap => Some("e4bw-verify-cap"@),
        Pipe::LoraFused => Some("e4bw-lora-fused"@),
        Pipe::LoraWiden => Some("e4bw-lora-widen"@),
        Pipe::LoraRepack => Some("e4bw-lora-repack"@),
        _ => None,
    }
}

fn fixed_label(pipe: Pipe) -> (r: Option<&'static str>)
    ensures
        match r {
            Some(s) => fixed_label_text(pipe) == Some(s@),
            None => fixed_label_text(pipe) is None,
        },
{
    match pipe {
        Pipe::Gather => Some("e4bw-gather"),
        Pipe::Scale => Some("e4bw-scale"),
        Pipe::Rms => Some("e4bw-rms"),
        Pipe::RmsRes => Some("e4bw-rmsres"),
        Pipe::ResAdd => Some("e4bw-resadd"),
        Pipe::CastF32 => Some("e4bw-cast"),
        Pipe::Softcap => Some("e4bw-softcap"),
        Pipe::Rope => Some("e4bw-rope"),
        Pipe::RopeF32 => Some("e4bw-rope-f32"),
        Pipe::KvQuant => Some("e4bw-kvq"),
        Pipe::Flash2Pk => Some("e4bw-flash2-pk"),
        Pipe::Flash2PkDeep => Some("e4bw-flash2-pk-deep"),
        Pipe::GemvI8Pk => Some("e4bw-gemv-i8-pk"),
        Pipe::GemvI8Pk3 => Some("e4bw-gemv-i8-pk3"),
        Pipe::GemvI8gPk => Some("e4bw-gemv-i8g-pk"),
        Pipe::GemvI8gPk3 => Some("e4bw-gemv-i8g-pk3"),
        Pipe::GemvPk => Some("e4bw-gemv8-pk"),
        Pipe::GemvPk3 => Some("e4bw-gemv8-pk3"),
        Pipe::GemvW4Pk => Some("e4bw-gemv-w4-pk"),
        Pipe::GemvW4Pk3 => Some("e4bw-gemv-w4-pk3"),
        Pipe::GemvW4V4Pk => Some("e4bw-gemv-w4-v4-pk"),
        Pipe::GemvW4V4Pk3 => Some("e4bw-gemv-w4-v4-pk3"),
        Pipe::GemvW4SgPk => Some("e4bw-gemv-w4-sg-pk"),
        Pipe::GemvW4SgPk3 => Some("e4bw-gemv-w4-sg-pk3"),
        Pipe::GemvW4SgPkm => Some("e4bw-gemv-w4-sg-pkm"),
        Pipe::GemvW4SgPkm3 => Some("e4bw-gemv-w4-sg-pkm3"),
        Pipe::LmHeadSg => Some("e4bw-lmhead-sg-pk"),
        Pipe::LmHeadI8 => Some("e4bw-lmhead-i8"),
        Pipe::GeluEven => Some("e4bw-gelu"),
        Pipe::Axpby => Some("e4bw-axpby"),
        Pipe::GateMul => Some("e4bw-gatemul"),
        Pipe::ArgmaxStage1 => Some("e4bw-am1"),
        Pipe::ArgmaxStage2 => Some("e4bw-am2"),
        Pipe::ArgmaxCapStage1 => Some("e4bw-am1-cap"),
        Pipe::FacQ => Some("e4bw-fac-q"),
        Pipe::FacK => Some("e4bw-fac-k"),
        Pipe::FacV => Some("e4bw-fac-v"),
        Pipe::Mk(_, MkPipe::Gather) => Some("e4bw-gather-mk"),
        Pipe::Mk(_, MkPipe::GemmBf16Pk) => Some("e4bw-gemm-bf16-mk-pk"),
        Pipe::Mk(_, MkPipe::GemmBf16Pk3) => Some("e4bw-gemm-bf16-mk-pk3"),
        Pipe::Mk(_, MkPipe::GemmI8Pk) => Some("e4bw-gemm-i8-mk-pk"),
        Pipe::Mk(_, MkPipe::GemmI8Pk3) => Some("e4bw-gemm-i8-mk-pk3"),
        Pipe::Mk(_, MkPipe::GemmI8gPk) => Some("e4bw-gemm-i8g-mk-pk"),
        Pipe::Mk(_, MkPipe::GemmI8gPk3) => Some("e4bw-gemm-i8g-mk-pk3"),
        Pipe::Mk(_, MkPipe::GemmW4Pk) => Some("e4bw-gemm-w4-mk-pk"),
        Pipe::Mk(_, MkPipe::GemmW4Pk3) => Some("e4bw-gemm-w4-mk-pk3"),
        Pipe::Mk(_, MkPipe::GemmW4V4Pk) => Some("e4bw-gemm-w4-v4-mk-pk"),
        Pipe::Mk(_, MkPipe::GemmW4V4Pk3) => Some("e4bw-gemm-w4-v4-mk-pk3"),
        Pipe::Mk(_, MkPipe::GemmW4SgPk) => Some("e4bw-gemm-w4-sg-mk-pk"),
        Pipe::Mk(_, MkPipe::GemmW4SgPk3) => Some("e4bw-gemm-w4-sg-mk-pk3"),
        Pipe::Mk(_, MkPipe::Flash1Qtile) => Some("e4bw-flash-rows1-qtile"),
        Pipe::Mk(_, MkPipe::Flash2Pk) => Some("e4bw-flash-rows2-pk"),
        Pipe::Mk(_, MkPipe::GateMul) => Some("e4bw-gatemul-mk"),
        Pipe::VerifySmk => Some("e4bw-verify-lm-smk-live"),
        Pipe::VerifyCap => Some("e4bw-verify-cap"),
        Pipe::LoraFused => Some("e4bw-lora-fused"),
        Pipe::LoraWiden => Some("e4bw-lora-widen"),
        Pipe::LoraRepack => Some("e4bw-lora-repack"),
        _ => None,
    }
}

/// The entry points that depend on the kernel alone.
pub open spec fn fixed_entry_text(pipe: Pipe) -> Option<Seq<char>> {
    match pipe {
        Pipe::Gather => Some("e4b_gather_chunks"@),
        Pipe::Scale => Some("scale_bf16"@),
        Pipe::Rms => Some("rmsnorm_bf16"@),
        Pipe::RmsRes => Some("rmsnorm_residual_bf16"@),
        Pipe::ResAdd => Some("residual_add_scale_bf16"@),
        Pipe::CastF32 => Some("cast_bf16_to_f32"@),
        Pipe::Softcap => Some("tanh_softcap_bf16_to_f32"@),
        Pipe::Rope => Some("rope_bf16"@),
        Pipe::GemvI8Pk => Some("g4w_gemv_i8_pk"@),
        Pipe::GemvI8Pk3 => Some("g4w_gemv_i8_pk3"@),
        Pipe::GemvI8gPk => Some("g4w_gemv_i8g_pk"@),
        Pipe::GemvI8gPk3 => Some("g4w_gemv_i8g_pk3"@),
        Pipe::GemvW4Pk => Some("g4w_gemv_w4a16_block_pk"@),
        Pipe::GemvW4Pk3 => Some("g4w_gemv_w4a16_block_pk3"@),
        Pipe::GemvW4V4Pk => Some("g4w_gemv_w4a16_v4_pk"@),
        Pipe::GemvW4V4Pk3 => Some("g4w_gemv_w4a16_v4_pk3"@),
        Pipe::LmHeadI8 => Some("e4b_lmhead_i8_pk"@),
        Pipe::Axpby => Some("e4b_axpby_bf16"@),
        Pipe::GateMul => Some("e4b_gate_mul_bf16"@),
        Pipe::ArgmaxStage1 => Some("argmax_f32_rows_stage1"@),
        Pipe::ArgmaxStage2 => Some("argmax_f32_rows_stage2"@),
        Pipe::Mk(_, MkPipe::Gather) => Some("e4b_gather_chunks_mk"@),
        Pipe::Mk(_, MkPipe::GemmBf16Pk) => Some("g4w_gemm_bf16_mk_pk"@),
        Pipe::Mk(_, MkPipe::GemmBf16Pk3) => Some("g4w_gemm_bf16_mk_pk3"@),
        Pipe::Mk(_, MkPipe::GemmI8Pk) => Some("g4w_gemm_i8_mk_pk"@),
        Pipe::Mk(_, MkPipe::GemmI8Pk3) => Some("g4w_gemm_i8_mk_pk3"@),
        Pipe::Mk(_, MkPipe::GemmI8gPk) => Some("g4w_gemm_i8g_mk_pk"@),
        Pipe::Mk(_, MkPipe::GemmI8gPk3) => Some("g4w_gemm_i8g_mk_pk3"@),
        Pipe::Mk(_, MkPipe::GemmW4Pk) => Some("g4w_gemm_w4a16_block_mk_pk"@),
        Pipe::Mk(_, MkPipe::GemmW4Pk3) => Some("g4w_gemm_w4a16_block_mk_pk3"@),
        Pipe::Mk(_, MkPipe::GemmW4V4Pk) => Some("g4w_gemm_w4a16_v4_mk_pk"@),
        Pipe::Mk(_, MkPipe::GemmW4V4Pk3) => Some("g4w_gemm_w4a16_v4_mk_pk3"@),
        Pipe::Mk(_, MkPipe::Flash2Pk) => Some("g4w_flash_rows_stage2_pk"@),
        Pipe::Mk(_, MkPipe::GateMul) => Some("e4b_gate_mul_bf16_mk"@),
        Pipe::VerifyCap => Some("e4b_verify_cap_rows"@),
        Pipe::LoraWiden => Some("e4b_lora_widen"@),
        Pipe::LoraRepack => Some("e4b_lora_repack"@),
        _ => None,
    }
}

fn fixed_entry(pipe: Pipe) -> (r: Option<&'static str>)
    ensures
        match r {
            Some(s) => fixed_entry_text(pipe) == Some(s@),
            None => fixed_entry_text(pipe) is None,
        },
{
    match pipe {
        Pipe::Gather => Some("e4b_gather_chunks"),
        Pipe::Scale => Some("scale_bf16"),
        Pipe::Rms => Some("rmsnorm_bf16"),
        Pipe::RmsRes => Some("rmsnorm_residual_bf16"),
        Pipe::ResAdd => Some("residual_add_scale_bf16"),
        Pipe::CastF32 => Some("cast_bf16_to_f32"),
        Pipe::Softcap => Some("tanh_softcap_bf16_to_f32"),
        Pipe::Rope => Some("rope_bf16"),
        Pipe::GemvI8Pk => Some("g4w_gemv_i8_pk"),
        Pipe::GemvI8Pk3 => Some("g4w_gemv_i8_pk3"),
        Pipe::GemvI8gPk => Some("g4w_gemv_i8g_pk"),
        Pipe::GemvI8gPk3 => Some("g4w_gemv_i8g_pk3"),
        Pipe::GemvW4Pk => Some("g4w_gemv_w4a16_block_pk"),
        Pipe::GemvW4Pk3 => Some("g4w_gemv_w4a16_block_pk3"),
        Pipe::GemvW4V4Pk => Some("g4w_gemv_w4a16_v4_pk"),
        Pipe::GemvW4V4Pk3 => Some("g4w_gemv_w4a16_v4_pk3"),
        Pipe::LmHeadI8 => Some("e4b_lmhead_i8_pk"),
        Pipe::Axpby => Some("e4b_axpby_bf16"),
        Pipe::GateMul => Some("e4b_gate_mul_bf16"),
        Pipe::ArgmaxStage1 => Some("argmax_f32_rows_stage1"),
        Pipe::ArgmaxStage2 => Some("argmax_f32_rows_stage2"),
        Pipe::Mk(_, MkPipe::Gather) => Some("e4b_gather_chunks_mk"),
        Pipe::Mk(_, MkPipe::GemmBf16Pk) => Some("g4w_gemm_bf16_mk_pk"),
        Pipe::Mk(_, MkPipe::GemmBf16Pk3) => Some("g4w_gemm_bf16_mk_pk3"),
        Pipe::Mk(_, MkPipe::GemmI8Pk) => Some("g4w_gemm_i8_mk_pk"),
        Pipe::Mk(_, MkPipe::GemmI8Pk3) => Some("g4w_gemm_i8_mk_pk3"),
        Pipe::Mk(_, MkPipe::GemmI8gPk) => Some("g4w_gemm_i8g_mk_pk"),
        Pipe::Mk(_, MkPipe::GemmI8gPk3) => Some("g4w_gemm_i8g_mk_pk3"),
        Pipe::Mk(_, MkPipe::GemmW4Pk) => Some("g4w_gemm_w4a16_block_mk_pk"),
        Pipe::Mk(_, MkPipe::GemmW4Pk3) => Some("g4w_gemm_w4a16_block_mk_pk3"),
        Pipe::Mk(_, MkPipe::GemmW4V4Pk) => Some("g4w_gemm_w4a16_v4_mk_pk"),
        Pipe::Mk(_, MkPipe::GemmW4V4Pk3) => Some("g4w_gemm_w4a16_v4_mk_pk3"),
        Pipe::Mk(_, MkPipe::Flash2Pk) => Some("g4w_flash_rows_stage2_pk"),
        Pipe::Mk(_, MkPipe::GateMul) => Some("e4b_gate_mul_bf16_mk"),
        Pipe::VerifyCap => Some("e4b_verify_cap_rows"),
        Pipe::LoraWiden => Some("e4b_lora_widen"),
        Pipe::LoraRepack => Some("e4b_lora_repack"),
        _ => None,
    }
}

/// The label of a kernel; `None` for kernels that carry labels of their own.
pub open spec fn label_text(pipe: Pipe, o: PipeOptions) -> Option<Seq<char>> {
    match pipe {
        Pipe::Flash1(hd) => Some(with_num("e4bw-flash1-{H}"@, 'H', hd as nat)),
        Pipe::Flash1Fold(hd) => Some(
            with_num(with_num("e4bw-flash1-fold{F}-{H}"@, 'F', o.gqa_fold as nat), 'H', hd as nat),
        ),
        Pipe::Flash1FoldDeep(hd) => Some(
            with_num(
                with_num(
                    with_num("e4bw-flash1-dfold{F}t{W}-{H}"@, 'F', deep_fold_of(o) as nat),
                    'W',
                    o.tpw as nat,
                ),
                'H',
                hd as nat,
            ),
        ),
        Pipe::FncA => if o.fnc_unrolled[0] { Some(FNCU_ENTRY_A@) } else { None },
        Pipe::FncB => if o.fnc_unrolled[1] { Some(FNCU_ENTRY_B@) } else { None },
        Pipe::FncC => if o.fnc_unrolled[2] { Some(FNCU_ENTRY_C@) } else { None },
        Pipe::Mk(_, MkPipe::Flash1) => if o.sd {
            Some("e4bw-flash-rows1-sd"@)
        } else {
            Some("e4bw-flash-rows1"@)
        },
        _ => fixed_label_text(pipe),
    }
}

fn owned(s: Option<&'static str>) -> (r: Option<String>)
    ensures
        match r {
            Some(t) => s is Some && t@ == s->0@,
            None => s is None,
        },
{
    match s {
        Some(t) => Some(t.to_owned()),
        None => None,
    }
}

pub fn pipe_label(pipe: Pipe, o: &PipeOptions) -> (r: Option<String>)
    ensures
        match r {
            Some(t) => label_text(pipe, *o) == Some(t@),
            None => label_text(pipe, *o) is None,
        },
{
    match pipe {
        Pipe::Flash1(hd) => Some(fill_num("e4bw-flash1-{H}", 'H', hd as u64)),
        Pipe::Flash1Fold(hd) => {
            let b = fill_num("e4bw-flash1-fold{F}-{H}", 'F', o.gqa_fold as u64);
            Some(fill_num(b.as_str(), 'H', hd as u64))
        },
        Pipe::Flash1FoldDeep(hd) => {
            let b = fill_num("e4bw-flash1-dfold{F}t{W}-{H}", 'F', pick_deep_fold(o) as u64);
            let b = fill_num(b.as_str(), 'W', o.tpw as u64);
            Some(fill_num(b.as_str(), 'H', hd as u64))
        },
        Pipe::FncA => owned(if o.fnc_unrolled[0] { Some(FNCU_ENTRY_A) } else { None }),
        Pipe::FncB => owned(if o.fnc_unrolled[1] { Some(FNCU_ENTRY_B) } else { None }),
        Pipe::FncC => owned(if o.fnc_unrolled[2] { Some(FNCU_ENTRY_C) } else { None }),
        Pipe::Mk(_, MkPipe::Flash1) => owned(
            if o.sd { Some("e4bw-flash-rows1-sd") } else { Some("e4bw-flash-rows1") },
        ),
        _ => owned(fixed_label(pipe)),
    }
}

pub open spec fn sd_suffix(entry: Seq<char>, sd: bool) -> Seq<char> {
    if sd {
        entry + "_sd"@
    } else {
        entry
    }
}

/// The entry point of a kernel; `None` for kernels that bring their own.
pub open spec fn entry_text(pipe: Pipe, o: PipeOptions) -> Option<Seq<char>> {
    match pipe {
        Pipe::Flash1(hd) => Some(sd_suffix(flash1_entry_text(hd, o.sg), o.sd)),
        Pipe::Flash1FoldDeep(hd) => if o.tpw > 1 {
            Some(
                deep_tpw_entry_text(
                    hd,
                    if deep_fold_of(o) > 1 { deep_fold_of(o) } else { 1 },
                    o.tpw,
                    o.sd,
                ),
            )
        } else {
            None
        },
        Pipe::Flash2PkDeep => if o.deep_stage2_legacy { None } else { Some(FLASH2_DEEP_ENTRY@) },
        Pipe::FncA => if o.fnc_unrolled[0] { Some(FNCU_ENTRY_A@) } else { None },
        Pipe::FncB => if o.fnc_unrolled[1] { Some(FNCU_ENTRY_B@) } else { None },
        Pipe::FncC => if o.fnc_unrolled[2] { Some(FNCU_ENTRY_C@) } else { None },
        Pipe::Mk(_, MkPipe::Flash1) => Some(sd_suffix(FLASH_ROWS_STAGE1_ENTRY@, o.sd)),
        Pipe::Mk(_, MkPipe::Flash1Qtile) => Some(
            sd_suffix(qtile_entry_text(widest_of(o.flash1_hds@), o.qtile), o.sd),
        ),
        Pipe::VerifySmk => Some(SMK_LIVE_ENTRY@),
        _ => fixed_entry_text(pipe),
    }
}

fn with_sd(entry: String, sd: bool) -> (r: String)
    ensures
        r@ == sd_suffix(entry@, sd),
{
    let mut entry: String = entry;
    if sd {
        entry.append("_sd");
    }
    entry
}

pub fn pipe_entry(pipe: Pipe, o: &PipeOptions) -> (r: Option<String>)
    ensures
        match r {
            Some(t) => entry_text(pipe, *o) == Some(t@),
            None => entry_text(pipe, *o) is None,
        },
{
    match pipe {
        Pipe::Flash1(hd) => Some(with_sd(flash1_e4b_entry(hd, o.sg), o.sd)),
        Pipe::Flash1FoldDeep(hd) => {
            if o.tpw <= 1 {
                return None;
            }
            let picked: u32 = pick_deep_fold(o);
            let fold: u32 = if picked > 1 { picked } else { 1 };
            Some(deep_tpw_entry(hd, fold, o.tpw, o.sd))
        },
        Pipe::Flash2PkDeep => owned(
            if o.deep_stage2_legacy { None } else { Some(FLASH2_DEEP_ENTRY) },
        ),
        Pipe::FncA => owned(if o.fnc_unrolled[0] { Some(FNCU_ENTRY_A) } else { None }),
        Pipe::FncB => owned(if o.fnc_unrolled[1] { Some(FNCU_ENTRY_B) } else { None }),
        Pipe::FncC => owned(if o.fnc_unrolled[2] { Some(FNCU_ENTRY_C) } else { None }),
        Pipe::Mk(_, MkPipe::Flash1) => Some(with_sd(FLASH_ROWS_STAGE1_ENTRY.to_owned(), o.sd)),
        Pipe::Mk(_, MkPipe::Flash1Qtile) => Some(
            with_sd(flash1_mk_qtile_entry(max_of(&o.flash1_hds), o.qtile), o.sd),
        ),
        Pipe::VerifySmk => owned(Some(SMK_LIVE_ENTRY)),
        _ => owned(fixed_entry(pipe)),
    }
}

/// One many-row kernel set.
pub open spec fn mk_kernels(verify: bool, s: MkSet) -> Seq<Pipe> {
    seq![
        Pipe::Mk(verify, MkPipe::Gather),
        Pipe::Mk(verify, MkPipe::GemmBf16Pk),
        Pipe::Mk(verify, MkPipe::GemmBf16Pk3),
        Pipe::Mk(verify, MkPipe::GemmW4Pk),
        Pipe::Mk(verify, MkPipe::GemmW4Pk3),
        Pipe::Mk(verify, MkPipe::GemmW4V4Pk),
        Pipe::Mk(verify, MkPipe::GemmW4V4Pk3),
        Pipe::Mk(verify, MkPipe::Flash1),
        Pipe::Mk(verify, MkPipe::Flash2Pk),
        Pipe::Mk(verify, MkPipe::GateMul),
    ] + (if s.sg {
        seq![Pipe::Mk(verify, MkPipe::GemmW4SgPk), Pipe::Mk(verify, MkPipe::GemmW4SgPk3)]
    } else {
        Seq::empty()
    }) + (if s.i8 {
        seq![Pipe::Mk(verify, MkPipe::GemmI8Pk), Pipe::Mk(verify, MkPipe::GemmI8Pk3)]
    } else {
        Seq::empty()
    }) + (if s.i8g {
        seq![Pipe::Mk(verify, MkPipe::GemmI8gPk), Pipe::Mk(verify, MkPipe::GemmI8gPk3)]
    } else {
        Seq::empty()
    }) + (if s.qtile {
        seq![Pipe::Mk(verify, MkPipe::Flash1Qtile)]
    } else {
        Seq::empty()
    })
}

fn mk_kernel_list(verify: bool, s: &MkSet) -> (r: Vec<Pipe>)
    ensures
        r@ == mk_kernels(verify, *s),
{
    let mut v = vec![
        Pipe::Mk(verify, MkPipe::Gather),
        Pipe::Mk(verify, MkPipe::GemmBf16Pk),
        Pipe::Mk(verify, MkPipe::GemmBf16Pk3),
        Pipe::Mk(verify, MkPipe::GemmW4Pk),
        Pipe::Mk(verify, MkPipe::GemmW4Pk3),
        Pipe::Mk(verify, MkPipe::GemmW4V4Pk),
        Pipe::Mk(verify, MkPipe::GemmW4V4Pk3),
        Pipe::Mk(verify, MkPipe::Flash1),
        Pipe::Mk(verify, MkPipe::Flash2Pk),
        Pipe::Mk(verify, MkPipe::GateMul),
    ];
    if s.sg {
        v.push(Pipe::Mk(verify, MkPipe::GemmW4SgPk));
        v.push(Pipe::Mk(verify, MkPipe::GemmW4SgPk3));
    }
    if s.i8 {
        v.push(Pipe::Mk(verify, MkPipe::GemmI8Pk));
        v.push(Pipe::Mk(verify, MkPipe::GemmI8Pk3));
    }
    if s.i8g {
        v.push(Pipe::Mk(verify, MkPipe::GemmI8gPk));
        v.push(Pipe::Mk(verify, MkPipe::GemmI8gPk3));
    }
    if s.qtile {
        v.push(Pipe::Mk(verify, MkPipe::Flash1Qtile));
    }
    assert(v@ =~= mk_kernels(verify, *s));
    v
}

/// `s`, followed by `more` where it is wanted.
pub open spec fn and_if(s: Seq<Pipe>, wanted: bool, more: Seq<Pipe>) -> Seq<Pipe> {
    if wanted {
        s + more
    } else {
        s
    }
}

/// The kernels that only some graphs have.
pub open spec fn optional_kernels(p: Pipelines) -> Seq<Pipe> {
    let s = and_if(Seq::empty(), p.sg, seq![Pipe::GemvW4SgPk, Pipe::GemvW4SgPk3]);
    let s = and_if(s, p.sgm, seq![Pipe::GemvW4SgPkm, Pipe::GemvW4SgPkm3]);
    let s = and_if(s, p.i8, seq![Pipe::GemvI8Pk, Pipe::GemvI8Pk3]);
    let s = and_if(s, p.i8g, seq![Pipe::GemvI8gPk, Pipe::GemvI8gPk3]);
    let s = and_if(s, p.lmhead_i8, seq![Pipe::LmHeadI8]);
    let s = and_if(s, p.lmhead_sg, seq![Pipe::LmHeadSg]);
    let s = and_if(s, p.fnc, seq![Pipe::FncA, Pipe::FncB, Pipe::FncC]);
    let s = and_if(s, p.fac, seq![Pipe::FacQ, Pipe::FacK, Pipe::FacV]);
    and_if(s, p.deep_splits is Some, seq![Pipe::Flash2PkDeep])
}

pub open spec fn fixed_kernels() -> Seq<Pipe> {
    seq![
        Pipe::Gather,
        Pipe::Scale,
        Pipe::Rms,
        Pipe::RmsRes,
        Pipe::ResAdd,
        Pipe::CastF32,
        Pipe::Softcap,
        Pipe::Rope,
        Pipe::RopeF32,
        Pipe::KvQuant,
        Pipe::Flash2Pk,
        Pipe::GemvPk,
        Pipe::GemvPk3,
        Pipe::GemvW4Pk,
        Pipe::GemvW4Pk3,
        Pipe::GemvW4V4Pk,
        Pipe::GemvW4V4Pk3,
        Pipe::GeluEven,
        Pipe::Axpby,
        Pipe::GateMul,
        Pipe::ArgmaxStage1,
        Pipe::ArgmaxStage2,
    ]
}

/// Every kernel to be built for a graph.
pub open spec fn kernels(p: Pipelines) -> Seq<Pipe> {
    fixed_kernels() + p.flash1@.map_values(|hd: u32| Pipe::Flash1(hd)) + p.flash1_fold@.map_values(
        |hd: u32| Pipe::Flash1Fold(hd),
    ) + p.flash1_fold_deep@.map_values(|hd: u32| Pipe::Flash1FoldDeep(hd)) + optional_kernels(p) + (
    match p.mk {
        Some(s) => mk_kernels(false, s),
        None => Seq::empty(),
    }) + (match p.mk_verify {
        Some(s) => mk_kernels(true, s),
        None => Seq::empty(),
    })
}

fn extend_if(v: &mut Vec<Pipe>, wanted: bool, more: Vec<Pipe>)
    ensures
        final(v)@ == and_if(old(v)@, wanted, more@),
{
    if wanted {
        let mut more: Vec<Pipe> = more;
        v.append(&mut more);
    }
}

fn optional_list(p: &Pipelines) -> (v: Vec<Pipe>)
    ensures
        v@ == optional_kernels(*p),
{
    let mut v: Vec<Pipe> = Vec::new();
    let more = vec![Pipe::GemvW4SgPk, Pipe::GemvW4SgPk3];
    assert(more@ =~= seq![Pipe::GemvW4SgPk, Pipe::GemvW4SgPk3]);
    extend_if(&mut v, p.sg, more);
    let more = vec![Pipe::GemvW4SgPkm, Pipe::GemvW4SgPkm3];
    assert(more@ =~= seq![Pipe::GemvW4SgPkm, Pipe::GemvW4SgPkm3]);
    extend_if(&mut v, p.sgm, more);
    let more = vec![Pipe::GemvI8Pk, Pipe::GemvI8Pk3];
    assert(more@ =~= seq![Pipe::GemvI8Pk, Pipe::GemvI8Pk3]);
    extend_if(&mut v, p.i8, more);
    let more = vec![Pipe::GemvI8gPk, Pipe::GemvI8gPk3];
    assert(more@ =~= seq![Pipe::GemvI8gPk, Pipe::GemvI8gPk3]);
    extend_if(&mut v, p.i8g, more);
    let more = vec![Pipe::LmHeadI8];
    assert(more@ =~= seq![Pipe::LmHeadI8]);
    extend_if(&mut v, p.lmhead_i8, more);
    let more = vec![Pipe::LmHeadSg];
    assert(more@ =~= seq![Pipe::LmHeadSg]);
    extend_if(&mut v, p.lmhead_sg, more);
    let more = vec![Pipe::FncA, Pipe::FncB, Pipe::FncC];
    assert(more@ =~= seq![Pipe::FncA, Pipe::FncB, Pipe::FncC]);
    extend_if(&mut v, p.fnc, more);
    let more = vec![Pipe::FacQ, Pipe::FacK, Pipe::FacV];
    assert(more@ =~= seq![Pipe::FacQ, Pipe::FacK, Pipe::FacV]);
    extend_if(&mut v, p.fac, more);
    let more = vec![Pipe::Flash2PkDeep];
    assert(more@ =~= seq![Pipe::Flash2PkDeep]);
    extend_if(&mut v, p.deep_splits.is_some(), more);
    v
}

/// Lists every kernel to be built for a graph.
pub fn kernel_list(p: &Pipelines) -> (v: Vec<Pipe>)
    ensures
        v@ == kernels(*p),
{
    let mut v = vec![
        Pipe::Gather,
        Pipe::Scale,
        Pipe::Rms,
        Pipe::RmsRes,
        Pipe::ResAdd,
        Pipe::CastF32,
        Pipe::Softcap,
        Pipe::Rope,
        Pipe::RopeF32,
        Pipe::KvQuant,
        Pipe::Flash2Pk,
        Pipe::GemvPk,
        Pipe::GemvPk3,
        Pipe::GemvW4Pk,
        Pipe::GemvW4Pk3,
        Pipe::GemvW4V4Pk,
        Pipe::GemvW4V4Pk3,
        Pipe::GeluEven,
        Pipe::Axpby,
        Pipe::GateMul,
        Pipe::ArgmaxStage1,
        Pipe::ArgmaxStage2,
    ];
    assert(v@ =~= fixed_kernels());
    let ghost base = v@;
    let mut i: usize = 0;
    while i < p.flash1.len()
        invariant
            i <= p.flash1@.len(),
            v@ == base + p.flash1@.take(i as int).map_values(|hd: u32| Pipe::Flash1(hd)),
        decreases p.flash1.len() - i,
    {
        v.push(Pipe::Flash1(p.flash1[i]));
        i = i + 1;
        assert(v@ =~= base + p.flash1@.take(i as int).map_values(|hd: u32| Pipe::Flash1(hd)));
    }
    assert(p.flash1@.take(i as int) =~= p.flash1@);
    let ghost base = v@;
    i = 0;
    while i < p.flash1_fold.len()
        invariant
            i <= p.flash1_fold@.len(),
            v@ == base + p.flash1_fold@.take(i as int).map_values(|hd: u32| Pipe::Flash1Fold(hd)),
        decreases p.flash1_fold.len() - i,
    {
        v.push(Pipe::Flash1Fold(p.flash1_fold[i]));
        i = i + 1;
        assert(v@ =~= base + p.flash1_fold@.take(i as int).map_values(
            |hd: u32| Pipe::Flash1Fold(hd),
        ));
    }
    assert(p.flash1_fold@.take(i as int) =~= p.flash1_fold@);
    let ghost base = v@;
    i = 0;
    while i < p.flash1_fold_deep.len()
        invariant
            i <= p.flash1_fold_deep@.len(),
            v@ == base + p.flash1_fold_deep@.take(i as int).map_values(
                |hd: u32| Pipe::Flash1FoldDeep(hd),
            ),
        decreases p.flash1_fold_deep.len() - i,
    {
        v.push(Pipe::Flash1FoldDeep(p.flash1_fold_deep[i]));
        i = i + 1;
        assert(v@ =~= base + p.flash1_fold_deep@.take(i as int).map_values(
            |hd: u32| Pipe::Flash1FoldDeep(hd),
        ));
    }
    assert(p.flash1_fold_deep@.take(i as int) =~= p.flash1_fold_deep@);
    let mut more = optional_list(p);
    v.append(&mut more);
    match &p.mk {
        Some(s) => {
            let mut more = mk_kernel_list(false, s);
            v.append(&mut more);
        },
        None => {},
    }
    match &p.mk_verify {
        Some(s) => {
            let mut more = mk_kernel_list(true, s);
            v.append(&mut more);
        },
        None => {},
    }
    assert(v@ =~= kernels(*p));
    v
}

} // verus!
