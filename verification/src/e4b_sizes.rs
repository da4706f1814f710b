//! Buffer sizes, attention parameters and the start of a session.
use vstd::prelude::*;
use crate::config::{Gemma4Config, LayerType};
use crate::e4b_emit::F32_ONE;
use crate::e4b_head::{overlays, E4bGraph};
use crate::e4b_ir::{Pass, Pipe, Work};
use crate::e4b_layer::{EmitCfg, FLASH_SPLITS};
use crate::e4b_session::{Gemma4E4bWgpu, PrefillState, ProfMode, SplitArm, VerifyState};
use crate::text::{contains, mentions};

verus! {

/// What the activation buffers of `m` rows are sized by.
#[derive(Clone, Copy, Debug, PartialEq, Eq, Structural)]
pub struct BufDims {
    pub m: usize,
    pub cfg: EmitCfg,
    pub q_dim_max: usize,
    pub kv_dim_max: usize,
    pub hd_max: usize,
    pub splits: u32,
}

pub open spec fn wider(a: int, b: int) -> int {
    if a >= b { a } else { b }
}

impl BufDims {
    /// The elements of a buffer before packing two of them into a word.
    pub open spec fn elems(self, w: Work) -> int {
        match w {
            Work::HidA | Work::HidB | Work::T0 | Work::T1 | Work::T2 | Work::Mid => self.m
                * self.cfg.hidden,
            Work::PleRaw | Work::PleProj | Work::PleNormed | Work::Pli => self.m * self.cfg.ple_row,
            Work::PlGate | Work::PlGated => self.m * self.cfg.hpl,
            Work::Qa | Work::Qb | Work::QF32 | Work::AttnPack => self.m * self.q_dim_max,
            Work::Ka | Work::Kb | Work::Va | Work::Vb => self.m * self.kv_dim_max,
            Work::GuPack | Work::ActPack => self.m * wider(
                self.cfg.inter as int,
                self.cfg.hidden as int,
            ),
            Work::Scratch => self.cfg.n_q * self.m * self.splits * (self.hd_max + 2),
        }
    }

    /// Whether a buffer holds one element to a word.
    pub open spec fn wide(w: Work) -> bool {
        w is QF32 || w is GuPack || w is Scratch
    }

    /// The words of a buffer.
    pub open spec fn words(self, w: Work) -> int {
        if Self::wide(w) { self.elems(w) } else { self.elems(w) / 2 }
    }

    /// A buffer's size can be computed, factor by factor.
    pub open spec fn fits(self, w: Work) -> bool {
        &&& self.elems(w) <= usize::MAX
        &&& w is Scratch ==> {
            &&& self.cfg.n_q * self.m <= usize::MAX
            &&& self.cfg.n_q * self.m * self.splits <= usize::MAX
            &&& self.hd_max + 2 <= usize::MAX
        }
    }

    /// The words of an activation buffer; `None` where its elements do not fit the address
    /// type.
    pub fn alloc_bufs(&self, w: Work) -> (r: Option<usize>)
        ensures
            match r {
                Some(n) => self.fits(w) && n == self.words(w),
                None => !self.fits(w),
            },
    {
        let m: usize = self.m;
        let elems: Option<usize> = match w {
            Work::HidA | Work::HidB | Work::T0 | Work::T1 | Work::T2 | Work::Mid => m.checked_mul(
                self.cfg.hidden,
            ),
            Work::PleRaw | Work::PleProj | Work::PleNormed | Work::Pli => m.checked_mul(
                self.cfg.ple_row,
            ),
            Work::PlGate | Work::PlGated => m.checked_mul(self.cfg.hpl),
            Work::Qa | Work::Qb | Work::QF32 | Work::AttnPack => m.checked_mul(self.q_dim_max),
            Work::Ka | Work::Kb | Work::Va | Work::Vb => m.checked_mul(self.kv_dim_max),
            Work::GuPack | Work::ActPack => if self.cfg.inter >= self.cfg.hidden {
                m.checked_mul(self.cfg.inter)
            } else {
                m.checked_mul(self.cfg.hidden)
            },
            Work::Scratch => self.scratch(),
        };
        match elems {
            None => None,
            Some(n) => match w {
                Work::QF32 | Work::GuPack | Work::Scratch => Some(n),
                _ => Some(n / 2),
            },
        }
    }

    fn scratch(&self) -> (r: Option<usize>)
        ensures
            match r {
                Some(n) => self.fits(Work::Scratch) && n == self.elems(Work::Scratch),
                None => !self.fits(Work::Scratch),
            },
    {
        let heads: usize = match self.cfg.n_q.checked_mul(self.m) {
            None => {
                return None;
            },
            Some(h) => h,
        };
        let rows: usize = match heads.checked_mul(self.splits as usize) {
            None => {
                return None;
            },
            Some(r) => r,
        };
        let per: usize = match self.hd_max.checked_add(2) {
            None => {
                return None;
            },
            Some(p) => p,
        };
        rows.checked_mul(per)
    }
}

/// The attention parameters of a pass; the scaling factor as its bits.
#[derive(Clone, Copy, Debug, PartialEq, Eq, Structural)]
pub struct FdParams {
    pub n_heads: u32,
    pub n_kv: u32,
    pub head_dim: u32,
    pub total: u32,
    pub start: u32,
    pub splits: u32,
    pub ring: u32,
    pub out_bf16: u32,
    pub scaling: u32,
    pub fused: u32,
    pub m_rows: u32,
    pub window: u32,
}

/// The attention parameters of a layer kind, before anything is in the cache.
pub open spec fn fd_of(config: Gemma4Config, kind: LayerType, splits: u32, m: u32, window: u32) -> FdParams {
    FdParams {
        n_heads: config.num_attention_heads as u32,
        n_kv: config.dims(kind).num_kv_heads as u32,
        head_dim: config.dims(kind).head_dim as u32,
        total: 0,
        start: 0,
        splits,
        ring: 0,
        out_bf16: 1,
        scaling: F32_ONE,
        fused: 0,
        m_rows: m,
        window,
    }
}

fn mk_fd(config: &Gemma4Config, kind: LayerType, splits: u32, m: u32, window: u32) -> (r: FdParams)
    ensures
        r == fd_of(*config, kind, splits, m, window),
{
    FdParams {
        n_heads: config.num_attention_heads as u32,
        n_kv: config.num_kv_heads_for(kind) as u32,
        head_dim: config.head_dim_for(kind) as u32,
        total: 0,
        start: 0,
        splits,
        ring: 0,
        out_bf16: 1,
        scaling: F32_ONE,
        fused: 0,
        m_rows: m,
        window,
    }
}

/// The parameters of the decode attention: one row, no window of its own.
pub fn decode_fd(config: &Gemma4Config, kind: LayerType, splits: u32) -> (r: FdParams)
    ensures
        r == fd_of(*config, kind, splits, 1, 0),
{
    mk_fd(config, kind, splits, 1, 0)
}

/// The parameters of the prefill attention: `m` rows, and the window for sliding layers.
pub fn prefill_fd(config: &Gemma4Config, kind: LayerType, m: usize) -> (r: FdParams)
    ensures
        r == fd_of(
            *config,
            kind,
            FLASH_SPLITS,
            m as u32,
            if kind == LayerType::SlidingAttention { config.sliding_window as u32 } else { 0 },
        ),
{
    let window: u32 = match kind {
        LayerType::SlidingAttention => config.sliding_window as u32,
        LayerType::FullAttention => 0,
    };
    mk_fd(config, kind, FLASH_SPLITS, m as u32, window)
}

/// The words of a layer's key and value caches and the scales of each: packed four values to
/// a word, one scale for a position and head.
pub open spec fn kv_lens(config: Gemma4Config, max_seq: int, kind: LayerType) -> (int, int) {
    let d = config.dims(kind);
    (max_seq * d.num_kv_heads * d.head_dim / 4, max_seq * d.num_kv_heads)
}

/// The layers that the caches are kept for: all of them, with or without one of their own.
pub fn kv_layer_count(config: &Gemma4Config) -> (r: usize)
    ensures
        r == config.num_hidden_layers,
{
    config.num_hidden_layers
}

/// The cache buffers of layer `li`: keys, values, key scales, value scales. None where the
/// layer reads another layer's cache, or there is no such layer.
pub fn kv_layer_lens(config: &Gemma4Config, max_seq: usize, li: usize) -> (r: Option<[usize; 4]>)
    requires
        config.wf(),
        li < config.num_hidden_layers ==> max_seq * config.dims(
            config.layer_types@[li as int],
        ).num_kv_heads * config.dims(config.layer_types@[li as int]).head_dim <= usize::MAX,
        li < config.num_hidden_layers ==> max_seq * config.dims(
            config.layer_types@[li as int],
        ).num_kv_heads <= usize::MAX,
    ensures
        r is Some == (li < config.num_hidden_layers && config.kv_sources@[li as int] is None),
        r matches Some(l) ==> {
            let (words, scales) = kv_lens(*config, max_seq as int, config.layer_types@[li as int]);
            l@ == seq![words as usize, words as usize, scales as usize, scales as usize]
        },
{
    if li >= config.num_hidden_layers {
        return None;
    }
    if config.kv_sources[li].is_some() {
        return None;
    }
    let kind = config.layer_types[li];
    let scales: usize = max_seq * config.num_kv_heads_for(kind);
    let words: usize = scales * config.head_dim_for(kind) / 4;
    let l = [words, words, scales, scales];
    assert(l@ =~= seq![words, words, scales, scales]);
    Some(l)
}

/// Every position has the same share of a cache buffer: its packed values and its scales.
pub proof fn law_kv_slots(config: Gemma4Config, max_seq: int, kind: LayerType)
    requires
        max_seq > 0,
        (config.dims(kind).num_kv_heads * config.dims(kind).head_dim) % 4 == 0,
    ensures
        kv_lens(config, max_seq, kind).0 == max_seq * (config.dims(kind).num_kv_heads * config.dims(
            kind,
        ).head_dim / 4),
        kv_lens(config, max_seq, kind).0 / max_seq == config.dims(kind).num_kv_heads * config.dims(
            kind,
        ).head_dim / 4,
        kv_lens(config, max_seq, kind).1 / max_seq == config.dims(kind).num_kv_heads,
{
    let n = config.dims(kind).num_kv_heads as int;
    let h = config.dims(kind).head_dim as int;
    let q = n * h / 4;
    assert(max_seq * n * h == max_seq * (n * h)) by (nonlinear_arith);
    assert(max_seq * (n * h) == 4 * (max_seq * q)) by (nonlinear_arith)
        requires
            n * h == 4 * q,
    ;
    vstd::arithmetic::div_mod::lemma_div_multiples_vanish(q, max_seq);
    vstd::arithmetic::div_mod::lemma_div_multiples_vanish(n, max_seq);
    assert(max_seq * q / max_seq == q && max_seq * n / max_seq == n);
}

/// The words of the adapter's intermediate rows for decode and prefill; `widest` is its
/// widest row.
pub fn lora_scratch_lens(widest: usize, prefill_m: usize) -> (r: (usize, Option<usize>))
    ensures
        r.0 == wider(widest as int, 2),
        r.1 is Some == (prefill_m > 0),
        r.1 matches Some(n) ==> n == if prefill_m * r.0 <= usize::MAX {
            prefill_m * r.0
        } else {
            usize::MAX as int
        },
{
    let w: usize = if widest >= 2 { widest } else { 2 };
    let pf: Option<usize> = if prefill_m > 0 {
        Some(match prefill_m.checked_mul(w) {
            Some(n) => n,
            None => usize::MAX,
        })
    } else {
        None
    };
    (w, pf)
}

/// What a session starts with besides its graph.
#[derive(Clone, Copy, Debug, PartialEq, Eq)]
pub struct SessionStart {
    pub max_seq: usize,
    pub vocab: usize,
    pub timestamps: bool,
    /// Per-pass timing was asked for.
    pub profile: bool,
    pub staged_read: bool,
    pub spin_read: bool,
    pub preenc: bool,
    pub prefill_m: usize,
    pub tail: bool,
    pub live_rows: bool,
    /// Some verify passes have row parameters of their own.
    pub verify_params: bool,
    /// The rows of the verify epilogue, and whether verify has a pass list of its own.
    pub verify: Option<(usize, bool)>,
    pub sliding_window: usize,
    pub decode_splits: u32,
    /// The depth past which the deep arm runs, and its splits.
    pub deep: Option<(u32, u32)>,
    pub deep_full_only: bool,
}

impl Gemma4E4bWgpu {
    /// This is at position zero with nothing in flight and nothing cached.
    pub open spec fn starts(&self, s: &SessionStart) -> bool {
        &&& self.max_seq == s.max_seq
        &&& self.pos == 0
        &&& self.kv_epoch == 0
        &&& self.vocab == s.vocab
        &&& !self.validated
        &&& self.timestamps == s.timestamps
        &&& self.prof == if s.profile && s.timestamps { ProfMode::PerDispatch } else { ProfMode::Off }
        &&& self.staged_read == s.staged_read
        &&& self.spin_read == s.spin_read
        &&& self.preenc == s.preenc
        &&& self.pending is None
        &&& self.pipe_cached@ == seq![None::<SplitArm>, None::<SplitArm>]
        &&& self.pipe_parity == 0
        &&& self.pipe_read == 0
        &&& self.pipe_inflight == 0
        &&& self.prefill == if s.prefill_m > 0 {
            Some(
                PrefillState {
                    m: s.prefill_m,
                    tail: s.tail,
                    validated: false,
                    pending: false,
                    rows_live: s.prefill_m,
                    rows_live_verify: s.prefill_m,
                    live_rows_enabled: s.live_rows,
                    verify_params: s.verify_params,
                },
            )
        } else {
            None
        }
        &&& self.verify == match s.verify {
            Some((rows, own)) => Some(
                VerifyState {
                    rows,
                    own_passes: own,
                    validated: false,
                    pending: false,
                    pending_rows: false,
                    rows_live: rows,
                },
            ),
            None => None,
        }
        &&& self.sliding_window == s.sliding_window
        &&& self.decode_splits == s.decode_splits
        &&& self.deep_split_depth == match s.deep {
            Some((d, _)) => d,
            None => 0,
        }
        &&& self.deep_splits == match s.deep {
            Some((_, n)) => n,
            None => s.decode_splits,
        }
        &&& self.deep_full_only == s.deep_full_only
    }

    /// Starts a session.
    pub fn new(s: &SessionStart) -> (r: Self)
        requires
            s.max_seq < usize::MAX - 3,
            s.verify matches Some((rows, _)) ==> 0 < s.prefill_m && rows <= s.prefill_m,
        ensures
            r.wf(),
            r.starts(s),
    {
        let prefill = if s.prefill_m > 0 {
            Some(
                PrefillState {
                    m: s.prefill_m,
                    tail: s.tail,
                    validated: false,
                    pending: false,
                    rows_live: s.prefill_m,
                    rows_live_verify: s.prefill_m,
                    live_rows_enabled: s.live_rows,
                    verify_params: s.verify_params,
                },
            )
        } else {
            None
        };
        let verify = match s.verify {
            Some((rows, own)) => Some(
                VerifyState {
                    rows,
                    own_passes: own,
                    validated: false,
                    pending: false,
                    pending_rows: false,
                    rows_live: rows,
                },
            ),
            None => None,
        };
        let (depth, deep): (u32, u32) = match s.deep {
            Some((d, n)) => (d, n),
            None => (0, s.decode_splits),
        };
        let none: [Option<SplitArm>; 2] = [None, None];
        assert(none@ =~= seq![None::<SplitArm>, None::<SplitArm>]);
        Gemma4E4bWgpu {
            max_seq: s.max_seq,
            pos: 0,
            kv_epoch: 0,
            vocab: s.vocab,
            validated: false,
            timestamps: s.timestamps,
            prof: if s.profile && s.timestamps { ProfMode::PerDispatch } else { ProfMode::Off },
            staged_read: s.staged_read,
            spin_read: s.spin_read,
            preenc: s.preenc,
            pending: None,
            pipe_cached: none,
            pipe_parity: 0,
            pipe_read: 0,
            pipe_inflight: 0,
            prefill,
            verify,
            sliding_window: s.sliding_window,
            decode_splits: s.decode_splits,
            deep_split_depth: depth,
            deep_splits: deep,
            deep_full_only: s.deep_full_only,
        }
    }
}

impl E4bGraph {
    /// The pass that runs in place `i` under an arm: its twin under the deep arm where it has
    /// one.
    pub open spec fn pass_at(&self, i: int, arm: SplitArm) -> Pass {
        if arm == SplitArm::Deep && self.overlay@[i] is Some {
            self.twins@[self.overlay@[i]->0 as int].pass
        } else {
            self.decode@[i]
        }
    }

    pub fn arm_pass(&self, i: usize, arm: SplitArm) -> (r: &Pass)
        requires
            i < self.decode@.len(),
            overlays(
                self.overlay@,
                crate::e4b_emit::twin_models(self.twins@),
                self.decode@.len() as int,
            ),
        ensures
            *r == self.pass_at(i as int, arm),
    {
        if arm == SplitArm::Deep {
            if let Some(t) = self.overlay[i] {
                proof {
                    assert(crate::e4b_head::twin_of(
                        crate::e4b_emit::twin_models(self.twins@),
                        t as int,
                        i as int,
                    ));
                }
                return &self.twins[t].pass;
            }
        }
        &self.decode[i]
    }
}

/// Whether a probe picks pass `i`: by a part of its label, and by its widest binding.
pub open spec fn picked(
    labels: Seq<String>,
    bytes: Seq<u64>,
    needle: Seq<char>,
    widest: Option<u64>,
    i: int,
) -> bool {
    contains(labels[i]@, needle) && (widest matches Some(w) ==> bytes[i] == w)
}

/// The passes below `n` that a probe picks, in order.
pub open spec fn picks(
    labels: Seq<String>,
    bytes: Seq<u64>,
    needle: Seq<char>,
    widest: Option<u64>,
    n: int,
) -> Seq<usize>
    decreases n,
{
    if n <= 0 {
        Seq::empty()
    } else {
        let s = picks(labels, bytes, needle, widest, n - 1);
        if picked(labels, bytes, needle, widest, n - 1) {
            s.push((n - 1) as usize)
        } else {
            s
        }
    }
}

/// `n` copies of `s` one after the other.
pub open spec fn copies_of(s: Seq<usize>, n: int) -> Seq<usize>
    decreases n,
{
    if n <= 0 {
        Seq::empty()
    } else {
        copies_of(s, n - 1) + s
    }
}

/// A list of passes, `copies` times over.
pub fn copies_list(src: &Vec<usize>, copies: usize) -> (r: Vec<usize>)
    ensures
        r@ == copies_of(src@, copies as int),
{
    let mut r: Vec<usize> = Vec::new();
    let mut k: usize = 0;
    while k < copies
        invariant
            k <= copies,
            r@ == copies_of(src@, k as int),
        decreases copies - k,
    {
        let mut j: usize = 0;
        let ghost before = r@;
        while j < src.len()
            invariant
                j <= src@.len(),
                r@ == before + src@.take(j as int),
            decreases src@.len() - j,
        {
            r.push(src[j]);
            j = j + 1;
            assert(src@.take(j as int) =~= src@.take(j - 1).push(src@[j - 1]));
        }
        assert(src@.take(j as int) =~= src@);
        k = k + 1;
    }
    r
}

/// The passes that a probe runs again after the graph's own: those that it picks, `copies`
/// times over.
pub fn probe_append_class(
    labels: &Vec<String>,
    bytes: &Vec<u64>,
    needle: &str,
    widest: Option<u64>,
    copies: usize,
) -> (r: Vec<usize>)
    requires
        labels@.len() == bytes@.len(),
    ensures
        r@ == copies_of(
            picks(labels@, bytes@, needle@, widest, labels@.len() as int),
            copies as int,
        ),
{
    let mut src: Vec<usize> = Vec::new();
    let mut i: usize = 0;
    while i < labels.len()
        invariant
            i <= labels@.len(),
            labels@.len() == bytes@.len(),
            src@ == picks(labels@, bytes@, needle@, widest, i as int),
        decreases labels@.len() - i,
    {
        let wide = match widest {
            Some(w) => bytes[i] == w,
            None => true,
        };
        if wide && mentions(labels[i].as_str(), needle) {
            src.push(i);
        }
        i = i + 1;
    }
    copies_list(&src, copies)
}

/// The bytes bound by a pass: all of them, and those of its widest buffer.
pub open spec fn bound_bytes(sizes: Seq<u64>) -> (int, int)
    decreases sizes.len(),
{
    if sizes.len() == 0 {
        (0, 0)
    } else {
        let (sum, widest) = bound_bytes(sizes.drop_last());
        (sum + sizes.last(), wider(widest, sizes.last() as int))
    }
}

/// The bytes bound by a pass whose buffers have these sizes.
pub fn bind_bytes(sizes: &[u64]) -> (r: (u64, u64))
    requires
        bound_bytes(sizes@).0 <= u64::MAX,
    ensures
        r.0 == bound_bytes(sizes@).0,
        r.1 == bound_bytes(sizes@).1,
{
    let mut sum: u64 = 0;
    let mut widest: u64 = 0;
    let mut i: usize = 0;
    while i < sizes.len()
        invariant
            i <= sizes@.len(),
            bound_bytes(sizes@).0 <= u64::MAX,
            sum == bound_bytes(sizes@.take(i as int)).0,
            widest == bound_bytes(sizes@.take(i as int)).1,
        decreases sizes@.len() - i,
    {
        proof {
            lemma_bound_take(sizes@, i + 1);
            assert(sizes@.take(i + 1).drop_last() =~= sizes@.take(i as int));
            assert(sizes@.take(i + 1).last() == sizes@[i as int]);
        }
        sum = sum + sizes[i];
        if sizes[i] > widest {
            widest = sizes[i];
        }
        i = i + 1;
    }
    assert(sizes@.take(i as int) =~= sizes@);
    (sum, widest)
}

proof fn lemma_bound_take(s: Seq<u64>, i: int)
    requires
        0 <= i <= s.len(),
    ensures
        bound_bytes(s.take(i)).0 <= bound_bytes(s).0,
    decreases s.len(),
{
    if i == s.len() {
        assert(s.take(i) =~= s);
    } else {
        lemma_bound_take(s.drop_last(), i);
        assert(s.drop_last().take(i) =~= s.take(i));
    }
}

/// How many of the first `n` passes run the first attention stage built at head width `hd`,
/// folded or not.
pub open spec fn flash1_count(passes: Seq<Pass>, hd: u32, n: int) -> int
    decreases n,
{
    if n <= 0 {
        0
    } else {
        flash1_count(passes, hd, n - 1) + if passes[n - 1].pipe == Pipe::Flash1(hd)
            || passes[n - 1].pipe == Pipe::Flash1Fold(hd) {
            1int
        } else {
            0
        }
    }
}

impl E4bGraph {
    /// For each head width, how many decode passes run its first attention stage.
    pub fn flash1_route(&self, heads: &Vec<u32>) -> (r: Vec<(u32, usize)>)
        ensures
            r@.len() == heads@.len(),
            forall|i: int|
                0 <= i < heads@.len() ==> (#[trigger] r@[i]).0 == heads@[i] && r@[i].1
                    == flash1_count(self.decode@, heads@[i], self.decode@.len() as int),
    {
        let mut r: Vec<(u32, usize)> = Vec::new();
        let mut h: usize = 0;
        while h < heads.len()
            invariant
                h <= heads@.len(),
                r@.len() == h,
                forall|i: int|
                    0 <= i < h ==> (#[trigger] r@[i]).0 == heads@[i] && r@[i].1 == flash1_count(
                        self.decode@,
                        heads@[i],
                        self.decode@.len() as int,
                    ),
            decreases heads@.len() - h,
        {
            let hd: u32 = heads[h];
            let mut n: usize = 0;
            let mut i: usize = 0;
            while i < self.decode.len()
                invariant
                    i <= self.decode@.len(),
                    n <= i,
                    n == flash1_count(self.decode@, hd, i as int),
                decreases self.decode@.len() - i,
            {
                let mine = match self.decode[i].pipe {
                    Pipe::Flash1(w) => w == hd,
                    Pipe::Flash1Fold(w) => w == hd,
                    _ => false,
                };
                if mine {
                    n = n + 1;
                }
                i = i + 1;
            }
            r.push((hd, n));
            h = h + 1;
        }
        r
    }

    /// The passes of a decode step.
    pub fn pass_count(&self) -> (r: usize)
        ensures
            r == self.decode@.len(),
    {
        self.decode.len()
    }

    /// The passes of a prefill chunk.
    pub fn prefill_pass_count(&self) -> (r: usize)
        ensures
            r == if self.prefill_m > 0 { self.prefill@.len() } else { 0 },
    {
        if self.prefill_m > 0 {
            self.prefill.len()
        } else {
            0
        }
    }

    /// The bytes of weights that a decode step reads.
    pub fn weight_bytes_per_token(&self) -> (r: u64)
        ensures
            r == self.tally.weight_bytes,
    {
        self.tally.weight_bytes
    }
}

} // verus!
