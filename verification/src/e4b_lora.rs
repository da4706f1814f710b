//! Low-rank adapters of the E4B decoder: their shapes, routing tables and passes.
use vstd::prelude::*;
use crate::e4b_emit::{div_up, grid_1d, groups_for, one_d, Builder, Limits, Lists};
use crate::e4b_ir::{at, buf, param, uni, Buf, Grid, LoraKind, Pipe, Uniform};

verus! {

/// The sum of a sequence of widths.
pub open spec fn total(s: Seq<usize>) -> int
    decreases s.len(),
{
    if s.len() == 0 {
        0
    } else {
        total(s.drop_last()) + s.last()
    }
}

pub proof fn lemma_total_take(s: Seq<usize>, i: int)
    requires
        0 <= i <= s.len(),
    ensures
        0 <= total(s.take(i)) <= total(s),
        i < s.len() ==> total(s.take(i + 1)) == total(s.take(i)) + s[i],
    decreases s.len(),
{
    if i < s.len() {
        assert(s.take(i + 1).drop_last() =~= s.take(i));
        assert(s.take(i + 1).last() == s[i]);
    }
    if s.len() == 0 {
    } else if i == s.len() {
        assert(s.take(i) =~= s);
        lemma_total_take(s.drop_last(), i - 1);
        assert(s.drop_last().take(i - 1) =~= s.drop_last());
    } else {
        lemma_total_take(s.drop_last(), i);
        assert(s.drop_last().take(i) =~= s.take(i));
    }
}

pub fn sum_widths(v: &Vec<usize>) -> (r: usize)
    requires
        total(v@) <= usize::MAX,
    ensures
        r == total(v@),
{
    let mut acc: usize = 0;
    let mut i: usize = 0;
    while i < v.len()
        invariant
            i <= v.len(),
            acc == total(v@.take(i as int)),
            total(v@) <= usize::MAX,
        decreases v.len() - i,
    {
        proof {
            lemma_total_take(v@, i as int);
            lemma_total_take(v@, i + 1);
        }
        acc = acc + v[i];
        i = i + 1;
    }
    assert(v@.take(i as int) =~= v@);
    acc
}

/// Whether every width is even.
pub open spec fn all_even(s: Seq<usize>) -> bool {
    forall|i: int| 0 <= i < s.len() ==> #[trigger] s[i] % 2 == 0
}

fn evens(v: &Vec<usize>) -> (r: bool)
    ensures
        r == all_even(v@),
{
    let mut i: usize = 0;
    while i < v.len()
        invariant
            i <= v.len(),
            forall|j: int| 0 <= j < i ==> #[trigger] v@[j] % 2 == 0,
        decreases v.len() - i,
    {
        if v[i] % 2 != 0 {
            assert(v@[i as int] % 2 != 0);
            return false;
        }
        i = i + 1;
    }
    true
}

/// The adapter matrices at one place of a layer.
///
/// `widths` are the output widths of the fused projections, one low-rank pair each; `segs`
/// are the widths of the buffers that the output is spread over.
#[derive(Clone, Debug)]
pub struct E4bLoraSite {
    pub a: Vec<u16>,
    pub b: Vec<u16>,
    pub widths: Vec<usize>,
    pub segs: Vec<usize>,
    pub k: usize,
    pub rank: usize,
}

/// What can be wrong with an adapter site.
#[derive(Clone, Copy, Debug, PartialEq, Eq, Structural)]
pub enum LoraSiteError {
    NoSlices,
    NoSegments,
    SegmentsDoNotCover,
    ZeroRankOrK,
    RankExceedsKernel,
    LengthOfA,
    LengthOfB,
    OddK,
    OddWidth,
}

impl E4bLoraSite {
    /// The first thing wrong with the site, in the order in which it is looked for.
    pub open spec fn defect(&self, max_rank: usize) -> Option<LoraSiteError> {
        if self.widths@.len() == 0 {
            Some(LoraSiteError::NoSlices)
        } else if self.segs@.len() == 0 {
            Some(LoraSiteError::NoSegments)
        } else if total(self.segs@) != total(self.widths@) {
            Some(LoraSiteError::SegmentsDoNotCover)
        } else if self.rank == 0 || self.k == 0 {
            Some(LoraSiteError::ZeroRankOrK)
        } else if self.rank > max_rank {
            Some(LoraSiteError::RankExceedsKernel)
        } else if self.a@.len() != self.widths@.len() * self.rank * self.k {
            Some(LoraSiteError::LengthOfA)
        } else if self.b@.len() != total(self.widths@) * self.rank {
            Some(LoraSiteError::LengthOfB)
        } else if self.k % 2 != 0 {
            Some(LoraSiteError::OddK)
        } else if !(all_even(self.widths@) && all_even(self.segs@)) {
            Some(LoraSiteError::OddWidth)
        } else {
            None
        }
    }

    /// The sizes that a check of the site computes fit the address type.
    pub open spec fn sizes_fit(&self, max_rank: usize) -> bool {
        &&& total(self.widths@) <= usize::MAX
        &&& total(self.segs@) <= usize::MAX
        &&& self.rank <= max_rank ==> {
            &&& self.widths@.len() * self.rank * self.k <= usize::MAX
            &&& self.widths@.len() * self.rank <= usize::MAX
            &&& total(self.widths@) * self.rank <= usize::MAX
        }
    }

    pub fn validate(&self, max_rank: usize) -> (r: Result<(), LoraSiteError>)
        requires
            self.sizes_fit(max_rank),
        ensures
            match r {
                Ok(_) => self.defect(max_rank) is None,
                Err(e) => self.defect(max_rank) == Some(e),
            },
    {
        if self.widths.len() == 0 {
            return Err(LoraSiteError::NoSlices);
        }
        if self.segs.len() == 0 {
            return Err(LoraSiteError::NoSegments);
        }
        let width = sum_widths(&self.widths);
        if sum_widths(&self.segs) != width {
            return Err(LoraSiteError::SegmentsDoNotCover);
        }
        if self.rank == 0 || self.k == 0 {
            return Err(LoraSiteError::ZeroRankOrK);
        }
        if self.rank > max_rank {
            return Err(LoraSiteError::RankExceedsKernel);
        }
        if self.a.len() != self.widths.len() * self.rank * self.k {
            return Err(LoraSiteError::LengthOfA);
        }
        if self.b.len() != width * self.rank {
            return Err(LoraSiteError::LengthOfB);
        }
        if self.k % 2 != 0 {
            return Err(LoraSiteError::OddK);
        }
        if !(evens(&self.widths) && evens(&self.segs)) {
            return Err(LoraSiteError::OddWidth);
        }
        Ok(())
    }

    /// The output width of all fused projections together.
    pub fn total_width(&self) -> (r: usize)
        requires
            total(self.widths@) <= usize::MAX,
        ensures
            r == total(self.widths@),
    {
        sum_widths(&self.widths)
    }

    /// Passes that one application takes: the fused product, and a conversion of each
    /// segment before and after it.
    pub open spec fn passes(&self) -> int {
        1 + 2 * self.segs@.len() as int
    }

    pub fn pass_count(&self) -> (r: usize)
        requires
            self.passes() <= usize::MAX,
        ensures
            r == self.passes(),
    {
        1 + 2 * self.segs.len()
    }
}

/// How tokens are routed to adapters.
pub struct LoraMeta {
    pub token_indices_sorted: Vec<i32>,
    pub num_tokens_per_lora: Vec<i32>,
    pub lora_token_start_loc: Vec<i32>,
    pub active_lora_ids: Vec<i32>,
    pub max_loras: usize,
    pub grid_loras: usize,
}

/// The routing table as one array, with the place of each part in it.
pub struct LoraMetaLayout {
    pub data: Vec<i32>,
    pub off_counts: u32,
    pub off_start: u32,
    pub off_active: u32,
    pub off_slice_n: u32,
    pub off_slice_start: u32,
    pub off_b_off: u32,
    pub off_b_d0: u32,
}

/// Where each of the seven later parts of the routing table starts, and where it ends.
pub open spec fn meta_offset(meta: LoraMeta, slices: int, part: int) -> int
    recommends
        0 <= part <= 7,
{
    let routed = meta.token_indices_sorted@.len() as int;
    let counted = routed + meta.num_tokens_per_lora@.len();
    let started = counted + meta.lora_token_start_loc@.len();
    let active = started + meta.active_lora_ids@.len();
    if part == 0 {
        routed
    } else if part == 1 {
        counted
    } else if part == 2 {
        started
    } else {
        active + (part - 3) * slices
    }
}

/// The parts of the table that are computed from the slice widths.
pub open spec fn slice_words(widths: Seq<usize>, rank: int, max_loras: int) -> Seq<i32> {
    Seq::new(widths.len(), |i: int| widths[i] as i32)
        + Seq::new(widths.len(), |i: int| total(widths.take(i)) as i32)
        + Seq::new(widths.len(), |i: int| (max_loras * total(widths.take(i)) * rank) as i32)
        + Seq::new(widths.len(), |i: int| (widths[i] * rank) as i32)
}

pub open spec fn meta_words(meta: LoraMeta, widths: Seq<usize>, rank: int) -> Seq<i32> {
    meta.token_indices_sorted@ + meta.num_tokens_per_lora@ + meta.lora_token_start_loc@
        + meta.active_lora_ids@ + slice_words(widths, rank, meta.max_loras as int)
}

fn extend_i32(dst: &mut Vec<i32>, src: &Vec<i32>)
    ensures
        final(dst)@ == old(dst)@ + src@,
{
    let mut i: usize = 0;
    while i < src.len()
        invariant
            i <= src.len(),
            dst@ == old(dst)@ + src@.take(i as int),
        decreases src.len() - i,
    {
        dst.push(src[i]);
        i = i + 1;
        assert(src@.take(i as int) =~= src@.take(i - 1).push(src@[i - 1]));
    }
    assert(src@.take(i as int) =~= src@);
}

proof fn lemma_scaled(max_loras: int, a: int, b: int, rank: int)
    by (nonlinear_arith)
    requires
        0 <= max_loras,
        0 <= a <= b,
        0 <= rank,
    ensures
        0 <= max_loras * a <= max_loras * b,
        0 <= max_loras * a * rank <= max_loras * b * rank,
{
}

proof fn lemma_scaled_sum(max_loras: int, a: int, w: int, rank: int)
    by (nonlinear_arith)
    ensures
        max_loras * (a + w) * rank == max_loras * a * rank + max_loras * w * rank,
{
}

/// Lays the routing table out for the slices of one site.
pub fn build_lora_meta(meta: &LoraMeta, widths: &Vec<usize>, rank: usize) -> (r: LoraMetaLayout)
    requires
        total(widths@) <= usize::MAX,
        meta.max_loras * total(widths@) <= usize::MAX,
        meta.max_loras * total(widths@) * rank <= usize::MAX,
        total(widths@) * rank <= usize::MAX,
        meta_offset(*meta, widths@.len() as int, 7) <= usize::MAX,
    ensures
        r.data@ == meta_words(*meta, widths@, rank as int),
        r.off_counts == meta_offset(*meta, widths@.len() as int, 0) as u32,
        r.off_start == meta_offset(*meta, widths@.len() as int, 1) as u32,
        r.off_active == meta_offset(*meta, widths@.len() as int, 2) as u32,
        r.off_slice_n == meta_offset(*meta, widths@.len() as int, 3) as u32,
        r.off_slice_start == meta_offset(*meta, widths@.len() as int, 4) as u32,
        r.off_b_off == meta_offset(*meta, widths@.len() as int, 5) as u32,
        r.off_b_d0 == meta_offset(*meta, widths@.len() as int, 6) as u32,
{
    let mut data: Vec<i32> = Vec::new();
    extend_i32(&mut data, &meta.token_indices_sorted);
    let off_counts: u32 = data.len() as u32;
    extend_i32(&mut data, &meta.num_tokens_per_lora);
    let off_start: u32 = data.len() as u32;
    extend_i32(&mut data, &meta.lora_token_start_loc);
    let off_active: u32 = data.len() as u32;
    extend_i32(&mut data, &meta.active_lora_ids);
    let off_slice_n: u32 = data.len() as u32;
    let ghost routed = data@;
    let ghost w = widths@;
    let n: usize = widths.len();
    let mut i: usize = 0;
    while i < n
        invariant
            i <= n == w.len(),
            w == widths@,
            data@ == routed + Seq::new(i as nat, |j: int| w[j] as i32),
        decreases n - i,
    {
        data.push(widths[i] as i32);
        i = i + 1;
        assert(data@ =~= routed + Seq::new(i as nat, |j: int| w[j] as i32));
    }
    let ghost sliced = data@;
    let off_slice_start: u32 = data.len() as u32;
    let mut acc: usize = 0;
    i = 0;
    while i < n
        invariant
            i <= n == w.len(),
            w == widths@,
            total(w) <= usize::MAX,
            acc == total(w.take(i as int)),
            data@ == sliced + Seq::new(i as nat, |j: int| total(w.take(j)) as i32),
        decreases n - i,
    {
        proof {
            lemma_total_take(w, i as int);
            lemma_total_take(w, i + 1);
        }
        data.push(acc as i32);
        acc = acc + widths[i];
        i = i + 1;
        assert(data@ =~= sliced + Seq::new(i as nat, |j: int| total(w.take(j)) as i32));
    }
    let ghost started = data@;
    let off_b_off: u32 = data.len() as u32;
    let mut b_acc: usize = 0;
    i = 0;
    while i < n
        invariant
            i <= n == w.len(),
            w == widths@,
            meta.max_loras * total(w) * rank <= usize::MAX,
            meta.max_loras * total(w) <= usize::MAX,
            b_acc == meta.max_loras * total(w.take(i as int)) * rank,
            data@ == started + Seq::new(
                i as nat,
                |j: int| (meta.max_loras * total(w.take(j)) * rank) as i32,
            ),
        decreases n - i,
    {
        proof {
            lemma_total_take(w, i as int);
            lemma_total_take(w, i + 1);
            lemma_scaled(meta.max_loras as int, w[i as int] as int, total(w), rank as int);
            lemma_scaled(meta.max_loras as int, total(w.take(i + 1)), total(w), rank as int);
            lemma_scaled_sum(
                meta.max_loras as int,
                total(w.take(i as int)),
                w[i as int] as int,
                rank as int,
            );
        }
        data.push(b_acc as i32);
        b_acc = b_acc + meta.max_loras * widths[i] * rank;
        i = i + 1;
        assert(data@ =~= started + Seq::new(
            i as nat,
            |j: int| (meta.max_loras * total(w.take(j)) * rank) as i32,
        ));
    }
    let ghost based = data@;
    let off_b_d0: u32 = data.len() as u32;
    i = 0;
    while i < n
        invariant
            i <= n == w.len(),
            w == widths@,
            total(w) * rank <= usize::MAX,
            data@ == based + Seq::new(i as nat, |j: int| (w[j] * rank) as i32),
        decreases n - i,
    {
        proof {
            lemma_total_take(w, i as int);
            lemma_total_take(w, i + 1);
            lemma_scaled(1, w[i as int] as int, total(w), rank as int);
        }
        data.push((widths[i] * rank) as i32);
        i = i + 1;
        assert(data@ =~= based + Seq::new(i as nat, |j: int| (w[j] * rank) as i32));
    }
    assert(data@ =~= meta_words(*meta, widths@, rank as int));
    LoraMetaLayout {
        data,
        off_counts,
        off_start,
        off_active,
        off_slice_n,
        off_slice_start,
        off_b_off,
        off_b_d0,
    }
}

/// The largest width; zero of none.
pub open spec fn widest(s: Seq<usize>) -> int
    decreases s.len(),
{
    if s.len() == 0 {
        0
    } else if s.last() > widest(s.drop_last()) {
        s.last() as int
    } else {
        widest(s.drop_last())
    }
}

pub fn max_width(v: &Vec<usize>) -> (r: usize)
    ensures
        r == widest(v@),
{
    let mut best: usize = 0;
    let mut i: usize = 0;
    while i < v.len()
        invariant
            i <= v.len(),
            best == widest(v@.take(i as int)),
        decreases v.len() - i,
    {
        if v[i] > best {
            best = v[i];
        }
        i = i + 1;
        assert(v@.take(i as int).drop_last() =~= v@.take(i - 1));
        assert(v@.take(i as int).last() == v@[i - 1]);
    }
    assert(v@.take(i as int) =~= v@);
    best
}

/// Elements that the conversion of segment `i` touches: every element when widening, every
/// packed pair when packing again.
pub open spec fn cvt_total(widen: bool, m: int, w: int) -> int {
    if widen {
        m * w
    } else {
        m * w / 2
    }
}

pub open spec fn cvt_params(widen: bool, m: int, widths: Seq<usize>, i: int) -> Uniform {
    Uniform::LoraCvt {
        m: m as u32,
        width: widths[i] as u32,
        pk_row_words: (widths[i] / 2) as u32,
        wide_row_elems: total(widths) as u32,
        wide_col_off: total(widths.take(i)) as u32,
        total: cvt_total(widen, m, widths[i] as int) as u32,
    }
}

pub open spec fn fused_params(meta: LoraMeta, site: E4bLoraSite, m: int) -> Uniform {
    let s = site.widths@.len() as int;
    Uniform::LoraFused {
        m: m as u32,
        rank: site.rank as u32,
        k: site.k as u32,
        a_stride: (site.rank * site.k) as u32,
        y_row_stride: total(site.segs@) as u32,
        win_len: total(site.segs@) as u32,
        off_counts: meta_offset(meta, s, 0) as u32,
        off_start: meta_offset(meta, s, 1) as u32,
        off_active: meta_offset(meta, s, 2) as u32,
        off_slice_n: meta_offset(meta, s, 3) as u32,
        off_slice_start: meta_offset(meta, s, 4) as u32,
        off_b_off: meta_offset(meta, s, 5) as u32,
        off_b_d0: meta_offset(meta, s, 6) as u32,
    }
}

/// The launch of the fused product: column groups of every row, slices, adapters.
pub open spec fn fused_grid(lim: Limits, meta: LoraMeta, site: E4bLoraSite, m: int) -> Grid {
    Grid::Dims(
        (m * groups_for(widest(site.widths@), lim.lora_cols_per_group as int)) as u32,
        site.widths@.len() as u32,
        meta.grid_loras as u32,
    )
}

/// Where an adapter is applied.
#[derive(Clone, Copy, Debug, PartialEq, Eq, Structural)]
pub struct LoraPlace {
    pub prefill: bool,
    pub layer: usize,
    pub kind: LoraKind,
}

impl Lists {
    /// The conversions of the first `n` segments.
    pub open spec fn lora_cvt(
        self,
        widen: bool,
        scratch: Buf,
        m: int,
        widths: Seq<usize>,
        segs: Seq<Buf>,
        n: int,
    ) -> Lists
        decreases n,
    {
        if n <= 0 {
            self
        } else {
            let i = n - 1;
            self.lora_cvt(widen, scratch, m, widths, segs, i).pushed(
                if widen { Pipe::LoraWiden } else { Pipe::LoraRepack },
                seq![
                    at(0, segs[i], 0),
                    at(1, scratch, 0),
                    param(2, cvt_params(widen, m, widths, i)),
                ],
                one_d(cvt_total(widen, m, widths[i] as int), 256),
            )
        }
    }

    /// Adds an adapter's product to the segments of a projection's output.
    pub open spec fn lora_site(
        self,
        lim: Limits,
        place: LoraPlace,
        site: E4bLoraSite,
        meta: LoraMeta,
        m: int,
        x: Buf,
        segs: Seq<Buf>,
    ) -> Lists {
        let scratch = Buf::LoraScratch(place.prefill);
        let n = site.segs@.len() as int;
        self.lora_cvt(true, scratch, m, site.segs@, segs, n).pushed(
            Pipe::LoraFused,
            seq![
                at(0, x, 0),
                at(1, Buf::LoraA(place.layer, place.kind), 0),
                at(2, Buf::LoraB(place.layer, place.kind), 0),
                at(3, scratch, 0),
                at(4, Buf::LoraMeta(place.prefill, place.layer, place.kind), 0),
                param(5, fused_params(meta, site, m)),
            ],
            fused_grid(lim, meta, site, m),
        ).lora_cvt(false, scratch, m, site.segs@, segs, n)
    }
}

/// Sizes fit the address type and the launch fits the device.
pub open spec fn lora_ok(lim: Limits, site: E4bLoraSite, meta: LoraMeta, m: int) -> bool {
    let groups = groups_for(widest(site.widths@), lim.lora_cols_per_group as int);
    &&& lim.lora_cols_per_group > 0
    &&& site.defect(lim.lora_max_rank) is None
    &&& total(site.widths@) <= usize::MAX
    &&& m * total(site.segs@) <= usize::MAX
    &&& site.rank * site.k <= usize::MAX
    &&& meta.max_loras * total(site.widths@) <= usize::MAX
    &&& meta.max_loras * total(site.widths@) * site.rank <= usize::MAX
    &&& total(site.widths@) * site.rank <= usize::MAX
    &&& meta_offset(meta, site.widths@.len() as int, 7) <= usize::MAX
    &&& m * groups <= usize::MAX
    &&& (m * groups) as u32 <= lim.max_groups_per_dim
    &&& site.widths@.len() as u32 <= lim.max_groups_per_dim
    &&& meta.grid_loras as u32 <= lim.max_groups_per_dim
}

fn emit_cvt(
    b: &mut Builder,
    widen: bool,
    scratch: Buf,
    m: usize,
    widths: &Vec<usize>,
    segs: &Vec<Buf>,
)
    requires
        widths@.len() == segs@.len(),
        total(widths@) <= usize::MAX,
        m * total(widths@) <= usize::MAX,
    ensures
        final(b)@.target == old(b)@.target,
        final(b)@ == old(b)@.lora_cvt(
            widen,
            scratch,
            m as int,
            widths@,
            segs@,
            segs@.len() as int,
        ),
{
    let total_w: usize = sum_widths(widths);
    let mut off: usize = 0;
    let mut i: usize = 0;
    while i < segs.len()
        invariant
            i <= segs.len() == widths.len(),
            total_w == total(widths@) <= usize::MAX,
            m * total(widths@) <= usize::MAX,
            off == total(widths@.take(i as int)),
            b@.target == old(b)@.target,
            b@ == old(b)@.lora_cvt(widen, scratch, m as int, widths@, segs@, i as int),
        decreases segs.len() - i,
    {
        let w: usize = widths[i];
        proof {
            lemma_total_take(widths@, i as int);
            lemma_total_take(widths@, i + 1);
            lemma_scaled(m as int, w as int, total(widths@), 1);
        }
        let total: usize = if widen { m * w } else { m * w / 2 };
        let p = Uniform::LoraCvt {
            m: m as u32,
            width: w as u32,
            pk_row_words: (w / 2) as u32,
            wide_row_elems: total_w as u32,
            wide_col_off: off as u32,
            total: total as u32,
        };
        let pipe = if widen { Pipe::LoraWiden } else { Pipe::LoraRepack };
        b.push(pipe, vec![buf(0, segs[i]), buf(1, scratch), uni(2, p)], grid_1d(total, 256));
        off = off + w;
        i = i + 1;
    }
}

/// Appends the passes that add an adapter's product to a projection's output segments.
pub fn emit_lora_site(
    b: &mut Builder,
    lim: &Limits,
    place: LoraPlace,
    site: &E4bLoraSite,
    meta: &LoraMeta,
    m: usize,
    x: Buf,
    segs: &Vec<Buf>,
)
    requires
        lora_ok(*lim, *site, *meta, m as int),
        segs@.len() == site.segs@.len(),
    ensures
        final(b)@.target == old(b)@.target,
        final(b)@ == old(b)@.lora_site(*lim, place, *site, *meta, m as int, x, segs@),
{
    let scratch = Buf::LoraScratch(place.prefill);
    let total_w: usize = sum_widths(&site.segs);
    emit_cvt(b, true, scratch, m, &site.segs, segs);
    let ml = build_lora_meta(meta, &site.widths, site.rank);
    let params = Uniform::LoraFused {
        m: m as u32,
        rank: site.rank as u32,
        k: site.k as u32,
        a_stride: (site.rank * site.k) as u32,
        y_row_stride: total_w as u32,
        win_len: total_w as u32,
        off_counts: ml.off_counts,
        off_start: ml.off_start,
        off_active: ml.off_active,
        off_slice_n: ml.off_slice_n,
        off_slice_start: ml.off_slice_start,
        off_b_off: ml.off_b_off,
        off_b_d0: ml.off_b_d0,
    };
    let cols: usize = div_up(max_width(&site.widths), lim.lora_cols_per_group as usize);
    let grid = Grid::Dims(
        (m * cols) as u32,
        site.widths.len() as u32,
        meta.grid_loras as u32,
    );
    b.push(
        Pipe::LoraFused,
        vec![
            buf(0, x),
            buf(1, Buf::LoraA(place.layer, place.kind)),
            buf(2, Buf::LoraB(place.layer, place.kind)),
            buf(3, scratch),
            buf(4, Buf::LoraMeta(place.prefill, place.layer, place.kind)),
            uni(5, params),
        ],
        grid,
    );
    emit_cvt(b, false, scratch, m, &site.segs, segs);
}

/// The adapter sites of one layer.
#[derive(Clone, Debug)]
pub struct E4bLoraLayer {
    pub qkv: Option<E4bLoraSite>,
    pub o: Option<E4bLoraSite>,
    pub gate_up: Option<E4bLoraSite>,
    pub down: Option<E4bLoraSite>,
}

pub open spec fn site_passes(site: Option<E4bLoraSite>) -> int {
    match site {
        Some(s) => s.passes(),
        None => 0,
    }
}

pub open spec fn site_width(site: Option<E4bLoraSite>) -> int {
    match site {
        Some(s) => total(s.widths@),
        None => 0,
    }
}

pub open spec fn max_int(a: int, b: int) -> int {
    if a >= b {
        a
    } else {
        b
    }
}

impl E4bLoraLayer {
    pub open spec fn passes(&self) -> int {
        site_passes(self.qkv) + site_passes(self.o) + site_passes(self.gate_up) + site_passes(
            self.down,
        )
    }

    pub open spec fn width(&self) -> int {
        max_int(
            max_int(site_width(self.qkv), site_width(self.o)),
            max_int(site_width(self.gate_up), site_width(self.down)),
        )
    }
}

/// A loaded adapter: one entry per hidden layer.
pub struct E4bLora {
    rank: usize,
    matched: usize,
    skipped: Vec<String>,
    layers: Vec<E4bLoraLayer>,
}

pub open spec fn passes_of(layers: Seq<E4bLoraLayer>) -> int
    decreases layers.len(),
{
    if layers.len() == 0 {
        0
    } else {
        passes_of(layers.drop_last()) + layers.last().passes()
    }
}

/// The passes of the first `n` layers, added up layer by layer.
pub open spec fn passes_upto(layers: Seq<E4bLoraLayer>, n: int) -> int
    decreases n,
{
    if n <= 0 {
        0
    } else {
        passes_upto(layers, n - 1) + layers[n - 1].passes()
    }
}

proof fn lemma_passes_upto(layers: Seq<E4bLoraLayer>, n: int)
    requires
        0 <= n <= layers.len(),
    ensures
        passes_of(layers.take(n)) == passes_upto(layers, n),
    decreases n,
{
    if n > 0 {
        lemma_passes_upto(layers, n - 1);
        assert(layers.take(n).drop_last() =~= layers.take(n - 1));
    }
}

/// The passes that an adapter adds to a step are those that it adds to each layer, and a layer's
/// are one and two for each segment of every site that is there.
pub proof fn law_pass_total(layers: Seq<E4bLoraLayer>)
    ensures
        passes_of(layers) == passes_upto(layers, layers.len() as int),
        forall|i: int|
            0 <= i < layers.len() ==> (#[trigger] layers[i]).passes() == site_passes(layers[i].qkv)
                + site_passes(layers[i].o) + site_passes(layers[i].gate_up) + site_passes(
                layers[i].down,
            ),
        forall|s: E4bLoraSite| #[trigger] site_passes(Some(s)) == 1 + 2 * s.segs@.len(),
        site_passes(None) == 0,
{
    lemma_passes_upto(layers, layers.len() as int);
    assert(layers.take(layers.len() as int) =~= layers);
}

pub open spec fn width_of(layers: Seq<E4bLoraLayer>) -> int
    decreases layers.len(),
{
    if layers.len() == 0 {
        0
    } else {
        max_int(width_of(layers.drop_last()), layers.last().width())
    }
}

fn opt_passes(site: &Option<E4bLoraSite>) -> (r: usize)
    requires
        site_passes(*site) <= usize::MAX,
    ensures
        r == site_passes(*site),
{
    match site {
        Some(s) => s.pass_count(),
        None => 0,
    }
}

fn opt_width(site: &Option<E4bLoraSite>) -> (r: usize)
    requires
        site_width(*site) <= usize::MAX,
    ensures
        r == site_width(*site),
{
    match site {
        Some(s) => s.total_width(),
        None => 0,
    }
}

fn max_usize(a: usize, b: usize) -> (r: usize)
    ensures
        r == max_int(a as int, b as int),
{
    if a >= b {
        a
    } else {
        b
    }
}

proof fn lemma_passes_take(s: Seq<E4bLoraLayer>, i: int)
    requires
        0 <= i <= s.len(),
    ensures
        0 <= passes_of(s.take(i)) <= passes_of(s),
        i < s.len() ==> passes_of(s.take(i + 1)) == passes_of(s.take(i)) + s[i].passes(),
        i < s.len() ==> s[i].passes() <= passes_of(s),
    decreases s.len(),
{
    if i < s.len() {
        assert(s.take(i + 1).drop_last() =~= s.take(i));
        assert(s.take(i + 1).last() == s[i]);
    }
    if s.len() == 0 {
    } else if i == s.len() {
        assert(s.take(i) =~= s);
        lemma_passes_take(s.drop_last(), i - 1);
        assert(s.drop_last().take(i - 1) =~= s.drop_last());
    } else {
        lemma_passes_take(s.drop_last(), i);
        assert(s.drop_last().take(i) =~= s.take(i));
        if i == s.len() - 1 {
            assert(s.take(i + 1) =~= s);
        } else {
            assert(s.drop_last()[i] == s[i]);
        }
    }
}

proof fn lemma_width_take(s: Seq<E4bLoraLayer>, i: int)
    requires
        0 <= i < s.len(),
    ensures
        width_of(s.take(i + 1)) == max_int(width_of(s.take(i)), s[i].width()),
        s[i].width() <= width_of(s),
    decreases s.len(),
{
    assert(s.take(i + 1).drop_last() =~= s.take(i));
    assert(s.take(i + 1).last() == s[i]);
    if i < s.len() - 1 {
        lemma_width_take(s.drop_last(), i);
        assert(s.drop_last().take(i) =~= s.take(i));
        assert(s.drop_last().take(i + 1) =~= s.take(i + 1));
    }
}

impl E4bLora {
    pub closed spec fn spec_rank(&self) -> usize {
        self.rank
    }

    pub closed spec fn spec_matched(&self) -> usize {
        self.matched
    }

    pub closed spec fn spec_skipped(&self) -> Seq<String> {
        self.skipped@
    }

    pub closed spec fn spec_layers(&self) -> Seq<E4bLoraLayer> {
        self.layers@
    }

    pub fn rank(&self) -> (r: usize)
        ensures
            r == self.spec_rank(),
    {
        self.rank
    }

    pub fn matched_modules(&self) -> (r: usize)
        ensures
            r == self.spec_matched(),
    {
        self.matched
    }

    pub fn skipped_modules(&self) -> (r: &[String])
        ensures
            r@ == self.spec_skipped(),
    {
        self.skipped.as_slice()
    }

    pub fn layer_count(&self) -> (r: usize)
        ensures
            r == self.spec_layers().len(),
    {
        self.layers.len()
    }

    pub fn layer(&self, i: usize) -> (r: &E4bLoraLayer)
        requires
            i < self.spec_layers().len(),
        ensures
            *r == self.spec_layers()[i as int],
    {
        &self.layers[i]
    }

    /// The widest row of any site.
    pub fn max_row_width(&self) -> (r: usize)
        requires
            width_of(self.spec_layers()) <= usize::MAX,
        ensures
            r == width_of(self.spec_layers()),
    {
        let mut m: usize = 0;
        let mut i: usize = 0;
        while i < self.layers.len()
            invariant
                i <= self.layers.len(),
                width_of(self.layers@) <= usize::MAX,
                m == width_of(self.layers@.take(i as int)),
            decreases self.layers.len() - i,
        {
            let l = &self.layers[i];
            proof {
                lemma_width_take(self.layers@, i as int);
            }
            let w: usize = max_usize(
                max_usize(opt_width(&l.qkv), opt_width(&l.o)),
                max_usize(opt_width(&l.gate_up), opt_width(&l.down)),
            );
            m = max_usize(m, w);
            i = i + 1;
        }
        assert(self.layers@.take(i as int) =~= self.layers@);
        m
    }

    /// Passes that the adapter adds to one layer.
    pub fn layer_pass_count(&self, layer: usize) -> (r: usize)
        requires
            layer < self.spec_layers().len(),
            self.spec_layers()[layer as int].passes() <= usize::MAX,
        ensures
            r == self.spec_layers()[layer as int].passes(),
    {
        let l = &self.layers[layer];
        opt_passes(&l.qkv) + opt_passes(&l.o) + opt_passes(&l.gate_up) + opt_passes(&l.down)
    }

    /// Passes that the adapter adds to a whole step.
    pub fn total_pass_count(&self) -> (r: usize)
        requires
            passes_of(self.spec_layers()) <= usize::MAX,
        ensures
            r == passes_of(self.spec_layers()),
    {
        let mut n: usize = 0;
        let mut i: usize = 0;
        while i < self.layers.len()
            invariant
                i <= self.layers.len(),
                passes_of(self.layers@) <= usize::MAX,
                n == passes_of(self.layers@.take(i as int)),
            decreases self.layers.len() - i,
        {
            proof {
                lemma_passes_take(self.layers@, i as int);
                lemma_passes_take(self.layers@, i + 1);
            }
            n = n + self.layer_pass_count(i);
            i = i + 1;
        }
        assert(self.layers@.take(i as int) =~= self.layers@);
        n
    }
}

impl E4bLora {
    /// Puts an adapter together.
    pub fn assemble(rank: usize, matched: usize, skipped: Vec<String>, layers: Vec<E4bLoraLayer>) -> (r:
        Self)
        ensures
            r.spec_rank() == rank,
            r.spec_matched() == matched,
            r.spec_skipped() == skipped@,
            r.spec_layers() == layers@,
    {
        E4bLora { rank, matched, skipped, layers }
    }
}

/// What can be wrong with a single application of an adapter site.
#[derive(Clone, Copy, Debug, PartialEq, Eq, Structural)]
pub enum LoraProbeError {
    Site(LoraSiteError),
    InputLength,
    SegmentCount,
    /// The given segment does not have the length that its width asks for.
    SegmentLength(usize),
}

/// The first segment from `i` on whose length is not `m` rows of its width.
pub open spec fn bad_segment(lens: Seq<usize>, segs: Seq<usize>, m: int, i: int) -> Option<int>
    decreases segs.len() - i,
{
    if i < 0 || i >= segs.len() {
        None
    } else if lens[i] != m * segs[i] {
        Some(i)
    } else {
        bad_segment(lens, segs, m, i + 1)
    }
}

impl E4bLoraSite {
    pub open spec fn probe_defect(
        &self,
        max_rank: usize,
        x_len: int,
        y_lens: Seq<usize>,
        m: int,
    ) -> Option<LoraProbeError> {
        match self.defect(max_rank) {
            Some(e) => Some(LoraProbeError::Site(e)),
            None => if x_len != m * self.k {
                Some(LoraProbeError::InputLength)
            } else if y_lens.len() != self.segs@.len() {
                Some(LoraProbeError::SegmentCount)
            } else {
                match bad_segment(y_lens, self.segs@, m, 0) {
                    Some(i) => Some(LoraProbeError::SegmentLength(i as usize)),
                    None => None,
                }
            },
        }
    }

    /// Checks a single application of the site to `m` rows, and gives the length of the
    /// scratch buffer that it takes.
    pub fn lora_site_probe(&self, max_rank: usize, x_len: usize, y_lens: &[usize], m: usize) -> (r:
        Result<usize, LoraProbeError>)
        requires
            self.sizes_fit(max_rank),
            m * self.k <= usize::MAX,
            m * total(self.segs@) <= usize::MAX,
        ensures
            match r {
                Ok(n) => self.probe_defect(max_rank, x_len as int, y_lens@, m as int) is None && n
                    == m * total(self.segs@),
                Err(e) => self.probe_defect(max_rank, x_len as int, y_lens@, m as int) == Some(e),
            },
    {
        match self.validate(max_rank) {
            Ok(_) => {},
            Err(e) => {
                return Err(LoraProbeError::Site(e));
            },
        }
        if x_len != m * self.k {
            return Err(LoraProbeError::InputLength);
        }
        if y_lens.len() != self.segs.len() {
            return Err(LoraProbeError::SegmentCount);
        }
        let mut i: usize = 0;
        while i < self.segs.len()
            invariant
                i <= self.segs@.len(),
                y_lens@.len() == self.segs@.len(),
                m * total(self.segs@) <= usize::MAX,
                self.probe_defect(max_rank, x_len as int, y_lens@, m as int) == (match bad_segment(
                    y_lens@,
                    self.segs@,
                    m as int,
                    i as int,
                ) {
                    Some(j) => Some(LoraProbeError::SegmentLength(j as usize)),
                    None => None,
                }),
            decreases self.segs@.len() - i,
        {
            proof {
                lemma_total_take(self.segs@, i as int);
                lemma_total_take(self.segs@, i + 1);
                let w = self.segs@[i as int] as int;
                let t = total(self.segs@);
                assert(m * w <= m * t) by (nonlinear_arith)
                    requires
                        0 <= w <= t,
                        m >= 0,
                ;
            }
            if y_lens[i] != m * self.segs[i] {
                return Err(LoraProbeError::SegmentLength(i));
            }
            i = i + 1;
        }
        let w: usize = sum_widths(&self.segs);
        Ok(m * w)
    }
}

/// Half `j` of a run of words that hold two values each, the first one in the lower half.
pub open spec fn half_at(words: Seq<u32>, j: int) -> u16 {
    if j % 2 == 0 {
        (words[j / 2] & 0xffff) as u16
    } else {
        (words[j / 2] >> 16) as u16
    }
}

/// The first `n` values of words that hold two each.
pub fn unpack_pairs(words: &[u32], n: usize) -> (r: Vec<u16>)
    requires
        n <= 2 * words@.len(),
    ensures
        r@ == Seq::new(n as nat, |j: int| half_at(words@, j)),
{
    let mut r: Vec<u16> = Vec::new();
    let mut j: usize = 0;
    while j < n
        invariant
            j <= n <= 2 * words@.len(),
            r@ == Seq::new(j as nat, |i: int| half_at(words@, i)),
        decreases n - j,
    {
        let w: u32 = words[j / 2];
        let low: u32 = w & 0xffff;
        let high: u32 = w >> 16;
        assert(low < 0x1_0000 && high < 0x1_0000) by (bit_vector)
            requires
                low == w & 0xffff,
                high == w >> 16,
        ;
        r.push(
            if j % 2 == 0 {
                low as u16
            } else {
                high as u16
            },
        );
        j = j + 1;
        assert(r@ =~= Seq::new(j as nat, |i: int| half_at(words@, i)));
    }
    r
}

/// Values put two to a word, the first one in the lower half.
pub fn pack_pairs(v: &[u16]) -> (r: Vec<u32>)
    requires
        v@.len() % 2 == 0,
    ensures
        r@.len() == v@.len() / 2,
        forall|j: int| 0 <= j < v@.len() ==> half_at(r@, j) == #[trigger] v@[j],
{
    let len: usize = v.len();
    let n: usize = len / 2;
    let mut r: Vec<u32> = Vec::new();
    let mut i: usize = 0;
    while i < n
        invariant
            len == v@.len(),
            n == len / 2,
            v@.len() % 2 == 0,
            i <= n,
            r@.len() == i,
            forall|j: int| 0 <= j < 2 * i ==> half_at(r@, j) == #[trigger] v@[j],
        decreases n - i,
    {
        let low: u16 = v[2 * i];
        let high: u16 = v[2 * i + 1];
        let w: u32 = (low as u32) | ((high as u32) << 16);
        assert((w & 0xffff) as u16 == low && (w >> 16) as u16 == high) by (bit_vector)
            requires
                w == (low as u32) | ((high as u32) << 16),
        ;
        let ghost before = r@;
        r.push(w);
        assert forall|j: int| 0 <= j < 2 * i + 2 implies half_at(r@, j) == #[trigger] v@[j] by {
            if j < 2 * i {
                assert(half_at(before, j) == v@[j]);
                assert(r@[j / 2] == before[j / 2]);
            } else {
                assert(r@[j / 2] == w);
            }
        }
        i = i + 1;
    }
    r
}

/// What was put two to a word is what is read of the words.
pub proof fn law_pairs(v: Seq<u16>, words: Seq<u32>)
    requires
        words.len() == v.len() / 2,
        v.len() % 2 == 0,
        forall|j: int| 0 <= j < v.len() ==> half_at(words, j) == #[trigger] v[j],
    ensures
        Seq::new(v.len(), |j: int| half_at(words, j)) == v,
{
    assert(Seq::new(v.len(), |j: int| half_at(words, j)) =~= v);
}

/// The passes that an adapter adds to a step: none where there is none.
pub fn lora_passes(lora: Option<&E4bLora>) -> (r: usize)
    requires
        lora matches Some(l) ==> passes_of(l.spec_layers()) <= usize::MAX,
    ensures
        r == match lora {
            Some(l) => passes_of(l.spec_layers()),
            None => 0,
        },
{
    match lora {
        Some(l) => l.total_pass_count(),
        None => 0,
    }
}

} // verus!
