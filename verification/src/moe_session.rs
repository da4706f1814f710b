//! The decoding session of a mixture-of-experts graph.
use vstd::prelude::*;
use crate::config::LayerType;
use crate::e4b_batch::{find_stray, ids_of, padded_ids, positions, positions_from, stray};
use crate::e4b_emit::F32_ONE;
use crate::e4b_sizes::{copies_list, copies_of};
use crate::moe_graph::{MoeError, MoeGraph, MoeStart};
use crate::moe_ir::MoePass;
use crate::moe_ledger::{labelled, passes_labelled};

verus! {

/// Why an operation is refused.
#[derive(Clone, Copy, Debug, PartialEq, Eq, Structural)]
pub enum MoeSessionError {
    OutOfVocab(u32),
    CacheFull,
    PrefillDisabled,
    ChunkLength,
    LiveRows,
    /// Splice `i` lies past the live rows.
    SplicePast(usize),
    /// Splice `i` does not hold a whole row.
    SpliceWords(usize),
    PastMaxSeq,
    BeyondPos,
    VerifyDisabled,
    BatchLength,
    RowRange,
    NoSuchPass,
    NeedsChunks,
    /// Splice `i` does not hold whole rows.
    SpliceRows(usize),
    /// Splice `i` begins before the one before it ends.
    SpliceOrder(usize),
    /// Splice `i` reaches past the tokens.
    SpliceEnd(usize),
    EmptyPrompt,
    Validation,
}

/// The attention parameters that all layers of a kind share; the factor as its bits.
#[derive(Clone, Copy, Debug, PartialEq, Eq, Structural)]
pub struct FlashDecodeParams {
    pub n_heads: u32,
    pub n_kv: u32,
    pub head_dim: u32,
    pub splits: u32,
    pub total: u32,
    pub start: u32,
    pub ring: u32,
    pub scale: u32,
}

#[derive(Clone, Copy, Debug, PartialEq, Eq, Structural)]
pub struct PfState {
    pub m: usize,
    pub mask_live: bool,
    pub validated: bool,
}

#[derive(Clone, Copy, Debug, PartialEq, Eq, Structural)]
pub struct MoeVerify {
    pub rows: usize,
    pub validated: bool,
}

/// A decoding session.
pub struct Gemma4MoeWgpu {
    pub max_seq: usize,
    pub pos: usize,
    pub vocab: usize,
    pub hidden_words: usize,
    pub validated: bool,
    pub prefix_validated: bool,
    pub passes: usize,
    pub head_start: usize,
    pub prefill: Option<PfState>,
    pub verify: Option<MoeVerify>,
    pub flash_full: Option<FlashDecodeParams>,
    pub flash_sliding: Option<FlashDecodeParams>,
    pub sliding_window: u32,
}

/// A step of the warm-up: a chunk of so many zero tokens, or one zero token.
#[derive(Clone, Copy, Debug, PartialEq, Eq, Structural)]
pub enum WarmUp {
    Chunk(usize),
    Step,
}

/// What a decode step hands to the device.
#[derive(Clone, Copy, Debug, PartialEq, Eq, Structural)]
pub struct MoeStep {
    pub token: i32,
    pub pos: i32,
    pub flash_full: Option<FlashDecodeParams>,
    pub flash_sliding: Option<FlashDecodeParams>,
    /// How many of the decode passes run.
    pub passes: usize,
    pub validate: bool,
}

impl Gemma4MoeWgpu {
    pub open spec fn wf(&self) -> bool {
        &&& self.pos <= self.max_seq
        &&& self.max_seq < usize::MAX
        &&& self.head_start <= self.passes
        &&& self.prefill matches Some(p) ==> p.m > 0
        &&& self.verify matches Some(v) ==> self.prefill is Some && v.rows <= self.prefill->0.m
    }

    /// The shared parameters of the full layers at a position.
    pub open spec fn full_at(&self, pos: int) -> Option<FlashDecodeParams> {
        match self.flash_full {
            Some(p) => Some(FlashDecodeParams { total: (pos + 1) as u32, ..p }),
            None => None,
        }
    }

    /// The shared parameters of the sliding layers at a position: they start where the window
    /// does.
    pub open spec fn sliding_at(&self, pos: int) -> Option<FlashDecodeParams> {
        match self.flash_sliding {
            Some(p) => {
                let total = (pos + 1) as u32;
                Some(
                    FlashDecodeParams {
                        total,
                        start: if total > self.sliding_window {
                            (total - self.sliding_window) as u32
                        } else {
                            0
                        },
                        ..p
                    },
                )
            },
            None => None,
        }
    }

    /// The shared attention parameters of the next step.
    pub fn write_flash_total_uniform_mirroring_gemma4_wgpu_write_pos_uniforms(&self) -> (r: (
        Option<FlashDecodeParams>,
        Option<FlashDecodeParams>,
    ))
        requires
            self.wf(),
        ensures
            r.0 == self.full_at(self.pos as int),
            r.1 == self.sliding_at(self.pos as int),
    {
        let total: u32 = (self.pos + 1) as u32;
        let full = match self.flash_full {
            Some(p) => Some(FlashDecodeParams { total, ..p }),
            None => None,
        };
        let sliding = match self.flash_sliding {
            Some(p) => {
                let start: u32 = if total > self.sliding_window {
                    total - self.sliding_window
                } else {
                    0
                };
                Some(FlashDecodeParams { total, start, ..p })
            },
            None => None,
        };
        (full, sliding)
    }

    pub open spec fn step_error(&self, token: u32) -> Option<MoeSessionError> {
        if token as int >= self.vocab {
            Some(MoeSessionError::OutOfVocab(token))
        } else if self.pos >= self.max_seq {
            Some(MoeSessionError::CacheFull)
        } else {
            None
        }
    }

    /// A step runs all passes, or only those before the head. The passes are validated on
    /// their first run: those before the head count as validated by either kind of step.
    pub open spec fn planned_step(&self, token: u32, full: bool) -> MoeStep {
        MoeStep {
            token: token as i32,
            pos: self.pos as i32,
            flash_full: self.full_at(self.pos as int),
            flash_sliding: self.sliding_at(self.pos as int),
            passes: if full { self.passes } else { self.head_start },
            validate: !self.validated && (full || !self.prefix_validated),
        }
    }

    /// Plans a decode step; the device submits it and reports to [`Self::step_done`].
    pub fn step_inner(&self, token: u32, full: bool) -> (r: Result<MoeStep, MoeSessionError>)
        requires
            self.wf(),
        ensures
            match r {
                Ok(s) => self.step_error(token) is None && s == self.planned_step(token, full),
                Err(e) => self.step_error(token) == Some(e),
            },
    {
        if token as usize >= self.vocab {
            return Err(MoeSessionError::OutOfVocab(token));
        }
        if self.pos >= self.max_seq {
            return Err(MoeSessionError::CacheFull);
        }
        let (flash_full, flash_sliding) =
            self.write_flash_total_uniform_mirroring_gemma4_wgpu_write_pos_uniforms();
        Ok(
            MoeStep {
                token: token as i32,
                pos: self.pos as i32,
                flash_full,
                flash_sliding,
                passes: if full { self.passes } else { self.head_start },
                validate: !self.validated && (full || !self.prefix_validated),
            },
        )
    }

    /// Nothing but the position and the validation marks differs.
    pub open spec fn same_graph(&self, old: &Self) -> bool {
        &&& self.max_seq == old.max_seq
        &&& self.vocab == old.vocab
        &&& self.hidden_words == old.hidden_words
        &&& self.passes == old.passes
        &&& self.head_start == old.head_start
        &&& self.flash_full == old.flash_full
        &&& self.flash_sliding == old.flash_sliding
        &&& self.sliding_window == old.sliding_window
    }

    /// Takes a submitted step into account: the position moves on unless a first submission
    /// did not validate.
    pub fn step_done(&mut self, full: bool, validate: bool, valid: bool) -> (r: Result<
        (),
        MoeSessionError,
    >)
        requires
            old(self).wf(),
            old(self).pos < old(self).max_seq,
        ensures
            final(self).wf(),
            final(self).same_graph(old(self)),
            final(self).prefill == old(self).prefill,
            final(self).verify == old(self).verify,
            if validate && !valid {
                &&& r == Err::<(), MoeSessionError>(MoeSessionError::Validation)
                &&& final(self).pos == old(self).pos
                &&& final(self).validated == old(self).validated
                &&& final(self).prefix_validated == old(self).prefix_validated
            } else {
                &&& r is Ok
                &&& final(self).pos == old(self).pos + 1
                &&& final(self).validated == (old(self).validated || (validate && full))
                &&& final(self).prefix_validated == (old(self).prefix_validated || validate)
            },
    {
        if validate {
            if !valid {
                return Err(MoeSessionError::Validation);
            }
            if full {
                self.validated = true;
            }
            self.prefix_validated = true;
        }
        self.pos = self.pos + 1;
        Ok(())
    }

    /// The passes that a step runs which runs those of a class again, `k` times over.
    pub open spec fn replicated(&self, p: Seq<MoePass>, class: Option<&str>, k: int) -> Seq<usize> {
        let all = Seq::new(self.passes as nat, |i: int| i as usize);
        match class {
            Some(c) => all + copies_of(labelled(p, c@, p.len() as int), k),
            None => all,
        }
    }

    /// A step that runs the passes with a label again after all of them, `k` times over: what
    /// it writes, and the passes in the order in which they run. It is not validated.
    pub fn decode_step_replicated(
        &mut self,
        p: &Vec<MoePass>,
        token: u32,
        class: Option<&str>,
        k: usize,
    ) -> (r: Result<(MoeStep, Vec<usize>), MoeSessionError>)
        requires
            old(self).wf(),
            old(self).passes == p@.len(),
        ensures
            final(self).wf(),
            match r {
                Ok((s, run)) => {
                    &&& old(self).step_error(token) is None
                    &&& class matches Some(c) ==> labelled(p@, c@, p@.len() as int).len() > 0
                    &&& s == (MoeStep { validate: false, ..old(self).planned_step(token, true) })
                    &&& run@ == old(self).replicated(p@, class, k as int)
                    &&& *final(self) == (Gemma4MoeWgpu {
                        pos: (old(self).pos + 1) as usize,
                        ..*old(self)
                    })
                },
                Err(MoeSessionError::NoSuchPass) => {
                    &&& old(self).step_error(token) is None
                    &&& class is Some
                    &&& labelled(p@, class->0@, p@.len() as int).len() == 0
                    &&& *final(self) == *old(self)
                },
                Err(e) => old(self).step_error(token) == Some(e) && *final(self) == *old(self),
            },
    {
        let plan = match self.step_inner(token, true) {
            Err(e) => {
                return Err(e);
            },
            Ok(s) => s,
        };
        let mut run: Vec<usize> = Vec::new();
        let n: usize = self.passes;
        while run.len() < n
            invariant
                run@.len() <= n,
                run@ == Seq::new(run@.len(), |i: int| i as usize),
            decreases n - run@.len(),
        {
            let i: usize = run.len();
            run.push(i);
            assert(run@ =~= Seq::new(run@.len(), |i: int| i as usize));
        }
        if let Some(c) = class {
            let found = passes_labelled(p, c);
            if found.len() == 0 {
                return Err(MoeSessionError::NoSuchPass);
            }
            let mut more = copies_list(&found, k);
            run.append(&mut more);
        }
        self.pos = self.pos + 1;
        Ok((MoeStep { validate: false, ..plan }, run))
    }

    pub fn current_pos(&self) -> (r: usize)
        ensures
            r == self.pos,
    {
        self.pos
    }

    pub fn max_seq(&self) -> (r: usize)
        ensures
            r == self.max_seq,
    {
        self.max_seq
    }

    pub fn pass_count(&self) -> (r: usize)
        ensures
            r == self.passes,
    {
        self.passes
    }

    pub fn prefill_chunk_len(&self) -> (r: usize)
        ensures
            r == match self.prefill {
                Some(p) => p.m,
                None => 0,
            },
    {
        match self.prefill {
            Some(p) => p.m,
            None => 0,
        }
    }

    pub fn verify_max_rows(&self) -> (r: usize)
        ensures
            r == match self.verify {
                Some(v) => v.rows,
                None => 0,
            },
    {
        match self.verify {
            Some(v) => v.rows,
            None => 0,
        }
    }

    /// Starts over at position zero; the device clears the caches.
    pub fn reset(&mut self)
        requires
            old(self).wf(),
        ensures
            final(self).wf(),
            *final(self) == (Gemma4MoeWgpu { pos: 0, ..*old(self) }),
    {
        self.pos = 0;
    }

    /// Moves to a position whose caches hold synthetic bytes.
    pub fn fill_state_buffers_with_finite_synthetic_bytes_and_set_pos_for_depth_timing_decode_reads_kv_size_not_values(
        &mut self,
        pos: usize,
    ) -> (r: Result<(), MoeSessionError>)
        requires
            old(self).wf(),
        ensures
            final(self).wf(),
            match r {
                Ok(_) => {
                    &&& pos <= old(self).max_seq
                    &&& *final(self) == (Gemma4MoeWgpu { pos, ..*old(self) })
                },
                Err(e) => {
                    &&& e == MoeSessionError::PastMaxSeq
                    &&& pos > old(self).max_seq
                    &&& *final(self) == *old(self)
                },
            },
    {
        if pos > self.max_seq {
            return Err(MoeSessionError::PastMaxSeq);
        }
        self.pos = pos;
        Ok(())
    }

    /// Moves the position on over rows that a verify batch already put into the cache.
    pub fn advance(&mut self, n: usize) -> (r: Result<(), MoeSessionError>)
        requires
            old(self).wf(),
        ensures
            final(self).wf(),
            match r {
                Ok(_) => {
                    &&& old(self).pos + n <= old(self).max_seq
                    &&& *final(self) == (Gemma4MoeWgpu {
                        pos: (old(self).pos + n) as usize,
                        ..*old(self)
                    })
                },
                Err(e) => {
                    &&& e == MoeSessionError::PastMaxSeq
                    &&& old(self).pos + n > old(self).max_seq
                    &&& *final(self) == *old(self)
                },
            },
    {
        if n > self.max_seq - self.pos {
            return Err(MoeSessionError::PastMaxSeq);
        }
        self.pos = self.pos + n;
        Ok(())
    }

    /// Goes back to an earlier position.
    pub fn truncate_to(&mut self, pos: usize) -> (r: Result<(), MoeSessionError>)
        requires
            old(self).wf(),
        ensures
            final(self).wf(),
            match r {
                Ok(_) => {
                    &&& pos <= old(self).pos
                    &&& *final(self) == (Gemma4MoeWgpu { pos, ..*old(self) })
                },
                Err(e) => {
                    &&& e == MoeSessionError::BeyondPos
                    &&& pos > old(self).pos
                    &&& *final(self) == *old(self)
                },
            },
    {
        if pos > self.pos {
            return Err(MoeSessionError::BeyondPos);
        }
        self.pos = pos;
        Ok(())
    }

    /// The first and the end value of verify row `row` among all logits.
    pub fn verify_row_logits(&self, row: usize) -> (r: Result<(usize, usize), MoeSessionError>)
        requires
            self.verify matches Some(v) ==> v.rows * self.vocab <= usize::MAX,
        ensures
            match r {
                Err(e) => match self.verify {
                    None => e == MoeSessionError::VerifyDisabled,
                    Some(v) => e == MoeSessionError::RowRange && row >= v.rows,
                },
                Ok((first, end)) => {
                    &&& self.verify is Some && row < self.verify->0.rows
                    &&& first == row * self.vocab
                    &&& end == (row + 1) * self.vocab
                },
            },
    {
        match self.verify {
            None => Err(MoeSessionError::VerifyDisabled),
            Some(v) => {
                if row >= v.rows {
                    return Err(MoeSessionError::RowRange);
                }
                let vocab: usize = self.vocab;
                assert((row + 1) * vocab <= v.rows * vocab && row * vocab + vocab == (row + 1) * vocab
                    && 0 <= row * vocab) by (nonlinear_arith)
                    requires
                        row + 1 <= v.rows,
                ;
                let first: usize = row * vocab;
                Ok((first, first + vocab))
            },
        }
    }
}

/// A row that takes the place of the embedding at a row of the chunk: row `row` of splice
/// `splice`, from word `word` on.
#[derive(Clone, Copy, Debug, PartialEq, Eq, Structural)]
pub struct ChunkRow {
    pub rel_pos: usize,
    pub splice: usize,
    pub word: usize,
    /// The words that stand there.
    pub words: usize,
}

/// A chunk as the device gets it.
pub struct MoeChunk {
    pub ids: Vec<i32>,
    pub positions: Vec<i32>,
    /// The mask of the spliced rows, where it has to be written.
    pub mask: Option<Vec<u32>>,
    pub live: usize,
    pub validate: bool,
}

pub open spec fn spliced(rows: Seq<ChunkRow>, r: int) -> bool {
    exists|i: int| 0 <= i < rows.len() && (#[trigger] rows[i]).rel_pos == r
}

/// One entry for each row, at least a vector of them: whether the row is spliced.
pub open spec fn mask_of(rows: Seq<ChunkRow>, m: int) -> Seq<u32> {
    Seq::new(
        (if m < 4 { 4 } else { m }) as nat,
        |r: int| if spliced(rows, r) { 1u32 } else { 0u32 },
    )
}

/// The first row from `i` on that cannot be spliced.
pub open spec fn row_error(rows: Seq<ChunkRow>, live: int, words: int, i: int) -> Option<
    MoeSessionError,
>
    decreases rows.len() - i,
{
    if i < 0 || i >= rows.len() {
        None
    } else if rows[i].rel_pos >= live {
        Some(MoeSessionError::SplicePast(i as usize))
    } else if rows[i].words != words {
        Some(MoeSessionError::SpliceWords(i as usize))
    } else {
        row_error(rows, live, words, i + 1)
    }
}

fn build_mask(rows: &Vec<ChunkRow>, m: usize, live: usize, words: usize) -> (r: Result<
    Vec<u32>,
    MoeSessionError,
>)
    requires
        live <= m,
    ensures
        match r {
            Err(e) => row_error(rows@, live as int, words as int, 0) == Some(e),
            Ok(v) => {
                &&& row_error(rows@, live as int, words as int, 0) is None
                &&& v@ == mask_of(rows@, m as int)
            },
        },
{
    let n: usize = if m < 4 { 4 } else { m };
    let mut mask: Vec<u32> = Vec::new();
    while mask.len() < n
        invariant
            mask@.len() <= n,
            forall|j: int| 0 <= j < mask@.len() ==> #[trigger] mask@[j] == 0,
        decreases n - mask@.len(),
    {
        mask.push(0);
    }
    let mut i: usize = 0;
    while i < rows.len()
        invariant
            i <= rows@.len(),
            live <= m,
            n == if m < 4 { 4 } else { m as int },
            mask@.len() == n,
            row_error(rows@, live as int, words as int, 0) == row_error(
                rows@,
                live as int,
                words as int,
                i as int,
            ),
            forall|j: int|
                0 <= j < n ==> #[trigger] mask@[j] == if spliced(rows@.take(i as int), j) {
                    1u32
                } else {
                    0u32
                },
        decreases rows@.len() - i,
    {
        let row = rows[i];
        if row.rel_pos >= live {
            return Err(MoeSessionError::SplicePast(i));
        }
        if row.words != words {
            return Err(MoeSessionError::SpliceWords(i));
        }
        let ghost before = mask@;
        mask.set(row.rel_pos, 1);
        proof {
            let a = rows@.take(i as int);
            let b = rows@.take(i + 1);
            assert forall|j: int| 0 <= j < n implies #[trigger] mask@[j] == if spliced(b, j) {
                1u32
            } else {
                0u32
            } by {
                if j == row.rel_pos {
                    assert(b[i as int].rel_pos == j);
                } else {
                    assert(mask@[j] == before[j]);
                    if spliced(a, j) {
                        let k = choose|k: int| 0 <= k < a.len() && (#[trigger] a[k]).rel_pos == j;
                        assert(b[k] == a[k]);
                    }
                    if spliced(b, j) {
                        let k = choose|k: int| 0 <= k < b.len() && (#[trigger] b[k]).rel_pos == j;
                        assert(k != i);
                        assert(a[k] == b[k]);
                    }
                }
            }
        }
        i = i + 1;
    }
    assert(rows@.take(i as int) =~= rows@);
    assert(mask@ =~= mask_of(rows@, m as int));
    Ok(mask)
}

impl Gemma4MoeWgpu {
    /// Why a chunk is refused of which `live` rows count.
    pub open spec fn chunk_error(&self, tokens: Seq<u32>, live: int, rows: Seq<ChunkRow>) -> Option<
        MoeSessionError,
    > {
        match self.prefill {
            None => Some(MoeSessionError::PrefillDisabled),
            Some(p) => if tokens.len() != p.m {
                Some(MoeSessionError::ChunkLength)
            } else if !(1 <= live <= p.m) {
                Some(MoeSessionError::LiveRows)
            } else if let Some(t) = stray(tokens, self.vocab as int, 0) {
                Some(MoeSessionError::OutOfVocab(t))
            } else if self.pos + p.m > self.max_seq {
                Some(MoeSessionError::CacheFull)
            } else {
                row_error(rows, live, self.hidden_words as int, 0)
            },
        }
    }

    /// The mask is written where rows are spliced, and once more after that to clear it.
    pub open spec fn is_chunk(&self, tokens: Seq<u32>, live: int, rows: Seq<ChunkRow>, c: MoeChunk) -> bool {
        let p = self.prefill->0;
        &&& c.ids@ == padded_ids(tokens, p.m as nat)
        &&& c.positions@ == positions_from(self.pos as int, p.m as nat)
        &&& c.mask is Some == (rows.len() > 0 || p.mask_live)
        &&& c.mask matches Some(m) ==> m@ == mask_of(rows, p.m as int)
        &&& c.live == live
        &&& c.validate == !p.validated
    }

    /// Plans what a chunk writes before its passes run. The mask that is written is noted.
    pub fn write_prefill_inputs(&mut self, tokens: &[u32], live: usize, rows: &Vec<ChunkRow>) -> (r:
        Result<MoeChunk, MoeSessionError>)
        requires
            old(self).wf(),
        ensures
            final(self).wf(),
            match r {
                Err(e) => {
                    &&& old(self).chunk_error(tokens@, live as int, rows@) == Some(e)
                    &&& *final(self) == *old(self)
                },
                Ok(c) => {
                    &&& old(self).chunk_error(tokens@, live as int, rows@) is None
                    &&& old(self).is_chunk(tokens@, live as int, rows@, c)
                    &&& *final(self) == (Gemma4MoeWgpu {
                        prefill: Some(
                            PfState { mask_live: rows@.len() > 0, ..old(self).prefill->0 },
                        ),
                        ..*old(self)
                    })
                },
            },
    {
        let p = match self.prefill {
            None => {
                return Err(MoeSessionError::PrefillDisabled);
            },
            Some(p) => p,
        };
        if tokens.len() != p.m {
            return Err(MoeSessionError::ChunkLength);
        }
        if live < 1 || live > p.m {
            return Err(MoeSessionError::LiveRows);
        }
        if let Some(t) = find_stray(tokens, self.vocab) {
            return Err(MoeSessionError::OutOfVocab(t));
        }
        if p.m > self.max_seq - self.pos {
            return Err(MoeSessionError::CacheFull);
        }
        let mask = match build_mask(rows, p.m, live, self.hidden_words) {
            Err(e) => {
                return Err(e);
            },
            Ok(m) => m,
        };
        let write = rows.len() > 0 || p.mask_live;
        let chunk = MoeChunk {
            ids: ids_of(tokens, p.m),
            positions: positions(self.pos, p.m),
            mask: if write { Some(mask) } else { None },
            live,
            validate: !p.validated,
        };
        self.prefill = Some(PfState { mask_live: rows.len() > 0, ..p });
        Ok(chunk)
    }

    /// Takes a submitted chunk into account.
    pub fn prefill_done(&mut self, live: usize, validate: bool, valid: bool) -> (r: Result<
        (),
        MoeSessionError,
    >)
        requires
            old(self).wf(),
            old(self).prefill is Some,
            old(self).pos + live <= old(self).max_seq,
        ensures
            final(self).wf(),
            if validate && !valid {
                &&& r == Err::<(), MoeSessionError>(MoeSessionError::Validation)
                &&& *final(self) == *old(self)
            } else {
                &&& r is Ok
                &&& *final(self) == (Gemma4MoeWgpu {
                    pos: (old(self).pos + live) as usize,
                    prefill: Some(
                        PfState {
                            validated: old(self).prefill->0.validated || validate,
                            ..old(self).prefill->0
                        },
                    ),
                    ..*old(self)
                })
            },
    {
        if validate && !valid {
            return Err(MoeSessionError::Validation);
        }
        if let Some(p) = self.prefill {
            self.prefill = Some(PfState { validated: p.validated || validate, ..p });
        }
        self.pos = self.pos + live;
        Ok(())
    }

    /// Plans a whole chunk without spliced rows.
    pub fn prefill_chunk(&mut self, tokens: &[u32]) -> (r: Result<MoeChunk, MoeSessionError>)
        requires
            old(self).wf(),
        ensures
            final(self).wf(),
            match r {
                Err(e) => {
                    &&& *final(self) == *old(self)
                    &&& match old(self).prefill {
                        None => e == MoeSessionError::PrefillDisabled,
                        Some(p) => old(self).chunk_error(
                            tokens@,
                            p.m as int,
                            Seq::empty(),
                        ) == Some(e),
                    }
                },
                Ok(c) => {
                    &&& old(self).prefill is Some
                    &&& old(self).chunk_error(
                        tokens@,
                        old(self).prefill->0.m as int,
                        Seq::empty(),
                    ) is None
                    &&& old(self).is_chunk(
                        tokens@,
                        old(self).prefill->0.m as int,
                        Seq::empty(),
                        c,
                    )
                    &&& *final(self) == (Gemma4MoeWgpu {
                        prefill: Some(PfState { mask_live: false, ..old(self).prefill->0 }),
                        ..*old(self)
                    })
                },
            },
    {
        match self.prefill {
            None => Err(MoeSessionError::PrefillDisabled),
            Some(p) => {
                let none: Vec<ChunkRow> = Vec::new();
                assert(none@ =~= Seq::empty());
                self.write_prefill_inputs(tokens, p.m, &none)
            },
        }
    }

    /// Why a verify batch is refused.
    pub open spec fn batch_error(&self, batch: Seq<u32>) -> Option<MoeSessionError> {
        match self.verify {
            None => Some(MoeSessionError::VerifyDisabled),
            Some(v) => if v.rows == 0 {
                Some(MoeSessionError::VerifyDisabled)
            } else if !(1 <= batch.len() <= v.rows) {
                Some(MoeSessionError::BatchLength)
            } else {
                self.chunk_error(
                    padded_tokens(batch, self.prefill->0.m as nat),
                    batch.len() as int,
                    Seq::empty(),
                )
            },
        }
    }

    /// Plans a verify batch: its chunk, and whether the epilogue is validated.
    pub fn verify_chain(&mut self, batch: &[u32]) -> (r: Result<(MoeChunk, bool), MoeSessionError>)
        requires
            old(self).wf(),
        ensures
            final(self).wf(),
            match r {
                Err(e) => old(self).batch_error(batch@) == Some(e) && *final(self) == *old(self),
                Ok((c, validate)) => {
                    &&& old(self).batch_error(batch@) is None
                    &&& old(self).is_chunk(
                        padded_tokens(batch@, old(self).prefill->0.m as nat),
                        batch@.len() as int,
                        Seq::empty(),
                        c,
                    )
                    &&& validate == !old(self).verify->0.validated
                    &&& *final(self) == (Gemma4MoeWgpu {
                        prefill: Some(PfState { mask_live: false, ..old(self).prefill->0 }),
                        ..*old(self)
                    })
                },
            },
    {
        let v = match self.verify {
            None => {
                return Err(MoeSessionError::VerifyDisabled);
            },
            Some(v) => v,
        };
        if v.rows == 0 {
            return Err(MoeSessionError::VerifyDisabled);
        }
        if batch.len() < 1 || batch.len() > v.rows {
            return Err(MoeSessionError::BatchLength);
        }
        let m: usize = self.prefill_chunk_len();
        let padded = pad_tokens(batch, 0, m);
        assert(padded@ =~= padded_tokens(batch@, m as nat));
        let none: Vec<ChunkRow> = Vec::new();
        assert(none@ =~= Seq::empty());
        match self.write_prefill_inputs(padded.as_slice(), batch.len(), &none) {
            Err(e) => Err(e),
            Ok(c) => Ok((c, !v.validated)),
        }
    }

    /// Takes the two halves of a verify batch into account: the rows, then the epilogue. The
    /// position stays.
    pub fn verify_done(&mut self, rows_valid: bool, epilogue_valid: bool) -> (r: Result<
        (),
        MoeSessionError,
    >)
        requires
            old(self).wf(),
            old(self).prefill is Some,
            old(self).verify is Some,
        ensures
            final(self).wf(),
            ({
                let p = old(self).prefill->0;
                let v = old(self).verify->0;
                let rows_ok = p.validated || rows_valid;
                let all_ok = rows_ok && (v.validated || epilogue_valid);
                &&& r == if all_ok {
                    Ok::<(), MoeSessionError>(())
                } else {
                    Err(MoeSessionError::Validation)
                }
                &&& *final(self) == (Gemma4MoeWgpu {
                    prefill: Some(PfState { validated: rows_ok, ..p }),
                    verify: Some(MoeVerify { validated: v.validated || all_ok, ..v }),
                    ..*old(self)
                })
            }),
    {
        let mut ok = true;
        if let Some(p) = self.prefill {
            ok = p.validated || rows_valid;
            self.prefill = Some(PfState { validated: ok, ..p });
        }
        if let Some(v) = self.verify {
            ok = ok && (v.validated || epilogue_valid);
            self.verify = Some(MoeVerify { validated: v.validated || ok, ..v });
        }
        if ok {
            Ok(())
        } else {
            Err(MoeSessionError::Validation)
        }
    }
}

/// Tokens filled up to `m` with the last of them.
pub open spec fn padded_tokens(t: Seq<u32>, m: nat) -> Seq<u32> {
    Seq::new(m, |i: int| if i < t.len() { t[i] } else { t.last() })
}

/// The tokens from `from` on, cut or filled up to `m` with the last of them.
pub fn pad_tokens(t: &[u32], from: usize, m: usize) -> (r: Vec<u32>)
    requires
        from < t@.len(),
    ensures
        r@ == Seq::new(m as nat, |i: int| if from + i < t@.len() { t@[from + i] } else { t@.last() }),
{
    let n: usize = t.len();
    let mut r: Vec<u32> = Vec::new();
    while r.len() < m
        invariant
            n == t@.len(),
            from < n,
            r@.len() <= m,
            r@ == Seq::new(
                r@.len(),
                |i: int| if from + i < t@.len() { t@[from + i] } else { t@.last() },
            ),
        decreases m - r@.len(),
    {
        let i: usize = r.len();
        let x: u32 = if i < n - from { t[from + i] } else { t[n - 1] };
        r.push(x);
        assert(r@ =~= Seq::new(
            r@.len(),
            |i: int| if from + i < t@.len() { t@[from + i] } else { t@.last() },
        ));
    }
    r
}

impl<'a> MoeStart<'a> {
    /// Some layer attends over a window.
    pub open spec fn any_sliding(&self, n: int) -> bool {
        exists|i: int|
            0 <= i < n && #[trigger] self.config.base.layer_types@[i]
                == LayerType::SlidingAttention
    }

    /// The attention parameters that the layers of a kind share before the first step.
    pub open spec fn flash_base(&self, kind: LayerType) -> FlashDecodeParams {
        FlashDecodeParams {
            n_heads: self.config.base.num_attention_heads as u32,
            n_kv: self.config.base.dims(kind).num_kv_heads as u32,
            head_dim: self.config.base.dims(kind).head_dim as u32,
            splits: self.sw.splits,
            total: 0,
            start: 0,
            ring: if kind == LayerType::SlidingAttention {
                match self.ring_used() {
                    Some(r) => r as u32,
                    None => 0,
                }
            } else {
                0
            },
            scale: F32_ONE,
        }
    }

    fn flash_params(&self, kind: LayerType) -> (r: FlashDecodeParams)
        ensures
            r == self.flash_base(kind),
    {
        let ring: u32 = match (kind, self.ring) {
            (LayerType::SlidingAttention, Some(r)) => if self.max_seq > r {
                r as u32
            } else {
                0
            },
            _ => 0,
        };
        FlashDecodeParams {
            n_heads: self.config.base.num_attention_heads as u32,
            n_kv: self.config.base.num_kv_heads_for(kind) as u32,
            head_dim: self.config.base.head_dim_for(kind) as u32,
            splits: self.sw.splits,
            total: 0,
            start: 0,
            ring,
            scale: F32_ONE,
        }
    }

    fn has_sliding(&self) -> (r: bool)
        requires
            self.config.base.wf(),
        ensures
            r == self.any_sliding(self.config.base.num_hidden_layers as int),
    {
        let mut i: usize = 0;
        while i < self.config.base.num_hidden_layers
            invariant
                i <= self.config.base.num_hidden_layers,
                self.config.base.wf(),
                !self.any_sliding(i as int),
            decreases self.config.base.num_hidden_layers - i,
        {
            if self.config.base.layer_types[i] == LayerType::SlidingAttention {
                return true;
            }
            assert(!self.any_sliding(i + 1)) by {
                if self.any_sliding(i + 1) {
                    let j = choose|j: int|
                        0 <= j < i + 1 && #[trigger] self.config.base.layer_types@[j]
                            == LayerType::SlidingAttention;
                    assert(j < i);
                    assert(self.any_sliding(i as int));
                }
            }
            i = i + 1;
        }
        false
    }

    /// A session over a graph that was built from this, at its beginning.
    pub fn session(&self, graph: &MoeGraph) -> (r: Gemma4MoeWgpu)
        requires
            self.wf(),
            graph.of(self),
            self.max_seq < usize::MAX,
        ensures
            r.begins(self, graph),
    {
        let prefill = if graph.m > 0 {
            Some(PfState { m: graph.m, mask_live: false, validated: false })
        } else {
            None
        };
        let verify = match &graph.verify {
            Some((rows, _)) => Some(MoeVerify { rows: *rows, validated: false }),
            None => None,
        };
        let flash_full = if self.sw.flash_full {
            Some(self.flash_params(LayerType::FullAttention))
        } else {
            None
        };
        let flash_sliding = if self.sw.flash_sliding && self.has_sliding() {
            Some(self.flash_params(LayerType::SlidingAttention))
        } else {
            None
        };
        assert(graph.decode@.len() == self.body().len() + crate::moe_graph::head_passes(
            self.plan(),
            self.chunks(),
        ).len());
        Gemma4MoeWgpu {
            max_seq: self.max_seq,
            pos: 0,
            vocab: self.config.base.vocab_size,
            hidden_words: self.config.base.hidden_size / 2,
            validated: false,
            prefix_validated: false,
            passes: graph.decode.passes.len(),
            head_start: graph.head_start,
            prefill,
            verify,
            flash_full,
            flash_sliding,
            sliding_window: self.config.base.sliding_window as u32,
        }
    }
}

impl Gemma4MoeWgpu {
    /// Plans the graph of a model and starts a session over it.
    pub fn from_loader(start: &MoeStart) -> (r: Result<(Gemma4MoeWgpu, MoeGraph), MoeError>)
        requires
            start.wf(),
            start.max_seq < usize::MAX,
        ensures
            match r {
                Ok((s, g)) => start.error() is None && g.of(start) && s.begins(start, &g),
                Err(e) => start.error() == Some(e),
            },
    {
        match start.build() {
            Ok(g) => {
                let s = start.session(&g);
                Ok((s, g))
            },
            Err(e) => Err(e),
        }
    }

    /// A session at its beginning.
    pub open spec fn begins(&self, start: &MoeStart, graph: &MoeGraph) -> bool {
        &&& self.wf()
        &&& self.max_seq == start.max_seq
        &&& self.pos == 0
        &&& self.vocab == start.config.base.vocab_size
        &&& self.hidden_words == start.config.base.hidden_size / 2
        &&& !self.validated
        &&& !self.prefix_validated
        &&& self.passes == graph.decode@.len()
        &&& self.head_start == graph.head_start
        &&& self.prefill == if start.m() > 0 {
            Some(PfState { m: start.m(), mask_live: false, validated: false })
        } else {
            None
        }
        &&& self.verify == if start.has_verify() {
            Some(MoeVerify { rows: start.verify_rows() as usize, validated: false })
        } else {
            None
        }
        &&& self.flash_full == if start.sw.flash_full {
            Some(start.flash_base(LayerType::FullAttention))
        } else {
            None
        }
        &&& self.flash_sliding == if start.sw.flash_sliding && start.any_sliding(
            start.config.base.num_hidden_layers as int,
        ) {
            Some(start.flash_base(LayerType::SlidingAttention))
        } else {
            None
        }
        &&& self.sliding_window == start.config.base.sliding_window as u32
    }
}

impl Gemma4MoeWgpu {
    /// A chunk of tokens is part of the warm-up where one fits the caches.
    pub open spec fn warms_chunk(&self) -> bool {
        self.prefill matches Some(p) && p.m <= self.max_seq
    }

    /// The steps that a new session is warmed up with, each from empty caches.
    pub open spec fn warm_ups(&self) -> Seq<WarmUp> {
        if self.warms_chunk() {
            seq![WarmUp::Chunk(self.prefill->0.m), WarmUp::Step]
        } else {
            seq![WarmUp::Step]
        }
    }

    /// The steps that a new session is to be warmed up with: a chunk of zero tokens where one
    /// fits, then a step with token zero.
    pub fn warm_up(&self) -> (r: Vec<WarmUp>)
        ensures
            r@ == self.warm_ups(),
    {
        match self.prefill {
            Some(p) if p.m <= self.max_seq => vec![WarmUp::Chunk(p.m), WarmUp::Step],
            _ => vec![WarmUp::Step],
        }
    }

    /// The session after a step of the warm-up that succeeded.
    pub open spec fn warmed_by(self, w: WarmUp) -> Gemma4MoeWgpu {
        match w {
            WarmUp::Chunk(_) => Gemma4MoeWgpu {
                pos: 0,
                prefill: Some(PfState { validated: true, ..self.prefill->0 }),
                ..self
            },
            WarmUp::Step => Gemma4MoeWgpu {
                pos: 0,
                validated: true,
                prefix_validated: self.prefix_validated || !self.validated,
                ..self
            },
        }
    }

    /// Whether the passes of a step of the warm-up have yet to be validated.
    pub open spec fn unproven(&self, w: WarmUp) -> bool {
        match w {
            WarmUp::Chunk(_) => !self.prefill->0.validated,
            WarmUp::Step => !self.validated,
        }
    }

    /// Takes a submitted step of the warm-up into account and starts over. A first submission
    /// that did not validate is refused.
    pub fn warm_up_done(&mut self, w: WarmUp, valid: bool) -> (r: Result<(), MoeSessionError>)
        requires
            old(self).wf(),
            old(self).pos == 0,
            old(self).max_seq > 0,
            old(self).warm_ups().contains(w),
        ensures
            final(self).wf(),
            if old(self).unproven(w) && !valid {
                &&& r == Err::<(), MoeSessionError>(MoeSessionError::Validation)
                &&& *final(self) == *old(self)
            } else {
                &&& r is Ok
                &&& *final(self) == old(self).warmed_by(w)
            },
    {
        let done = match (w, self.prefill) {
            (WarmUp::Chunk(m), Some(p)) => self.prefill_done(m, !p.validated, valid),
            _ => {
                let validate = !self.validated;
                self.step_done(true, validate, valid)
            },
        };
        if done.is_ok() {
            self.reset();
        }
        done
    }

    /// The session after its whole warm-up.
    pub open spec fn warmed(self) -> Gemma4MoeWgpu {
        if self.warms_chunk() {
            self.warmed_by(WarmUp::Chunk(self.prefill->0.m)).warmed_by(WarmUp::Step)
        } else {
            self.warmed_by(WarmUp::Step)
        }
    }
}

/// A new session that was warmed up is back at its beginning, and every pass it ran counts as
/// validated: all of a step, and those of a chunk where one fits the caches. Neither is
/// refused before it is submitted where there is a token and room for it.
pub proof fn law_warmed(s: Gemma4MoeWgpu, start: &MoeStart, graph: &MoeGraph)
    requires
        s.begins(start, graph),
    ensures
        ({
            let t = s.warmed();
            &&& t.wf()
            &&& t.pos == 0
            &&& t.validated
            &&& t.prefix_validated
            &&& t.same_graph(&s)
            &&& t.verify == s.verify
            &&& t.prefill == match s.prefill {
                Some(p) => Some(PfState { validated: p.m <= s.max_seq, ..p }),
                None => None,
            }
        }),
        s.step_error(0) is None <==> s.vocab > 0 && s.max_seq > 0,
        s.warms_chunk() && s.vocab > 0 ==> s.chunk_error(
            Seq::new(s.prefill->0.m as nat, |i: int| 0u32),
            s.prefill->0.m as int,
            Seq::empty(),
        ) is None,
{
    if s.warms_chunk() && s.vocab > 0 {
        lemma_no_stray(Seq::new(s.prefill->0.m as nat, |i: int| 0u32), s.vocab as int, 0);
    }
}

proof fn lemma_no_stray(tokens: Seq<u32>, vocab: int, i: int)
    requires
        0 <= i,
        forall|k: int| 0 <= k < tokens.len() ==> #[trigger] tokens[k] < vocab,
    ensures
        stray(tokens, vocab, i) is None,
    decreases tokens.len() - i,
{
    if i < tokens.len() {
        lemma_no_stray(tokens, vocab, i + 1);
    }
}

} // verus!
