//! Runs of several rows at once: prompt chunks and verify batches.
use vstd::prelude::*;
use crate::e4b_ir::MkParams;
use crate::e4b_session::{Gemma4E4bWgpu, PrefillState, SessionError, VerifyState};

verus! {

/// The first token from `i` on that is outside a vocabulary of `vocab`.
pub open spec fn stray(tokens: Seq<u32>, vocab: int, i: int) -> Option<u32>
    decreases tokens.len() - i,
{
    if i < 0 || i >= tokens.len() {
        None
    } else if tokens[i] as int >= vocab {
        Some(tokens[i])
    } else {
        stray(tokens, vocab, i + 1)
    }
}

pub fn find_stray(tokens: &[u32], vocab: usize) -> (r: Option<u32>)
    ensures
        r == stray(tokens@, vocab as int, 0),
{
    let mut i: usize = 0;
    while i < tokens.len()
        invariant
            i <= tokens@.len(),
            stray(tokens@, vocab as int, 0) == stray(tokens@, vocab as int, i as int),
        decreases tokens@.len() - i,
    {
        if tokens[i] as usize >= vocab {
            return Some(tokens[i]);
        }
        i = i + 1;
    }
    None
}

/// Token ids, filled up to `m` rows with the last of them.
pub open spec fn padded_ids(tokens: Seq<u32>, m: nat) -> Seq<i32> {
    Seq::new(m, |i: int| (if i < tokens.len() { tokens[i] } else { tokens.last() }) as i32)
}

pub fn ids_of(tokens: &[u32], m: usize) -> (r: Vec<i32>)
    requires
        tokens@.len() > 0,
    ensures
        r@ == padded_ids(tokens@, m as nat),
{
    let mut r: Vec<i32> = Vec::new();
    let n: usize = tokens.len();
    while r.len() < m
        invariant
            r@.len() <= m,
            n == tokens@.len(),
            n > 0,
            r@ == padded_ids(tokens@, r@.len()),
        decreases m - r@.len(),
    {
        let i: usize = r.len();
        let t: u32 = if i < n { tokens[i] } else { tokens[n - 1] };
        r.push(t as i32);
        assert(r@ =~= padded_ids(tokens@, r@.len()));
    }
    r
}

/// The positions of `m` rows from `pos` on.
pub open spec fn positions_from(pos: int, m: nat) -> Seq<i32> {
    Seq::new(m, |i: int| (pos + i) as i32)
}

pub fn positions(pos: usize, m: usize) -> (r: Vec<i32>)
    requires
        pos + m <= usize::MAX,
    ensures
        r@ == positions_from(pos as int, m as nat),
{
    let mut r: Vec<i32> = Vec::new();
    while r.len() < m
        invariant
            r@.len() <= m,
            pos + m <= usize::MAX,
            r@ == positions_from(pos as int, r@.len()),
        decreases m - r@.len(),
    {
        let i: usize = r.len();
        r.push((pos + i) as i32);
        assert(r@ =~= positions_from(pos as int, r@.len()));
    }
    r
}

/// The live rows of a multi-row pass that starts at row `row0`: of its `m` rows those below
/// `rows`.
pub open spec fn live_rows(m: u32, rows: int, row0: int) -> int {
    let left = if rows > row0 { rows - row0 } else { 0 };
    if left < m { left } else { m as int }
}

/// The parameters of the multi-row passes for `rows` live rows. Each pass comes with the row
/// it starts at.
pub fn write_mk_live(passes: &[(MkParams, usize)], rows: usize) -> (r: Vec<MkParams>)
    ensures
        r@.len() == passes@.len(),
        forall|i: int|
            0 <= i < passes@.len() ==> #[trigger] r@[i] == (MkParams {
                m: live_rows(passes@[i].0.m, rows as int, passes@[i].1 as int) as u32,
                ..passes@[i].0
            }),
{
    let mut r: Vec<MkParams> = Vec::new();
    let mut i: usize = 0;
    while i < passes.len()
        invariant
            i <= passes@.len(),
            r@.len() == i,
            forall|j: int|
                0 <= j < i ==> #[trigger] r@[j] == (MkParams {
                    m: live_rows(passes@[j].0.m, rows as int, passes@[j].1 as int) as u32,
                    ..passes@[j].0
                }),
        decreases passes@.len() - i,
    {
        let base = passes[i].0;
        let row0: usize = passes[i].1;
        let left: usize = if rows > row0 { rows - row0 } else { 0 };
        let m: u32 = if left < base.m as usize { left as u32 } else { base.m };
        r.push(MkParams { m, ..base });
        i = i + 1;
    }
    r
}

/// Slabs of `m` rows that follow each other keep together exactly the rows that are live.
pub proof fn law_live_rows_add_up(m: u32, more: u32, rows: int, row0: int)
    requires
        m + more <= u32::MAX,
        rows >= 0,
        row0 >= 0,
    ensures
        live_rows(m, rows, row0) + live_rows(more, rows, row0 + m) == live_rows(
            (m + more) as u32,
            rows,
            row0,
        ),
{
}

/// A prompt chunk as the device gets it.
pub struct PrefillPlan {
    pub ids: Vec<i32>,
    pub positions: Vec<i32>,
    pub kv_start: i32,
    pub total: u32,
    /// The multi-row parameters have to be written for this many rows.
    pub live: Option<usize>,
    pub reuse: bool,
    pub validate: bool,
    pub advance: usize,
}

impl Gemma4E4bWgpu {
    /// Why a chunk is refused of which `advance` rows count.
    pub open spec fn chunk_error(&self, tokens: Seq<u32>, advance: int) -> Option<SessionError> {
        match self.prefill {
            None => Some(SessionError::PrefillDisabled),
            Some(p) => if tokens.len() != p.m {
                Some(SessionError::ChunkLength)
            } else if !(1 <= advance <= p.m) {
                Some(SessionError::AdvanceRange)
            } else if let Some(t) = stray(tokens, self.vocab as int, 0) {
                Some(SessionError::OutOfVocab(t))
            } else if self.pos + p.m > self.max_seq {
                Some(SessionError::CacheFull)
            } else {
                None
            },
        }
    }

    pub open spec fn is_chunk(&self, tokens: Seq<u32>, advance: int, r: PrefillPlan) -> bool {
        let p = self.prefill->0;
        &&& r.ids@ == padded_ids(tokens, p.m as nat)
        &&& r.positions@ == positions_from(self.pos as int, p.m as nat)
        &&& r.kv_start == self.pos as i32
        &&& r.total == (self.pos + p.m) as u32
        &&& r.live == if p.rows_live == p.m { None } else { Some(p.m) }
        &&& r.reuse == p.pending
        &&& r.validate == !p.validated
        &&& r.advance == advance
    }

    fn check_chunk(&self, tokens: &[u32], advance: usize) -> (r: Result<
        PrefillState,
        SessionError,
    >)
        requires
            self.wf(),
        ensures
            match r {
                Err(e) => self.chunk_error(tokens@, advance as int) == Some(e),
                Ok(p) => self.chunk_error(tokens@, advance as int) is None && self.prefill == Some(
                    p,
                ),
            },
    {
        match self.prefill {
            None => Err(SessionError::PrefillDisabled),
            Some(p) => {
                if tokens.len() != p.m {
                    return Err(SessionError::ChunkLength);
                }
                if advance < 1 || advance > p.m {
                    return Err(SessionError::AdvanceRange);
                }
                if let Some(t) = find_stray(tokens, self.vocab) {
                    return Err(SessionError::OutOfVocab(t));
                }
                if p.m > self.max_seq - self.pos {
                    return Err(SessionError::CacheFull);
                }
                Ok(p)
            },
        }
    }

    fn chunk(&self, p: &PrefillState, tokens: &[u32], advance: usize) -> (r: PrefillPlan)
        requires
            self.wf(),
            self.prefill == Some(*p),
            self.chunk_error(tokens@, advance as int) is None,
        ensures
            self.is_chunk(tokens@, advance as int, r),
    {
        PrefillPlan {
            ids: ids_of(tokens, p.m),
            positions: positions(self.pos, p.m),
            kv_start: self.pos as i32,
            total: (self.pos + p.m) as u32,
            live: if p.rows_live == p.m { None } else { Some(p.m) },
            reuse: p.pending,
            validate: !p.validated,
            advance,
        }
    }

    /// Plans a chunk of which the first `advance` rows count; the device submits it and
    /// reports to [`Self::prefill_done`].
    pub fn prefill_chunk_advance(&self, tokens: &[u32], advance: usize) -> (r: Result<
        PrefillPlan,
        SessionError,
    >)
        requires
            self.wf(),
        ensures
            match r {
                Err(e) => self.chunk_error(tokens@, advance as int) == Some(e),
                Ok(p) => {
                    &&& self.chunk_error(tokens@, advance as int) is None
                    &&& self.is_chunk(tokens@, advance as int, p)
                },
            },
    {
        match self.check_chunk(tokens, advance) {
            Err(e) => Err(e),
            Ok(p) => Ok(self.chunk(&p, tokens, advance)),
        }
    }

    /// Plans a chunk of which every row counts.
    pub fn prefill_chunk(&self, tokens: &[u32]) -> (r: Result<PrefillPlan, SessionError>)
        requires
            self.wf(),
        ensures
            match r {
                Err(e) => self.chunk_error(tokens@, tokens@.len() as int) == Some(e),
                Ok(p) => {
                    &&& self.chunk_error(tokens@, tokens@.len() as int) is None
                    &&& self.is_chunk(tokens@, tokens@.len() as int, p)
                },
            },
    {
        self.prefill_chunk_advance(tokens, tokens.len())
    }

    /// Everything but the position and the prefill and verify parts.
    pub open spec fn same_but_batch(&self, old: &Self) -> bool {
        &&& self.max_seq == old.max_seq
        &&& self.kv_epoch == old.kv_epoch
        &&& self.vocab == old.vocab
        &&& self.validated == old.validated
        &&& self.timestamps == old.timestamps
        &&& self.prof == old.prof
        &&& self.staged_read == old.staged_read
        &&& self.spin_read == old.spin_read
        &&& self.preenc == old.preenc
        &&& self.pending == old.pending
        &&& self.pipe_cached == old.pipe_cached
        &&& self.pipe_parity == old.pipe_parity
        &&& self.pipe_read == old.pipe_read
        &&& self.pipe_inflight == old.pipe_inflight
        &&& self.same_graph(old)
    }

    /// Takes a submitted chunk into account. The position moves on unless a first submission
    /// did not validate.
    pub fn prefill_done(&mut self, plan: &PrefillPlan, valid: bool) -> (r: Result<
        (),
        SessionError,
    >)
        requires
            old(self).wf(),
            old(self).prefill is Some,
            old(self).pos + plan.advance <= old(self).max_seq,
        ensures
            final(self).wf(),
            final(self).same_but_batch(old(self)),
            final(self).verify == old(self).verify,
            ({
                let p = old(self).prefill->0;
                let failed = plan.validate && !valid;
                &&& r == if failed { Err::<(), SessionError>(SessionError::Validation) } else { Ok(()) }
                &&& final(self).pos == old(self).pos + if failed { 0 } else { plan.advance as int }
                &&& final(self).prefill == Some(
                    PrefillState {
                        rows_live: p.m,
                        pending: old(self).preenc,
                        validated: p.validated || (plan.validate && valid),
                        ..p
                    },
                )
            }),
    {
        if let Some(p) = self.prefill {
            let failed = plan.validate && !valid;
            self.prefill = Some(
                PrefillState {
                    rows_live: p.m,
                    pending: self.preenc,
                    validated: p.validated || (plan.validate && valid),
                    ..p
                },
            );
            if failed {
                return Err(SessionError::Validation);
            }
            self.pos = self.pos + plan.advance;
        }
        Ok(())
    }

    /// Plans a chunk whose passes are timed one by one. It uses no cached command list; the
    /// device reports back through [`Self::advance`].
    pub fn prefill_chunk_profiled(&mut self, tokens: &[u32], passes: u32, limit: u32) -> (r: Result<
        (PrefillPlan, u32),
        SessionError,
    >)
        requires
            old(self).wf(),
            passes <= u32::MAX / 2,
        ensures
            final(self).wf(),
            final(self).same_but_batch(old(self)),
            final(self).pos == old(self).pos,
            final(self).verify == old(self).verify,
            ({
                let refused = if !old(self).timestamps {
                    Some(SessionError::NoTimestamps)
                } else {
                    old(self).chunk_error(tokens@, tokens@.len() as int)
                };
                &&& refused matches Some(e) ==> r == Err::<(PrefillPlan, u32), SessionError>(e)
                    && *final(self) == *old(self)
                &&& refused is None ==> {
                    &&& final(self).prefill == Some(
                        PrefillState {
                            rows_live: old(self).prefill->0.m,
                            pending: false,
                            ..old(self).prefill->0
                        },
                    )
                    &&& match r {
                        Err(e) => e == SessionError::TooManyQueries && 2 * passes > limit,
                        Ok((plan, queries)) => {
                            &&& 2 * passes <= limit && queries == 2 * passes
                            &&& old(self).is_chunk(tokens@, tokens@.len() as int, plan)
                        },
                    }
                }
            }),
    {
        if !self.timestamps {
            return Err(SessionError::NoTimestamps);
        }
        match self.check_chunk(tokens, tokens.len()) {
            Err(e) => Err(e),
            Ok(p) => {
                let plan = self.chunk(&p, tokens, tokens.len());
                self.prefill = Some(PrefillState { rows_live: p.m, pending: false, ..p });
                if 2 * passes > limit {
                    return Err(SessionError::TooManyQueries);
                }
                Ok((plan, 2 * passes))
            },
        }
    }
}

/// How many tokens of a prompt part go into the next chunk after `done` of `len` were taken.
pub open spec fn chunk_take(m: int, tail: bool, pos: int, max_seq: int, len: int, done: int) -> int {
    if m == 0 || done >= len {
        0
    } else if len - done >= m {
        m
    } else if tail && pos + m <= max_seq {
        len - done
    } else {
        0
    }
}

/// How many tokens of `len` prompt tokens are taken in chunks, with the cache at `pos`.
pub open spec fn prefilled(m: int, tail: bool, pos: int, max_seq: int, len: int, done: int) -> int
    decreases len - done,
{
    let n = chunk_take(m, tail, pos + done, max_seq, len, done);
    if n <= 0 {
        done
    } else {
        prefilled(m, tail, pos, max_seq, len, done + n)
    }
}

/// Chunks take the prompt from the front and never more than there is. What is left is less
/// than a chunk, and is nothing where a padded chunk is allowed and fits into the cache.
pub proof fn law_prefilled(m: int, tail: bool, pos: int, max_seq: int, len: int, done: int)
    requires
        m > 0,
        0 <= done <= len,
    ensures
        done <= prefilled(m, tail, pos, max_seq, len, done) <= len,
        len - prefilled(m, tail, pos, max_seq, len, done) < m,
        ({
            let rest = (len - done) % m;
            prefilled(m, tail, pos, max_seq, len, done) == if rest == 0 || (tail && pos + len - rest
                + m <= max_seq) {
                len
            } else {
                len - rest
            }
        }),
    decreases len - done,
{
    let left = len - done;
    if left >= m {
        law_prefilled(m, tail, pos, max_seq, len, done + m);
        vstd::arithmetic::div_mod::lemma_mod_sub_multiples_vanish(left, m);
        assert((left - m) % m == left % m);
    } else {
        vstd::arithmetic::div_mod::lemma_small_mod(left as nat, m as nat);
        if left > 0 && tail && pos + done + m <= max_seq {
            law_prefilled(m, tail, pos, max_seq, len, len);
            vstd::arithmetic::div_mod::lemma_small_mod(0, m as nat);
        }
    }
}

impl Gemma4E4bWgpu {
    pub open spec fn next_take(&self, len: int, done: int) -> int {
        match self.prefill {
            None => 0,
            Some(p) => chunk_take(p.m as int, p.tail, self.pos as int, self.max_seq as int, len, done),
        }
    }

    /// The next chunk of a prompt part of which `done` tokens were taken: its tokens, and how
    /// many of them count. A short one is filled up with its last token. None where the rest
    /// is left to single steps.
    pub fn prefill_tokens(&self, tokens: &[u32], done: usize) -> (r: Option<(Vec<u32>, usize)>)
        requires
            self.wf(),
            done <= tokens@.len(),
        ensures
            r is None <==> self.next_take(tokens@.len() as int, done as int) == 0,
            r matches Some((chunk, n)) ==> {
                &&& n == self.next_take(tokens@.len() as int, done as int)
                &&& chunk@ == Seq::new(
                    self.prefill->0.m as nat,
                    |i: int|
                        if done + i < tokens@.len() {
                            tokens@[done + i]
                        } else {
                            tokens@.last()
                        },
                )
            },
    {
        let (m, tail) = match self.prefill {
            None => {
                return None;
            },
            Some(p) => (p.m, p.tail),
        };
        let len: usize = tokens.len();
        if done >= len {
            return None;
        }
        let left: usize = len - done;
        let n: usize = if left >= m {
            m
        } else if tail && m <= self.max_seq - self.pos {
            left
        } else {
            return None;
        };
        let mut chunk: Vec<u32> = Vec::new();
        while chunk.len() < m
            invariant
                chunk@.len() <= m,
                done < len,
                len == tokens@.len(),
                forall|i: int|
                    0 <= i < chunk@.len() ==> #[trigger] chunk@[i] == if done + i < len {
                        tokens@[done + i]
                    } else {
                        tokens@.last()
                    },
            decreases m - chunk@.len(),
        {
            let i: usize = chunk.len();
            let t: u32 = if i < len - done { tokens[done + i] } else { tokens[len - 1] };
            chunk.push(t);
        }
        Some((chunk, n))
    }

    /// How many leading tokens of a prompt may go into chunks: all but the last, which a
    /// decode step takes.
    pub fn prefill_prompt(&self, prompt: &[u32]) -> (r: Result<usize, SessionError>)
        ensures
            match r {
                Err(e) => e == SessionError::EmptyPrompt && prompt@.len() == 0,
                Ok(n) => n == prompt@.len() - 1,
            },
    {
        if prompt.len() == 0 {
            return Err(SessionError::EmptyPrompt);
        }
        Ok(prompt.len() - 1)
    }
}

/// A verify batch as the device gets it.
pub struct VerifyBatch {
    pub ids: Vec<i32>,
    pub positions: Vec<i32>,
    pub kv_start: i32,
    pub total: u32,
    pub m_rows: u32,
    /// The multi-row parameters have to be written for this many rows: those of the verify
    /// passes where they have their own, else those of the prefill passes.
    pub live: Option<usize>,
    /// The epilogue's parameters have to be written for this many rows.
    pub epilogue_live: Option<usize>,
    pub reuse: bool,
    pub reuse_epilogue: bool,
    pub validate: bool,
    /// Bytes of result tokens that are staged, and how many tokens are read.
    pub stage_bytes: u64,
    pub read: usize,
}

impl Gemma4E4bWgpu {
    /// Why a verify batch is refused.
    pub open spec fn batch_error(&self, batch: Seq<u32>) -> Option<SessionError> {
        match (self.prefill, self.verify) {
            (None, _) => Some(SessionError::PrefillDisabled),
            (Some(_), None) => Some(SessionError::VerifyDisabled),
            (Some(p), Some(v)) => if !(1 <= batch.len() <= v.rows) {
                Some(SessionError::BatchLength)
            } else if let Some(t) = stray(batch, self.vocab as int, 0) {
                Some(SessionError::OutOfVocab(t))
            } else if self.pos + p.m > self.max_seq {
                Some(SessionError::CacheFull)
            } else {
                None
            },
        }
    }

    /// The rows that a verify batch keeps live.
    pub open spec fn batch_live(&self, n: int) -> int {
        let p = self.prefill->0;
        if p.live_rows_enabled { n } else { p.m as int }
    }

    pub open spec fn epilogue_rows(&self, n: int) -> int {
        let p = self.prefill->0;
        let rows = self.verify->0.rows;
        if p.live_rows_enabled && n < rows { n } else { rows as int }
    }

    pub open spec fn is_batch(&self, batch: Seq<u32>, r: VerifyBatch) -> bool {
        let p = self.prefill->0;
        let v = self.verify->0;
        let live = self.batch_live(batch.len() as int);
        let known = if p.verify_params { p.rows_live_verify } else { p.rows_live };
        let rows = self.epilogue_rows(batch.len() as int);
        &&& r.ids@ == padded_ids(batch, p.m as nat)
        &&& r.positions@ == positions_from(self.pos as int, p.m as nat)
        &&& r.kv_start == self.pos as i32
        &&& r.total == (self.pos + live) as u32
        &&& r.m_rows == live as u32
        &&& r.live == if live == known { None } else { Some(live as usize) }
        &&& r.epilogue_live == if rows == v.rows_live { None } else { Some(rows as usize) }
        &&& r.reuse == if v.own_passes { v.pending_rows } else { p.pending }
        &&& r.reuse_epilogue == v.pending
        &&& r.validate == !v.validated
        &&& r.stage_bytes == (4 * v.rows) as u64
        &&& r.read == batch.len()
    }

    /// The prefill and verify parts once the batch's parameters are written.
    pub open spec fn batch_written(&self, n: int) -> (PrefillState, VerifyState) {
        let p = self.prefill->0;
        let live = self.batch_live(n) as usize;
        (
            if p.verify_params {
                PrefillState { rows_live_verify: live, ..p }
            } else {
                PrefillState { rows_live: live, ..p }
            },
            VerifyState { rows_live: self.epilogue_rows(n) as usize, ..self.verify->0 },
        )
    }

    fn check_batch(&self, batch: &[u32]) -> (r: Result<(PrefillState, VerifyState), SessionError>)
        requires
            self.wf(),
        ensures
            match r {
                Err(e) => self.batch_error(batch@) == Some(e),
                Ok((p, v)) => {
                    &&& self.batch_error(batch@) is None
                    &&& self.prefill == Some(p)
                    &&& self.verify == Some(v)
                },
            },
    {
        let p = match self.prefill {
            None => {
                return Err(SessionError::PrefillDisabled);
            },
            Some(p) => p,
        };
        let v = match self.verify {
            None => {
                return Err(SessionError::VerifyDisabled);
            },
            Some(v) => v,
        };
        if batch.len() < 1 || batch.len() > v.rows {
            return Err(SessionError::BatchLength);
        }
        if let Some(t) = find_stray(batch, self.vocab) {
            return Err(SessionError::OutOfVocab(t));
        }
        if p.m > self.max_seq - self.pos {
            return Err(SessionError::CacheFull);
        }
        Ok((p, v))
    }

    /// Plans a verify batch; the device submits it and reports to [`Self::verify_done`]. The
    /// position stays.
    pub fn verify_chain(&self, batch: &[u32]) -> (r: Result<VerifyBatch, SessionError>)
        requires
            self.wf(),
            self.verify matches Some(v) ==> 4 * v.rows <= u64::MAX,
        ensures
            match r {
                Err(e) => self.batch_error(batch@) == Some(e),
                Ok(b) => self.batch_error(batch@) is None && self.is_batch(batch@, b),
            },
    {
        match self.check_batch(batch) {
            Err(e) => Err(e),
            Ok((p, v)) => {
                let n: usize = batch.len();
                let live: usize = if p.live_rows_enabled { n } else { p.m };
                let known: usize = if p.verify_params { p.rows_live_verify } else { p.rows_live };
                let rows: usize = if p.live_rows_enabled && n < v.rows { n } else { v.rows };
                Ok(
                    VerifyBatch {
                        ids: ids_of(batch, p.m),
                        positions: positions(self.pos, p.m),
                        kv_start: self.pos as i32,
                        total: (self.pos + live) as u32,
                        m_rows: live as u32,
                        live: if live == known { None } else { Some(live) },
                        epilogue_live: if rows == v.rows_live { None } else { Some(rows) },
                        reuse: if v.own_passes { v.pending_rows } else { p.pending },
                        reuse_epilogue: v.pending,
                        validate: !v.validated,
                        stage_bytes: 4 * v.rows as u64,
                        read: n,
                    },
                )
            },
        }
    }

    fn mark_written(&mut self, n: usize)
        requires
            old(self).wf(),
            old(self).verify is Some,
            1 <= n <= old(self).verify->0.rows,
        ensures
            final(self).wf(),
            final(self).same_but_batch(old(self)),
            final(self).pos == old(self).pos,
            final(self).prefill == Some(old(self).batch_written(n as int).0),
            final(self).verify == Some(old(self).batch_written(n as int).1),
    {
        if let Some(p) = self.prefill {
            if let Some(v) = self.verify {
                let live: usize = if p.live_rows_enabled { n } else { p.m };
                let rows: usize = if p.live_rows_enabled && n < v.rows { n } else { v.rows };
                self.prefill = Some(
                    if p.verify_params {
                        PrefillState { rows_live_verify: live, ..p }
                    } else {
                        PrefillState { rows_live: live, ..p }
                    },
                );
                self.verify = Some(VerifyState { rows_live: rows, ..v });
            }
        }
    }

    /// Takes a submitted batch into account.
    pub fn verify_done(&mut self, plan: &VerifyBatch, valid: bool) -> (r: Result<(), SessionError>)
        requires
            old(self).wf(),
            old(self).verify is Some,
            1 <= plan.read <= old(self).verify->0.rows,
        ensures
            final(self).wf(),
            final(self).same_but_batch(old(self)),
            final(self).pos == old(self).pos,
            ({
                let (p, v) = old(self).batch_written(plan.read as int);
                let failed = plan.validate && !valid;
                &&& r == if failed { Err::<(), SessionError>(SessionError::Validation) } else { Ok(()) }
                &&& final(self).prefill == Some(
                    if v.own_passes { p } else { PrefillState { pending: old(self).preenc, ..p } },
                )
                &&& final(self).verify == Some(
                    VerifyState {
                        pending: old(self).preenc,
                        pending_rows: if v.own_passes { old(self).preenc } else { v.pending_rows },
                        validated: v.validated || (plan.validate && valid),
                        ..v
                    },
                )
            }),
    {
        self.mark_written(plan.read);
        if let Some(p) = self.prefill {
            if let Some(v) = self.verify {
                if !v.own_passes {
                    self.prefill = Some(PrefillState { pending: self.preenc, ..p });
                }
                self.verify = Some(
                    VerifyState {
                        pending: self.preenc,
                        pending_rows: if v.own_passes { self.preenc } else { v.pending_rows },
                        validated: v.validated || (plan.validate && valid),
                        ..v
                    },
                );
            }
        }
        if plan.validate && !valid {
            return Err(SessionError::Validation);
        }
        Ok(())
    }

    /// Plans a verify batch whose passes are timed one by one. It uses no cached command list,
    /// and leaves behind those that are encoded ahead of time.
    pub fn verify_chain_profiled(&mut self, batch: &[u32], passes: u32, limit: u32) -> (r: Result<
        (VerifyBatch, u32),
        SessionError,
    >)
        requires
            old(self).wf(),
            old(self).verify matches Some(v) ==> 4 * v.rows <= u64::MAX,
            passes <= u32::MAX / 2,
        ensures
            final(self).wf(),
            final(self).same_but_batch(old(self)),
            final(self).pos == old(self).pos,
            ({
                let refused = if !old(self).timestamps {
                    Some(SessionError::NoTimestamps)
                } else {
                    old(self).batch_error(batch@)
                };
                let (p, v) = old(self).batch_written(batch@.len() as int);
                &&& refused matches Some(e) ==> r == Err::<(VerifyBatch, u32), SessionError>(e)
                    && *final(self) == *old(self)
                &&& refused is None ==> match r {
                    Err(e) => {
                        &&& e == SessionError::TooManyQueries && 2 * passes > limit
                        &&& final(self).prefill == Some(p) && final(self).verify == Some(v)
                    },
                    Ok((plan, queries)) => {
                        &&& 2 * passes <= limit && queries == 2 * passes
                        &&& old(self).is_batch(batch@, plan)
                        &&& final(self).prefill == Some(
                            PrefillState { pending: !v.own_passes && old(self).preenc, ..p },
                        )
                        &&& final(self).verify == Some(
                            VerifyState {
                                pending: old(self).preenc,
                                pending_rows: v.own_passes && old(self).preenc,
                                ..v
                            },
                        )
                    },
                }
            }),
    {
        if !self.timestamps {
            return Err(SessionError::NoTimestamps);
        }
        let plan = match self.verify_chain(batch) {
            Err(e) => {
                return Err(e);
            },
            Ok(plan) => plan,
        };
        self.mark_written(batch.len());
        if 2 * passes > limit {
            return Err(SessionError::TooManyQueries);
        }
        if let Some(p) = self.prefill {
            if let Some(v) = self.verify {
                self.prefill = Some(PrefillState { pending: !v.own_passes && self.preenc, ..p });
                self.verify = Some(
                    VerifyState {
                        pending: self.preenc,
                        pending_rows: v.own_passes && self.preenc,
                        ..v
                    },
                );
            }
        }
        Ok((plan, 2 * passes))
    }
}

} // verus!
