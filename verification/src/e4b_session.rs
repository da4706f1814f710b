//! The decoding session of the E4B graph: positions, cached command lists, and what each
//! operation hands to the device.
use vstd::prelude::*;
use crate::e4b_env::MAX_CHAIN;

verus! {

/// Which of the two attention arms a decode step runs.
#[derive(Clone, Copy, Debug, PartialEq, Eq, Structural)]
pub enum SplitArm {
    Shallow,
    Deep,
}

/// What is timed while decoding.
#[derive(Clone, Copy, Debug, PartialEq, Eq, Structural)]
pub enum ProfMode {
    Off,
    PassTotal,
    PerDispatch,
}

/// Why an operation of the session is refused.
#[derive(Clone, Copy, Debug, PartialEq, Eq, Structural)]
pub enum SessionError {
    OutOfVocab(u32),
    CacheFull,
    PipeBusy,
    ChainLength,
    PrefillDisabled,
    ChunkLength,
    AdvanceRange,
    VerifyDisabled,
    BatchLength,
    NeedsStagedRead,
    NeedsToken,
    PipePrimed,
    PipeNotPrimed,
    PipeEmpty,
    PastMaxSeq,
    BeyondPos,
    EmptyPrompt,
    NoTimestamps,
    TooManyQueries,
    Speculative,
    RowRange,
    Validation,
    PrefixLength,
}

/// The rows of a prefill chunk and what is cached for them.
#[derive(Clone, Copy, Debug, PartialEq, Eq, Structural)]
pub struct PrefillState {
    pub m: usize,
    pub tail: bool,
    pub validated: bool,
    pub pending: bool,
    pub rows_live: usize,
    pub rows_live_verify: usize,
    pub live_rows_enabled: bool,
    /// The verify rows have parameters of their own.
    pub verify_params: bool,
}

/// The verify epilogue and what is cached for it.
#[derive(Clone, Copy, Debug, PartialEq, Eq, Structural)]
pub struct VerifyState {
    pub rows: usize,
    /// Verify rows run a pass list of their own.
    pub own_passes: bool,
    pub validated: bool,
    pub pending: bool,
    pub pending_rows: bool,
    pub rows_live: usize,
}

/// A decoding session.
pub struct Gemma4E4bWgpu {
    pub max_seq: usize,
    pub pos: usize,
    pub kv_epoch: u64,
    pub vocab: usize,
    pub validated: bool,
    pub timestamps: bool,
    pub prof: ProfMode,
    pub staged_read: bool,
    pub spin_read: bool,
    pub preenc: bool,
    pub pending: Option<SplitArm>,
    pub pipe_cached: [Option<SplitArm>; 2],
    pub pipe_parity: usize,
    pub pipe_read: usize,
    pub pipe_inflight: usize,
    pub prefill: Option<PrefillState>,
    pub verify: Option<VerifyState>,
    pub sliding_window: usize,
    pub decode_splits: u32,
    pub deep_split_depth: u32,
    pub deep_splits: u32,
    pub deep_full_only: bool,
}

/// What a decode step writes before it is submitted. A missing token keeps the one that the
/// step before left on the device.
#[derive(Clone, Copy, Debug, PartialEq, Eq, Structural)]
pub struct StepUniforms {
    pub token: Option<u32>,
    pub pos: i32,
    pub total: u32,
    pub sliding_start: u32,
    pub sliding_splits: u32,
    pub full_splits: u32,
}

/// One decode step: its uniforms, its arm, whether the cached command list serves it, and
/// whether its first submission is to be validated or timed.
#[derive(Clone, Copy, Debug, PartialEq, Eq, Structural)]
pub struct StepPlan {
    pub uniforms: StepUniforms,
    pub arm: SplitArm,
    pub reuse: bool,
    pub validate: bool,
    pub timed: bool,
}

/// The first position that a sliding window of `window` sees in a context of `total`.
pub open spec fn window_first(total: int, window: int) -> int {
    if window > 0 && total > window {
        total - window
    } else {
        0
    }
}

/// The first visible position of a sliding window.
pub fn window_start(total: usize, window: usize) -> (r: usize)
    ensures
        r == window_first(total as int, window as int),
{
    if window > 0 && total > window {
        total - window
    } else {
        0
    }
}

/// The window holds the last `window` positions, or all of them while there are fewer.
pub proof fn law_window(total: int, window: int)
    requires
        total >= 0,
        window > 0,
    ensures
        0 <= window_first(total, window) <= total,
        total - window_first(total, window) == if total < window { total } else { window },
{
}

impl Gemma4E4bWgpu {
    /// The position stays within the cache, and steps in flight are counted by it. The slot
    /// written next is as many steps ahead of the slot read next as are in flight.
    pub open spec fn wf(&self) -> bool {
        &&& self.pos <= self.max_seq
        &&& self.max_seq < usize::MAX - 3
        &&& self.pipe_inflight <= self.pos
        &&& self.pipe_parity < 2
        &&& self.pipe_read < 2
        &&& self.pipe_parity == if self.pipe_inflight % 2 == 0 {
            self.pipe_read as int
        } else {
            1 - self.pipe_read
        }
        &&& self.prefill matches Some(p) ==> p.m > 0
        &&& self.verify matches Some(v) ==> self.prefill is Some && v.rows <= self.prefill->0.m
    }

    pub open spec fn arm_at(&self, total: int) -> SplitArm {
        if self.deep_split_depth > 0 && total > self.deep_split_depth {
            SplitArm::Deep
        } else {
            SplitArm::Shallow
        }
    }

    pub open spec fn splits_of(&self, arm: SplitArm) -> u32 {
        match arm {
            SplitArm::Shallow => self.decode_splits,
            SplitArm::Deep => self.deep_splits,
        }
    }

    /// What a step at position `pos` writes.
    pub open spec fn uniforms_at(&self, pos: int, token: Option<u32>) -> StepUniforms {
        let splits = self.splits_of(self.arm_at(pos + 1));
        StepUniforms {
            token,
            pos: pos as i32,
            total: (pos + 1) as u32,
            sliding_start: window_first(pos + 1, self.sliding_window as int) as u32,
            sliding_splits: if self.deep_full_only { self.decode_splits } else { splits },
            full_splits: splits,
        }
    }

    /// The arm for a context of `total` positions.
    pub fn arm_for_total(&self, total: usize) -> (r: SplitArm)
        ensures
            r == self.arm_at(total as int),
    {
        if self.deep_split_depth > 0 && total > self.deep_split_depth as usize {
            SplitArm::Deep
        } else {
            SplitArm::Shallow
        }
    }

    /// The arm of the next step.
    pub fn active_arm(&self) -> (r: SplitArm)
        requires
            self.wf(),
        ensures
            r == self.arm_at(self.pos + 1),
    {
        self.arm_for_total(self.pos + 1)
    }

    pub fn arm_splits(&self, arm: SplitArm) -> (r: u32)
        ensures
            r == self.splits_of(arm),
    {
        match arm {
            SplitArm::Shallow => self.decode_splits,
            SplitArm::Deep => self.deep_splits,
        }
    }

    fn step_uniforms(&self, pos: usize, token: Option<u32>) -> (r: StepUniforms)
        requires
            pos < usize::MAX,
        ensures
            r == self.uniforms_at(pos as int, token),
    {
        let total: usize = pos + 1;
        let splits: u32 = self.arm_splits(self.arm_for_total(total));
        StepUniforms {
            token,
            pos: pos as i32,
            total: total as u32,
            sliding_start: window_start(total, self.sliding_window) as u32,
            sliding_splits: if self.deep_full_only { self.decode_splits } else { splits },
            full_splits: splits,
        }
    }

    /// What the next step writes.
    pub fn write_step_uniforms(&self, token: Option<u32>) -> (r: StepUniforms)
        requires
            self.wf(),
        ensures
            r == self.uniforms_at(self.pos as int, token),
    {
        self.step_uniforms(self.pos, token)
    }

    /// Why a plain decode step on `token` would be refused.
    pub open spec fn step_error(&self, token: u32) -> Option<SessionError> {
        if token as int >= self.vocab {
            Some(SessionError::OutOfVocab(token))
        } else if self.pos >= self.max_seq {
            Some(SessionError::CacheFull)
        } else if self.pipe_inflight != 0 {
            Some(SessionError::PipeBusy)
        } else {
            None
        }
    }

    pub open spec fn is_timed(&self) -> bool {
        self.prof != ProfMode::Off && self.timestamps
    }

    /// The decode step that would be submitted for `token`.
    pub open spec fn planned_step(&self, token: u32) -> StepPlan {
        let arm = self.arm_at(self.pos + 1);
        StepPlan {
            uniforms: self.uniforms_at(self.pos as int, Some(token)),
            arm,
            reuse: !self.is_timed() && self.pending == Some(arm),
            validate: !self.validated,
            timed: self.is_timed(),
        }
    }

    /// Plans a decode step; the device submits it and reports to [`Self::step_done`].
    pub fn step_inner(&self, token: u32) -> (r: Result<StepPlan, SessionError>)
        requires
            self.wf(),
        ensures
            match r {
                Ok(p) => self.step_error(token) is None && p == self.planned_step(token),
                Err(e) => self.step_error(token) == Some(e),
            },
    {
        if token as usize >= self.vocab {
            return Err(SessionError::OutOfVocab(token));
        }
        if self.pos >= self.max_seq {
            return Err(SessionError::CacheFull);
        }
        if self.pipe_inflight != 0 {
            return Err(SessionError::PipeBusy);
        }
        let arm = self.active_arm();
        let timed = self.prof != ProfMode::Off && self.timestamps;
        let cached = match self.pending {
            Some(a) => a == arm,
            None => false,
        };
        Ok(
            StepPlan {
                uniforms: self.step_uniforms(self.pos, Some(token)),
                arm,
                reuse: !timed && cached,
                validate: !self.validated,
                timed,
            },
        )
    }

    /// Whether this is `old` but for the position, the validation mark and the cached list.
    pub open spec fn same_but_step(&self, old: &Self) -> bool {
        &&& self.max_seq == old.max_seq
        &&& self.kv_epoch == old.kv_epoch
        &&& self.vocab == old.vocab
        &&& self.timestamps == old.timestamps
        &&& self.prof == old.prof
        &&& self.staged_read == old.staged_read
        &&& self.spin_read == old.spin_read
        &&& self.preenc == old.preenc
        &&& self.pipe_cached == old.pipe_cached
        &&& self.pipe_parity == old.pipe_parity
        &&& self.pipe_read == old.pipe_read
        &&& self.pipe_inflight == old.pipe_inflight
        &&& self.prefill == old.prefill
        &&& self.verify == old.verify
        &&& self.same_graph(old)
    }

    /// The parts that the graph fixes.
    pub open spec fn same_graph(&self, old: &Self) -> bool {
        &&& self.sliding_window == old.sliding_window
        &&& self.decode_splits == old.decode_splits
        &&& self.deep_split_depth == old.deep_split_depth
        &&& self.deep_splits == old.deep_splits
        &&& self.deep_full_only == old.deep_full_only
    }

    /// Takes a submitted step into account: the position moves on unless a first submission
    /// did not validate. The list for the step after is encoded ahead of time if wanted.
    pub fn step_done(&mut self, plan: &StepPlan, valid: bool) -> (r: Result<(), SessionError>)
        requires
            old(self).wf(),
            old(self).pos < old(self).max_seq,
        ensures
            final(self).same_but_step(old(self)),
            final(self).wf(),
            final(self).pending == if plan.timed {
                None
            } else if old(self).preenc {
                Some(old(self).arm_at(old(self).pos + 2))
            } else {
                None
            },
            match r {
                Err(e) => {
                    &&& e == SessionError::Validation && plan.validate && !valid
                    &&& final(self).pos == old(self).pos
                    &&& final(self).validated == old(self).validated
                },
                Ok(_) => {
                    &&& valid || !plan.validate
                    &&& final(self).pos == old(self).pos + 1
                    &&& final(self).validated == (old(self).validated || plan.validate)
                },
            },
    {
        self.pending = if plan.timed {
            None
        } else if self.preenc {
            Some(self.arm_for_total(self.pos + 2))
        } else {
            None
        };
        if plan.validate {
            if !valid {
                proof {
                    lemma_parity_same(*old(self), *self);
                }
                return Err(SessionError::Validation);
            }
            self.validated = true;
        }
        self.pos = self.pos + 1;
        Ok(())
    }
}

proof fn lemma_parity_same(a: Gemma4E4bWgpu, b: Gemma4E4bWgpu)
    requires
        a.wf(),
        b.same_but_step(&a),
        a.pos <= b.pos <= b.max_seq,
    ensures
        b.wf(),
{
}

/// How a decode chain runs: step by step, or in one go.
pub enum ChainPlan {
    StepByStep,
    /// The steps in order. Each leaves its token in the chain's output, and feeds it to the
    /// step after.
    OneGo(Vec<StepPlan>),
}

impl Gemma4E4bWgpu {
    pub open spec fn chain_error(&self, token: u32, k: int) -> Option<SessionError> {
        if !(1 <= k <= MAX_CHAIN) {
            Some(SessionError::ChainLength)
        } else if self.chain_stepwise(k) {
            None
        } else if token as int >= self.vocab {
            Some(SessionError::OutOfVocab(token))
        } else if self.pos + k > self.max_seq {
            Some(SessionError::CacheFull)
        } else {
            None
        }
    }

    /// A chain of one, a first submission or a timed one goes step by step.
    pub open spec fn chain_stepwise(&self, k: int) -> bool {
        k == 1 || !self.validated || self.prof != ProfMode::Off
    }

    /// Step `i` of a chain: only the first is given a token, and only the first can use the
    /// cached command list.
    pub open spec fn chain_step(&self, token: u32, i: int) -> StepPlan {
        let arm = self.arm_at(self.pos + i + 1);
        StepPlan {
            uniforms: self.uniforms_at(self.pos + i, if i == 0 { Some(token) } else { None }),
            arm,
            reuse: i == 0 && self.pending == Some(arm),
            validate: false,
            timed: false,
        }
    }

    /// Plans a chain of `k` steps. A chain in one go moves the position at once.
    pub fn decode_chain(&mut self, token: u32, k: usize) -> (r: Result<ChainPlan, SessionError>)
        requires
            old(self).wf(),
        ensures
            final(self).wf(),
            final(self).same_but_step(old(self)),
            final(self).validated == old(self).validated,
            match r {
                Err(e) => {
                    &&& old(self).chain_error(token, k as int) == Some(e)
                    &&& final(self).pos == old(self).pos
                    &&& final(self).pending == old(self).pending
                },
                Ok(ChainPlan::StepByStep) => {
                    &&& old(self).chain_error(token, k as int) is None
                    &&& old(self).chain_stepwise(k as int)
                    &&& final(self).pos == old(self).pos
                    &&& final(self).pending == old(self).pending
                },
                Ok(ChainPlan::OneGo(steps)) => {
                    &&& old(self).chain_error(token, k as int) is None
                    &&& !old(self).chain_stepwise(k as int)
                    &&& steps@ == Seq::new(k as nat, |i: int| old(self).chain_step(token, i))
                    &&& final(self).pos == old(self).pos + k
                    &&& final(self).pending == if old(self).preenc {
                        Some(old(self).arm_at(old(self).pos + k + 1))
                    } else {
                        None
                    }
                },
            },
    {
        if k < 1 || k > MAX_CHAIN {
            return Err(SessionError::ChainLength);
        }
        if k == 1 || !self.validated || self.prof != ProfMode::Off {
            return Ok(ChainPlan::StepByStep);
        }
        if token as usize >= self.vocab {
            return Err(SessionError::OutOfVocab(token));
        }
        if k > self.max_seq - self.pos {
            return Err(SessionError::CacheFull);
        }
        let mut steps: Vec<StepPlan> = Vec::new();
        let mut i: usize = 0;
        while i < k
            invariant
                i <= k,
                *self == *old(self),
                self.wf(),
                self.pos + k <= self.max_seq,
                steps@ == Seq::new(i as nat, |j: int| old(self).chain_step(token, j)),
            decreases k - i,
        {
            let arm = self.arm_for_total(self.pos + i + 1);
            let cached = match self.pending {
                Some(a) => a == arm,
                None => false,
            };
            steps.push(
                StepPlan {
                    uniforms: self.step_uniforms(
                        self.pos + i,
                        if i == 0 { Some(token) } else { None },
                    ),
                    arm,
                    reuse: i == 0 && cached,
                    validate: false,
                    timed: false,
                },
            );
            i = i + 1;
            assert(steps@ =~= Seq::new(i as nat, |j: int| old(self).chain_step(token, j)));
        }
        let next: usize = self.pos + k;
        self.pending = if self.preenc { Some(self.arm_for_total(next + 1)) } else { None };
        self.pos = next;
        Ok(ChainPlan::OneGo(steps))
    }
}

/// What is submitted into the decode pipe: the uniforms, the arm, the slot of the result and
/// whether the list cached for that slot serves.
#[derive(Clone, Copy, Debug, PartialEq, Eq, Structural)]
pub struct PipeSubmit {
    pub uniforms: StepUniforms,
    pub arm: SplitArm,
    pub slot: usize,
    pub reuse: bool,
}

/// A pipelined step: an ordinary step where the pipe cannot run, else what is submitted and
/// the slot whose token is taken.
#[derive(Clone, Copy, Debug, PartialEq, Eq, Structural)]
pub enum PipePlan {
    Plain(u32),
    Piped { prime: Option<PipeSubmit>, ahead: Option<PipeSubmit>, take: usize },
}

impl Gemma4E4bWgpu {
    pub open spec fn pipe_submission(&self, token: Option<u32>) -> PipeSubmit {
        let arm = self.arm_at(self.pos + 1);
        PipeSubmit {
            uniforms: self.uniforms_at(self.pos as int, token),
            arm,
            slot: self.pipe_parity,
            reuse: self.pipe_cached[self.pipe_parity as int] == Some(arm),
        }
    }

    /// The command list that is cached for a slot once a step at `pos` was put into it: the
    /// slot comes round again two steps later.
    pub open spec fn next_list(&self, pos: int) -> Option<SplitArm> {
        if self.preenc {
            Some(self.arm_at(pos + 3))
        } else {
            None
        }
    }

    /// The session after a step was put into the pipe.
    pub open spec fn after_pipe_submit(&self, new: &Self) -> bool {
        &&& new.pos == self.pos + 1
        &&& new.pipe_inflight == self.pipe_inflight + 1
        &&& new.pipe_parity == 1 - self.pipe_parity
        &&& new.pipe_read == self.pipe_read
        &&& new.pipe_cached[self.pipe_parity as int] == self.next_list(self.pos as int)
        &&& new.pipe_cached[1 - self.pipe_parity] == self.pipe_cached[1 - self.pipe_parity]
        &&& self.same_but_pipe(new)
    }

    /// Nothing but the position and the pipe differs.
    pub open spec fn same_but_pipe(&self, new: &Self) -> bool {
        &&& new.max_seq == self.max_seq
        &&& new.kv_epoch == self.kv_epoch
        &&& new.vocab == self.vocab
        &&& new.validated == self.validated
        &&& new.timestamps == self.timestamps
        &&& new.prof == self.prof
        &&& new.staged_read == self.staged_read
        &&& new.spin_read == self.spin_read
        &&& new.preenc == self.preenc
        &&& new.pending == self.pending
        &&& new.prefill == self.prefill
        &&& new.verify == self.verify
        &&& new.same_graph(self)
    }

    fn pipe_submit(&mut self, token: Option<u32>) -> (r: PipeSubmit)
        requires
            old(self).wf(),
            old(self).pos < old(self).max_seq,
        ensures
            final(self).wf(),
            r == old(self).pipe_submission(token),
            old(self).after_pipe_submit(final(self)),
    {
        let arm = self.active_arm();
        let slot: usize = self.pipe_parity;
        let cached = match self.pipe_cached[slot] {
            Some(a) => a == arm,
            None => false,
        };
        let r = PipeSubmit {
            uniforms: self.step_uniforms(self.pos, token),
            arm,
            slot,
            reuse: cached,
        };
        let next = if self.preenc { Some(self.arm_for_total(self.pos + 3)) } else { None };
        self.pipe_cached[slot] = next;
        self.pipe_parity = 1 - slot;
        self.pipe_inflight = self.pipe_inflight + 1;
        self.pos = self.pos + 1;
        r
    }

    fn pipe_take(&mut self) -> (slot: usize)
        requires
            old(self).wf(),
            old(self).pipe_inflight > 0,
        ensures
            final(self).wf(),
            slot == old(self).pipe_read,
            final(self).pos == old(self).pos,
            final(self).pipe_read == 1 - old(self).pipe_read,
            final(self).pipe_inflight == old(self).pipe_inflight - 1,
            final(self).pipe_parity == old(self).pipe_parity,
            final(self).pipe_cached == old(self).pipe_cached,
            old(self).same_but_pipe(final(self)),
    {
        let slot: usize = self.pipe_read;
        self.pipe_read = 1 - slot;
        self.pipe_inflight = self.pipe_inflight - 1;
        slot
    }

    pub fn decode_pipe_inflight(&self) -> (r: usize)
        ensures
            r == self.pipe_inflight,
    {
        self.pipe_inflight
    }

    /// Whether the pipe cannot run and an ordinary step takes its place.
    pub open spec fn pipe_plain(&self) -> bool {
        self.prof != ProfMode::Off || !self.validated
    }

    pub open spec fn pipe_error(&self, token: Option<u32>) -> Option<SessionError> {
        if !self.staged_read {
            Some(SessionError::NeedsStagedRead)
        } else if self.pipe_plain() {
            if token is None {
                Some(SessionError::NeedsToken)
            } else if self.pipe_inflight != 0 {
                Some(SessionError::PipePrimed)
            } else {
                None
            }
        } else {
            match token {
                Some(t) => if self.pipe_inflight != 0 {
                    Some(SessionError::PipePrimed)
                } else if t as int >= self.vocab {
                    Some(SessionError::OutOfVocab(t))
                } else if self.pos >= self.max_seq {
                    Some(SessionError::CacheFull)
                } else {
                    None
                },
                None => if self.pipe_inflight != 1 {
                    Some(SessionError::PipeNotPrimed)
                } else {
                    None
                },
            }
        }
    }

    /// Plans a pipelined step: a given token primes the pipe, one more step is put in behind
    /// it where the cache has room, and the oldest result is taken.
    pub fn decode_step_pipelined(&mut self, token: Option<u32>) -> (r: Result<PipePlan, SessionError>)
        requires
            old(self).wf(),
        ensures
            final(self).wf(),
            old(self).same_but_pipe(final(self)),
            match r {
                Err(e) => old(self).pipe_error(token) == Some(e) && *final(self) == *old(self),
                Ok(PipePlan::Plain(t)) => {
                    &&& old(self).pipe_error(token) is None && old(self).pipe_plain()
                    &&& token == Some(t) && *final(self) == *old(self)
                },
                Ok(PipePlan::Piped { prime, ahead, take }) => {
                    let primed = if token is Some { 1int } else { 0 };
                    let more = if old(self).pos + primed < old(self).max_seq { 1int } else { 0 };
                    &&& old(self).pipe_error(token) is None && !old(self).pipe_plain()
                    &&& take == old(self).pipe_read
                    &&& prime is Some == token is Some
                    &&& prime matches Some(p) ==> p == old(self).pipe_submission(token)
                    &&& ahead is Some == (more == 1)
                    &&& ahead matches Some(p) ==> {
                        &&& p.uniforms == old(self).uniforms_at(old(self).pos + primed, None)
                        &&& p.arm == old(self).arm_at(old(self).pos + primed + 1)
                        &&& p.slot == 1 - take
                        &&& p.reuse == (old(self).pipe_cached[p.slot as int] == Some(p.arm))
                    }
                    &&& final(self).pos == old(self).pos + primed + more
                    &&& final(self).pipe_inflight == more
                    // Without what runs ahead, every call moves on by one position.
                    &&& final(self).pos - final(self).pipe_inflight == old(self).pos - old(
                        self,
                    ).pipe_inflight + 1
                    &&& final(self).pipe_read == 1 - old(self).pipe_read
                    &&& final(self).pipe_cached[take as int] == if primed == 1 {
                        old(self).next_list(old(self).pos as int)
                    } else {
                        old(self).pipe_cached[take as int]
                    }
                    &&& final(self).pipe_cached[1 - take] == if more == 1 {
                        old(self).next_list(old(self).pos + primed)
                    } else {
                        old(self).pipe_cached[1 - take]
                    }
                },
            },
    {
        if !self.staged_read {
            return Err(SessionError::NeedsStagedRead);
        }
        if self.prof != ProfMode::Off || !self.validated {
            return match token {
                None => Err(SessionError::NeedsToken),
                Some(t) => if self.pipe_inflight != 0 {
                    Err(SessionError::PipePrimed)
                } else {
                    Ok(PipePlan::Plain(t))
                },
            };
        }
        let prime = match token {
            Some(t) => {
                if self.pipe_inflight != 0 {
                    return Err(SessionError::PipePrimed);
                }
                if t as usize >= self.vocab {
                    return Err(SessionError::OutOfVocab(t));
                }
                if self.pos >= self.max_seq {
                    return Err(SessionError::CacheFull);
                }
                Some(self.pipe_submit(Some(t)))
            },
            None => {
                if self.pipe_inflight != 1 {
                    return Err(SessionError::PipeNotPrimed);
                }
                None
            },
        };
        let ahead = if self.pos < self.max_seq { Some(self.pipe_submit(None)) } else { None };
        let take: usize = self.pipe_take();
        Ok(PipePlan::Piped { prime, ahead, take })
    }

    /// Drops the steps in flight: the position goes back by as many, and the cache contents
    /// past it no longer count.
    pub fn decode_pipe_abort(&mut self) -> (dropped: usize)
        requires
            old(self).wf(),
            old(self).kv_epoch < u64::MAX,
        ensures
            final(self).wf(),
            dropped == old(self).pipe_inflight,
            final(self).pos == old(self).pos - dropped,
            final(self).pipe_inflight == 0,
            final(self).pipe_parity == old(self).pipe_parity,
            final(self).pipe_read == if dropped == 0 { old(self).pipe_read } else { old(
                self,
            ).pipe_parity },
            final(self).pipe_cached == old(self).pipe_cached,
            final(self).kv_epoch == old(self).kv_epoch + if dropped > 0 { 1int } else { 0 },
            final(self).same_but_place(old(self)),
    {
        let d: usize = self.pipe_inflight;
        if d == 0 {
            return 0;
        }
        self.pipe_inflight = 0;
        self.pipe_read = self.pipe_parity;
        self.pos = self.pos - d;
        self.kv_epoch = self.kv_epoch + 1;
        d
    }

    /// Nothing but the position, the epoch and the steps in flight differs. Where no step is
    /// in flight, the slot read next is the slot written next.
    pub open spec fn same_but_place(&self, old: &Self) -> bool {
        &&& self.pipe_cached == old.pipe_cached
        &&& self.pipe_parity == old.pipe_parity
        &&& self.max_seq == old.max_seq
        &&& self.vocab == old.vocab
        &&& self.validated == old.validated
        &&& self.timestamps == old.timestamps
        &&& self.prof == old.prof
        &&& self.staged_read == old.staged_read
        &&& self.spin_read == old.spin_read
        &&& self.preenc == old.preenc
        &&& self.pending == old.pending
        &&& self.prefill == old.prefill
        &&& self.verify == old.verify
        &&& self.same_graph(old)
    }

    /// Starts over at position zero.
    pub fn reset(&mut self)
        requires
            old(self).wf(),
            old(self).kv_epoch < u64::MAX - 1,
        ensures
            final(self).wf(),
            final(self).pos == 0,
            final(self).pipe_inflight == 0,
            final(self).kv_epoch == old(self).kv_epoch + 1 + if old(self).pipe_inflight > 0 {
                1int
            } else {
                0
            },
            final(self).same_but_place(old(self)),
    {
        let _ = self.decode_pipe_abort();
        self.pos = 0;
        self.kv_epoch = self.kv_epoch + 1;
    }

    /// Moves to a position whose cache contents were restored.
    pub fn restore_pos(&mut self, pos: usize) -> (r: Result<(), SessionError>)
        requires
            old(self).wf(),
            old(self).kv_epoch < u64::MAX - 1,
        ensures
            final(self).wf(),
            final(self).pipe_inflight == 0,
            final(self).same_but_place(old(self)),
            ({
                let aborted = if old(self).pipe_inflight > 0 { 1int } else { 0 };
                match r {
                    Err(e) => {
                        &&& e == SessionError::PastMaxSeq && pos > old(self).max_seq
                        &&& final(self).pos == old(self).pos - old(self).pipe_inflight
                        &&& final(self).kv_epoch == old(self).kv_epoch + aborted
                    },
                    Ok(_) => {
                        &&& pos <= old(self).max_seq
                        &&& final(self).pos == pos
                        &&& final(self).kv_epoch == old(self).kv_epoch + aborted + 1
                    },
                }
            }),
    {
        let _ = self.decode_pipe_abort();
        if pos > self.max_seq {
            return Err(SessionError::PastMaxSeq);
        }
        self.pos = pos;
        self.kv_epoch = self.kv_epoch + 1;
        Ok(())
    }

    /// Moves the position on over rows that a verify batch already put into the cache.
    pub fn advance(&mut self, n: usize) -> (r: Result<(), SessionError>)
        requires
            old(self).wf(),
        ensures
            final(self).wf(),
            final(self).kv_epoch == old(self).kv_epoch,
            final(self).pipe_inflight == old(self).pipe_inflight,
            final(self).same_but_place(old(self)),
            match r {
                Err(e) => {
                    &&& e == SessionError::PastMaxSeq && old(self).pos + n > old(self).max_seq
                    &&& final(self).pos == old(self).pos
                },
                Ok(_) => {
                    &&& old(self).pos + n <= old(self).max_seq
                    &&& final(self).pos == old(self).pos + n
                },
            },
    {
        if n > self.max_seq - self.pos {
            return Err(SessionError::PastMaxSeq);
        }
        self.pos = self.pos + n;
        Ok(())
    }

    /// What is left of `old` after it was asked to go back to `pos`. Steps in flight are
    /// dropped either way.
    pub open spec fn truncated_from(&self, old: &Self, pos: usize, r: Result<(), SessionError>) -> bool {
        let here = old.pos - old.pipe_inflight;
        let aborted = if old.pipe_inflight > 0 { 1int } else { 0 };
        &&& self.pipe_inflight == 0
        &&& self.same_but_place(old)
        &&& match r {
            Err(e) => {
                &&& e == SessionError::BeyondPos && pos > here
                &&& self.pos == here
                &&& self.kv_epoch == old.kv_epoch + aborted
            },
            Ok(_) => {
                &&& pos <= here
                &&& self.pos == pos
                &&& self.kv_epoch == old.kv_epoch + aborted + if pos < here { 1int } else { 0 }
            },
        }
    }

    /// Goes back to an earlier position; cache contents past it no longer count.
    pub fn truncate_to(&mut self, pos: usize) -> (r: Result<(), SessionError>)
        requires
            old(self).wf(),
            old(self).kv_epoch < u64::MAX - 1,
        ensures
            final(self).wf(),
            final(self).truncated_from(old(self), pos, r),
    {
        let _ = self.decode_pipe_abort();
        if pos > self.pos {
            return Err(SessionError::BeyondPos);
        }
        if pos < self.pos {
            self.kv_epoch = self.kv_epoch + 1;
        }
        self.pos = pos;
        Ok(())
    }

    /// Goes back to an earlier position if the cache's rewind limits admit it.
    pub fn rewind_to(&mut self, pos: usize, admitted: bool) -> (r: Result<bool, SessionError>)
        requires
            old(self).wf(),
            old(self).kv_epoch < u64::MAX - 1,
        ensures
            final(self).wf(),
            match r {
                Ok(false) => !admitted && *final(self) == *old(self),
                Ok(true) => admitted && final(self).truncated_from(old(self), pos, Ok(())),
                Err(e) => admitted && final(self).truncated_from(old(self), pos, Err(e)),
            },
    {
        if !admitted {
            return Ok(false);
        }
        match self.truncate_to(pos) {
            Ok(_) => Ok(true),
            Err(e) => Err(e),
        }
    }
}

impl Gemma4E4bWgpu {
    /// Everything but the timing mode, the reading and encoding switches and the cached lists.
    pub open spec fn same_but_switches(&self, old: &Self) -> bool {
        &&& self.max_seq == old.max_seq
        &&& self.pos == old.pos
        &&& self.kv_epoch == old.kv_epoch
        &&& self.vocab == old.vocab
        &&& self.validated == old.validated
        &&& self.timestamps == old.timestamps
        &&& self.pipe_cached == old.pipe_cached
        &&& self.pipe_parity == old.pipe_parity
        &&& self.pipe_read == old.pipe_read
        &&& self.pipe_inflight == old.pipe_inflight
        &&& self.prefill == old.prefill
        &&& self.same_graph(old)
    }

    /// Chooses what is timed. Without timestamp queries only `Off` is taken.
    pub fn set_prof_mode(&mut self, mode: ProfMode) -> (taken: bool)
        ensures
            taken == (mode == ProfMode::Off || old(self).timestamps),
            final(self).prof == if taken { mode } else { ProfMode::Off },
            final(self).pending == if taken { None } else { old(self).pending },
            final(self).same_but_switches(old(self)),
            final(self).staged_read == old(self).staged_read,
            final(self).spin_read == old(self).spin_read,
            final(self).preenc == old(self).preenc,
            final(self).verify == old(self).verify,
    {
        if mode != ProfMode::Off && !self.timestamps {
            self.prof = ProfMode::Off;
            return false;
        }
        self.prof = mode;
        self.pending = None;
        true
    }

    pub fn prof_mode(&self) -> (r: ProfMode)
        ensures
            r == self.prof,
    {
        self.prof
    }

    /// Whether results are read through the staging buffer. A change drops the command lists
    /// that copy into it.
    pub fn set_staged_read(&mut self, on: bool)
        ensures
            final(self).staged_read == on,
            on == old(self).staged_read ==> *final(self) == *old(self),
            on != old(self).staged_read ==> {
                &&& final(self).pending is None
                &&& final(self).verify is Some == old(self).verify is Some
                &&& old(self).verify matches Some(v) ==> final(self).verify == Some(
                    VerifyState { pending: false, ..v },
                )
            },
            final(self).same_but_switches(old(self)),
            final(self).prof == old(self).prof,
            final(self).spin_read == old(self).spin_read,
            final(self).preenc == old(self).preenc,
    {
        if on == self.staged_read {
            return;
        }
        self.staged_read = on;
        self.pending = None;
        if let Some(v) = self.verify {
            self.verify = Some(VerifyState { pending: false, ..v });
        }
    }

    pub fn staged_read(&self) -> (r: bool)
        ensures
            r == self.staged_read,
    {
        self.staged_read
    }

    pub fn set_spin_read(&mut self, on: bool)
        ensures
            final(self).spin_read == on,
            final(self).same_but_switches(old(self)),
            final(self).prof == old(self).prof,
            final(self).staged_read == old(self).staged_read,
            final(self).preenc == old(self).preenc,
            final(self).pending == old(self).pending,
            final(self).verify == old(self).verify,
    {
        self.spin_read = on;
    }

    pub fn spin_read(&self) -> (r: bool)
        ensures
            r == self.spin_read,
    {
        self.spin_read
    }

    /// Whether the list of the next step is encoded ahead of time. Switching it off drops the
    /// one at hand.
    pub fn set_preenc(&mut self, on: bool)
        ensures
            final(self).preenc == on,
            final(self).pending == if on { old(self).pending } else { None },
            final(self).same_but_switches(old(self)),
            final(self).prof == old(self).prof,
            final(self).staged_read == old(self).staged_read,
            final(self).spin_read == old(self).spin_read,
            final(self).verify == old(self).verify,
    {
        self.preenc = on;
        if !on {
            self.pending = None;
        }
    }

    pub fn preenc(&self) -> (r: bool)
        ensures
            r == self.preenc,
    {
        self.preenc
    }

    /// Moves to a position for probing and gives what a step there writes.
    pub fn probe_at(&mut self, token: u32, pos: usize) -> (r: Result<StepUniforms, SessionError>)
        requires
            old(self).wf(),
            old(self).pipe_inflight <= pos,
        ensures
            final(self).wf(),
            final(self).same_but_step(old(self)),
            final(self).validated == old(self).validated,
            final(self).pending == old(self).pending,
            match r {
                Err(e) => {
                    &&& e == SessionError::PastMaxSeq && pos >= old(self).max_seq
                    &&& final(self).pos == old(self).pos
                },
                Ok(u) => {
                    &&& pos < old(self).max_seq && final(self).pos == pos
                    &&& u == old(self).uniforms_at(pos as int, Some(token))
                },
            },
    {
        if pos >= self.max_seq {
            return Err(SessionError::PastMaxSeq);
        }
        self.pos = pos;
        Ok(self.step_uniforms(pos, Some(token)))
    }

    pub fn current_pos(&self) -> (r: usize)
        ensures
            r == self.pos,
    {
        self.pos
    }

    pub fn max_seq(&self) -> (r: usize)
        ensures
            r == self.max_seq,
    {
        self.max_seq
    }

    /// Changes whenever cache contents that were there stop to count.
    pub fn kv_epoch(&self) -> (r: u64)
        ensures
            r == self.kv_epoch,
    {
        self.kv_epoch
    }

    /// The tokens of a prefill chunk, or zero without prefill.
    pub fn prefill_chunk_len(&self) -> (r: usize)
        ensures
            r == match self.prefill {
                Some(p) => p.m,
                None => 0,
            },
    {
        match self.prefill {
            Some(p) => p.m,
            None => 0,
        }
    }

    /// The most rows that a verify batch can have, or zero without verify.
    pub fn verify_max_rows(&self) -> (r: usize)
        ensures
            r == match self.verify {
                Some(v) => v.rows,
                None => 0,
            },
    {
        match self.verify {
            Some(v) => v.rows,
            None => 0,
        }
    }

    /// Whether the cache may be read whole: not while a step in flight has written to it.
    pub fn kv_cache_snapshot(&self) -> (r: Result<(), SessionError>)
        ensures
            r == if self.pipe_inflight == 0 {
                Ok::<(), SessionError>(())
            } else {
                Err(SessionError::Speculative)
            },
    {
        if self.pipe_inflight == 0 {
            Ok(())
        } else {
            Err(SessionError::Speculative)
        }
    }

    /// The first word and the words of `len` positions from `start` in a cache buffer of
    /// `words` words.
    pub fn kv_cache_snapshot_range(&self, words: usize, start: usize, len: usize) -> (r: Result<
        (usize, usize),
        SessionError,
    >)
        requires
            self.max_seq > 0,
        ensures
            match r {
                Err(e) => e == SessionError::PastMaxSeq && start + len > self.max_seq,
                Ok((first, count)) => {
                    let per = words as int / self.max_seq as int;
                    &&& start + len <= self.max_seq
                    &&& first == start * per
                    &&& count == len * per
                    &&& first + count <= words
                },
            },
    {
        if start > self.max_seq || len > self.max_seq - start {
            return Err(SessionError::PastMaxSeq);
        }
        let per: usize = words / self.max_seq;
        proof {
            let p = per as int;
            let m = self.max_seq as int;
            let s = start as int;
            let l = len as int;
            assert(p * m <= words) by (nonlinear_arith)
                requires
                    p == words as int / m,
                    m > 0,
            ;
            assert(0 <= s * p && 0 <= l * p && s * p + l * p <= p * m) by (nonlinear_arith)
                requires
                    0 <= p,
                    0 <= s,
                    0 <= l,
                    s + l <= m,
            ;
        }
        Ok((start * per, len * per))
    }

    /// Whether the hidden row of the last decode step may be read.
    pub fn decode_hidden_row(&self) -> (r: Result<(), SessionError>)
        ensures
            r == if self.pipe_inflight == 0 {
                Ok::<(), SessionError>(())
            } else {
                Err(SessionError::Speculative)
            },
    {
        if self.pipe_inflight == 0 {
            Ok(())
        } else {
            Err(SessionError::Speculative)
        }
    }

    /// The first word and the end of the hidden row of verify row `row`.
    pub fn verify_hidden_row(&self, row: usize, row_words: usize) -> (r: Result<
        (usize, usize),
        SessionError,
    >)
        requires
            self.verify matches Some(v) ==> v.rows * row_words <= usize::MAX,
        ensures
            match r {
                Err(e) => match self.verify {
                    None => e == SessionError::VerifyDisabled,
                    Some(v) => e == SessionError::RowRange && row >= v.rows,
                },
                Ok((first, end)) => {
                    &&& self.verify is Some && row < self.verify->0.rows
                    &&& first == row * row_words
                    &&& end == (row + 1) * row_words
                },
            },
    {
        match self.verify {
            None => Err(SessionError::VerifyDisabled),
            Some(v) => {
                if row >= v.rows {
                    return Err(SessionError::RowRange);
                }
                proof {
                    assert((row + 1) * row_words <= v.rows * row_words && row * row_words + row_words
                        == (row + 1) * row_words && 0 <= row * row_words) by (nonlinear_arith)
                        requires
                            row + 1 <= v.rows,
                    ;
                }
                let first: usize = row * row_words;
                Ok((first, first + row_words))
            },
        }
    }
}

/// The upper and the lower half of a word, each as the bits of an `f32` of which they are the
/// leading ones.
pub open spec fn halves(w: u32) -> (u32, u32) {
    ((w & 0xffff) << 16, w & 0xffff_0000)
}

/// Two packed bf16 values to a word, as the bits of their `f32` values in order.
pub fn hidden_bits(words: &[u32]) -> (r: Vec<u32>)
    ensures
        r@.len() == 2 * words@.len(),
        forall|i: int|
            #![trigger words@[i]]
            0 <= i < words@.len() ==> r@[2 * i] == halves(words@[i]).0 && r@[2 * i + 1] == halves(
                words@[i],
            ).1,
{
    let mut r: Vec<u32> = Vec::new();
    let mut i: usize = 0;
    while i < words.len()
        invariant
            i <= words@.len(),
            r@.len() == 2 * i,
            forall|j: int|
                #![trigger words@[j]]
                0 <= j < i ==> r@[2 * j] == halves(words@[j]).0 && r@[2 * j + 1] == halves(
                    words@[j],
                ).1,
        decreases words@.len() - i,
    {
        let w: u32 = words[i];
        r.push((w & 0xffff) << 16);
        r.push(w & 0xffff_0000);
        i = i + 1;
    }
    r
}

/// A packed word is its two halves put together: unpacking loses nothing.
pub proof fn law_halves(w: u32)
    ensures
        w == (halves(w).0 >> 16) | halves(w).1,
{
    assert(w == (((w & 0xffff) << 16) >> 16) | (w & 0xffff_0000)) by (bit_vector);
}

/// The timestamp queries of a profiled submission of `passes` passes, and their bytes.
pub fn prof_queries(per_dispatch: bool, passes: u32, limit: u32) -> (r: Result<
    (u32, u64),
    SessionError,
>)
    requires
        passes <= u32::MAX / 2,
    ensures
        ({
            let q = if per_dispatch { 2 * passes as int } else { 2 };
            match r {
                Ok((queries, bytes)) => q <= limit && queries == q && bytes == 8 * q,
                Err(e) => e == SessionError::TooManyQueries && q > limit,
            }
        }),
{
    let queries: u32 = if per_dispatch { 2 * passes } else { 2 };
    if queries > limit {
        return Err(SessionError::TooManyQueries);
    }
    Ok((queries, queries as u64 * 8))
}

/// A row of `n` ids of which the first is `v` and the others are zero.
pub fn lead_row(v: i32, n: usize) -> (r: Vec<i32>)
    requires
        n > 0,
    ensures
        r@ == Seq::new(n as nat, |i: int| if i == 0 { v } else { 0i32 }),
{
    let mut r: Vec<i32> = vec![v];
    while r.len() < n
        invariant
            1 <= r@.len() <= n,
            r@ == Seq::new(r@.len(), |i: int| if i == 0 { v } else { 0i32 }),
        decreases n - r@.len(),
    {
        r.push(0);
    }
    r
}

} // verus!
