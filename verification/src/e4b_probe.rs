//! Probing a decode graph: running some of its passes again, or only the first of them.
use vstd::prelude::*;
use crate::e4b_head::E4bGraph;
use crate::e4b_ir::Grid;
use crate::e4b_session::{prof_queries, Gemma4E4bWgpu, ProfMode, SessionError, SplitArm};
use crate::e4b_sizes::{copies_of, picks, probe_append_class};

verus! {

/// The passes that run after the graph's own `base` passes, as places among these.
pub struct ProbeTail {
    pub base: usize,
    pub places: Vec<usize>,
}

impl ProbeTail {
    pub open spec fn wf(&self) -> bool {
        &&& self.base + self.places@.len() <= usize::MAX
        &&& forall|i: int| 0 <= i < self.places@.len() ==> #[trigger] self.places@[i] < self.base
    }

    /// All passes, by place.
    pub open spec fn run(&self) -> Seq<usize> {
        Seq::new(self.base as nat, |i: int| i as usize) + self.places@
    }

    /// Nothing runs after the graph's own passes.
    pub fn new(base: usize) -> (r: ProbeTail)
        ensures
            r.wf(),
            r.base == base,
            r.places@.len() == 0,
    {
        ProbeTail { base, places: Vec::new() }
    }

    pub fn len(&self) -> (r: usize)
        requires
            self.wf(),
        ensures
            r == self.run().len(),
    {
        self.base + self.places.len()
    }
}

proof fn lemma_picks_below(
    labels: Seq<String>,
    bytes: Seq<u64>,
    needle: Seq<char>,
    widest: Option<u64>,
    n: int,
)
    requires
        0 <= n <= usize::MAX,
    ensures
        forall|i: int|
            0 <= i < picks(labels, bytes, needle, widest, n).len() ==> #[trigger] picks(
                labels,
                bytes,
                needle,
                widest,
                n,
            )[i] < n,
    decreases n,
{
    if n > 0 {
        lemma_picks_below(labels, bytes, needle, widest, n - 1);
        let t = picks(labels, bytes, needle, widest, n - 1);
        let s = picks(labels, bytes, needle, widest, n);
        assert forall|i: int| 0 <= i < s.len() implies #[trigger] s[i] < n by {
            if i < t.len() {
                assert(s[i] == t[i]);
            }
        }
    }
}

proof fn lemma_copies_below(s: Seq<usize>, n: int, bound: int)
    requires
        forall|i: int| 0 <= i < s.len() ==> #[trigger] s[i] < bound,
    ensures
        forall|i: int| 0 <= i < copies_of(s, n).len() ==> #[trigger] copies_of(s, n)[i] < bound,
    decreases n,
{
    if n > 0 {
        lemma_copies_below(s, n - 1, bound);
        let t = copies_of(s, n - 1);
        assert forall|i: int| 0 <= i < copies_of(s, n).len() implies #[trigger] copies_of(s, n)[i]
            < bound by {
            if i < t.len() {
                assert(copies_of(s, n)[i] == t[i]);
            } else {
                assert(copies_of(s, n)[i] == s[i - t.len()]);
            }
        }
    }
}

/// A run of passes within one timed region, with the queries that its beginning and its end
/// are written to.
pub struct ProfPass {
    pub runs: Vec<(usize, SplitArm)>,
    pub begin: Option<u32>,
    pub end: Option<u32>,
}

pub struct ProfMark {
    pub runs: Seq<(usize, SplitArm)>,
    pub begin: Option<u32>,
    pub end: Option<u32>,
}

/// A timed step: how many queries it takes, their bytes, its passes, and whether the token is
/// staged.
pub struct ProfPlan {
    pub queries: u32,
    pub bytes: u64,
    pub passes: Vec<ProfPass>,
    pub stage: bool,
}

impl ProfPlan {
    pub open spec fn marks(&self) -> Seq<ProfMark> {
        mark_seq(self.passes@)
    }
}

pub open spec fn mark_seq(s: Seq<ProfPass>) -> Seq<ProfMark> {
    s.map_values(|p: ProfPass| ProfMark { runs: p.runs@, begin: p.begin, end: p.end })
}

/// Each pass between two queries of its own.
pub open spec fn marks_each(runs: Seq<(usize, SplitArm)>) -> Seq<ProfMark> {
    Seq::new(
        runs.len(),
        |i: int|
            ProfMark {
                runs: seq![runs[i]],
                begin: Some((2 * i) as u32),
                end: Some((2 * i + 1) as u32),
            },
    )
}

/// All passes between the two queries that an empty pass before and one after them write.
pub open spec fn marks_around(runs: Seq<(usize, SplitArm)>) -> Seq<ProfMark> {
    seq![
        ProfMark { runs: Seq::empty(), begin: Some(0), end: None },
        ProfMark { runs, begin: None, end: None },
        ProfMark { runs: Seq::empty(), begin: None, end: Some(1) },
    ]
}

/// A query is written by the beginning or the end of this pass.
pub open spec fn writes(m: ProfMark, q: u32) -> bool {
    m.begin == Some(q) || m.end == Some(q)
}

/// Where each pass is timed, every query is written by one pass alone, and every other query
/// is its beginning.
pub proof fn law_queries_written(runs: Seq<(usize, SplitArm)>, q: u32, i: int)
    requires
        runs.len() <= u32::MAX / 2,
        0 <= i < runs.len(),
    ensures
        writes(marks_each(runs)[i], q) <==> i == q / 2,
        marks_each(runs)[i].begin == Some(q) <==> i == q / 2 && q % 2 == 0,
{
}

impl Gemma4E4bWgpu {
    /// The session without a cached command list.
    pub open spec fn unlisted(&self) -> Gemma4E4bWgpu {
        Gemma4E4bWgpu { pending: None, ..*self }
    }

    /// Has the passes that a probe picks run again, `copies` times over, in place of those
    /// that an earlier probe picked. Gives their number, or nothing where it does not fit.
    pub fn probe_append_class(
        &mut self,
        tail: &mut ProbeTail,
        labels: &Vec<String>,
        bytes: &Vec<u64>,
        needle: &str,
        widest: Option<u64>,
        copies: usize,
    ) -> (n: Option<usize>)
        requires
            labels@.len() == old(tail).base,
            bytes@.len() == old(tail).base,
        ensures
            final(tail).base == old(tail).base,
            *final(self) == old(self).unlisted(),
            ({
                let added = copies_of(
                    picks(labels@, bytes@, needle@, widest, labels@.len() as int),
                    copies as int,
                );
                match n {
                    Some(k) => k == added.len() && final(tail).places@ == added && final(tail).wf(),
                    None => old(tail).base + added.len() > usize::MAX && final(tail).places@
                        == old(tail).places@,
                }
            }),
    {
        let added = probe_append_class(labels, bytes, needle, widest, copies);
        self.pending = None;
        if added.len() > usize::MAX - tail.base {
            return None;
        }
        let n: usize = added.len();
        proof {
            let base = tail.base as int;
            lemma_picks_below(labels@, bytes@, needle@, widest, base);
            lemma_copies_below(picks(labels@, bytes@, needle@, widest, base), copies as int, base);
        }
        tail.places = added;
        Some(n)
    }

    /// Has the passes whose label holds `needle` run again, `copies` times over.
    pub fn probe_append(
        &mut self,
        tail: &mut ProbeTail,
        labels: &Vec<String>,
        bytes: &Vec<u64>,
        needle: &str,
        copies: usize,
    ) -> (n: Option<usize>)
        requires
            labels@.len() == old(tail).base,
            bytes@.len() == old(tail).base,
        ensures
            final(tail).base == old(tail).base,
            *final(self) == old(self).unlisted(),
            ({
                let added = copies_of(
                    picks(labels@, bytes@, needle@, None, labels@.len() as int),
                    copies as int,
                );
                match n {
                    Some(k) => k == added.len() && final(tail).places@ == added && final(tail).wf(),
                    None => old(tail).base + added.len() > usize::MAX && final(tail).places@
                        == old(tail).places@,
                }
            }),
    {
        self.probe_append_class(tail, labels, bytes, needle, None, copies)
    }

    /// Ends a probe: only the graph's own passes run.
    pub fn probe_append_clear(&mut self, tail: &mut ProbeTail)
        ensures
            final(tail).base == old(tail).base,
            final(tail).places@.len() == 0,
            final(tail).wf(),
            *final(self) == old(self).unlisted(),
    {
        tail.places = Vec::new();
        self.pending = None;
    }

    /// The passes that run, with the arm that each is taken from: passes that a probe has run
    /// again are never replaced by their twins.
    pub open spec fn launches(&self, tail: &ProbeTail) -> Seq<(usize, SplitArm)> {
        Seq::new(
            tail.run().len(),
            |i: int|
                (
                    tail.run()[i],
                    if i < tail.base {
                        self.arm_at(self.pos + 1)
                    } else {
                        SplitArm::Shallow
                    },
                ),
        )
    }

    /// The first `n` passes that run.
    pub fn probe_prefix(&self, tail: &ProbeTail, n: usize) -> (r: Result<
        Vec<(usize, SplitArm)>,
        SessionError,
    >)
        requires
            self.wf(),
            tail.wf(),
        ensures
            match r {
                Ok(v) => n <= tail.run().len() && v@ == self.launches(tail).take(n as int),
                Err(e) => e == SessionError::PrefixLength && n > tail.run().len(),
            },
    {
        if n > tail.len() {
            return Err(SessionError::PrefixLength);
        }
        let arm = self.active_arm();
        let mut v: Vec<(usize, SplitArm)> = Vec::new();
        let mut i: usize = 0;
        while i < n
            invariant
                i <= n <= tail.run().len(),
                tail.wf(),
                arm == self.arm_at(self.pos + 1),
                v@ == self.launches(tail).take(i as int),
            decreases n - i,
        {
            if i < tail.base {
                v.push((i, arm));
            } else {
                v.push((tail.places[i - tail.base], SplitArm::Shallow));
            }
            i = i + 1;
            assert(v@ =~= self.launches(tail).take(i as int));
        }
        Ok(v)
    }

    /// The first `n` passes, written down and not run.
    pub fn probe_encode(&self, tail: &ProbeTail, n: usize) -> (r: Result<
        Vec<(usize, SplitArm)>,
        SessionError,
    >)
        requires
            self.wf(),
            tail.wf(),
        ensures
            match r {
                Ok(v) => n <= tail.run().len() && v@ == self.launches(tail).take(n as int),
                Err(e) => e == SessionError::PrefixLength && n > tail.run().len(),
            },
    {
        self.probe_prefix(tail, n)
    }

    /// Plans a timed step: a pair of timestamps around each pass, or one pair around them
    /// all, which empty passes write.
    pub fn submit_prof(&self, tail: &ProbeTail, limit: u32) -> (r: Result<ProfPlan, SessionError>)
        requires
            self.wf(),
            tail.wf(),
            tail.run().len() <= u32::MAX / 2,
        ensures
            ({
                let each = self.prof == ProfMode::PerDispatch;
                let n = tail.run().len();
                let queries = if each { 2 * n as int } else { 2 };
                match r {
                    Err(e) => e == SessionError::TooManyQueries && queries > limit,
                    Ok(p) => {
                        &&& queries <= limit
                        &&& p.queries == queries
                        &&& p.bytes == 8 * queries
                        &&& p.stage == self.staged_read
                        &&& p.marks() == if each {
                            marks_each(self.launches(tail))
                        } else {
                            marks_around(self.launches(tail))
                        }
                    },
                }
            }),
    {
        let n: usize = tail.len();
        let each = self.prof == ProfMode::PerDispatch;
        let (queries, bytes) = match prof_queries(each, n as u32, limit) {
            Err(e) => {
                return Err(e);
            },
            Ok(q) => q,
        };
        let runs = match self.probe_prefix(tail, n) {
            Err(e) => {
                return Err(e);
            },
            Ok(v) => v,
        };
        assert(self.launches(tail).take(n as int) =~= self.launches(tail));
        let mut passes: Vec<ProfPass> = Vec::new();
        if each {
            let mut i: usize = 0;
            while i < n
                invariant
                    i <= n <= u32::MAX / 2,
                    runs@.len() == n,
                    mark_seq(passes@) == marks_each(runs@.take(i as int)),
                decreases n - i,
            {
                let k: u32 = i as u32;
                let ghost before = passes@;
                passes.push(ProfPass { runs: vec![runs[i]], begin: Some(2 * k), end: Some(2 * k + 1) });
                i = i + 1;
                proof {
                    assert(passes@.last().runs@ =~= seq![runs@[i - 1]]);
                    let now = marks_each(runs@.take(i as int));
                    assert(mark_seq(before).len() == before.len());
                    assert(marks_each(runs@.take(i - 1)).len() == i - 1);
                    assert forall|j: int| 0 <= j < i implies mark_seq(passes@)[j] == now[j] by {
                        if j < i - 1 {
                            assert(mark_seq(before)[j] == marks_each(runs@.take(i - 1))[j]);
                            assert(passes@[j] == before[j]);
                        }
                    }
                    assert(mark_seq(passes@) =~= now);
                }
            }
            assert(runs@.take(n as int) =~= runs@);
        } else {
            passes.push(ProfPass { runs: Vec::new(), begin: Some(0), end: None });
            passes.push(ProfPass { runs, begin: None, end: None });
            passes.push(ProfPass { runs: Vec::new(), begin: None, end: Some(1) });
            proof {
                assert(passes@[0].runs@ =~= Seq::empty());
                assert(passes@[2].runs@ =~= Seq::empty());
                assert(mark_seq(passes@) =~= marks_around(self.launches(tail)));
            }
        }
        Ok(ProfPlan { queries, bytes, passes, stage: self.staged_read })
    }

    /// Makes room for a layer's cache to be written back: a step that runs ahead is dropped.
    /// Says whether there is anything to write, which is so for layers with a cache of their
    /// own.
    pub fn kv_cache_restore(&mut self, has_cache: bool) -> (r: bool)
        requires
            old(self).wf(),
            old(self).kv_epoch < u64::MAX,
        ensures
            final(self).wf(),
            r == has_cache,
            final(self).pipe_inflight == 0,
            final(self).kv_epoch == old(self).kv_epoch + if old(self).pipe_inflight > 0 {
                1int
            } else {
                0
            },
            final(self).pos == old(self).pos - old(self).pipe_inflight,
            final(self).same_but_place(old(self)),
    {
        self.decode_pipe_abort();
        has_cache
    }
}

impl Gemma4E4bWgpu {
    /// What decides how far a session may be taken back: the ring and the window of sliding
    /// attention, and the rows of a chunk.
    pub fn rewind_limits(&self, ring: u32) -> (r: (usize, usize, usize))
        ensures
            r == (
                ring as usize,
                self.sliding_window,
                match self.prefill {
                    Some(p) => p.m,
                    None => 0,
                },
            ),
    {
        (ring as usize, self.sliding_window, self.prefill_chunk_len())
    }
}

impl E4bGraph {
    /// How many four-bit matrices took the block, the vector and the subgroup route.
    pub fn w4_route_census(&self) -> (r: (usize, usize, usize))
        ensures
            r == (self.tally.block, self.tally.v4, self.tally.sg16),
    {
        (self.tally.block, self.tally.v4, self.tally.sg16)
    }

    pub fn pass_grid(&self, i: usize) -> (r: Grid)
        requires
            i < self.decode@.len(),
        ensures
            r == self.decode@[i as int].grid,
    {
        self.decode[i].grid
    }
}

/// What was measured of the passes, under their labels. A measurement names its pass by
/// place and holds the bits of when it began and ended.
pub fn prof_timeline(labels: &Vec<String>, spans: &Vec<(usize, u64, u64)>) -> (r: Vec<
    (String, u64, u64),
>)
    requires
        forall|i: int| 0 <= i < spans@.len() ==> (#[trigger] spans@[i]).0 < labels@.len(),
    ensures
        r@.len() == spans@.len(),
        forall|i: int|
            #![trigger r@[i]]
            0 <= i < r@.len() ==> r@[i].0@ == labels@[spans@[i].0 as int]@ && r@[i].1 == spans@[i].1
                && r@[i].2 == spans@[i].2,
{
    let mut r: Vec<(String, u64, u64)> = Vec::new();
    let mut i: usize = 0;
    while i < spans.len()
        invariant
            i <= spans@.len(),
            r@.len() == i,
            forall|j: int| 0 <= j < spans@.len() ==> (#[trigger] spans@[j]).0 < labels@.len(),
            forall|j: int|
                #![trigger r@[j]]
                0 <= j < i ==> r@[j].0@ == labels@[spans@[j].0 as int]@ && r@[j].1 == spans@[j].1
                    && r@[j].2 == spans@[j].2,
        decreases spans@.len() - i,
    {
        let (p, begin, end) = spans[i];
        let mut name = String::new();
        name.append(labels[p].as_str());
        assert(name@ =~= labels@[p as int]@);
        r.push((name, begin, end));
        i = i + 1;
    }
    r
}

pub open spec fn ticks_between(from: u64, to: u64) -> u64 {
    if to >= from {
        (to - from) as u64
    } else {
        0
    }
}

/// When a pass began and ended, in ticks since the first began, and how long it took.
#[derive(Clone, Copy, Debug, PartialEq, Eq, Structural)]
pub struct PassSpan {
    pub begin: u64,
    pub end: u64,
    pub ticks: u64,
}

fn since(from: u64, to: u64) -> (r: u64)
    ensures
        r == ticks_between(from, to),
{
    if to >= from {
        to - from
    } else {
        0
    }
}

/// The spans of passes from two timestamps for each.
pub fn pass_spans(ts: &[u64], passes: usize) -> (r: Vec<PassSpan>)
    requires
        2 * passes <= ts@.len(),
    ensures
        r@.len() == passes,
        forall|i: int|
            #![trigger r@[i]]
            0 <= i < passes ==> r@[i].begin == ticks_between(ts@[0], ts@[2 * i]) && r@[i].end
                == ticks_between(ts@[0], ts@[2 * i + 1]) && r@[i].ticks == ticks_between(
                ts@[2 * i],
                ts@[2 * i + 1],
            ),
{
    let mut r: Vec<PassSpan> = Vec::new();
    let mut i: usize = 0;
    while i < passes
        invariant
            i <= passes,
            2 * passes <= ts@.len(),
            r@.len() == i,
            forall|j: int|
                #![trigger r@[j]]
                0 <= j < i ==> r@[j].begin == ticks_between(ts@[0], ts@[2 * j]) && r@[j].end
                    == ticks_between(ts@[0], ts@[2 * j + 1]) && r@[j].ticks == ticks_between(
                    ts@[2 * j],
                    ts@[2 * j + 1],
                ),
        decreases passes - i,
    {
        let first: u64 = ts[0];
        let b: u64 = ts[i * 2];
        let e: u64 = ts[i * 2 + 1];
        r.push(PassSpan { begin: since(first, b), end: since(first, e), ticks: since(b, e) });
        i = i + 1;
    }
    r
}

/// Where timestamps do not run backwards, a pass takes from its beginning to its end.
pub proof fn law_span(first: u64, b: u64, e: u64)
    requires
        first <= b <= e,
    ensures
        ticks_between(first, e) - ticks_between(first, b) == ticks_between(b, e),
{
}

} // verus!
