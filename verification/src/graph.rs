//! Decoding and verifying through captured graphs: which graph a step replays, what it
//! writes first, and what a step leaves behind.
use vstd::prelude::*;

verus! {

pub const GEMMA4_GRAPH_COINCIDENCE_GATE: &'static str = "nv-models tests/gemma4_capture_stream_policy.rs";

/// The graph of the step that leaves the logits alone.
pub const DECODE_GRAPH_KEY_NO_LOGITS_DTOD: u64 = 1;

/// The graph of the step that copies the logits out.
pub const DECODE_GRAPH_KEY_LOGITS_DTOD: u64 = 2;

/// The graph that all verify steps share.
pub const VERIFY_GRAPH_KEY: u64 = 1;

pub open spec fn graph_key_of(dtod_logits: bool) -> u64 {
    if dtod_logits {
        DECODE_GRAPH_KEY_LOGITS_DTOD
    } else {
        DECODE_GRAPH_KEY_NO_LOGITS_DTOD
    }
}

/// The key of the graph that a decode step replays.
pub fn decode_graph_key(dtod_logits: bool) -> (r: u64)
    ensures
        r == graph_key_of(dtod_logits),
{
    if dtod_logits {
        DECODE_GRAPH_KEY_LOGITS_DTOD
    } else {
        DECODE_GRAPH_KEY_NO_LOGITS_DTOD
    }
}

/// Both kinds of step have one token, so the key tells them apart: neither replays the
/// graph of the other.
pub proof fn law_arms_have_own_graphs(a: bool, b: bool)
    ensures
        graph_key_of(a) == graph_key_of(b) <==> a == b,
{
}

/// A decode step to be run.
#[derive(Clone, Copy, Debug, PartialEq, Eq)]
pub struct GraphStep {
    /// What is copied to the device first.
    pub token: u32,
    pub pos: i32,
    /// The cache slots that the step is to fill: from, and up to.
    pub pending_from: usize,
    pub pending_to: usize,
    pub key: u64,
    /// The step is run once uncaptured before, and then the cache is set back to this
    /// length.
    pub warm: Option<usize>,
}

/// A decoder that replays captured graphs.
pub struct GraphedGemma4Decoder {
    pub current_pos: usize,
    pub call_count: u64,
    pub capture_active: bool,
    /// Which of the two graphs exist.
    pub has_plain_graph: bool,
    pub has_logits_graph: bool,
    /// The model's own launches are captured too, so whatever it allocates on first use
    /// has to be allocated before.
    pub warms_before_capture: bool,
}

impl GraphedGemma4Decoder {
    pub open spec fn has_graph(&self, dtod_logits: bool) -> bool {
        if dtod_logits {
            self.has_logits_graph
        } else {
            self.has_plain_graph
        }
    }

    /// A graph exists only after a step has been run.
    pub open spec fn wf(&self) -> bool {
        &&& self.has_plain_graph || self.has_logits_graph ==> self.capture_active
        &&& self.capture_active <==> self.call_count > 0
        &&& self.call_count <= self.current_pos
    }

    /// A decoder on a cache that already holds `cache_len` positions.
    pub fn new(cache_len: usize, warms_before_capture: bool) -> (r: GraphedGemma4Decoder)
        ensures
            r.wf(),
            r.current_pos == cache_len,
            r.call_count == 0,
            !r.capture_active,
            forall|d: bool| !r.has_graph(d),
            r.warms_before_capture == warms_before_capture,
    {
        GraphedGemma4Decoder {
            current_pos: cache_len,
            call_count: 0,
            capture_active: false,
            has_plain_graph: false,
            has_logits_graph: false,
            warms_before_capture,
        }
    }

    pub fn call_count(&self) -> (r: u64)
        ensures
            r == self.call_count,
    {
        self.call_count
    }

    pub fn capture_active(&self) -> (r: bool)
        ensures
            r == self.capture_active,
    {
        self.capture_active
    }

    pub fn current_pos(&self) -> (r: usize)
        ensures
            r == self.current_pos,
    {
        self.current_pos
    }

    /// Whether the graph of a kind of step exists.
    pub fn has_captured_arm(&self, dtod_logits: bool) -> (r: bool)
        ensures
            r == self.has_graph(dtod_logits),
    {
        if dtod_logits {
            self.has_logits_graph
        } else {
            self.has_plain_graph
        }
    }

    pub open spec fn step_of(&self, token_id: u32, dtod_logits: bool, cache_len: usize) -> GraphStep {
        GraphStep {
            token: token_id,
            pos: self.current_pos as i32,
            pending_from: self.current_pos,
            pending_to: (self.current_pos + 1) as usize,
            key: graph_key_of(dtod_logits),
            warm: if self.warms_before_capture && !self.has_graph(dtod_logits) {
                Some(cache_len)
            } else {
                None
            },
        }
    }

    /// The next step. `cache_len` is how many positions the cache holds.
    pub fn forward_decode_inner(&self, token_id: u32, dtod_logits: bool, cache_len: usize) -> (r:
        GraphStep)
        requires
            self.current_pos <= i32::MAX,
            self.current_pos < usize::MAX,
        ensures
            r == self.step_of(token_id, dtod_logits, cache_len),
    {
        let warm = if self.warms_before_capture && !self.has_captured_arm(dtod_logits) {
            Some(cache_len)
        } else {
            None
        };
        GraphStep {
            token: token_id,
            pos: self.current_pos as i32,
            pending_from: self.current_pos,
            pending_to: self.current_pos + 1,
            key: decode_graph_key(dtod_logits),
            warm,
        }
    }

    /// A step without the logits.
    pub fn forward_decode(&self, token_id: u32, cache_len: usize) -> (r: GraphStep)
        requires
            self.current_pos <= i32::MAX,
            self.current_pos < usize::MAX,
        ensures
            r == self.step_of(token_id, false, cache_len),
    {
        self.forward_decode_inner(token_id, false, cache_len)
    }

    /// A step that copies the logits out.
    pub fn forward_decode_logits(&self, token_id: u32, cache_len: usize) -> (r: GraphStep)
        requires
            self.current_pos <= i32::MAX,
            self.current_pos < usize::MAX,
        ensures
            r == self.step_of(token_id, true, cache_len),
    {
        self.forward_decode_inner(token_id, true, cache_len)
    }

    /// The decoder after a step that succeeded. A step that fails leaves it as it was.
    pub open spec fn stepped(&self, dtod_logits: bool) -> GraphedGemma4Decoder {
        GraphedGemma4Decoder {
            current_pos: (self.current_pos + 1) as usize,
            call_count: (self.call_count + 1) as u64,
            capture_active: true,
            has_plain_graph: self.has_plain_graph || !dtod_logits,
            has_logits_graph: self.has_logits_graph || dtod_logits,
            warms_before_capture: self.warms_before_capture,
        }
    }

    /// Records a step that succeeded.
    pub fn decode_done(&mut self, dtod_logits: bool)
        requires
            old(self).current_pos < usize::MAX,
            old(self).call_count < u64::MAX,
        ensures
            *final(self) == old(self).stepped(dtod_logits),
            old(self).wf() ==> final(self).wf(),
    {
        if dtod_logits {
            self.has_logits_graph = true;
        } else {
            self.has_plain_graph = true;
        }
        self.capture_active = true;
        self.call_count = self.call_count + 1;
        self.current_pos = self.current_pos + 1;
    }
}

/// A kind of step is run uncaptured at most once: after a step, that kind is captured for
/// good, whatever kind of step comes next, and the other kind is as it was.
pub proof fn law_warmed_once(d: GraphedGemma4Decoder, dtod_logits: bool, other: bool, token: u32, cache_len: usize)
    ensures
        d.stepped(dtod_logits).step_of(token, dtod_logits, cache_len).warm is None,
        d.stepped(dtod_logits).stepped(other).step_of(token, dtod_logits, cache_len).warm is None,
        d.stepped(dtod_logits).has_graph(!dtod_logits) == d.has_graph(!dtod_logits),
{
}

/// Each step fills the cache slot right behind the one before.
pub proof fn law_steps_adjoin(d: GraphedGemma4Decoder, a: bool, b: bool, token: u32, cache_len: usize)
    requires
        d.current_pos < usize::MAX - 1,
    ensures
        d.step_of(token, a, cache_len).pending_to == d.stepped(a).step_of(token, b, cache_len).pending_from,
{
}

/// Why a batch of drafted tokens is not verified.
#[derive(Clone, Copy, Debug, PartialEq, Eq, Structural)]
pub enum GraphVerifyError {
    /// The batch does not have the size that the verifier was made for.
    Shape,
    /// The cache has no room for the batch.
    Overflow { committed: usize, k: usize, capacity: usize },
}

/// The lengths of the device buffers of a verifier.
#[derive(Clone, Copy, Debug, PartialEq, Eq, Structural)]
pub struct GraphVerifyLens {
    pub tokens: usize,
    pub positions: usize,
    pub mask: usize,
    pub logits: usize,
    pub aux: usize,
    pub argmax_values: usize,
    pub argmax_indices: usize,
    pub argmax_out: usize,
}

/// A verify step to be run. The batch, and how many positions are committed, are copied to
/// the device first.
pub struct GraphVerifyStep {
    pub key: u64,
    /// The step is run once uncaptured before.
    pub warm: bool,
    /// The replay is timed.
    pub timed: bool,
    /// The shape of the tokens and of the positions.
    pub rows: usize,
    pub cols: usize,
    /// Where the hidden rows of each auxiliary layer are copied to: from, and up to.
    pub aux: Vec<(usize, usize)>,
    /// The rows and columns of the logits, for the largest of each row.
    pub argmax_rows: i32,
    pub argmax_cols: i32,
}

/// A verifier that replays a captured graph over batches of `k` tokens. `last_replay_ms`
/// holds the bits of a duration.
pub struct GraphedGemma4Verify {
    pub k: usize,
    pub aux_layers: Vec<usize>,
    pub vocab: usize,
    pub hidden: usize,
    pub max_seq: usize,
    pub host_toks: Vec<u32>,
    pub host_pos: Vec<i32>,
    pub host_mask: Vec<u8>,
    pub host_committed: i32,
    pub captured: bool,
    pub last_replay_ms: Option<u32>,
}

/// The sizes of a verifier fit its integers.
pub open spec fn verify_sizes_fit(k: int, n_aux: int, vocab: int, hidden: int, parts: int) -> bool {
    &&& k * k <= usize::MAX
    &&& k * vocab <= usize::MAX
    &&& n_aux * k <= usize::MAX
    &&& n_aux * k * hidden <= usize::MAX
    &&& k * parts <= usize::MAX
}

/// The buffer lengths of a verifier. `parts` is how many partial results the search for the
/// largest logit keeps for each row.
pub fn verify_lens(k: usize, n_aux: usize, vocab: usize, hidden: usize, parts: usize) -> (r:
    GraphVerifyLens)
    requires
        verify_sizes_fit(k as int, n_aux as int, vocab as int, hidden as int, parts as int),
    ensures
        r.tokens == k,
        r.positions == k,
        r.mask == k * k,
        r.logits == k * vocab,
        r.aux == n_aux * k * hidden,
        r.argmax_values == k * parts,
        r.argmax_indices == k * parts,
        r.argmax_out == k,
{
    GraphVerifyLens {
        tokens: k,
        positions: k,
        mask: k * k,
        logits: k * vocab,
        aux: n_aux * k * hidden,
        argmax_values: k * parts,
        argmax_indices: k * parts,
        argmax_out: k,
    }
}

fn zero_u32(n: usize) -> (r: Vec<u32>)
    ensures
        r@ == Seq::new(n as nat, |i: int| 0u32),
{
    let mut v: Vec<u32> = Vec::new();
    let mut i: usize = 0;
    while i < n
        invariant
            i <= n,
            v@ == Seq::new(i as nat, |j: int| 0u32),
        decreases n - i,
    {
        v.push(0);
        i = i + 1;
        assert(v@ =~= Seq::new(i as nat, |j: int| 0u32));
    }
    v
}

fn zero_i32(n: usize) -> (r: Vec<i32>)
    ensures
        r@ == Seq::new(n as nat, |i: int| 0i32),
{
    let mut v: Vec<i32> = Vec::new();
    let mut i: usize = 0;
    while i < n
        invariant
            i <= n,
            v@ == Seq::new(i as nat, |j: int| 0i32),
        decreases n - i,
    {
        v.push(0);
        i = i + 1;
        assert(v@ =~= Seq::new(i as nat, |j: int| 0i32));
    }
    v
}

fn zero_u8(n: usize) -> (r: Vec<u8>)
    ensures
        r@ == Seq::new(n as nat, |i: int| 0u8),
{
    let mut v: Vec<u8> = Vec::new();
    let mut i: usize = 0;
    while i < n
        invariant
            i <= n,
            v@ == Seq::new(i as nat, |j: int| 0u8),
        decreases n - i,
    {
        v.push(0);
        i = i + 1;
        assert(v@ =~= Seq::new(i as nat, |j: int| 0u8));
    }
    v
}

fn copy_of<T: Copy>(s: &[T]) -> (r: Vec<T>)
    ensures
        r@ == s@,
{
    let mut v: Vec<T> = Vec::new();
    let mut i: usize = 0;
    while i < s.len()
        invariant
            i <= s@.len(),
            v@ == s@.take(i as int),
        decreases s@.len() - i,
    {
        v.push(s[i]);
        i = i + 1;
        assert(v@ =~= s@.take(i as int));
    }
    assert(s@.take(s@.len() as int) =~= s@);
    v
}

/// The part of the auxiliary buffer that layer `i` fills.
pub open spec fn aux_part(k: int, hidden: int, i: int) -> (int, int) {
    (i * k * hidden, (i + 1) * k * hidden)
}

pub open spec fn aux_parts_are(v: Seq<(usize, usize)>, k: int, hidden: int) -> bool {
    forall|i: int|
        0 <= i < v.len() ==> (#[trigger] v[i]).0 == aux_part(k, hidden, i).0 && v[i].1 == aux_part(
            k,
            hidden,
            i,
        ).1
}

proof fn lemma_part_grows(k: int, hidden: int, i: int, n: int)
    requires
        0 <= k,
        0 <= hidden,
        0 <= i <= n,
    ensures
        0 <= i * k <= n * k,
        0 <= i * k * hidden <= n * k * hidden,
{
    assert(0 <= i * k <= n * k) by (nonlinear_arith)
        requires
            0 <= k,
            0 <= i <= n,
    ;
    let a = i * k;
    let b = n * k;
    assert(0 <= a * hidden <= b * hidden) by (nonlinear_arith)
        requires
            0 <= a <= b,
            0 <= hidden,
    ;
}

/// The parts of the auxiliary layers lie one behind the other and fill the buffer.
pub proof fn law_aux_parts(k: int, hidden: int, n: int, i: int)
    requires
        0 <= k,
        0 <= hidden,
        0 <= i < n,
    ensures
        aux_part(k, hidden, 0).0 == 0,
        aux_part(k, hidden, i).1 == aux_part(k, hidden, i + 1).0,
        aux_part(k, hidden, i).1 - aux_part(k, hidden, i).0 == k * hidden,
        aux_part(k, hidden, n - 1).1 == n * k * hidden,
{
    assert((i + 1) * k * hidden - i * k * hidden == k * hidden) by (nonlinear_arith);
}

impl GraphedGemma4Verify {
    pub open spec fn wf(&self) -> bool {
        &&& self.host_toks@.len() == self.k
        &&& self.host_pos@.len() == self.k
        &&& self.host_mask@.len() == self.k * self.k
        &&& self.k * self.k <= usize::MAX
        &&& self.aux_layers@.len() * self.k <= usize::MAX
        &&& self.aux_layers@.len() * self.k * self.hidden <= usize::MAX
        &&& self.k <= i32::MAX
        &&& self.vocab <= i32::MAX
        &&& self.max_seq <= i32::MAX
    }

    /// A verifier for batches of `k` tokens over a cache of `max_seq` positions.
    pub fn new(k: usize, aux_layers: Vec<usize>, vocab: usize, hidden: usize, max_seq: usize) -> (r:
        GraphedGemma4Verify)
        requires
            k * k <= usize::MAX,
            aux_layers@.len() * k <= usize::MAX,
            aux_layers@.len() * k * hidden <= usize::MAX,
            k <= i32::MAX,
            vocab <= i32::MAX,
            max_seq <= i32::MAX,
        ensures
            r.wf(),
            r.k == k,
            r.aux_layers == aux_layers,
            r.vocab == vocab,
            r.hidden == hidden,
            r.max_seq == max_seq,
            r.host_toks@ == Seq::new(k as nat, |i: int| 0u32),
            r.host_pos@ == Seq::new(k as nat, |i: int| 0i32),
            r.host_mask@ == Seq::new((k * k) as nat, |i: int| 0u8),
            r.host_committed == 0,
            !r.captured,
            r.last_replay_ms is None,
    {
        GraphedGemma4Verify {
            k,
            aux_layers,
            vocab,
            hidden,
            max_seq,
            host_toks: zero_u32(k),
            host_pos: zero_i32(k),
            host_mask: zero_u8(k * k),
            host_committed: 0,
            captured: false,
            last_replay_ms: None,
        }
    }

    pub fn k(&self) -> (r: usize)
        ensures
            r == self.k,
    {
        self.k
    }

    pub fn cache_capacity(&self) -> (r: usize)
        ensures
            r == self.max_seq,
    {
        self.max_seq
    }

    /// What is wrong with a batch.
    pub open spec fn refusal(
        &self,
        n_toks: nat,
        n_positions: nat,
        n_mask: nat,
        committed: usize,
    ) -> Option<GraphVerifyError> {
        if !(n_toks == self.k && n_positions == self.k && n_mask == self.k * self.k) {
            Some(GraphVerifyError::Shape)
        } else if committed + self.k > self.max_seq {
            Some(GraphVerifyError::Overflow { committed, k: self.k, capacity: self.max_seq })
        } else {
            None
        }
    }

    /// Everything but the batch is as in `was`.
    pub open spec fn kept(&self, was: &GraphedGemma4Verify) -> bool {
        &&& self.k == was.k
        &&& self.aux_layers == was.aux_layers
        &&& self.vocab == was.vocab
        &&& self.hidden == was.hidden
        &&& self.max_seq == was.max_seq
        &&& self.captured == was.captured
        &&& self.last_replay_ms == was.last_replay_ms
    }

    /// Takes a batch in and gives the step that verifies it. A batch that is refused
    /// changes nothing.
    pub fn run_inner(
        &mut self,
        toks: &[u32],
        positions: &[i32],
        mask: &[u8],
        committed: usize,
        timed: bool,
    ) -> (r: Result<GraphVerifyStep, GraphVerifyError>)
        requires
            old(self).wf(),
        ensures
            final(self).wf(),
            match r {
                Err(e) => *final(self) == *old(self) && old(self).refusal(
                    toks@.len(),
                    positions@.len(),
                    mask@.len(),
                    committed,
                ) == Some(e),
                Ok(s) => {
                    &&& old(self).refusal(toks@.len(), positions@.len(), mask@.len(), committed)
                        is None
                    &&& final(self).kept(old(self))
                    &&& final(self).host_toks@ == toks@
                    &&& final(self).host_pos@ == positions@
                    &&& final(self).host_mask@ == mask@
                    &&& final(self).host_committed == committed
                    &&& s.key == VERIFY_GRAPH_KEY
                    &&& s.warm == !old(self).captured
                    &&& s.timed == timed
                    &&& s.rows == 1
                    &&& s.cols == old(self).k
                    &&& s.aux@.len() == old(self).aux_layers@.len()
                    &&& aux_parts_are(s.aux@, old(self).k as int, old(self).hidden as int)
                    &&& s.argmax_rows == old(self).k
                    &&& s.argmax_cols == old(self).vocab
                },
            },
    {
        let k: usize = self.k;
        if !(toks.len() == k && positions.len() == k && mask.len() == k * k) {
            return Err(GraphVerifyError::Shape);
        }
        if k > self.max_seq || committed > self.max_seq - k {
            return Err(GraphVerifyError::Overflow { committed, k, capacity: self.max_seq });
        }
        let n: usize = self.aux_layers.len();
        let hidden: usize = self.hidden;
        let mut aux: Vec<(usize, usize)> = Vec::new();
        let mut i: usize = 0;
        while i < n
            invariant
                i <= n,
                n * k <= usize::MAX,
                n * k * hidden <= usize::MAX,
                aux@.len() == i,
                aux_parts_are(aux@, k as int, hidden as int),
            decreases n - i,
        {
            proof {
                lemma_part_grows(k as int, hidden as int, i as int, n as int);
                lemma_part_grows(k as int, hidden as int, i + 1, n as int);
            }
            aux.push((i * k * hidden, (i + 1) * k * hidden));
            i = i + 1;
        }
        self.host_toks = copy_of(toks);
        self.host_pos = copy_of(positions);
        self.host_mask = copy_of(mask);
        self.host_committed = committed as i32;
        Ok(
            GraphVerifyStep {
                key: VERIFY_GRAPH_KEY,
                warm: !self.captured,
                timed,
                rows: 1,
                cols: k,
                aux,
                argmax_rows: k as i32,
                argmax_cols: self.vocab as i32,
            },
        )
    }

    /// Records a step that succeeded, with its duration if it was timed.
    pub fn verify_done(&mut self, elapsed_ms: Option<u32>)
        requires
            old(self).wf(),
        ensures
            final(self).wf(),
            final(self).captured,
            final(self).last_replay_ms == match elapsed_ms {
                Some(ms) => Some(ms),
                None => old(self).last_replay_ms,
            },
            final(self).k == old(self).k,
            final(self).aux_layers == old(self).aux_layers,
            final(self).vocab == old(self).vocab,
            final(self).hidden == old(self).hidden,
            final(self).max_seq == old(self).max_seq,
            final(self).host_toks == old(self).host_toks,
            final(self).host_pos == old(self).host_pos,
            final(self).host_mask == old(self).host_mask,
            final(self).host_committed == old(self).host_committed,
    {
        match elapsed_ms {
            Some(ms) => {
                self.last_replay_ms = Some(ms);
            },
            None => {},
        }
        self.captured = true;
    }
}

} // verus!
