//! Image and audio rows in a prompt: placeholders, and how embeddings take their place.
use vstd::prelude::*;

verus! {

pub const GEMMA4_IMAGE_TOKEN_ID: u32 = 258880;

pub const GEMMA4_AUDIO_TOKEN_ID: u32 = 258881;

pub const GEMMA4_BOI_TOKEN_ID: u32 = 255999;

pub const GEMMA4_EOI_TOKEN_ID: u32 = 258882;

pub const GEMMA4_BOA_TOKEN_ID: u32 = 256000;

pub const GEMMA4_EOA_TOKEN_ID: u32 = 258883;

pub const VISION_SOFT_TOKENS_PER_IMAGE: usize = 280;

#[derive(Clone, Copy, Debug, PartialEq, Eq, Structural)]
pub enum Modality {
    Image,
    Audio,
}

impl Modality {
    /// The token that holds the place of one embedding.
    pub open spec fn token(self) -> u32 {
        match self {
            Modality::Image => GEMMA4_IMAGE_TOKEN_ID,
            Modality::Audio => GEMMA4_AUDIO_TOKEN_ID,
        }
    }

    pub fn placeholder_token_id(self) -> (r: u32)
        ensures
            r == self.token(),
    {
        match self {
            Modality::Image => GEMMA4_IMAGE_TOKEN_ID,
            Modality::Audio => GEMMA4_AUDIO_TOKEN_ID,
        }
    }
}

/// Neighbouring placeholders of one modality.
#[derive(Clone, Copy, Debug, PartialEq, Eq, Structural)]
pub struct PlaceholderRun {
    pub modality: Modality,
    pub start: usize,
    pub len: usize,
}

/// `n` placeholders between two marks.
pub open spec fn framed(open: u32, id: u32, close: u32, n: nat) -> Seq<u32> {
    seq![open] + Seq::new(n, |i: int| id) + seq![close]
}

fn frame(open: u32, id: u32, close: u32, n: usize) -> (r: Vec<u32>)
    ensures
        r@ == framed(open, id, close, n as nat),
{
    let mut r: Vec<u32> = Vec::new();
    r.push(open);
    let mut i: usize = 0;
    while i < n
        invariant
            i <= n,
            r@ == seq![open] + Seq::new(i as nat, |j: int| id),
        decreases n - i,
    {
        r.push(id);
        i = i + 1;
        assert(r@ =~= seq![open] + Seq::new(i as nat, |j: int| id));
    }
    r.push(close);
    assert(r@ =~= framed(open, id, close, n as nat));
    r
}

/// The tokens of an image with this many soft tokens.
pub fn expand_image_placeholder(num_soft_tokens: usize) -> (r: Vec<u32>)
    ensures
        r@ == framed(
            GEMMA4_BOI_TOKEN_ID,
            GEMMA4_IMAGE_TOKEN_ID,
            GEMMA4_EOI_TOKEN_ID,
            num_soft_tokens as nat,
        ),
{
    frame(GEMMA4_BOI_TOKEN_ID, GEMMA4_IMAGE_TOKEN_ID, GEMMA4_EOI_TOKEN_ID, num_soft_tokens)
}

/// The tokens of a sound with this many soft tokens.
pub fn expand_audio_placeholder(num_soft_tokens: usize) -> (r: Vec<u32>)
    ensures
        r@ == framed(
            GEMMA4_BOA_TOKEN_ID,
            GEMMA4_AUDIO_TOKEN_ID,
            GEMMA4_EOA_TOKEN_ID,
            num_soft_tokens as nat,
        ),
{
    frame(GEMMA4_BOA_TOKEN_ID, GEMMA4_AUDIO_TOKEN_ID, GEMMA4_EOA_TOKEN_ID, num_soft_tokens)
}

/// The largest sampling rate for which twenty and ten milliseconds are counted in samples
/// without a rounding error of double precision.
pub const MAX_SAMPLING_RATE: u64 = 450359962737049;

/// The samples of a frame of twenty milliseconds, to the nearest.
pub open spec fn frame_length(rate: int) -> int {
    (rate + 25) / 50
}

/// The samples of a hop of ten milliseconds, to the nearest.
pub open spec fn hop_length(rate: int) -> int {
    (rate + 50) / 100
}

/// Half of `t`, rounded up.
pub open spec fn halved(t: int) -> int {
    (t - 1) / 2 + 1
}

/// The frames of a sound: as many as fit, one hop apart, once half a frame of silence is put
/// before it.
pub open spec fn mel_frames(samples: int, rate: int) -> int {
    let padded = samples + frame_length(rate) / 2;
    if padded < frame_length(rate) + 1 || hop_length(rate) == 0 {
        0
    } else {
        (padded - (frame_length(rate) + 1)) / hop_length(rate) + 1
    }
}

/// The soft tokens of a sound: its frames halved twice, but no more than the tower gives.
pub open spec fn soft_tokens(samples: int, rate: int, most: int) -> int {
    let n = mel_frames(samples, rate);
    if n == 0 {
        0
    } else {
        let t = halved(halved(n));
        if t < most { t } else { most }
    }
}

pub fn audio_num_soft_tokens(num_samples: usize, sampling_rate: usize, audio_seq_length: usize) -> (r:
    usize)
    requires
        sampling_rate <= MAX_SAMPLING_RATE,
        sampling_rate <= usize::MAX - 50,
        num_samples + frame_length(sampling_rate as int) / 2 <= usize::MAX,
    ensures
        r == soft_tokens(num_samples as int, sampling_rate as int, audio_seq_length as int),
{
    let frame: usize = (sampling_rate + 25) / 50;
    let hop: usize = (sampling_rate + 50) / 100;
    let padded: usize = num_samples + frame / 2;
    if padded < frame + 1 || hop == 0 {
        return 0;
    }
    let gap: usize = padded - (frame + 1);
    assert(0 <= gap as int / hop as int <= gap) by (nonlinear_arith)
        requires
            hop > 0,
    ;
    let n: usize = gap / hop + 1;
    let half: usize = (n - 1) / 2 + 1;
    let t: usize = (half - 1) / 2 + 1;
    if t < audio_seq_length { t } else { audio_seq_length }
}

/// The modality that a token holds a place for.
pub open spec fn modality_of(token: u32) -> Option<Modality> {
    if token == GEMMA4_IMAGE_TOKEN_ID {
        Some(Modality::Image)
    } else if token == GEMMA4_AUDIO_TOKEN_ID {
        Some(Modality::Audio)
    } else {
        None
    }
}

/// The first place from `i` on that holds another token than `id`.
pub open spec fn run_end(t: Seq<u32>, id: u32, i: int) -> int
    decreases t.len() - i,
{
    if i < 0 || i >= t.len() || t[i] != id {
        i
    } else {
        run_end(t, id, i + 1)
    }
}

/// The runs of placeholders from `i` on.
pub open spec fn runs_from(t: Seq<u32>, i: int) -> Seq<PlaceholderRun>
    decreases t.len() - i,
    via runs_from_decreases
{
    if i < 0 || i >= t.len() {
        Seq::empty()
    } else {
        match modality_of(t[i]) {
            None => runs_from(t, i + 1),
            Some(m) => {
                let end = run_end(t, t[i], i + 1);
                seq![
                    PlaceholderRun { modality: m, start: i as usize, len: (end - i) as usize },
                ] + runs_from(t, end)
            },
        }
    }
}

#[via_fn]
proof fn runs_from_decreases(t: Seq<u32>, i: int) {
    if 0 <= i < t.len() {
        lemma_run_end(t, t[i], i + 1);
    }
}

proof fn lemma_run_end(t: Seq<u32>, id: u32, i: int)
    requires
        0 <= i <= t.len(),
    ensures
        i <= run_end(t, id, i) <= t.len(),
        forall|j: int| i <= j < run_end(t, id, i) ==> #[trigger] t[j] == id,
        run_end(t, id, i) < t.len() ==> t[run_end(t, id, i)] != id,
    decreases t.len() - i,
{
    if i < t.len() && t[i] == id {
        lemma_run_end(t, id, i + 1);
    }
}

/// The runs of placeholders in a prompt, from front to back.
pub fn placeholder_runs(tokens: &[u32]) -> (r: Vec<PlaceholderRun>)
    ensures
        r@ == runs_from(tokens@, 0),
{
    let mut runs: Vec<PlaceholderRun> = Vec::new();
    let mut i: usize = 0;
    assert(runs@ + runs_from(tokens@, 0) =~= runs_from(tokens@, 0));
    while i < tokens.len()
        invariant
            i <= tokens@.len(),
            runs@ + runs_from(tokens@, i as int) == runs_from(tokens@, 0),
        decreases tokens@.len() - i,
    {
        let id: u32 = tokens[i];
        let modality = if id == GEMMA4_IMAGE_TOKEN_ID {
            Some(Modality::Image)
        } else if id == GEMMA4_AUDIO_TOKEN_ID {
            Some(Modality::Audio)
        } else {
            None
        };
        match modality {
            None => {
                i = i + 1;
            },
            Some(m) => {
                let start: usize = i;
                i = i + 1;
                while i < tokens.len() && tokens[i] == id
                    invariant
                        start < i <= tokens@.len(),
                        run_end(tokens@, id, start + 1) == run_end(tokens@, id, i as int),
                    decreases tokens@.len() - i,
                {
                    i = i + 1;
                }
                let ghost before = runs@;
                let run = PlaceholderRun { modality: m, start, len: i - start };
                runs.push(run);
                proof {
                    assert(runs@ + runs_from(tokens@, i as int) =~= before + (seq![run]
                        + runs_from(tokens@, i as int)));
                }
            },
        }
    }
    assert(runs@ + Seq::<PlaceholderRun>::empty() =~= runs@);
    runs
}

/// Whether `r` is a run of `t` that cannot be made longer.
pub open spec fn maximal_run(t: Seq<u32>, r: PlaceholderRun) -> bool {
    let end = r.start + r.len;
    &&& 0 < r.len
    &&& end <= t.len()
    &&& forall|j: int| r.start <= j < end ==> #[trigger] t[j] == r.modality.token()
    &&& r.start == 0 || t[r.start - 1] != r.modality.token()
    &&& end == t.len() || t[end] != r.modality.token()
}

/// Every run holds only its own placeholders and cannot be made longer, and runs follow each
/// other without overlap.
pub proof fn law_runs_maximal(t: Seq<u32>, i: int)
    requires
        0 <= i < runs_from(t, 0).len(),
        t.len() <= usize::MAX,
    ensures
        maximal_run(t, runs_from(t, 0)[i]),
        i + 1 < runs_from(t, 0).len() ==> runs_from(t, 0)[i].start + runs_from(t, 0)[i].len
            <= runs_from(t, 0)[i + 1].start,
{
    lemma_runs(t, 0, i);
}

proof fn lemma_runs(t: Seq<u32>, from: int, i: int)
    requires
        0 <= from <= t.len(),
        0 <= i < runs_from(t, from).len(),
        t.len() <= usize::MAX,
        from == 0 || from == t.len() || t[from - 1] != t[from] || modality_of(t[from]) is None,
    ensures
        maximal_run(t, runs_from(t, from)[i]),
        runs_from(t, from)[i].start >= from,
        i + 1 < runs_from(t, from).len() ==> runs_from(t, from)[i].start + runs_from(
            t,
            from,
        )[i].len <= runs_from(t, from)[i + 1].start,
    decreases t.len() - from,
{
    let all = runs_from(t, from);
    if from < t.len() {
        match modality_of(t[from]) {
            None => {
                lemma_runs(t, from + 1, i);
            },
            Some(m) => {
                lemma_run_end(t, t[from], from + 1);
                let end = run_end(t, t[from], from + 1);
                let rest = runs_from(t, end);
                assert(all == seq![all[0]] + rest);
                if i > 0 {
                    lemma_runs(t, end, i - 1);
                    assert(all[i] == rest[i - 1]);
                    if i + 1 < all.len() {
                        assert(all[i + 1] == rest[i]);
                    }
                } else if 1 < all.len() {
                    lemma_runs(t, end, 0);
                    assert(all[1] == rest[0]);
                }
            },
        }
    }
}

/// Every placeholder of a prompt stands in a run.
pub proof fn law_runs_cover(t: Seq<u32>, p: int)
    requires
        0 <= p < t.len() <= usize::MAX,
        modality_of(t[p]) is Some,
    ensures
        exists|i: int|
            0 <= i < runs_from(t, 0).len() && (#[trigger] runs_from(t, 0)[i]).start <= p
                < runs_from(t, 0)[i].start + runs_from(t, 0)[i].len,
{
    let i = lemma_cover(t, 0, p);
    assert(runs_from(t, 0)[i].start <= p);
}

proof fn lemma_cover(t: Seq<u32>, from: int, p: int) -> (i: int)
    requires
        0 <= from <= p < t.len() <= usize::MAX,
        modality_of(t[p]) is Some,
    ensures
        0 <= i < runs_from(t, from).len(),
        runs_from(t, from)[i].start <= p < runs_from(t, from)[i].start + runs_from(t, from)[i].len,
    decreases t.len() - from,
{
    let all = runs_from(t, from);
    match modality_of(t[from]) {
        None => lemma_cover(t, from + 1, p),
        Some(m) => {
            lemma_run_end(t, t[from], from + 1);
            let end = run_end(t, t[from], from + 1);
            let rest = runs_from(t, end);
            assert(all == seq![all[0]] + rest);
            if p < end {
                0
            } else {
                let j = lemma_cover(t, end, p);
                assert(all[j + 1] == rest[j]);
                j + 1
            }
        },
    }
}

/// The tokens of an image or a sound hold exactly one run, between the marks, or none where
/// there are no soft tokens.
pub proof fn law_expanded_runs(open: u32, close: u32, m: Modality, n: nat)
    requires
        modality_of(open) is None,
        modality_of(close) is None,
        n + 2 <= usize::MAX,
    ensures
        runs_from(framed(open, m.token(), close, n), 0) == if n == 0 {
            Seq::empty()
        } else {
            seq![PlaceholderRun { modality: m, start: 1, len: n as usize }]
        },
{
    let id = m.token();
    let t = framed(open, id, close, n);
    let k = n as int;
    assert(t.len() == k + 2);
    assert(t[0] == open && t[k + 1] == close);
    assert(runs_from(t, k + 2).len() == 0);
    assert(runs_from(t, k + 1) == runs_from(t, k + 2));
    assert(runs_from(t, 0) == runs_from(t, 1));
    if n > 0 {
        assert forall|j: int| 1 <= j <= n implies t[j] == id by {}
        lemma_run_end(t, id, 2);
        let e = run_end(t, id, 2);
        if e < n + 1 {
            assert(t[e] == id);
        }
        if e > n + 1 {
            assert(t[k + 1] == id);
        }
        assert(e == n + 1);
        assert(runs_from(t, 1) == seq![
            PlaceholderRun { modality: m, start: 1, len: n as usize },
        ] + runs_from(t, k + 1));
        assert(runs_from(t, 1) =~= seq![PlaceholderRun { modality: m, start: 1, len: n as usize }]);
    } else {
        assert(runs_from(t, 0) =~= Seq::empty());
    }
}

} // verus!
