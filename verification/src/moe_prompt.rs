//! Prompts of a mixture-of-experts session: whole chunks, and chunks with rows that take the
//! place of embeddings.
use vstd::prelude::*;
use crate::moe_session::{pad_tokens, ChunkRow, Gemma4MoeWgpu, MoeSessionError};

verus! {

/// Rows of bf16 values that take the place of the embeddings from a prompt position on.
pub struct EmbedRowSplice {
    pub position: usize,
    pub rows_bf16: Vec<u16>,
}

impl EmbedRowSplice {
    /// How many rows the splice holds.
    pub open spec fn rows(self, hidden: int) -> int {
        self.rows_bf16@.len() as int / hidden
    }

    /// Whole rows, and at least one.
    pub open spec fn whole(self, hidden: int) -> bool {
        self.rows_bf16@.len() > 0 && hidden > 0 && self.rows_bf16@.len() as int % hidden == 0
    }

    pub open spec fn end(self, hidden: int) -> int {
        self.position + self.rows(hidden)
    }
}

/// The first splice from `i` on that cannot be used: splices hold whole rows, follow each
/// other, and lie within the tokens.
pub open spec fn splice_error(
    s: Seq<EmbedRowSplice>,
    hidden: int,
    tokens: int,
    i: int,
    prev_end: int,
) -> Option<MoeSessionError>
    decreases s.len() - i,
{
    if i < 0 || i >= s.len() {
        None
    } else if !s[i].whole(hidden) {
        Some(MoeSessionError::SpliceRows(i as usize))
    } else if s[i].position < prev_end {
        Some(MoeSessionError::SpliceOrder(i as usize))
    } else if s[i].end(hidden) > tokens {
        Some(MoeSessionError::SpliceEnd(i as usize))
    } else {
        splice_error(s, hidden, tokens, i + 1, s[i].end(hidden))
    }
}

/// Splices can be used for this many tokens.
pub open spec fn splices_ok(s: Seq<EmbedRowSplice>, hidden: int, tokens: int) -> bool {
    splice_error(s, hidden, tokens, 0, 0) is None
}

/// Checks the splices of a prompt.
pub fn check_splices(s: &[EmbedRowSplice], hidden: usize, tokens: usize) -> (r: Result<
    (),
    MoeSessionError,
>)
    ensures
        match r {
            Ok(_) => splices_ok(s@, hidden as int, tokens as int),
            Err(e) => splice_error(s@, hidden as int, tokens as int, 0, 0) == Some(e),
        },
{
    let mut prev: usize = 0;
    let mut i: usize = 0;
    while i < s.len()
        invariant
            i <= s@.len(),
            splice_error(s@, hidden as int, tokens as int, 0, 0) == splice_error(
                s@,
                hidden as int,
                tokens as int,
                i as int,
                prev as int,
            ),
        decreases s@.len() - i,
    {
        let len: usize = s[i].rows_bf16.len();
        if len == 0 || hidden == 0 {
            return Err(MoeSessionError::SpliceRows(i));
        }
        if len % hidden != 0 {
            return Err(MoeSessionError::SpliceRows(i));
        }
        let rows: usize = len / hidden;
        let at: usize = s[i].position;
        if at < prev {
            return Err(MoeSessionError::SpliceOrder(i));
        }
        if at > tokens || rows > tokens - at {
            return Err(MoeSessionError::SpliceEnd(i));
        }
        prev = at + rows;
        i = i + 1;
    }
    Ok(())
}

/// Usable splices lie within the tokens, and a later one begins where an earlier one has
/// ended: no position is spliced twice.
pub proof fn law_splices_disjoint(
    s: Seq<EmbedRowSplice>,
    hidden: int,
    tokens: int,
    a: int,
    b: int,
)
    requires
        splices_ok(s, hidden, tokens),
        0 <= a < b < s.len(),
    ensures
        s[a].whole(hidden),
        s[b].whole(hidden),
        0 < s[a].rows(hidden),
        s[a].end(hidden) <= s[b].position,
        s[b].end(hidden) <= tokens,
{
    lemma_splices_from(s, hidden, tokens, 0, 0, a, b);
    lemma_whole(s[a], hidden);
}

proof fn lemma_whole(s: EmbedRowSplice, hidden: int)
    requires
        s.whole(hidden),
    ensures
        0 < s.rows(hidden),
        s.rows(hidden) * hidden == s.rows_bf16@.len(),
{
    let n = s.rows_bf16@.len() as int;
    let r = n / hidden;
    assert(n == hidden * r + n % hidden) by (nonlinear_arith)
        requires
            r == n / hidden,
            hidden > 0,
    ;
    assert(r > 0 && r * hidden == n) by (nonlinear_arith)
        requires
            n == hidden * r,
            n > 0,
            hidden > 0,
    ;
}

proof fn lemma_splices_from(
    s: Seq<EmbedRowSplice>,
    hidden: int,
    tokens: int,
    i: int,
    prev: int,
    a: int,
    b: int,
)
    requires
        splice_error(s, hidden, tokens, i, prev) is None,
        0 <= i <= a <= b < s.len(),
    ensures
        s[a].whole(hidden),
        s[b].whole(hidden),
        s[a].position >= prev,
        s[b].end(hidden) <= tokens,
        a < b ==> s[a].end(hidden) <= s[b].position,
    decreases s.len() - i,
{
    lemma_whole(s[i], hidden);
    if i < a {
        lemma_splices_from(s, hidden, tokens, i + 1, s[i].end(hidden), a, b);
    } else if i < b {
        lemma_splices_from(s, hidden, tokens, i + 1, s[i].end(hidden), b, b);
    }
}

pub open spec fn larger(a: int, b: int) -> int {
    if a >= b { a } else { b }
}

pub open spec fn smaller(a: int, b: int) -> int {
    if a <= b { a } else { b }
}

/// The rows of splice `k` that fall on tokens `done..end`.
pub open spec fn splice_rows(s: EmbedRowSplice, k: int, hidden: int, done: int, end: int) -> Seq<
    ChunkRow,
> {
    let lo = larger(s.position as int, done);
    let hi = smaller(s.end(hidden), end);
    Seq::new(
        (if hi > lo { hi - lo } else { 0 }) as nat,
        |j: int|
            ChunkRow {
                rel_pos: (lo + j - done) as usize,
                splice: k as usize,
                word: ((lo + j - s.position) * (hidden / 2)) as usize,
                words: (hidden / 2) as usize,
            },
    )
}

/// The spliced rows of a chunk, splice by splice.
pub open spec fn rows_in(s: Seq<EmbedRowSplice>, hidden: int, done: int, end: int, n: int) -> Seq<
    ChunkRow,
>
    decreases n,
{
    if n <= 0 {
        Seq::empty()
    } else {
        rows_in(s, hidden, done, end, n - 1) + splice_rows(s[n - 1], n - 1, hidden, done, end)
    }
}

/// A chunk has a row for each of its tokens that a splice covers: the row of the splice that
/// belongs to the token's position.
pub proof fn law_rows_cover(
    s: Seq<EmbedRowSplice>,
    hidden: int,
    done: int,
    end: int,
    n: int,
    k: int,
    t: int,
)
    requires
        0 <= k < n <= s.len(),
        0 <= done <= t < end <= usize::MAX,
        s[k].position <= t < s[k].end(hidden),
    ensures
        rows_in(s, hidden, done, end, n).contains(
            ChunkRow {
                rel_pos: (t - done) as usize,
                splice: k as usize,
                word: ((t - s[k].position) * (hidden / 2)) as usize,
                words: (hidden / 2) as usize,
            },
        ),
    decreases n,
{
    let row = ChunkRow {
        rel_pos: (t - done) as usize,
        splice: k as usize,
        word: ((t - s[k].position) * (hidden / 2)) as usize,
        words: (hidden / 2) as usize,
    };
    let before = rows_in(s, hidden, done, end, n - 1);
    let last = splice_rows(s[n - 1], n - 1, hidden, done, end);
    if k == n - 1 {
        let lo = larger(s[k].position as int, done);
        assert(last[t - lo] == row);
        assert((before + last)[before.len() + (t - lo)] == row);
    } else {
        law_rows_cover(s, hidden, done, end, n - 1, k, t);
        assert(before.contains(row));
        let i = choose|i: int| 0 <= i < before.len() && before[i] == row;
        assert((before + last)[i] == row);
    }
}

fn push_rows(
    out: &mut Vec<ChunkRow>,
    s: &EmbedRowSplice,
    k: usize,
    hidden: usize,
    done: usize,
    end: usize,
)
    requires
        s.whole(hidden as int),
        s.end(hidden as int) <= usize::MAX,
        done <= end,
    ensures
        final(out)@ == old(out)@ + splice_rows(
            *s,
            k as int,
            hidden as int,
            done as int,
            end as int,
        ),
{
    let rows: usize = s.rows_bf16.len() / hidden;
    let hw: usize = hidden / 2;
    let at: usize = s.position;
    let stop: usize = at + rows;
    let lo: usize = if at >= done { at } else { done };
    let hi: usize = if stop <= end { stop } else { end };
    let ghost all = splice_rows(*s, k as int, hidden as int, done as int, end as int);
    proof {
        lemma_whole(*s, hidden as int);
    }
    let mut abs: usize = lo;
    while abs < hi
        invariant
            at == s.position,
            rows == s.rows(hidden as int),
            stop == at + rows,
            lo == larger(at as int, done as int),
            hi == smaller(stop as int, end as int),
            hw == hidden as int / 2,
            rows * hidden == s.rows_bf16@.len(),
            s.rows_bf16@.len() <= usize::MAX,
            lo <= abs,
            abs <= hi || (lo >= hi && abs == lo),
            all == splice_rows(*s, k as int, hidden as int, done as int, end as int),
            out@ == old(out)@ + all.take(abs - lo),
        decreases hi - abs,
    {
        assert((abs - at) * hw <= rows * hidden && 0 <= (abs - at) * hw) by (nonlinear_arith)
            requires
                0 <= abs - at <= rows,
                0 <= hw <= hidden,
        ;
        out.push(ChunkRow { rel_pos: abs - done, splice: k, word: (abs - at) * hw, words: hw });
        proof {
            assert(all.take(abs + 1 - lo) =~= all.take(abs - lo).push(all[abs - lo]));
        }
        abs = abs + 1;
    }
    proof {
        assert(all.take(abs - lo) =~= all);
    }
}

fn collect_rows(s: &[EmbedRowSplice], hidden: usize, tokens: usize, done: usize, end: usize) -> (r:
    Vec<ChunkRow>)
    requires
        splices_ok(s@, hidden as int, tokens as int),
        done <= end,
    ensures
        r@ == rows_in(s@, hidden as int, done as int, end as int, s@.len() as int),
{
    let mut r: Vec<ChunkRow> = Vec::new();
    let mut i: usize = 0;
    while i < s.len()
        invariant
            i <= s@.len(),
            splices_ok(s@, hidden as int, tokens as int),
            done <= end,
            r@ == rows_in(s@, hidden as int, done as int, end as int, i as int),
        decreases s@.len() - i,
    {
        proof {
            lemma_splices_from(s@, hidden as int, tokens as int, 0, 0, i as int, i as int);
        }
        push_rows(&mut r, &s[i], i, hidden, done, end);
        i = i + 1;
    }
    r
}

/// A chunk of a prompt with spliced rows.
pub struct SplicedChunk {
    /// The tokens, filled up with the last one.
    pub tokens: Vec<u32>,
    pub live: usize,
    pub rows: Vec<ChunkRow>,
}

impl Gemma4MoeWgpu {
    /// The next chunk of a prompt with splices after `done` of its tokens; `None` at its end.
    /// Every token goes through a chunk, the last chunk filled up with its last token.
    pub fn prefill_tokens_with_embed_rows(
        &self,
        tokens: &[u32],
        splices: &[EmbedRowSplice],
        hidden: usize,
        done: usize,
    ) -> (r: Result<Option<SplicedChunk>, MoeSessionError>)
        requires
            self.wf(),
            done <= tokens@.len(),
        ensures
            ({
                let m = match self.prefill {
                    Some(p) => p.m as int,
                    None => 0,
                };
                let n = tokens@.len() as int;
                let live = smaller(m, n - done);
                if m < 2 {
                    r == Err::<Option<SplicedChunk>, MoeSessionError>(MoeSessionError::NeedsChunks)
                } else if splice_error(splices@, hidden as int, n, 0, 0) is Some {
                    r == Err::<Option<SplicedChunk>, MoeSessionError>(
                        splice_error(splices@, hidden as int, n, 0, 0)->0,
                    )
                } else if done == n {
                    r == Ok::<Option<SplicedChunk>, MoeSessionError>(None)
                } else if self.pos + m > self.max_seq {
                    r == Err::<Option<SplicedChunk>, MoeSessionError>(MoeSessionError::CacheFull)
                } else {
                    match r {
                        Ok(Some(c)) => {
                            &&& c.live == live
                            &&& c.tokens@ == Seq::new(
                                m as nat,
                                |i: int|
                                    if i < live { tokens@[done + i] } else { tokens@[done + live - 1] },
                            )
                            &&& c.rows@ == rows_in(
                                splices@,
                                hidden as int,
                                done as int,
                                done + live,
                                splices@.len() as int,
                            )
                        },
                        _ => false,
                    }
                }
            }),
    {
        let m: usize = self.prefill_chunk_len();
        if m < 2 {
            return Err(MoeSessionError::NeedsChunks);
        }
        match check_splices(splices, hidden, tokens.len()) {
            Err(e) => {
                return Err(e);
            },
            Ok(_) => {},
        }
        if done == tokens.len() {
            return Ok(None);
        }
        let left: usize = tokens.len() - done;
        let live: usize = if m <= left { m } else { left };
        if m > self.max_seq - self.pos {
            return Err(MoeSessionError::CacheFull);
        }
        let chunk = pad_tokens(tokens, done, m);
        let rows = collect_rows(splices, hidden, tokens.len(), done, done + live);
        let ghost want = Seq::new(
            m as nat,
            |i: int| if i < live { tokens@[done + i] } else { tokens@[done + live - 1] },
        );
        assert(chunk@ =~= want);
        Ok(Some(SplicedChunk { tokens: chunk, live, rows }))
    }

    /// How many tokens of a prompt part go into the next chunk after `done`: a whole chunk
    /// where there are enough tokens and the cache has room, else none.
    pub fn prefill_tokens(&self, len: usize, done: usize) -> (r: usize)
        requires
            self.wf(),
            done <= len,
        ensures
            r == match self.prefill {
                Some(p) => if len - done >= p.m && self.pos + p.m <= self.max_seq {
                    p.m as int
                } else {
                    0
                },
                None => 0,
            },
    {
        match self.prefill {
            None => 0,
            Some(p) => if len - done >= p.m && p.m <= self.max_seq - self.pos { p.m } else { 0 },
        }
    }

    /// How many leading tokens of a prompt leave no logits: all but the last.
    pub fn prefill(&self, tokens: &[u32]) -> (r: Result<usize, MoeSessionError>)
        ensures
            match r {
                Err(e) => e == MoeSessionError::EmptyPrompt && tokens@.len() == 0,
                Ok(n) => n == tokens@.len() - 1,
            },
    {
        if tokens.len() == 0 {
            return Err(MoeSessionError::EmptyPrompt);
        }
        Ok(tokens.len() - 1)
    }
}

/// How many tokens of `len` are taken in whole chunks of `m` from position `pos` on.
pub open spec fn chunked(m: int, pos: int, max_seq: int, len: int, done: int) -> int
    decreases len - done,
{
    if m <= 0 || len - done < m || pos + done + m > max_seq {
        done
    } else {
        chunked(m, pos, max_seq, len, done + m)
    }
}

/// Whole chunks take a multiple of the chunk's rows, never more tokens than there are, and
/// never more than the cache holds; they stop only where another would not fit.
pub proof fn law_chunked(m: int, pos: int, max_seq: int, len: int, done: int)
    requires
        m > 0,
        0 <= done <= len,
        pos + done <= max_seq,
    ensures
        ({
            let n = chunked(m, pos, max_seq, len, done);
            &&& done <= n <= len
            &&& pos + n <= max_seq
            &&& (n - done) % m == 0
            &&& len - n < m || pos + n + m > max_seq
        }),
    decreases len - done,
{
    if len - done >= m && pos + done + m <= max_seq {
        law_chunked(m, pos, max_seq, len, done + m);
        let n = chunked(m, pos, max_seq, len, done + m);
        vstd::arithmetic::div_mod::lemma_mod_add_multiples_vanish(n - done - m, m);
        assert((m + (n - done - m)) % m == (n - done - m) % m);
    } else {
        vstd::arithmetic::div_mod::lemma_small_mod(0, m as nat);
    }
}

} // verus!
