//! Host-side weights of the E4B decoder: their shapes, their joining and their chunking.
use vstd::prelude::*;
use crate::config::LayerType;
use crate::e4b_emit::{div_up, groups_for, Limits, Proj};
use crate::e4b_ir::{GroupsX, Site, Uniform, W4Variant};
use crate::e4b_layer::{ChunkPlan, Table, MAX_TABLE_CHUNKS};

verus! {

/// The largest chunk of a table, whatever the device allows.
pub const CHUNK_BYTE_CAP: u64 = 1_073_741_824;

/// A four-bit matrix: eight elements per word, one scale per group of `gs` elements.
pub struct HostW4 {
    pub packed: Vec<u32>,
    pub scales: Vec<u16>,
    pub gs: usize,
}

/// An `n` by `k` matrix: bf16 bits in `w`, or a quantised payload in `q`.
pub struct HostLin {
    pub w: Vec<u16>,
    pub n: usize,
    pub k: usize,
    pub q: Option<HostW4>,
}

impl HostLin {
    pub fn new(w: Vec<u16>, n: usize, k: usize) -> (r: Self)
        ensures
            r == (HostLin { w, n, k, q: None }),
    {
        Self { w, n, k, q: None }
    }

    pub fn new_w4(packed: Vec<u32>, scales: Vec<u16>, gs: usize, n: usize, k: usize) -> (r: Self)
        ensures
            r.w@ == Seq::<u16>::empty(),
            r.n == n,
            r.k == k,
            r.q == Some(HostW4 { packed, scales, gs }),
    {
        Self { w: Vec::new(), n, k, q: Some(HostW4 { packed, scales, gs }) }
    }
}

/// The weights of one layer; `layer_scalar` holds the bits of an `f32`.
pub struct E4bHostLayer {
    pub kind: LayerType,
    pub kv_source: Option<usize>,
    pub input_ln: Vec<u16>,
    pub post_attn_ln: Vec<u16>,
    pub pre_ff_ln: Vec<u16>,
    pub post_ff_ln: Vec<u16>,
    pub post_per_layer_input_norm: Vec<u16>,
    pub q_norm: Vec<u16>,
    pub k_norm: Vec<u16>,
    pub layer_scalar: u32,
    pub has_v: bool,
    pub qkv: HostLin,
    pub o: HostLin,
    pub gate_up: HostLin,
    pub down: HostLin,
    pub per_layer_input_gate: HostLin,
    pub per_layer_projection: HostLin,
}

pub struct E4bHostWeights {
    pub embed: Vec<u16>,
    pub embed_per_layer: Vec<u16>,
    pub per_layer_model_projection: HostLin,
    pub per_layer_projection_norm: Vec<u16>,
    pub final_norm: Vec<u16>,
    pub layers: Vec<E4bHostLayer>,
}

/// Why a table cannot be split into chunks.
#[derive(Clone, Copy, Debug, PartialEq, Eq, Structural)]
pub enum ChunkError {
    OddRows,
    ZeroRowBytes,
    RowTooLarge,
    TooManyChunks,
}

pub open spec fn even_down(x: int) -> int {
    x - x % 2
}

pub open spec fn even_up(x: int) -> int {
    x + x % 2
}

/// The most rows that one chunk can hold.
pub open spec fn max_chunk_rows(row_bytes: int, limit: int) -> int {
    even_down((if limit <= CHUNK_BYTE_CAP { limit } else { CHUNK_BYTE_CAP as int }) / row_bytes)
}

/// Rows per chunk when the table is spread evenly over as few chunks as will hold it.
pub open spec fn spread_rows(rows: int, max_rows: int) -> int {
    let even = even_up(groups_for(rows, groups_for(rows, max_rows)));
    if even > max_rows {
        max_rows
    } else {
        even
    }
}

pub open spec fn chunked(rows: int, row_bytes: int, limit: int) -> Result<ChunkPlan, ChunkError> {
    if rows < 2 || rows % 2 != 0 {
        Err(ChunkError::OddRows)
    } else if row_bytes <= 0 {
        Err(ChunkError::ZeroRowBytes)
    } else if max_chunk_rows(row_bytes, limit) < 2 {
        Err(ChunkError::RowTooLarge)
    } else {
        let rows_per_chunk = spread_rows(rows, max_chunk_rows(row_bytes, limit));
        let n_chunks = groups_for(rows, rows_per_chunk);
        if n_chunks > MAX_TABLE_CHUNKS {
            Err(ChunkError::TooManyChunks)
        } else {
            Ok(ChunkPlan { rows_per_chunk: rows_per_chunk as usize, n_chunks: n_chunks as usize })
        }
    }
}

proof fn lemma_groups_bounds(n: int, d: int)
    by (nonlinear_arith)
    requires
        n > 0,
        d > 0,
    ensures
        1 <= groups_for(n, d) <= n,
        groups_for(n, d) * d >= n,
        (groups_for(n, d) - 1) * d < n,
{
}

/// Splits a table of `rows` rows into equal chunks that a binding of `limit` bytes can hold.
pub fn plan_chunks(rows: usize, row_bytes: usize, limit: u64) -> (r: Result<ChunkPlan, ChunkError>)
    ensures
        r == chunked(rows as int, row_bytes as int, limit as int),
{
    if rows < 2 || rows % 2 != 0 {
        return Err(ChunkError::OddRows);
    }
    if row_bytes == 0 {
        return Err(ChunkError::ZeroRowBytes);
    }
    let cap: u64 = if limit <= CHUNK_BYTE_CAP { limit } else { CHUNK_BYTE_CAP };
    let whole: u64 = cap / (row_bytes as u64);
    assert(whole <= cap) by (nonlinear_arith)
        requires
            whole == cap / (row_bytes as u64),
            row_bytes > 0,
    ;
    let whole: usize = whole as usize;
    let max_rows: usize = whole - whole % 2;
    if max_rows < 2 {
        return Err(ChunkError::RowTooLarge);
    }
    proof {
        lemma_groups_bounds(rows as int, max_rows as int);
        lemma_groups_bounds(rows as int, groups_for(rows as int, max_rows as int));
    }
    let mut rows_per_chunk: usize = div_up(rows, div_up(rows, max_rows));
    if rows_per_chunk % 2 == 1 {
        rows_per_chunk = rows_per_chunk + 1;
    }
    if rows_per_chunk > max_rows {
        rows_per_chunk = max_rows;
    }
    let n_chunks: usize = div_up(rows, rows_per_chunk);
    if n_chunks > MAX_TABLE_CHUNKS {
        return Err(ChunkError::TooManyChunks);
    }
    Ok(ChunkPlan { rows_per_chunk, n_chunks })
}

/// The chunks of a plan partition the table's rows: every chunk is non-empty and has an even
/// number of rows, the last one ends where the table does, and each fits the binding.
pub proof fn law_chunks_partition(rows: int, row_bytes: int, limit: int, table: Table)
    requires
        rows <= usize::MAX,
        chunked(rows, row_bytes, limit) == Ok::<ChunkPlan, ChunkError>(table.plan),
        table.rows == rows,
    ensures
        1 <= table.plan.n_chunks <= MAX_TABLE_CHUNKS,
        table.plan.rows_per_chunk <= rows,
        forall|c: int|
            0 <= c < table.plan.n_chunks ==> {
                &&& #[trigger] table.chunk_start(c) < rows
                &&& 0 < table.spec_chunk_rows(c) <= table.plan.rows_per_chunk
                &&& table.spec_chunk_rows(c) % 2 == 0
                &&& table.chunk_start(c) + table.spec_chunk_rows(c) == if c + 1
                    < table.plan.n_chunks {
                    table.chunk_start(c + 1)
                } else {
                    rows
                }
            },
        table.plan.rows_per_chunk * row_bytes <= limit,
{
    let max_rows = max_chunk_rows(row_bytes, limit);
    let cap = if limit <= CHUNK_BYTE_CAP { limit } else { CHUNK_BYTE_CAP as int };
    lemma_groups_bounds(rows, max_rows);
    lemma_groups_bounds(rows, groups_for(rows, max_rows));
    let rpc = spread_rows(rows, max_rows);
    lemma_groups_bounds(rows, rpc);
    let n = groups_for(rows, rpc);
    assert(rpc % 2 == 0);
    assert(rpc <= cap / row_bytes);
    assert(rpc * row_bytes <= cap) by (nonlinear_arith)
        requires
            rpc <= cap / row_bytes,
            row_bytes > 0,
    ;
    assert(rpc <= rows);
    assert forall|c: int| 0 <= c < table.plan.n_chunks implies {
        &&& #[trigger] table.chunk_start(c) < rows
        &&& 0 < table.spec_chunk_rows(c) <= table.plan.rows_per_chunk
        &&& table.spec_chunk_rows(c) % 2 == 0
        &&& table.chunk_start(c) + table.spec_chunk_rows(c) == if c + 1 < table.plan.n_chunks {
            table.chunk_start(c + 1)
        } else {
            rows
        }
    } by {
        assert((c + 1) * rpc == c * rpc + rpc) by (nonlinear_arith);
        assert(c * rpc <= (n - 1) * rpc) by (nonlinear_arith)
            requires
                c <= n - 1,
                rpc > 0,
        ;
        if c + 1 < n {
            assert((c + 1) * rpc <= (n - 1) * rpc) by (nonlinear_arith)
                requires
                    c + 1 <= n - 1,
                    rpc > 0,
            ;
        }
        let half = rpc / 2;
        assert(c * rpc == 2 * (c * half)) by (nonlinear_arith)
            requires
                rpc == 2 * half,
        ;
    }
}

/// The number stored in two little-endian bytes.
pub open spec fn le16(lo: u8, hi: u8) -> u16 {
    (lo + 256 * hi) as u16
}

/// The number stored in four little-endian bytes.
pub open spec fn le32(b0: u8, b1: u8, b2: u8, b3: u8) -> u32 {
    (b0 + 256 * b1 + 65536 * b2 + 16777216 * b3) as u32
}

/// The 16-bit numbers in a byte sequence.
pub open spec fn le16_seq(b: Seq<u8>) -> Seq<u16> {
    Seq::new((b.len() / 2) as nat, |i: int| le16(b[2 * i], b[2 * i + 1]))
}

/// The 32-bit numbers in a byte sequence.
pub open spec fn le32_seq(b: Seq<u8>) -> Seq<u32> {
    Seq::new(
        (b.len() / 4) as nat,
        |i: int| le32(b[4 * i], b[4 * i + 1], b[4 * i + 2], b[4 * i + 3]),
    )
}

/// bf16 elements from raw bytes; `None` for an odd number of them.
pub fn bf16_bits_of(raw: &[u8]) -> (r: Option<Vec<u16>>)
    ensures
        match r {
            Some(v) => raw@.len() % 2 == 0 && v@ == le16_seq(raw@),
            None => raw@.len() % 2 != 0,
        },
{
    if raw.len() % 2 != 0 {
        return None;
    }
    let n: usize = raw.len() / 2;
    let mut out: Vec<u16> = Vec::new();
    let mut i: usize = 0;
    while i < n
        invariant
            i <= n,
            n == raw@.len() / 2,
            raw@.len() <= usize::MAX,
            out@ == le16_seq(raw@).take(i as int),
        decreases n - i,
    {
        let lo: u16 = raw[2 * i] as u16;
        let hi: u16 = raw[2 * i + 1] as u16;
        out.push(lo + 256 * hi);
        i = i + 1;
        assert(out@ =~= le16_seq(raw@).take(i as int));
    }
    assert(out@ =~= le16_seq(raw@));
    Some(out)
}

/// Words from raw bytes; `None` when they do not fill whole words.
pub fn u32_words_of(raw: &[u8]) -> (r: Option<Vec<u32>>)
    ensures
        match r {
            Some(v) => raw@.len() % 4 == 0 && v@ == le32_seq(raw@),
            None => raw@.len() % 4 != 0,
        },
{
    if raw.len() % 4 != 0 {
        return None;
    }
    let n: usize = raw.len() / 4;
    let mut out: Vec<u32> = Vec::new();
    let mut i: usize = 0;
    while i < n
        invariant
            i <= n,
            n == raw@.len() / 4,
            raw@.len() <= usize::MAX,
            out@ == le32_seq(raw@).take(i as int),
        decreases n - i,
    {
        let b0: u32 = raw[4 * i] as u32;
        let b1: u32 = raw[4 * i + 1] as u32;
        let b2: u32 = raw[4 * i + 2] as u32;
        let b3: u32 = raw[4 * i + 3] as u32;
        out.push(b0 + 256 * b1 + 65536 * b2 + 16777216 * b3);
        i = i + 1;
        assert(out@ =~= le32_seq(raw@).take(i as int));
    }
    assert(out@ =~= le32_seq(raw@));
    Some(out)
}

/// A large bf16 table, as elements or as the bytes they are stored in.
pub enum BigBf16<'a> {
    Bits(&'a [u16]),
    Raw(&'a [u8]),
}

impl<'a> BigBf16<'a> {
    /// The elements of the table.
    pub open spec fn elems(&self) -> Seq<u16> {
        match self {
            BigBf16::Bits(v) => v@,
            BigBf16::Raw(b) => le16_seq(b@),
        }
    }

    pub fn len(&self) -> (r: usize)
        ensures
            r == self.elems().len(),
    {
        match self {
            BigBf16::Bits(v) => v.len(),
            BigBf16::Raw(b) => b.len() / 2,
        }
    }

    /// The elements from `start` on, `elems` of them.
    pub fn bits_chunk(&self, start: usize, elems: usize) -> (r: Vec<u16>)
        requires
            start + elems <= self.elems().len(),
        ensures
            r@ == self.elems().subrange(start as int, start + elems),
    {
        let mut out: Vec<u16> = Vec::new();
        let mut i: usize = 0;
        let total: usize = self.len();
        assert(start + elems <= total);
        while i < elems
            invariant
                i <= elems,
                start + elems <= self.elems().len() <= usize::MAX,
                out@ == self.elems().subrange(start as int, start + i),
            decreases elems - i,
        {
            let at: usize = start + i;
            let x: u16 = match self {
                BigBf16::Bits(v) => v[at],
                BigBf16::Raw(b) => {
                    let bytes: usize = b.len();
                    assert(2 * at + 1 < bytes);
                    let lo: u16 = b[2 * at] as u16;
                    let hi: u16 = b[2 * at + 1] as u16;
                    lo + 256 * hi
                },
            };
            out.push(x);
            i = i + 1;
            assert(out@ =~= self.elems().subrange(start as int, start + i));
        }
        out
    }
}

/// Why a quantised matrix cannot be taken from its payload.
#[derive(Clone, Copy, Debug, PartialEq, Eq, Structural)]
pub enum LinError {
    PackedLength,
    ScaleLength,
}

/// A four-bit `n` by `k` matrix from its words and scales; the group size follows from the
/// number of scales.
pub fn load_lin_w4(packed: Vec<u32>, scales: Vec<u16>, n: usize, k: usize) -> (r: Result<
    HostLin,
    LinError,
>)
    requires
        n * k <= usize::MAX,
        packed@.len() == n * k / 8 && scales@.len() > 0 ==> n > 0,
    ensures
        match r {
            Err(LinError::PackedLength) => packed@.len() != n * k / 8,
            Err(LinError::ScaleLength) => {
                &&& packed@.len() == n * k / 8
                &&& scales@.len() == 0 || scales@.len() % (n as nat) != 0 || k % (
                (scales@.len() / (n as nat)) as usize) != 0
            },
            Ok(l) => {
                &&& packed@.len() == n * k / 8
                &&& scales@.len() > 0 && scales@.len() % (n as nat) == 0
                &&& k % ((scales@.len() / (n as nat)) as usize) == 0
                &&& l.n == n && l.k == k && l.w@ == Seq::<u16>::empty()
                &&& l.q matches Some(q) && q.packed@ == packed@ && q.scales@ == scales@ && q.gs == k
                    / ((scales@.len() / (n as nat)) as usize)
            },
        },
{
    if packed.len() != n * k / 8 {
        return Err(LinError::PackedLength);
    }
    if scales.len() == 0 {
        return Err(LinError::ScaleLength);
    }
    if scales.len() % n != 0 {
        return Err(LinError::ScaleLength);
    }
    let per_row: usize = scales.len() / n;
    assert(per_row > 0) by (nonlinear_arith)
        requires
            per_row == scales@.len() / (n as nat),
            scales@.len() % (n as nat) == 0,
            scales@.len() > 0,
            n > 0,
    ;
    if k % per_row != 0 {
        return Err(LinError::ScaleLength);
    }
    Ok(HostLin::new_w4(packed, scales, k / per_row, n, k))
}

/// Why matrices cannot be stacked.
#[derive(Clone, Copy, Debug, PartialEq, Eq, Structural)]
pub enum ConcatError {
    ColumnMismatch,
    StorageMismatch,
    GroupSizeMismatch,
}

pub open spec fn rows_total(parts: Seq<HostLin>) -> int
    decreases parts.len(),
{
    if parts.len() == 0 {
        0
    } else {
        rows_total(parts.drop_last()) + parts.last().n
    }
}

/// The bf16 payloads, one after the other.
pub open spec fn cat_w(parts: Seq<HostLin>) -> Seq<u16>
    decreases parts.len(),
{
    if parts.len() == 0 {
        Seq::empty()
    } else {
        cat_w(parts.drop_last()) + parts.last().w@
    }
}

pub open spec fn cat_packed(parts: Seq<HostLin>) -> Seq<u32>
    decreases parts.len(),
{
    if parts.len() == 0 {
        Seq::empty()
    } else {
        cat_packed(parts.drop_last()) + parts.last().q->0.packed@
    }
}

pub open spec fn cat_scales(parts: Seq<HostLin>) -> Seq<u16>
    decreases parts.len(),
{
    if parts.len() == 0 {
        Seq::empty()
    } else {
        cat_scales(parts.drop_last()) + parts.last().q->0.scales@
    }
}

pub open spec fn same_columns(parts: Seq<HostLin>) -> bool {
    forall|i: int| 0 <= i < parts.len() ==> (#[trigger] parts[i]).k == parts[0].k
}

pub open spec fn same_storage(parts: Seq<HostLin>) -> bool {
    forall|i: int| 0 <= i < parts.len() ==> (#[trigger] parts[i]).q is Some == parts[0].q is Some
}

pub open spec fn same_group_size(parts: Seq<HostLin>) -> bool {
    forall|i: int| 0 <= i < parts.len() ==> (#[trigger] parts[i]).q->0.gs == parts[0].q->0.gs
}

proof fn lemma_rows_total_take(s: Seq<HostLin>, i: int)
    requires
        0 <= i <= s.len(),
    ensures
        0 <= rows_total(s.take(i)) <= rows_total(s),
        i < s.len() ==> rows_total(s.take(i + 1)) == rows_total(s.take(i)) + s[i].n,
    decreases s.len(),
{
    if i < s.len() {
        assert(s.take(i + 1).drop_last() =~= s.take(i));
        assert(s.take(i + 1).last() == s[i]);
    }
    if s.len() == 0 {
    } else if i == s.len() {
        assert(s.take(i) =~= s);
        lemma_rows_total_take(s.drop_last(), i - 1);
        assert(s.drop_last().take(i - 1) =~= s.drop_last());
    } else {
        lemma_rows_total_take(s.drop_last(), i);
        assert(s.drop_last().take(i) =~= s.take(i));
    }
}

fn extend_u16(dst: &mut Vec<u16>, src: &Vec<u16>)
    ensures
        final(dst)@ == old(dst)@ + src@,
{
    let mut i: usize = 0;
    while i < src.len()
        invariant
            i <= src.len(),
            dst@ == old(dst)@ + src@.take(i as int),
        decreases src.len() - i,
    {
        dst.push(src[i]);
        i = i + 1;
        assert(src@.take(i as int) =~= src@.take(i - 1).push(src@[i - 1]));
    }
    assert(src@.take(i as int) =~= src@);
}

fn extend_u32(dst: &mut Vec<u32>, src: &Vec<u32>)
    ensures
        final(dst)@ == old(dst)@ + src@,
{
    let mut i: usize = 0;
    while i < src.len()
        invariant
            i <= src.len(),
            dst@ == old(dst)@ + src@.take(i as int),
        decreases src.len() - i,
    {
        dst.push(src[i]);
        i = i + 1;
        assert(src@.take(i as int) =~= src@.take(i - 1).push(src@[i - 1]));
    }
    assert(src@.take(i as int) =~= src@);
}

/// Stacks matrices with the same columns and the same storage on top of each other.
pub fn concat_rows(parts: Vec<HostLin>) -> (r: Result<HostLin, ConcatError>)
    requires
        parts@.len() > 0,
        rows_total(parts@) <= usize::MAX,
    ensures
        match r {
            Err(ConcatError::ColumnMismatch) => !same_columns(parts@),
            Err(ConcatError::StorageMismatch) => same_columns(parts@) && !same_storage(parts@),
            Err(ConcatError::GroupSizeMismatch) => {
                &&& same_columns(parts@) && same_storage(parts@)
                &&& parts@[0].q is Some && !same_group_size(parts@)
            },
            Ok(l) => {
                &&& same_columns(parts@) && same_storage(parts@)
                &&& l.n == rows_total(parts@) && l.k == parts@[0].k
                &&& match parts@[0].q {
                    None => l.q is None && l.w@ == cat_w(parts@),
                    Some(q0) => {
                        &&& same_group_size(parts@)
                        &&& l.w@ == Seq::<u16>::empty()
                        &&& l.q matches Some(q) && q.gs == q0.gs && q.packed@ == cat_packed(parts@)
                            && q.scales@ == cat_scales(parts@)
                    },
                }
            },
        },
{
    let k: usize = parts[0].k;
    let quant = parts[0].q.is_some();
    let mut n: usize = 0;
    let mut i: usize = 0;
    while i < parts.len()
        invariant
            i <= parts.len(),
            parts.len() > 0,
            k == parts@[0].k,
            rows_total(parts@) <= usize::MAX,
            n == rows_total(parts@.take(i as int)),
            forall|j: int| 0 <= j < i ==> (#[trigger] parts@[j]).k == k,
        decreases parts.len() - i,
    {
        if parts[i].k != k {
            assert(parts@[i as int].k != parts@[0].k);
            return Err(ConcatError::ColumnMismatch);
        }
        proof {
            lemma_rows_total_take(parts@, i as int);
            lemma_rows_total_take(parts@, i + 1);
        }
        n = n + parts[i].n;
        i = i + 1;
    }
    assert(parts@.take(i as int) =~= parts@);
    i = 0;
    while i < parts.len()
        invariant
            i <= parts.len(),
            quant == parts@[0].q is Some,
            same_columns(parts@),
            forall|j: int| 0 <= j < i ==> (#[trigger] parts@[j]).q is Some == quant,
        decreases parts.len() - i,
    {
        if parts[i].q.is_some() != quant {
            assert(parts@[i as int].q is Some != parts@[0].q is Some);
            return Err(ConcatError::StorageMismatch);
        }
        i = i + 1;
    }
    if quant {
        let gs: usize = match &parts[0].q {
            Some(q) => q.gs,
            None => 0,
        };
        let mut packed: Vec<u32> = Vec::new();
        let mut scales: Vec<u16> = Vec::new();
        i = 0;
        while i < parts.len()
            invariant
                i <= parts.len(),
                same_columns(parts@),
                same_storage(parts@),
                parts@[0].q is Some,
                gs == parts@[0].q->0.gs,
                forall|j: int| 0 <= j < i ==> (#[trigger] parts@[j]).q->0.gs == gs,
                packed@ == cat_packed(parts@.take(i as int)),
                scales@ == cat_scales(parts@.take(i as int)),
            decreases parts.len() - i,
        {
            assert(parts@[i as int].q is Some);
            match &parts[i].q {
                Some(q) => {
                    if q.gs != gs {
                        assert(parts@[i as int].q->0.gs != parts@[0].q->0.gs);
                        return Err(ConcatError::GroupSizeMismatch);
                    }
                    extend_u32(&mut packed, &q.packed);
                    extend_u16(&mut scales, &q.scales);
                },
                None => {},
            }
            i = i + 1;
            assert(parts@.take(i as int).drop_last() =~= parts@.take(i - 1));
            assert(parts@.take(i as int).last() == parts@[i - 1]);
        }
        assert(parts@.take(i as int) =~= parts@);
        return Ok(HostLin::new_w4(packed, scales, gs, n, k));
    }
    let mut w: Vec<u16> = Vec::new();
    i = 0;
    while i < parts.len()
        invariant
            i <= parts.len(),
            w@ == cat_w(parts@.take(i as int)),
        decreases parts.len() - i,
    {
        extend_u16(&mut w, &parts[i].w);
        i = i + 1;
        assert(parts@.take(i as int).drop_last() =~= parts@.take(i - 1));
        assert(parts@.take(i as int).last() == parts@[i - 1]);
    }
    assert(parts@.take(i as int) =~= parts@);
    Ok(HostLin::new(w, n, k))
}

/// The group size that all of `sizes` share: `None` of no sizes, zero where they disagree or
/// one of them is zero.
pub open spec fn agreed(sizes: Seq<usize>) -> Option<usize> {
    if sizes.len() == 0 {
        None
    } else if forall|i: int| 0 <= i < sizes.len() ==> #[trigger] sizes[i] == sizes[0] {
        Some(sizes[0])
    } else {
        Some(0)
    }
}

/// The one non-zero group size that all of `sizes` share.
pub open spec fn uniform_of(sizes: Seq<usize>) -> Option<usize> {
    match agreed(sizes) {
        Some(g) => if g != 0 { Some(g) } else { None },
        None => None,
    }
}

/// The group sizes of the quantised matrices among `lins`.
pub open spec fn group_sizes(lins: Seq<HostLin>) -> Seq<usize>
    decreases lins.len(),
{
    if lins.len() == 0 {
        Seq::empty()
    } else {
        match lins.last().q {
            Some(q) => group_sizes(lins.drop_last()).push(q.gs),
            None => group_sizes(lins.drop_last()),
        }
    }
}

pub open spec fn layer_lins(l: E4bHostLayer) -> Seq<HostLin> {
    seq![l.qkv, l.o, l.gate_up, l.down, l.per_layer_input_gate, l.per_layer_projection]
}

/// Every matrix of the layers, in order.
pub open spec fn layers_lins(layers: Seq<E4bHostLayer>) -> Seq<HostLin>
    decreases layers.len(),
{
    if layers.len() == 0 {
        Seq::empty()
    } else {
        layers_lins(layers.drop_last()) + layer_lins(layers.last())
    }
}

/// The sizes that a checkpoint states of one quantised matrix, where it has it.
#[derive(Clone, Copy, Debug, PartialEq, Eq, Structural)]
pub struct W4Shape {
    pub packed_elems: Option<usize>,
    pub scale_elems: Option<usize>,
}

/// Where the weights come from: host memory, or a checkpoint of which the matrices are listed
/// in the order of [`crate::e4b_names::w4_linear_names`].
pub enum WeightSource<'a> {
    Host(&'a E4bHostWeights),
    Loader(&'a Vec<Option<W4Shape>>),
}

pub open spec fn shape_ok(s: Option<W4Shape>) -> bool {
    match s {
        None => true,
        Some(w) => match (w.packed_elems, w.scale_elems) {
            (Some(p), Some(e)) => e != 0 && (8 * p) % (e as int) == 0,
            _ => false,
        },
    }
}

pub open spec fn shape_fits(s: Option<W4Shape>) -> bool {
    s matches Some(w) ==> w.packed_elems matches Some(p) ==> 8 * p <= usize::MAX
}

pub open spec fn shape_sizes(shapes: Seq<Option<W4Shape>>) -> Seq<usize>
    decreases shapes.len(),
{
    if shapes.len() == 0 {
        Seq::empty()
    } else {
        match shapes.last() {
            Some(w) => shape_sizes(shapes.drop_last()).push(
                ((8 * w.packed_elems->0) / (w.scale_elems->0 as int)) as usize,
            ),
            None => shape_sizes(shapes.drop_last()),
        }
    }
}

fn agree(seen: Option<usize>, gs: usize, Ghost(sizes): Ghost<Seq<usize>>) -> (r: Option<usize>)
    requires
        seen == agreed(sizes),
    ensures
        r == agreed(sizes.push(gs)),
{
    let ghost more = sizes.push(gs);
    match seen {
        None => {
            assert(more[0] == gs);
            Some(gs)
        },
        Some(s) => {
            assert(more[0] == sizes[0]);
            assert(more[sizes.len() as int] == gs);
            if s != gs {
                proof {
                    if agreed(sizes) == Some(sizes[0]) && sizes[0] != 0 {
                        assert(more[more.len() - 1] != more[0]);
                    } else if agreed(more) == Some(more[0]) && more[0] != 0 {
                        assert forall|i: int| 0 <= i < sizes.len() implies #[trigger] sizes[i]
                            == sizes[0] by {
                            assert(more[i] == more[0]);
                        }
                    }
                }
                Some(0)
            } else {
                proof {
                    if s == 0 {
                        if forall|i: int| 0 <= i < more.len() ==> #[trigger] more[i] == more[0] {
                            assert(more[more.len() - 1] == more[0]);
                        }
                    } else {
                        assert forall|i: int| 0 <= i < more.len() implies #[trigger] more[i]
                            == more[0] by {
                            if i < sizes.len() {
                                assert(sizes[i] == sizes[0]);
                            }
                        }
                    }
                }
                Some(gs)
            }
        },
    }
}

fn agree_lin(seen: Option<usize>, l: &HostLin, Ghost(lins): Ghost<Seq<HostLin>>) -> (r: Option<usize>)
    requires
        seen == agreed(group_sizes(lins)),
    ensures
        r == agreed(group_sizes(lins.push(*l))),
{
    proof {
        assert(lins.push(*l).drop_last() =~= lins);
    }
    match &l.q {
        Some(q) => agree(seen, q.gs, Ghost(group_sizes(lins))),
        None => seen,
    }
}

/// The group size that every quantised matrix shares, if there is one.
pub fn uniform_w4_group_size(src: &WeightSource<'_>) -> (r: Option<usize>)
    requires
        src matches WeightSource::Loader(shapes) ==> forall|i: int|
            0 <= i < shapes@.len() ==> shape_fits(#[trigger] shapes@[i]),
    ensures
        match src {
            WeightSource::Host(w) => r == uniform_of(
                group_sizes(seq![w.per_layer_model_projection] + layers_lins(w.layers@)),
            ),
            WeightSource::Loader(shapes) => r == if forall|i: int|
                0 <= i < shapes@.len() ==> shape_ok(#[trigger] shapes@[i]) {
                uniform_of(shape_sizes(shapes@))
            } else {
                None
            },
        },
{
    let mut seen: Option<usize> = None;
    match src {
        WeightSource::Host(w) => {
            let ghost mut lins = Seq::<HostLin>::empty();
            seen = agree_lin(seen, &w.per_layer_model_projection, Ghost(lins));
            proof {
                lins = lins.push(w.per_layer_model_projection);
                assert(lins =~= seq![w.per_layer_model_projection] + layers_lins(
                    w.layers@.take(0),
                ));
            }
            let mut i: usize = 0;
            while i < w.layers.len()
                invariant
                    i <= w.layers.len(),
                    lins == seq![w.per_layer_model_projection] + layers_lins(
                        w.layers@.take(i as int),
                    ),
                    seen == agreed(group_sizes(lins)),
                decreases w.layers.len() - i,
            {
                let l = &w.layers[i];
                let ghost before = lins;
                seen = agree_lin(seen, &l.qkv, Ghost(lins));
                proof { lins = lins.push(l.qkv); }
                seen = agree_lin(seen, &l.o, Ghost(lins));
                proof { lins = lins.push(l.o); }
                seen = agree_lin(seen, &l.gate_up, Ghost(lins));
                proof { lins = lins.push(l.gate_up); }
                seen = agree_lin(seen, &l.down, Ghost(lins));
                proof { lins = lins.push(l.down); }
                seen = agree_lin(seen, &l.per_layer_input_gate, Ghost(lins));
                proof { lins = lins.push(l.per_layer_input_gate); }
                seen = agree_lin(seen, &l.per_layer_projection, Ghost(lins));
                proof {
                    lins = lins.push(l.per_layer_projection);
                    assert(w.layers@.take(i + 1).drop_last() =~= w.layers@.take(i as int));
                    assert(lins =~= before + layer_lins(*l));
                    assert(lins =~= seq![w.per_layer_model_projection] + layers_lins(
                        w.layers@.take(i + 1),
                    ));
                }
                i = i + 1;
            }
            assert(w.layers@.take(i as int) =~= w.layers@);
        },
        WeightSource::Loader(shapes) => {
            let mut i: usize = 0;
            while i < shapes.len()
                invariant
                    i <= shapes.len(),
                    src is Loader,
                    *shapes == src->Loader_0,
                    forall|j: int| 0 <= j < shapes@.len() ==> shape_fits(#[trigger] shapes@[j]),
                    forall|j: int| 0 <= j < i ==> shape_ok(#[trigger] shapes@[j]),
                    seen == agreed(shape_sizes(shapes@.take(i as int))),
                decreases shapes.len() - i,
            {
                assert(shapes@.take(i + 1).drop_last() =~= shapes@.take(i as int));
                assert(shape_fits(shapes@[i as int]));
                match shapes[i] {
                    None => {},
                    Some(s) => {
                        let (pw, se) = match (s.packed_elems, s.scale_elems) {
                            (Some(p), Some(e)) => (p, e),
                            _ => {
                                assert(!shape_ok(shapes@[i as int]));
                                return None;
                            },
                        };
                        if se == 0 || (8 * pw) % se != 0 {
                            assert(!shape_ok(shapes@[i as int]));
                            return None;
                        }
                        seen = agree(
                            seen,
                            8 * pw / se,
                            Ghost(shape_sizes(shapes@.take(i as int))),
                        );
                    },
                }
                i = i + 1;
            }
            assert(shapes@.take(i as int) =~= shapes@);
        },
    }
    match seen {
        Some(g) => if g != 0 {
            Some(g)
        } else {
            None
        },
        None => None,
    }
}

/// Which scale layout the four-bit kernels are built for.
#[derive(Clone, Copy, Debug, PartialEq, Eq, Structural)]
pub enum GrainChoice {
    /// The layout for any group size of at least 32.
    General,
    /// The fastest layout for this group size, where the kernels have one.
    FastestFor(usize),
}

/// The layout for a checkpoint whose matrices share group size `gs`.
pub fn checkpoint_w4_grain(gs: Option<usize>, baked: bool) -> (r: GrainChoice)
    ensures
        r == match gs {
            Some(g) => if baked && g >= 32 {
                GrainChoice::FastestFor(g)
            } else {
                GrainChoice::General
            },
            None => GrainChoice::General,
        },
{
    match gs {
        Some(g) => if baked && g >= 32 {
            GrainChoice::FastestFor(g)
        } else {
            GrainChoice::General
        },
        None => GrainChoice::General,
    }
}

/// What the four-bit kernels say of one matrix, and the sizes of what is uploaded for it.
#[derive(Clone, Copy, Debug, PartialEq, Eq, Structural)]
pub struct LinFacts {
    pub shape_ok: bool,
    pub grain_accepts: bool,
    pub grain_ok: bool,
    pub prefers_v4: bool,
    pub route_with_sg: W4Variant,
    pub route_without_sg: W4Variant,
    pub sg_scale_words: usize,
    pub i8_scales: usize,
}

/// Choices that decide how a matrix is stored on the device.
#[derive(Clone, Copy, Debug, PartialEq, Eq, Structural)]
pub struct ProjEnv {
    pub sg16: bool,
    pub w4_route: bool,
    pub w4_mr: u32,
    pub w8: bool,
    pub w8_group: usize,
}

/// What the matrices take up, and how many four-bit ones took each route.
#[derive(Clone, Copy, Debug, PartialEq, Eq, Structural)]
pub struct Tally {
    pub weight_bytes: u64,
    pub block: usize,
    pub v4: usize,
    pub sg16: usize,
}

/// Why a matrix cannot be put on the device.
#[derive(Clone, Copy, Debug, PartialEq, Eq, Structural)]
pub enum ProjError {
    OddRows,
    W4Shape,
    PackedLength,
    ScaleLength,
    GrainMismatch,
    ColumnsNotMultipleOf8,
    WeightLength,
}

/// The route of a four-bit matrix.
pub open spec fn w4_variant(env: ProjEnv, facts: LinFacts) -> W4Variant {
    if env.sg16 && facts.grain_accepts && !(env.w4_route && facts.prefers_v4) {
        facts.route_with_sg
    } else {
        facts.route_without_sg
    }
}

/// The group size of an eight-bit matrix; zero for one scale per row.
pub open spec fn i8_group(env: ProjEnv, k: int) -> int {
    if env.w8_group > 0 && k % env.w8_group as int == 0 && k >= env.w8_group {
        env.w8_group as int
    } else {
        0
    }
}

pub open spec fn proj_error(env: ProjEnv, l: HostLin, facts: LinFacts) -> Option<ProjError> {
    if l.n % 2 != 0 {
        Some(ProjError::OddRows)
    } else {
        match l.q {
            Some(q) => if !facts.shape_ok {
                Some(ProjError::W4Shape)
            } else if q.packed@.len() != l.n * l.k / 8 {
                Some(ProjError::PackedLength)
            } else if q.scales@.len() != l.n * (l.k / q.gs) {
                Some(ProjError::ScaleLength)
            } else if w4_variant(env, facts) == W4Variant::Sg16 && !facts.grain_ok {
                Some(ProjError::GrainMismatch)
            } else {
                None
            },
            None => if l.k % 8 != 0 {
                Some(ProjError::ColumnsNotMultipleOf8)
            } else if l.w@.len() != l.n * l.k {
                Some(ProjError::WeightLength)
            } else {
                None
            },
        }
    }
}

/// How a sound matrix is stored and launched.
pub open spec fn proj_of(env: ProjEnv, lim: Limits, site: Site, l: HostLin, facts: LinFacts) -> Proj {
    let n = l.n;
    let k = l.k;
    match l.q {
        Some(q) => {
            let variant = w4_variant(env, facts);
            let wg = if variant == W4Variant::Sg16 {
                (lim.sg_rows_per_group * env.w4_mr) as u32
            } else {
                lim.w4_rows_per_group
            };
            Proj::W4 {
                site,
                variant,
                n,
                k,
                gs: q.gs,
                groups: GroupsX { invocations: n as u64, wg },
            }
        },
        None => {
            let groups = GroupsX { invocations: n as u64, wg: lim.gemv_rows_per_group };
            if env.w8 {
                Proj::I8 { site, n, k, group: i8_group(env, k as int) as usize, groups }
            } else {
                Proj::Bf16 { site, n, k, groups }
            }
        },
    }
}

/// The bytes that a matrix occupies.
pub open spec fn proj_bytes(env: ProjEnv, l: HostLin, facts: LinFacts) -> int {
    match l.q {
        Some(q) => 4 * q.packed@.len() + 4 * (if w4_variant(env, facts) == W4Variant::Sg16 {
            facts.sg_scale_words as int
        } else {
            q.scales@.len() as int
        }),
        None => if env.w8 {
            l.n * l.k + 4 * facts.i8_scales
        } else {
            2 * (l.n * l.k)
        },
    }
}

impl Tally {
    pub open spec fn counted(self, env: ProjEnv, l: HostLin, facts: LinFacts) -> Tally {
        let q = l.q is Some;
        let v = w4_variant(env, facts);
        Tally {
            weight_bytes: (self.weight_bytes + proj_bytes(env, l, facts)) as u64,
            block: (self.block + if q && v == W4Variant::Block { 1int } else { 0 }) as usize,
            v4: (self.v4 + if q && v == W4Variant::V4 { 1int } else { 0 }) as usize,
            sg16: (self.sg16 + if q && v == W4Variant::Sg16 { 1int } else { 0 }) as usize,
        }
    }

    /// One more matrix can be counted.
    pub open spec fn room(self, env: ProjEnv, l: HostLin, facts: LinFacts) -> bool {
        &&& self.weight_bytes + proj_bytes(env, l, facts) <= u64::MAX
        &&& self.block < usize::MAX
        &&& self.v4 < usize::MAX
        &&& self.sg16 < usize::MAX
    }
}

/// The sizes that a matrix's checks compute fit the address type.
pub open spec fn lin_fits(lim: Limits, env: ProjEnv, l: HostLin) -> bool {
    &&& l.n * l.k <= usize::MAX
    &&& l.q matches Some(q) ==> q.gs > 0
    &&& lim.sg_rows_per_group * env.w4_mr <= u32::MAX
}

/// Plans the storage and launch of one matrix, and counts it.
pub fn upload_proj(
    env: &ProjEnv,
    lim: &Limits,
    site: Site,
    l: &HostLin,
    facts: &LinFacts,
    tally: &mut Tally,
) -> (r: Result<Proj, ProjError>)
    requires
        lin_fits(*lim, *env, *l),
        old(tally).room(*env, *l, *facts),
    ensures
        match r {
            Err(e) => proj_error(*env, *l, *facts) == Some(e) && *final(tally) == *old(tally),
            Ok(p) => {
                &&& proj_error(*env, *l, *facts) is None
                &&& p == proj_of(*env, *lim, site, *l, *facts)
                &&& *final(tally) == old(tally).counted(*env, *l, *facts)
            },
        },
{
    if l.n % 2 != 0 {
        return Err(ProjError::OddRows);
    }
    match &l.q {
        Some(q) => {
            if !facts.shape_ok {
                return Err(ProjError::W4Shape);
            }
            if q.packed.len() != l.n * l.k / 8 {
                return Err(ProjError::PackedLength);
            }
            assert(l.n * (l.k / q.gs) <= l.n * l.k) by (nonlinear_arith)
                requires
                    q.gs > 0,
            ;
            if q.scales.len() != l.n * (l.k / q.gs) {
                return Err(ProjError::ScaleLength);
            }
            let sg_ok = env.sg16 && facts.grain_accepts && !(env.w4_route && facts.prefers_v4);
            let variant = if sg_ok { facts.route_with_sg } else { facts.route_without_sg };
            if variant == W4Variant::Sg16 && !facts.grain_ok {
                return Err(ProjError::GrainMismatch);
            }
            match variant {
                W4Variant::Block => {
                    tally.block = tally.block + 1;
                },
                W4Variant::V4 => {
                    tally.v4 = tally.v4 + 1;
                },
                W4Variant::Sg16 => {
                    tally.sg16 = tally.sg16 + 1;
                },
            }
            let scale_words: usize = if variant == W4Variant::Sg16 {
                facts.sg_scale_words
            } else {
                q.scales.len()
            };
            tally.weight_bytes = tally.weight_bytes + 4 * (q.packed.len() as u64) + 4 * (
            scale_words as u64);
            let wg: u32 = if variant == W4Variant::Sg16 {
                lim.sg_rows_per_group * env.w4_mr
            } else {
                lim.w4_rows_per_group
            };
            return Ok(
                Proj::W4 {
                    site,
                    variant,
                    n: l.n,
                    k: l.k,
                    gs: q.gs,
                    groups: GroupsX { invocations: l.n as u64, wg },
                },
            );
        },
        None => {},
    }
    if l.k % 8 != 0 {
        return Err(ProjError::ColumnsNotMultipleOf8);
    }
    if l.w.len() != l.n * l.k {
        return Err(ProjError::WeightLength);
    }
    let groups = GroupsX { invocations: l.n as u64, wg: lim.gemv_rows_per_group };
    let elems: u64 = (l.n * l.k) as u64;
    if env.w8 {
        let group: usize = if env.w8_group > 0 && l.k % env.w8_group == 0 && l.k >= env.w8_group {
            env.w8_group
        } else {
            0
        };
        tally.weight_bytes = tally.weight_bytes + elems + 4 * (facts.i8_scales as u64);
        return Ok(Proj::I8 { site, n: l.n, k: l.k, group, groups });
    }
    tally.weight_bytes = tally.weight_bytes + 2 * elems;
    Ok(Proj::Bf16 { site, n: l.n, k: l.k, groups })
}

impl Proj {
    /// The parameters that are uploaded with a matrix. A word holds two weights of sixteen
    /// bits, four of eight or eight of four.
    pub open spec fn spec_params(self) -> Uniform {
        match self {
            Proj::Bf16 { n, k, groups, .. } => Uniform::GemvBf16 {
                n_rows: n as u32,
                k_elems: k as u32,
                w_row_words: (k / 2) as u32,
                groups,
            },
            Proj::I8 { n, k, groups, .. } => Uniform::GemvBf16 {
                n_rows: n as u32,
                k_elems: k as u32,
                w_row_words: (k / 4) as u32,
                groups,
            },
            Proj::W4 { n, k, gs, groups, .. } => Uniform::GemvW4 {
                n_rows: n as u32,
                k_elems: k as u32,
                gs: gs as u32,
                w_row_words: (k / 8) as u32,
                scale_row_stride: (k / gs) as u32,
                groups,
            },
        }
    }

    /// What the parameter buffer of a matrix holds.
    pub fn params(&self) -> (r: Uniform)
        requires
            self matches Proj::W4 { gs, .. } ==> gs > 0,
        ensures
            r == self.spec_params(),
    {
        match *self {
            Proj::Bf16 { n, k, groups, .. } => Uniform::GemvBf16 {
                n_rows: n as u32,
                k_elems: k as u32,
                w_row_words: (k / 2) as u32,
                groups,
            },
            Proj::I8 { n, k, groups, .. } => Uniform::GemvBf16 {
                n_rows: n as u32,
                k_elems: k as u32,
                w_row_words: (k / 4) as u32,
                groups,
            },
            Proj::W4 { n, k, gs, groups, .. } => Uniform::GemvW4 {
                n_rows: n as u32,
                k_elems: k as u32,
                gs: gs as u32,
                w_row_words: (k / 8) as u32,
                scale_row_stride: (k / gs) as u32,
                groups,
            },
        }
    }
}

/// The words that the scales of a four-bit matrix are uploaded as, one to a word. The
/// subgroup route packs them in a way of its own.
pub fn scale_words(q: &HostW4) -> (r: Vec<u32>)
    ensures
        r@ == Seq::new(q.scales@.len(), |i: int| q.scales@[i] as u32),
{
    let mut r: Vec<u32> = Vec::new();
    let mut i: usize = 0;
    while i < q.scales.len()
        invariant
            i <= q.scales@.len(),
            r@ == Seq::new(i as nat, |j: int| q.scales@[j] as u32),
        decreases q.scales@.len() - i,
    {
        r.push(q.scales[i] as u32);
        i = i + 1;
        assert(r@ =~= Seq::new(i as nat, |j: int| q.scales@[j] as u32));
    }
    r
}

} // verus!
