//! Choices of the mixture-of-experts graph that come from environment values.
use vstd::prelude::*;
use crate::e4b_env::clamped;
use crate::parse::{env_is, env_number, env_parsed, parse_chars, parsed, text_of, trim_chars, trimmed};
use crate::text::{chars_of, contains, find_from, same_text};

verus! {

/// The weights that share one scale in a four-bit matrix.
pub const W4_GS: usize = 32;

/// The weights that share one scale in an int8 matrix.
pub const I8_GS: usize = 32;

/// The partial results of the choice of the next token.
pub const ARGMAX_GROUPS: usize = 256;

/// The most experts that one token is routed to.
pub const MAX_TOPK: usize = 16;

/// The most experts that a layer can have.
pub const MAX_EXPERTS: usize = 256;

pub const MAX_HEAD_DIM: usize = 512;

/// The most rows of one prefill chunk.
pub const PREFILL_M_MAX: usize = 64;

pub const G4MOE_SLIDING_KV_RING_DEFAULT_ON: bool = false;

pub const G4MOE_FLASH_DECODE_DEFAULT_ON: bool = false;

pub const G4MOE_FLASH_SPLITS_16_MIRRORS_GEMMA4_WGPU_FLASH_SPLITS: u32 = 16;

pub const G4MOE_FLASH_SPLITS_MAX_256_BOUNDS_STAGE2_SERIAL_SCAN_AND_SCRATCH: u32 = 256;

pub const G4MOE_FLASH_SLIDING_DEFAULT_ON: bool = false;

pub const G4MOE_GROUPED_GEMV_DEFAULT_ON: bool = false;

pub const GROUPED_NORM_CHAIN_MAX_HIDDEN_WORDS_PN_BUF: usize = 2048;

pub const G4MOE_KV_FP8_DEFAULT_ON: bool = false;

pub const G4MOE_KIND_LABELS_DEFAULT_ON: bool = false;

/// The workgroup memory of the first attention stage.
pub const FLASH_WORKGROUP_BYTES_QSH512_RED256_SM8_SL8_SACC4096_F32: u32 = 19520;

/// Why an environment value is refused.
#[derive(Clone, Copy, Debug, PartialEq, Eq, Structural)]
pub enum MoeEnvError {
    NotANumber,
    OutOfRange,
    NotAChoice,
}

/// A switch counts as on unless it is blank or zero; `default` where it is not set.
pub open spec fn switch_on(v: Option<Seq<char>>, default: bool) -> bool {
    match v {
        Some(s) => trimmed(s).len() != 0 && trimmed(s) != "0"@,
        None => default,
    }
}

fn switch(v: Option<&str>, default: bool) -> (r: bool)
    ensures
        r == switch_on(text_of(v), default),
{
    match v {
        None => default,
        Some(s) => {
            let t = trim_chars(&chars_of(s));
            proof {
                reveal_strlit("0");
                assert(trimmed(s@) == "0"@ <==> (t@.len() == 1 && t@[0] == '0')) by {
                    if t@.len() == 1 && t@[0] == '0' {
                        assert(t@ =~= "0"@);
                    }
                }
            }
            t.len() != 0 && !(t.len() == 1 && t[0] == '0')
        },
    }
}

pub fn sliding_kv_ring_enabled(v: Option<&str>) -> (r: bool)
    ensures
        r == switch_on(text_of(v), G4MOE_SLIDING_KV_RING_DEFAULT_ON),
{
    switch(v, G4MOE_SLIDING_KV_RING_DEFAULT_ON)
}

pub fn flash_decode_enabled(v: Option<&str>) -> (r: bool)
    ensures
        r == switch_on(text_of(v), G4MOE_FLASH_DECODE_DEFAULT_ON),
{
    switch(v, G4MOE_FLASH_DECODE_DEFAULT_ON)
}

/// The sliding layers take the flash kernels only where the full ones do.
pub fn flash_sliding_enabled(decode: Option<&str>, sliding: Option<&str>) -> (r: bool)
    ensures
        r == (switch_on(text_of(decode), G4MOE_FLASH_DECODE_DEFAULT_ON) && switch_on(
            text_of(sliding),
            G4MOE_FLASH_SLIDING_DEFAULT_ON,
        )),
{
    flash_decode_enabled(decode) && switch(sliding, G4MOE_FLASH_SLIDING_DEFAULT_ON)
}

pub fn grouped_gemv_enabled(v: Option<&str>) -> (r: bool)
    ensures
        r == switch_on(text_of(v), G4MOE_GROUPED_GEMV_DEFAULT_ON),
{
    switch(v, G4MOE_GROUPED_GEMV_DEFAULT_ON)
}

pub fn kv_fp8_enabled(v: Option<&str>) -> (r: bool)
    ensures
        r == switch_on(text_of(v), G4MOE_KV_FP8_DEFAULT_ON),
{
    switch(v, G4MOE_KV_FP8_DEFAULT_ON)
}

pub fn layer_kind_decode_labels_enabled(v: Option<&str>) -> (r: bool)
    ensures
        r == switch_on(text_of(v), G4MOE_KIND_LABELS_DEFAULT_ON),
{
    switch(v, G4MOE_KIND_LABELS_DEFAULT_ON)
}

/// The rows of a prefill chunk that a setting asks for: none below two, and no more than the
/// kernels take.
pub open spec fn prefill_rows(v: Option<Seq<char>>) -> int {
    match v {
        None => 8,
        Some(s) => match parsed(trimmed(s), usize::MAX as nat) {
            None => 8,
            Some(n) => if n <= 1 {
                0
            } else {
                clamped(n as int, 2, PREFILL_M_MAX as int)
            },
        },
    }
}

/// The rows of a prefill chunk. A setting of this graph goes before one of all graphs.
pub fn prefill_m(own: Option<&str>, shared: Option<&str>) -> (r: usize)
    ensures
        r == prefill_rows(if own is Some { text_of(own) } else { text_of(shared) }),
{
    let v = match own {
        Some(s) => Some(s),
        None => shared,
    };
    match v {
        None => 8,
        Some(s) => match parse_chars(&trim_chars(&chars_of(s)), usize::MAX as u64) {
            None => 8,
            Some(n) => if n <= 1 {
                0
            } else if n > PREFILL_M_MAX as u64 {
                PREFILL_M_MAX
            } else {
                n as usize
            },
        },
    }
}

/// The splits of the flash kernels.
pub fn flash_splits_grid_y_scratch_rows_and_stage1_stride_read_once_at_build(v: Option<&str>) -> (r:
    Result<u32, MoeEnvError>)
    ensures
        match text_of(v) {
            None => r == Ok::<u32, MoeEnvError>(
                G4MOE_FLASH_SPLITS_16_MIRRORS_GEMMA4_WGPU_FLASH_SPLITS,
            ),
            Some(s) => match parsed(trimmed(s), u32::MAX as nat) {
                None => r == Err::<u32, MoeEnvError>(MoeEnvError::NotANumber),
                Some(n) => if 1 <= n
                    <= G4MOE_FLASH_SPLITS_MAX_256_BOUNDS_STAGE2_SERIAL_SCAN_AND_SCRATCH {
                    r == Ok::<u32, MoeEnvError>(n as u32)
                } else {
                    r == Err::<u32, MoeEnvError>(MoeEnvError::OutOfRange)
                },
            },
        },
{
    match v {
        None => Ok(G4MOE_FLASH_SPLITS_16_MIRRORS_GEMMA4_WGPU_FLASH_SPLITS),
        Some(s) => match parse_chars(&trim_chars(&chars_of(s)), u32::MAX as u64) {
            None => Err(MoeEnvError::NotANumber),
            Some(n) => if 1 <= n && n
                <= G4MOE_FLASH_SPLITS_MAX_256_BOUNDS_STAGE2_SERIAL_SCAN_AND_SCRATCH as u64 {
                Ok(n as u32)
            } else {
                Err(MoeEnvError::OutOfRange)
            },
        },
    }
}

/// The entry point of the int8 head that a setting chooses.
#[derive(Clone, Copy, Debug, PartialEq, Eq, Structural)]
pub enum I8Head {
    Plain,
    V4,
}

impl I8Head {
    pub open spec fn text(self) -> Seq<char> {
        match self {
            I8Head::Plain => "g4m_gemv_i8"@,
            I8Head::V4 => "g4m_gemv_i8_v4"@,
        }
    }

    pub fn entry(self) -> (r: &'static str)
        ensures
            r@ == self.text(),
    {
        match self {
            I8Head::Plain => "g4m_gemv_i8",
            I8Head::V4 => "g4m_gemv_i8_v4",
        }
    }
}

/// Whether the head runs in int8, and by which kernel.
pub fn lmhead_i8_entry_off_until_real_checkpoint_quality_gate(v: Option<&str>) -> (r: Result<
    Option<I8Head>,
    MoeEnvError,
>)
    ensures
        match text_of(v) {
            None => r == Ok::<Option<I8Head>, MoeEnvError>(None),
            Some(s) => if s == ""@ || s == "0"@ {
                r == Ok::<Option<I8Head>, MoeEnvError>(None)
            } else if s == "1"@ {
                r == Ok::<Option<I8Head>, MoeEnvError>(Some(I8Head::Plain))
            } else if s == "v4"@ {
                r == Ok::<Option<I8Head>, MoeEnvError>(Some(I8Head::V4))
            } else {
                r == Err::<Option<I8Head>, MoeEnvError>(MoeEnvError::NotAChoice)
            },
        },
{
    match v {
        None => Ok(None),
        Some(s) => if same_text(s, "") || same_text(s, "0") {
            Ok(None)
        } else if same_text(s, "1") {
            Ok(Some(I8Head::Plain))
        } else if same_text(s, "v4") {
            Ok(Some(I8Head::V4))
        } else {
            Err(MoeEnvError::NotAChoice)
        },
    }
}

/// `s[lo..hi]` is one of the parts that commas divide `s` into.
pub open spec fn comma_part(s: Seq<char>, lo: int, hi: int) -> bool {
    &&& 0 <= lo <= hi <= s.len()
    &&& lo == 0 || s[lo - 1] == ','
    &&& hi == s.len() || s[hi] == ','
    &&& forall|i: int| lo <= i < hi ==> #[trigger] s[i] != ','
}

/// Part `lo..hi` of a list of classes is not blank and stands in `label`.
pub open spec fn class_hits(s: Seq<char>, label: Seq<char>, lo: int, hi: int) -> bool {
    comma_part(s, lo, hi) && lo < hi && contains(label, s.subrange(lo, hi))
}

/// Whether the wide loads are on for a pass: for all, or for those whose label holds one of
/// the listed classes.
pub open spec fn wide_for(v: Option<Seq<char>>, label: Seq<char>) -> bool {
    match v {
        None => false,
        Some(s) => if s == "0"@ || s.len() == 0 {
            false
        } else if s == "1"@ {
            true
        } else {
            exists|lo: int, hi: int| #[trigger] class_hits(s, label, lo, hi)
        },
    }
}

fn part(s: &Vec<char>, lo: usize, hi: usize) -> (r: Vec<char>)
    requires
        lo <= hi <= s@.len(),
    ensures
        r@ == s@.subrange(lo as int, hi as int),
{
    let mut r: Vec<char> = Vec::new();
    let mut i: usize = lo;
    while i < hi
        invariant
            lo <= i <= hi <= s@.len(),
            r@ == s@.subrange(lo as int, i as int),
        decreases hi - i,
    {
        r.push(s[i]);
        i = i + 1;
        assert(s@.subrange(lo as int, i as int) =~= s@.subrange(lo as int, i - 1).push(s@[i - 1]));
    }
    r
}

fn any_class(s: &Vec<char>, label: &Vec<char>) -> (r: bool)
    ensures
        r == exists|lo: int, hi: int| #[trigger] class_hits(s@, label@, lo, hi),
{
    let n: usize = s.len();
    let mut lo: usize = 0;
    let mut i: usize = 0;
    loop
        invariant
            n == s@.len(),
            lo <= i <= n,
            lo == 0 || s@[lo - 1] == ',',
            forall|j: int| lo <= j < i ==> #[trigger] s@[j] != ',',
            forall|a: int, b: int| b < i ==> !#[trigger] class_hits(s@, label@, a, b),
        decreases n - i,
    {
        if i == n || s[i] == ',' {
            if lo < i && find_from(label, &part(s, lo, i), 0).is_some() {
                assert(class_hits(s@, label@, lo as int, i as int));
                return true;
            }
            assert forall|a: int, b: int| b == i implies !#[trigger] class_hits(
                s@,
                label@,
                a,
                b,
            ) by {
                if class_hits(s@, label@, a, b) {
                    if a < lo {
                        assert(s@[lo - 1] != ',');
                    } else if a > lo {
                        assert(s@[a - 1] == ',');
                    }
                    assert(a == lo);
                }
            }
            if i == n {
                assert forall|a: int, b: int| !#[trigger] class_hits(s@, label@, a, b) by {
                    if class_hits(s@, label@, a, b) {
                        assert(b <= n);
                    }
                }
                return false;
            }
            lo = i + 1;
        }
        i = i + 1;
    }
}

pub fn gemv_wide_enabled(v: Option<&str>, label: &str) -> (r: bool)
    ensures
        r == wide_for(text_of(v), label@),
{
    match v {
        None => false,
        Some(s) => {
            if same_text(s, "0") {
                return false;
            }
            let c = chars_of(s);
            if c.len() == 0 {
                return false;
            }
            if same_text(s, "1") {
                return true;
            }
            any_class(&c, &chars_of(label))
        },
    }
}

/// The parallel router serves unless the serial one is asked for or the sizes exceed it.
pub open spec fn topk_text(v: Option<Seq<char>>, n_experts: int, top_k: int) -> Seq<char> {
    if v != Some("serial"@) && v != Some("0"@) && n_experts <= MAX_EXPERTS && top_k <= MAX_TOPK {
        "g4m_router_topk_par"@
    } else {
        "g4m_router_topk"@
    }
}

pub fn router_topk_entry(v: Option<&str>, n_experts: usize, top_k: usize) -> (r: &'static str)
    ensures
        r@ == topk_text(text_of(v), n_experts as int, top_k as int),
{
    let forced = env_is(v, "serial") || env_is(v, "0");
    if !forced && n_experts <= MAX_EXPERTS && top_k <= MAX_TOPK {
        "g4m_router_topk_par"
    } else {
        "g4m_router_topk"
    }
}

/// Whether eight rows of a four-bit matrix go to one workgroup.
pub open spec fn eight_rows(v: Option<Seq<char>>, groups: int, n_rows: int) -> bool {
    v != Some("wide"@) && v != Some("0"@) && groups <= 32 && n_rows % 8 == 0
}

pub fn takes_eight_rows(v: Option<&str>, groups: usize, n_rows: usize) -> (r: bool)
    ensures
        r == eight_rows(text_of(v), groups as int, n_rows as int),
{
    let forced = env_is(v, "wide") || env_is(v, "0");
    !forced && groups <= 32 && n_rows % 8 == 0
}

pub fn w4_gemv_entry(v: Option<&str>, groups: usize, n_rows: usize) -> (r: &'static str)
    ensures
        r@ == if eight_rows(text_of(v), groups as int, n_rows as int) {
            "g4m_gemv_w4_r8"@
        } else {
            "g4m_gemv_w4"@
        },
{
    if takes_eight_rows(v, groups, n_rows) {
        "g4m_gemv_w4_r8"
    } else {
        "g4m_gemv_w4"
    }
}

/// The rows of one chunk of the embedding table: an even number, as set or as the device can
/// bind.
pub open spec fn chunk_rows_of(v: Option<Seq<char>>, hidden: int, max_binding: int) -> int {
    match env_parsed(v, usize::MAX as nat) {
        Some(n) if n >= 2 => (n - n % 2) as int,
        _ => {
            let fit = clamped(max_binding, 0x10_0000, 0x4000_0000) / (2 * hidden);
            let rows = if fit < 2 { 2 } else { fit };
            rows - rows % 2
        },
    }
}

pub fn row_chunk(v: Option<&str>, hidden: usize, max_binding: u64) -> (r: usize)
    requires
        0 < hidden,
        2 * hidden <= usize::MAX,
    ensures
        r == chunk_rows_of(text_of(v), hidden as int, max_binding as int),
        r >= 2,
        r % 2 == 0,
{
    match env_number(v, usize::MAX as u64) {
        Some(n) => {
            if n >= 2 {
                let n: usize = n as usize;
                return n - n % 2;
            }
        },
        None => {},
    }
    let limit: u64 = if max_binding < 0x10_0000 {
        0x10_0000
    } else if max_binding > 0x4000_0000 {
        0x4000_0000
    } else {
        max_binding
    };
    let per_row: u64 = (2 * hidden) as u64;
    assert(limit / per_row <= limit) by (nonlinear_arith)
        requires
            per_row > 0,
    ;
    let fit: usize = (limit / per_row) as usize;
    let rows: usize = if fit < 2 { 2 } else { fit };
    rows - rows % 2
}

/// The chunks that a table of `vocab` rows is split into: as many rows as a chunk holds, an
/// even number of them but for a last odd row.
pub open spec fn chunks_from(vocab: int, chunk: int, off: int) -> Seq<(int, int)>
    decreases vocab - off,
{
    if off >= vocab {
        Seq::empty()
    } else {
        let most = if chunk < vocab - off { chunk } else { vocab - off };
        let even = most - most % 2;
        let rows = if even <= 0 { vocab - off } else { even };
        seq![(off, rows)] + chunks_from(vocab, chunk, off + rows)
    }
}

pub open spec fn pairs_int(s: Seq<(usize, usize)>) -> Seq<(int, int)> {
    Seq::new(s.len(), |i: int| (s[i].0 as int, s[i].1 as int))
}

/// The first row and the rows of each chunk of the embedding table.
pub fn embed_chunks(vocab: usize, chunk: usize) -> (r: Vec<(usize, usize)>)
    requires
        chunk >= 2,
        chunk % 2 == 0,
    ensures
        pairs_int(r@) == chunks_from(vocab as int, chunk as int, 0),
        r@.len() <= vocab,
{
    let mut r: Vec<(usize, usize)> = Vec::new();
    let mut off: usize = 0;
    while off < vocab
        invariant
            off <= vocab,
            chunk >= 2,
            r@.len() <= off,
            pairs_int(r@) + chunks_from(vocab as int, chunk as int, off as int) == chunks_from(
                vocab as int,
                chunk as int,
                0,
            ),
        decreases vocab - off,
    {
        let most: usize = if chunk < vocab - off { chunk } else { vocab - off };
        let even: usize = most - most % 2;
        let rows: usize = if even == 0 { vocab - off } else { even };
        let ghost before = pairs_int(r@);
        r.push((off, rows));
        proof {
            assert(pairs_int(r@) =~= before.push((off as int, rows as int)));
            assert(before.push((off as int, rows as int)) + chunks_from(
                vocab as int,
                chunk as int,
                off + rows,
            ) =~= before + (seq![(off as int, rows as int)] + chunks_from(
                vocab as int,
                chunk as int,
                off + rows,
            )));
        }
        off = off + rows;
    }
    assert(pairs_int(r@) + Seq::<(int, int)>::empty() =~= pairs_int(r@));
    r
}

/// Chunks follow each other without a gap from the first row to the last, and each begins at
/// an even row.
pub proof fn law_embed_chunks(vocab: int, chunk: int, off: int, i: int)
    requires
        0 <= off <= vocab,
        off % 2 == 0 || off == vocab,
        chunk >= 2,
        0 <= i < chunks_from(vocab, chunk, off).len(),
    ensures
        ({
            let c = chunks_from(vocab, chunk, off);
            &&& 0 < c[i].1
            &&& off <= c[i].0
            &&& c[i].0 + c[i].1 <= vocab
            &&& c[i].0 % 2 == 0
            &&& c[0].0 == off
            &&& i + 1 < c.len() ==> c[i + 1].0 == c[i].0 + c[i].1
            &&& i + 1 == c.len() ==> c[i].0 + c[i].1 == vocab
            &&& c[i].1 <= chunk
        }),
    decreases vocab - off,
{
    let most = if chunk < vocab - off { chunk } else { vocab - off };
    let even = most - most % 2;
    let rows = if even <= 0 { vocab - off } else { even };
    let rest = chunks_from(vocab, chunk, off + rows);
    let c = chunks_from(vocab, chunk, off);
    assert(c == seq![(off, rows)] + rest);
    assert(rows > 0);
    if off + rows < vocab {
        assert((off + rows) % 2 == 0);
        assert(rest.len() > 0);
        law_embed_chunks(vocab, chunk, off + rows, 0);
        if i > 0 {
            law_embed_chunks(vocab, chunk, off + rows, i - 1);
            assert(c[i] == rest[i - 1]);
            if i + 1 < c.len() {
                assert(c[i + 1] == rest[i]);
            }
        } else {
            assert(c[1] == rest[0]);
        }
    } else {
        assert(rest.len() == 0);
    }
}

} // verus!
