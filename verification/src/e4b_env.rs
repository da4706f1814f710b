//! Choices of the E4B graph that come from environment values and from the configuration.
use vstd::prelude::*;
use crate::config::{Gemma4Config, LayerType};
use crate::e4b_flash_src::{E4B_DEEP_TPW_MAX, PREFILL_QTILE_MAX};
use crate::e4b_layer::FLASH_SPLITS;
use crate::parse::{
    env_is, env_number, env_parsed, parse_chars, parsed, switched_on, text_of, trim_chars, trimmed,
    not_switched_off,
};
use crate::text::{chars_of, contains};

verus! {

/// The most tokens that one decode chain produces.
pub const MAX_CHAIN: usize = 8;

/// The most rows of one prefill chunk.
pub const PREFILL_M_MAX: usize = 128;

/// The context depth up to which the shallow arm is the faster one.
pub const SPLIT_DEPTH_DEFAULT: u32 = 2048;

/// The split count of the deep arm unless another one is asked for.
pub const DEEP_SPLITS_DEFAULT: u32 = 64;

pub const FLASH_SD_ENV: &'static str = "NV_E4B_FLASH_SD";

pub const E4B_SPLIT_DEPTH_ENV: &'static str = "NV_E4B_SPLIT_DEPTH";

pub const E4B_DEEP_SPLITS_ENV: &'static str = "NV_E4B_DEEP_SPLITS";

pub const E4B_DEEP_FULL_ONLY_ENV: &'static str = "NV_E4B_DEEP_FULL_ONLY";

pub const E4B_DEEP_FOLD_ENV: &'static str = "NV_E4B_DEEP_FOLD";

pub const E4B_DEEP_STAGE2_LEGACY16_ENV: &'static str = "NV_E4B_DEEP_STAGE2_LEGACY16";

pub const E4B_DEEP_TPW_ENV: &'static str = "NV_E4B_DEEP_TPW";

pub const PREFILL_QTILE_ENV: &'static str = "NV_E4B_WGPU_PREFILL_QTILE";

/// Why an environment value is refused.
#[derive(Clone, Copy, Debug, PartialEq, Eq, Structural)]
pub enum EnvError {
    NotANumber,
    DoesNotDivideGroup,
    TooLarge,
}

/// The smallest of the range that is at least `n`, but at most the largest.
pub open spec fn clamped(n: int, lo: int, hi: int) -> int {
    if n < lo {
        lo
    } else if n > hi {
        hi
    } else {
        n
    }
}

pub open spec fn or_else(v: Option<nat>, default: nat) -> nat {
    match v {
        Some(n) => n,
        None => default,
    }
}

fn clamp_usize(n: usize, lo: usize, hi: usize) -> (r: usize)
    ensures
        r == clamped(n as int, lo as int, hi as int),
{
    if n < lo {
        lo
    } else if n > hi {
        hi
    } else {
        n
    }
}

/// Tokens per decode chain: a number between one and the maximum, one by default.
pub fn chain_k_from_env(v: Option<&str>) -> (r: usize)
    ensures
        r == match v {
            Some(s) => match parsed(trimmed(s@), usize::MAX as nat) {
                Some(n) => clamped(n as int, 1, MAX_CHAIN as int),
                None => 1,
            },
            None => 1,
        },
{
    match v {
        Some(s) => match parse_chars(&trim_chars(&chars_of(s)), usize::MAX as u64) {
            Some(n) => clamp_usize(n as usize, 1, MAX_CHAIN),
            None => 1,
        },
        None => 1,
    }
}

/// Rows per subgroup of the four-bit kernels: one, two, four or eight.
pub fn w4_mr(v: Option<&str>) -> (r: u32)
    ensures
        r == match env_parsed(text_of(v), u32::MAX as nat) {
            Some(n) => if n == 1 || n == 2 || n == 4 || n == 8 { n as u32 } else { 1 },
            None => 1,
        },
{
    match env_number(v, u32::MAX as u64) {
        Some(n) => if n == 1 || n == 2 || n == 4 || n == 8 {
            n as u32
        } else {
            1
        },
        None => 1,
    }
}

/// Threads per workgroup of the subgroup head.
pub fn lmhead_sg_wg(v: Option<&str>) -> (r: u32)
    ensures
        r == or_else(env_parsed(text_of(v), u32::MAX as nat), 256),
{
    match env_number(v, u32::MAX as u64) {
        Some(n) => n as u32,
        None => 256,
    }
}

/// Elements per scale of the eight-bit matrices; zero for one scale per row.
pub fn w8_group(v: Option<&str>) -> (r: usize)
    ensures
        r == if text_of(v) == Some("128"@) { 128int } else { 0 },
{
    if env_is(v, "128") {
        128
    } else {
        0
    }
}

/// Rows per prefill chunk: none when prefill is switched off, else a number in range out of
/// the shared setting, or out of the model's own where the shared one is not set.
pub fn prefill_m_from_env(prefill: Option<&str>, shared: Option<&str>, own: Option<&str>) -> (r: usize)
    ensures
        r == if text_of(prefill) == Some("0"@) {
            0int
        } else {
            let v = if shared is Some { shared } else { own };
            clamped(
                or_else(env_parsed(text_of(v), usize::MAX as nat), 10) as int,
                2,
                PREFILL_M_MAX as int,
            )
        },
{
    if env_is(prefill, "0") {
        return 0;
    }
    let v = match shared {
        Some(s) => Some(s),
        None => own,
    };
    let m: usize = match env_number(v, usize::MAX as u64) {
        Some(n) => n as usize,
        None => 10,
    };
    clamp_usize(m, 2, PREFILL_M_MAX)
}

/// Rows per verify batch, where they are set.
pub fn verify_m_from_env(v: Option<&str>) -> (r: Option<usize>)
    ensures
        match env_parsed(text_of(v), usize::MAX as nat) {
            Some(n) => r is Some && r->0 == clamped(n as int, 1, PREFILL_M_MAX as int),
            None => r is None,
        },
{
    match env_number(v, usize::MAX as u64) {
        Some(n) => Some(clamp_usize(n as usize, 1, PREFILL_M_MAX)),
        None => None,
    }
}

/// Which norm chains run unrolled: the ones named by letter, none for a zero, else all.
pub open spec fn unroll_mask(v: Option<Seq<char>>) -> (bool, bool, bool) {
    match v {
        None => (true, true, true),
        Some(s) => if s == "0"@ {
            (false, false, false)
        } else if s.contains('a') || s.contains('b') || s.contains('c') {
            (s.contains('a'), s.contains('b'), s.contains('c'))
        } else {
            (true, true, true)
        },
    }
}

fn has_char(s: &Vec<char>, c: char) -> (r: bool)
    ensures
        r == s@.contains(c),
{
    let mut i: usize = 0;
    while i < s.len()
        invariant
            i <= s@.len(),
            forall|j: int| 0 <= j < i ==> #[trigger] s@[j] != c,
        decreases s.len() - i,
    {
        if s[i] == c {
            assert(s@[i as int] == c);
            return true;
        }
        i = i + 1;
    }
    false
}

pub fn fnc_unroll_mask(v: Option<&str>) -> (r: [bool; 3])
    ensures
        (r[0], r[1], r[2]) == unroll_mask(text_of(v)),
{
    if env_is(v, "0") {
        return [false, false, false];
    }
    match v {
        Some(s) => {
            let c = chars_of(s);
            let (x, y, z) = (has_char(&c, 'a'), has_char(&c, 'b'), has_char(&c, 'c'));
            if x || y || z {
                [x, y, z]
            } else {
                [true, true, true]
            }
        },
        None => [true, true, true],
    }
}

/// Whether the kernels decode the cache by shifts; they do unless it is switched off.
pub fn flash_sd_enabled(v: Option<&str>) -> (r: bool)
    ensures
        r == (text_of(v) != Some("0"@)),
{
    not_switched_off(v)
}

/// Whether only full-attention layers have a deep arm.
pub fn deep_full_only(v: Option<&str>) -> (r: bool)
    ensures
        r == (text_of(v) == Some("1"@)),
{
    switched_on(v)
}

/// Whether the deep arm merges with the stage made for the shallow one.
pub fn deep_stage2_legacy16(v: Option<&str>) -> (r: bool)
    ensures
        r == (text_of(v) == Some("1"@)),
{
    switched_on(v)
}

/// A setting of the deep arm: unset or blank values count as not set.
pub open spec fn deep_setting(v: Option<Seq<char>>) -> Result<Option<u32>, EnvError> {
    match v {
        None => Ok(None),
        Some(s) => if trimmed(s).len() == 0 {
            Ok(None)
        } else {
            match parsed(trimmed(s), u32::MAX as nat) {
                Some(n) => Ok(Some(n as u32)),
                None => Err(EnvError::NotANumber),
            }
        },
    }
}

/// Reads a setting of the deep arm.
pub fn deep_env_u32(v: Option<&str>) -> (r: Result<Option<u32>, EnvError>)
    ensures
        r == deep_setting(text_of(v)),
{
    match v {
        None => Ok(None),
        Some(s) => {
            let t = trim_chars(&chars_of(s));
            if t.len() == 0 {
                return Ok(None);
            }
            match parse_chars(&t, u32::MAX as u64) {
                Some(n) => Ok(Some(n as u32)),
                None => Err(EnvError::NotANumber),
            }
        },
    }
}

pub open spec fn depth_of(setting: Option<u32>) -> u32 {
    match setting {
        Some(n) => n,
        None => SPLIT_DEPTH_DEFAULT,
    }
}

/// The context depth past which the deep arm takes over; zero for never.
pub fn split_depth(setting: Option<u32>) -> (r: u32)
    ensures
        r == depth_of(setting),
{
    match setting {
        Some(n) => n,
        None => SPLIT_DEPTH_DEFAULT,
    }
}

pub open spec fn deep_splits_of(setting: Option<u32>, max_splits: u32) -> u32 {
    let n = match setting {
        Some(n) => n,
        None => DEEP_SPLITS_DEFAULT,
    };
    clamped(n as int, 1, max_splits as int) as u32
}

/// The split count of the deep arm, within what the scratch is made for.
pub fn deep_splits(setting: Option<u32>, max_splits: u32) -> (r: u32)
    requires
        max_splits >= 1,
    ensures
        r == deep_splits_of(setting, max_splits),
        1 <= r <= max_splits,
{
    let n: u32 = match setting {
        Some(n) => n,
        None => DEEP_SPLITS_DEFAULT,
    };
    if n < 1 {
        1
    } else if n > max_splits {
        max_splits
    } else {
        n
    }
}

pub open spec fn deep_arm_of(depth: u32, deep: u32, decode: u32) -> Option<(u32, u32)> {
    if depth == 0 || deep == decode {
        None
    } else {
        Some((depth, deep))
    }
}

/// The settings decide the deep arm: there is none exactly where the depth is zero or both arms
/// would split alike. Else it has the depth and the split count, each at least one.
pub proof fn law_deep_arm(depth: Option<u32>, splits: Option<u32>, max_splits: u32, decode: u32)
    requires
        max_splits >= 1,
    ensures
        ({
            let d = depth_of(depth);
            let n = deep_splits_of(splits, max_splits);
            let arm = deep_arm_of(d, n, decode);
            &&& arm is None <==> d == 0 || n == decode
            &&& arm is Some ==> arm == Some((d, n)) && d >= 1 && n >= 1
        }),
{
}

/// The deep arm: its depth and split count. There is none at depth zero, nor where it would
/// split as the shallow one does.
pub fn deep_split_arm(depth: u32, deep: u32, decode: u32) -> (r: Option<(u32, u32)>)
    ensures
        r == deep_arm_of(depth, deep, decode),
{
    if depth == 0 || deep == decode {
        None
    } else {
        Some((depth, deep))
    }
}

/// The most partial results that any attention pass of the graph leaves.
pub fn scratch_splits(arm: Option<(u32, u32)>, decode: u32) -> (r: u32)
    ensures
        r >= decode,
        r >= FLASH_SPLITS,
        arm matches Some((_, s)) ==> r >= s,
        r == decode || r == FLASH_SPLITS || (arm matches Some((_, s)) && r == s),
{
    let deep: u32 = match arm {
        Some((_, s)) => s,
        None => 0,
    };
    let m: u32 = if decode >= deep { decode } else { deep };
    if m >= FLASH_SPLITS {
        m
    } else {
        FLASH_SPLITS
    }
}

/// Query heads per workgroup of the deep arm; zero where they are not folded.
pub fn deep_fold_env(setting: Option<u32>, gqa_group: u32) -> (r: Result<u32, EnvError>)
    ensures
        r == match setting {
            None => Ok(0),
            Some(n) => if n <= 1 {
                Ok(0)
            } else if gqa_group > 0 && gqa_group % n == 0 {
                Ok(n)
            } else {
                Err(EnvError::DoesNotDivideGroup)
            },
        },
{
    match setting {
        None => Ok(0),
        Some(n) => if n <= 1 {
            Ok(0)
        } else if gqa_group > 0 && gqa_group % n == 0 {
            Ok(n)
        } else {
            Err(EnvError::DoesNotDivideGroup)
        },
    }
}

/// Positions in flight per warp of the deep arm.
pub fn deep_tpw_env(setting: Option<u32>) -> (r: Result<u32, EnvError>)
    ensures
        r == match setting {
            None => Ok(1),
            Some(n) => if n <= 1 {
                Ok(1)
            } else if n <= E4B_DEEP_TPW_MAX {
                Ok(n)
            } else {
                Err(EnvError::TooLarge)
            },
        },
{
    match setting {
        None => Ok(1),
        Some(n) => if n <= 1 {
            Ok(1)
        } else if n <= E4B_DEEP_TPW_MAX {
            Ok(n)
        } else {
            Err(EnvError::TooLarge)
        },
    }
}

/// Query rows that share a pass over the keys.
pub fn prefill_qtile(v: Option<&str>) -> (r: Result<u32, EnvError>)
    ensures
        r == match deep_setting(text_of(v)) {
            Err(e) => Err(e),
            Ok(None) => Ok(1),
            Ok(Some(n)) => if n <= 1 {
                Ok(1)
            } else if n <= PREFILL_QTILE_MAX {
                Ok(n)
            } else {
                Err(EnvError::TooLarge)
            },
        },
{
    match deep_env_u32(v) {
        Err(e) => Err(e),
        Ok(None) => Ok(1),
        Ok(Some(n)) => if n <= 1 {
            Ok(1)
        } else if n <= PREFILL_QTILE_MAX {
            Ok(n)
        } else {
            Err(EnvError::TooLarge)
        },
    }
}

/// Whether the device's subgroups suit the shuffle reduction.
pub fn flash1_sg_supported(subgroup_width: Option<u32>) -> (r: bool)
    ensures
        r == (subgroup_width matches Some(w) && w >= 32 && w % 32 == 0),
{
    match subgroup_width {
        Some(w) => w >= 32 && w % 32 == 0,
        None => false,
    }
}

/// Whether the shuffle reduction is used: the device can, and it is not switched off.
pub fn flash1_sg_enabled(v: Option<&str>, subgroup_width: Option<u32>) -> (r: bool)
    ensures
        r == (text_of(v) != Some("0"@) && (subgroup_width matches Some(w) && w >= 32 && w % 32
            == 0)),
{
    not_switched_off(v) && flash1_sg_supported(subgroup_width)
}

/// Whether four-bit matrices may take the subgroup route: the device can, and it is not
/// switched off.
pub fn sg16_enabled(v: Option<&str>, supported: bool) -> (r: bool)
    ensures
        r == (text_of(v) != Some("0"@) && supported),
{
    not_switched_off(v) && supported
}

/// Whether verify batches run only the rows that they have.
pub fn verify_live_rows_enabled(v: Option<&str>) -> (r: bool)
    ensures
        r == (text_of(v) != Some("0"@)),
{
    not_switched_off(v)
}

/// The greatest common divisor.
pub open spec fn gcd(a: nat, b: nat) -> nat
    decreases b,
{
    if b == 0 {
        a
    } else {
        gcd(b, a % b)
    }
}

pub open spec fn divides(d: nat, n: nat) -> bool {
    exists|q: nat| n == #[trigger] (d * q)
}

proof fn lemma_divides_combine(d: nat, a: nat, b: nat)
    requires
        b > 0,
        divides(d, b),
        divides(d, a % b),
    ensures
        divides(d, a),
{
    let q = choose|q: nat| b == #[trigger] (d * q);
    let r = choose|r: nat| a % b == #[trigger] (d * r);
    let w = a / b;
    assert(a == b * w + a % b) by (nonlinear_arith)
        requires
            b > 0,
            w == a / b,
    ;
    assert((d * q) * w + d * r == d * (q * w + r)) by (nonlinear_arith);
    assert(a == d * (q * w + r));
}

proof fn lemma_divides_rest(d: nat, a: nat, b: nat)
    requires
        b > 0,
        d > 0,
        divides(d, a),
        divides(d, b),
    ensures
        divides(d, a % b),
{
    let q = choose|q: nat| a == #[trigger] (d * q);
    let r = choose|r: nat| b == #[trigger] (d * r);
    let w = a / b;
    assert(a == b * w + a % b) by (nonlinear_arith)
        requires
            b > 0,
            w == a / b,
    ;
    assert(d * q - (d * r) * w == d * (q - r * w)) by (nonlinear_arith);
    let k = q - r * w;
    assert(a % b == d * k);
    assert(k >= 0) by (nonlinear_arith)
        requires
            d * k >= 0,
            d > 0,
    ;
    assert(a % b == d * (k as nat));
}

/// The result divides both numbers, and whatever divides both divides it.
pub proof fn law_gcd(a: nat, b: nat)
    ensures
        divides(gcd(a, b), a),
        divides(gcd(a, b), b),
        forall|d: nat| d > 0 && #[trigger] divides(d, a) && divides(d, b) ==> divides(d, gcd(a, b)),
    decreases b,
{
    if b == 0 {
        assert(a == a * 1);
        assert(0 == a * 0);
    } else {
        law_gcd(b, a % b);
        lemma_divides_combine(gcd(a, b), a, b);
        assert forall|d: nat| d > 0 && #[trigger] divides(d, a) && divides(d, b) implies divides(
            d,
            gcd(a, b),
        ) by {
            lemma_divides_rest(d, a, b);
            assert(divides(d, b));
        }
    }
}

/// Query heads that share one key/value head, in both layer kinds at once.
pub open spec fn gqa_group(c: Gemma4Config) -> nat {
    let s = (c.num_attention_heads / c.sliding.num_kv_heads) as nat;
    let f = (c.num_attention_heads / c.full.num_kv_heads) as nat;
    if s >= f {
        gcd(s, f)
    } else {
        gcd(f, s)
    }
}

pub fn gqa_group_of(config: &Gemma4Config) -> (r: usize)
    requires
        config.sliding.num_kv_heads > 0,
        config.full.num_kv_heads > 0,
    ensures
        r == gqa_group(*config),
{
    let s: usize = config.num_attention_heads / config.num_kv_heads_for(LayerType::SlidingAttention);
    let f: usize = config.num_attention_heads / config.num_kv_heads_for(LayerType::FullAttention);
    let mut a: usize = if s >= f { s } else { f };
    let mut b: usize = if s >= f { f } else { s };
    while b > 0
        invariant
            gcd(a as nat, b as nat) == gqa_group(*config),
        decreases b,
    {
        let t: usize = a % b;
        a = b;
        b = t;
    }
    a
}

/// The head widths of the two layer kinds, in increasing order and each once.
pub fn flash1_head_dims(config: &Gemma4Config) -> (r: Vec<u32>)
    ensures
        ({
            let s = config.sliding.head_dim as u32;
            let f = config.full.head_dim as u32;
            r@ == if s == f {
                seq![s]
            } else if s < f {
                seq![s, f]
            } else {
                seq![f, s]
            }
        }),
{
    let s: u32 = config.head_dim_for(LayerType::SlidingAttention) as u32;
    let f: u32 = config.head_dim_for(LayerType::FullAttention) as u32;
    if s == f {
        vec![s]
    } else if s < f {
        vec![s, f]
    } else {
        vec![f, s]
    }
}

/// The row strides, in words, of the buffers that a slab of rows is bound into.
pub open spec fn slab_strides(c: Gemma4Config) -> Seq<int> {
    let n = c.num_attention_heads;
    seq![
        c.hidden_size as int / 2,
        n * c.sliding.head_dim / 2,
        n * c.full.head_dim / 2,
        c.sliding.num_kv_heads * c.sliding.head_dim / 2,
        c.full.num_kv_heads * c.full.head_dim / 2,
        c.intermediate_size as int / 2,
        c.hidden_size_per_layer_input as int / 2,
    ]
}

/// Every slab starts at an offset that the device can bind.
pub open spec fn slabs_aligned(c: Gemma4Config, slab: int, align: int) -> bool {
    forall|i: int|
        0 <= i < 7 ==> (slab * 4 * (#[trigger] slab_strides(c)[i])) % align == 0
}

/// The byte offsets of the slabs fit the address type.
pub open spec fn slabs_fit(c: Gemma4Config, slab: int) -> bool {
    &&& c.num_attention_heads * c.sliding.head_dim <= usize::MAX
    &&& c.num_attention_heads * c.full.head_dim <= usize::MAX
    &&& c.sliding.num_kv_heads * c.sliding.head_dim <= usize::MAX
    &&& c.full.num_kv_heads * c.full.head_dim <= usize::MAX
    &&& forall|i: int| 0 <= i < 7 ==> slab * 4 * (#[trigger] slab_strides(c)[i]) <= u64::MAX
}

/// Rows per prefill chunk once the context and the device are known.
pub open spec fn usable_prefill_m(c: Gemma4Config, wanted: int, max_seq: int, slab: int, align: int)
    -> int {
    if max_seq < wanted {
        0
    } else if wanted > slab && !slabs_aligned(c, slab, align) {
        slab
    } else {
        wanted
    }
}

fn aligned(slab: u64, words: usize, align: u64) -> (r: bool)
    requires
        align > 0,
        slab * 4 <= u64::MAX,
        slab * 4 * words <= u64::MAX,
    ensures
        r == ((slab * 4 * words) % align as int == 0),
{
    (slab * 4 * words as u64) % align == 0
}

/// Fits the wanted rows per prefill chunk to the context and to the device's binding offsets.
pub fn choose_prefill_m(config: &Gemma4Config, wanted: usize, max_seq: usize, slab: usize, align: u64)
    -> (r: usize)
    requires
        align > 0,
        slab * 4 <= u64::MAX,
        slabs_fit(*config, slab as int),
    ensures
        r == usable_prefill_m(
            *config,
            wanted as int,
            max_seq as int,
            slab as int,
            align as int,
        ),
{
    if max_seq < wanted {
        return 0;
    }
    if wanted <= slab {
        return wanted;
    }
    let n: usize = config.num_attention_heads;
    let hs: usize = config.sliding.head_dim;
    let hf: usize = config.full.head_dim;
    let s: u64 = slab as u64;
    let ghost st = slab_strides(*config);
    assert(st[0] == config.hidden_size / 2 && st[1] == n * hs / 2 && st[2] == n * hf / 2);
    assert(st[3] == config.sliding.num_kv_heads * hs / 2);
    assert(st[4] == config.full.num_kv_heads * hf / 2);
    assert(st[5] == config.intermediate_size / 2);
    assert(st[6] == config.hidden_size_per_layer_input / 2);
    let ok = aligned(s, config.hidden_size / 2, align) && aligned(s, n * hs / 2, align) && aligned(
        s,
        n * hf / 2,
        align,
    ) && aligned(s, config.sliding.num_kv_heads * hs / 2, align) && aligned(
        s,
        config.full.num_kv_heads * hf / 2,
        align,
    ) && aligned(s, config.intermediate_size / 2, align) && aligned(
        s,
        config.hidden_size_per_layer_input / 2,
        align,
    );
    assert(ok == slabs_aligned(*config, slab as int, align as int)) by {
        if ok {
            assert forall|i: int| 0 <= i < 7 implies (slab * 4 * (#[trigger] slab_strides(*config)[i]))
                % align as int == 0 by {
                assert(i == 0 || i == 1 || i == 2 || i == 3 || i == 4 || i == 5 || i == 6);
            }
        }
    }
    if ok {
        wanted
    } else {
        slab
    }
}

} // verus!
