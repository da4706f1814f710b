//! The configuration that a gguf file's metadata describes.
use vstd::prelude::*;
use crate::config::LayerType;
use crate::text::same_text;

verus! {

/// A metadata entry that a configuration is read from.
#[derive(Clone, Copy, Debug, PartialEq, Eq, Structural)]
pub enum GgufKey {
    Architecture,
    BlockCount,
    EmbeddingLength,
    FeedForwardLength,
    HeadCount,
    HeadCountKv,
    KeyLengthSwa,
    KeyLength,
    ContextLength,
    RmsEpsilon,
    SlidingWindow,
    RopeFreqBase,
    RopeFreqBaseSwa,
    SlidingWindowPattern,
    ExpertCount,
    ExpertUsedCount,
    ExpertFeedForwardLength,
    TokenEmbedding,
}

impl GgufKey {
    pub open spec fn text(self) -> Seq<char> {
        match self {
            GgufKey::Architecture => "general.architecture"@,
            GgufKey::BlockCount => "gemma4.block_count"@,
            GgufKey::EmbeddingLength => "gemma4.embedding_length"@,
            GgufKey::FeedForwardLength => "gemma4.feed_forward_length"@,
            GgufKey::HeadCount => "gemma4.attention.head_count"@,
            GgufKey::HeadCountKv => "gemma4.attention.head_count_kv"@,
            GgufKey::KeyLengthSwa => "gemma4.attention.key_length_swa"@,
            GgufKey::KeyLength => "gemma4.attention.key_length"@,
            GgufKey::ContextLength => "gemma4.context_length"@,
            GgufKey::RmsEpsilon => "gemma4.attention.layer_norm_rms_epsilon"@,
            GgufKey::SlidingWindow => "gemma4.attention.sliding_window"@,
            GgufKey::RopeFreqBase => "gemma4.rope.freq_base"@,
            GgufKey::RopeFreqBaseSwa => "gemma4.rope.freq_base_swa"@,
            GgufKey::SlidingWindowPattern => "gemma4.attention.sliding_window_pattern"@,
            GgufKey::ExpertCount => "gemma4.expert_count"@,
            GgufKey::ExpertUsedCount => "gemma4.expert_used_count"@,
            GgufKey::ExpertFeedForwardLength => "gemma4.expert_feed_forward_length"@,
            GgufKey::TokenEmbedding => "token_embd.weight"@,
        }
    }

    /// The name of the entry in the file.
    pub fn name(self) -> (r: &'static str)
        ensures
            r@ == self.text(),
    {
        match self {
            GgufKey::Architecture => "general.architecture",
            GgufKey::BlockCount => "gemma4.block_count",
            GgufKey::EmbeddingLength => "gemma4.embedding_length",
            GgufKey::FeedForwardLength => "gemma4.feed_forward_length",
            GgufKey::HeadCount => "gemma4.attention.head_count",
            GgufKey::HeadCountKv => "gemma4.attention.head_count_kv",
            GgufKey::KeyLengthSwa => "gemma4.attention.key_length_swa",
            GgufKey::KeyLength => "gemma4.attention.key_length",
            GgufKey::ContextLength => "gemma4.context_length",
            GgufKey::RmsEpsilon => "gemma4.attention.layer_norm_rms_epsilon",
            GgufKey::SlidingWindow => "gemma4.attention.sliding_window",
            GgufKey::RopeFreqBase => "gemma4.rope.freq_base",
            GgufKey::RopeFreqBaseSwa => "gemma4.rope.freq_base_swa",
            GgufKey::SlidingWindowPattern => "gemma4.attention.sliding_window_pattern",
            GgufKey::ExpertCount => "gemma4.expert_count",
            GgufKey::ExpertUsedCount => "gemma4.expert_used_count",
            GgufKey::ExpertFeedForwardLength => "gemma4.expert_feed_forward_length",
            GgufKey::TokenEmbedding => "token_embd.weight",
        }
    }
}

pub const SOFTCAP_KEY: &'static str = "gemma4.final_logit_softcapping";

pub const SOFTCAP_ENV: &'static str = "NV_GGUF_FINAL_LOGIT_SOFTCAP";

pub const ROPE_DIMENSION_KEY: &'static str = "gemma4.rope.dimension_count";

/// The tensor that an untied head is stored in.
pub const OUTPUT_TENSOR: &'static str = "output.weight";

/// Why a file does not describe a model of this kind.
#[derive(Clone, Copy, Debug, PartialEq, Eq, Structural)]
pub enum GgufError {
    Missing(GgufKey),
    NotGemma4,
    EmptyHeadCountKv,
    /// The cap of the logits is in neither the file nor the environment.
    NoSoftcap,
    SoftcapNotANumber,
    PatternLength,
}

/// A setting of the logits' cap in the environment; a value as its bits.
#[derive(Clone, Copy, Debug, PartialEq, Eq, Structural)]
pub enum SoftcapSetting {
    Unset,
    NotANumber,
    Value(u64),
}

/// What was found in a file. Floating-point values are their bits.
pub struct GgufFacts {
    pub arch: Option<String>,
    pub block_count: Option<u64>,
    pub hidden: Option<u64>,
    pub ffn: Option<u64>,
    pub n_head: Option<u64>,
    pub kv_list: Option<Vec<u64>>,
    /// The entry as one number.
    pub kv_one: Option<u64>,
    pub key_length_swa: Option<u64>,
    pub key_length: Option<u64>,
    pub context_length: Option<u64>,
    pub rms_eps: Option<u64>,
    pub sliding_window: Option<u64>,
    pub softcap: Option<u64>,
    pub softcap_setting: SoftcapSetting,
    pub freq_base: Option<u64>,
    pub freq_base_swa: Option<u64>,
    pub rope_dims: Option<u64>,
    pub pattern: Option<Vec<bool>>,
    pub expert_count: Option<u64>,
    pub expert_used: Option<u64>,
    pub expert_ffn: Option<u64>,
    pub token_embd: Option<Vec<usize>>,
    pub has_output: bool,
}

/// The configuration that the facts describe. The rotated part of a full head is
/// `rope_dims` of `global_head_dim`, and all of it where heads have no width.
pub struct GgufConfig {
    pub hidden_size: usize,
    pub intermediate_size: usize,
    pub num_hidden_layers: usize,
    pub num_attention_heads: usize,
    pub num_key_value_heads: usize,
    pub num_global_key_value_heads: usize,
    pub head_dim: usize,
    pub global_head_dim: usize,
    pub vocab_size: usize,
    pub max_position_embeddings: usize,
    pub rms_norm_eps: u64,
    pub sliding_window: usize,
    pub final_logit_softcapping: u64,
    pub layer_types: Vec<LayerType>,
    pub attention_k_eq_v: bool,
    pub tie_word_embeddings: bool,
    pub rope_theta_full: u64,
    pub rope_theta_sliding: u64,
    pub rope_dims: u64,
    pub num_experts: usize,
    pub top_k_experts: usize,
    pub moe_intermediate_size: usize,
}

/// The largest of the numbers before `n`, and the smallest.
pub open spec fn largest(s: Seq<u64>, n: int) -> u64
    decreases n,
{
    if n <= 1 {
        s[0]
    } else if s[n - 1] >= largest(s, n - 1) {
        s[n - 1]
    } else {
        largest(s, n - 1)
    }
}

pub open spec fn smallest(s: Seq<u64>, n: int) -> u64
    decreases n,
{
    if n <= 1 {
        s[0]
    } else if s[n - 1] < smallest(s, n - 1) {
        s[n - 1]
    } else {
        smallest(s, n - 1)
    }
}

/// Sliding layers have the most key heads, full ones the fewest: no count in the list lies
/// outside the two.
pub proof fn law_kv_heads(s: Seq<u64>, n: int, i: int)
    requires
        0 <= i < n <= s.len(),
    ensures
        smallest(s, n) <= s[i] <= largest(s, n),
        smallest(s, n) <= largest(s, n),
    decreases n,
{
    if n > 1 {
        if i < n - 1 {
            law_kv_heads(s, n - 1, i);
        } else {
            law_kv_heads(s, n - 1, 0);
        }
    }
}

/// The counts of key heads: a list, or one number for all layers.
pub open spec fn kv_counts(f: GgufFacts) -> Option<Seq<u64>> {
    match f.kv_list {
        Some(v) => Some(v@),
        None => match f.kv_one {
            Some(n) => Some(seq![n]),
            None => None,
        },
    }
}

pub open spec fn kinds(p: Seq<bool>) -> Seq<LayerType> {
    Seq::new(
        p.len(),
        |i: int| if p[i] { LayerType::SlidingAttention } else { LayerType::FullAttention },
    )
}

/// The first thing that keeps the facts from describing a model, in the order in which the
/// entries are read.
pub open spec fn gguf_defect(f: GgufFacts) -> Option<GgufError> {
    if f.arch is None {
        Some(GgufError::Missing(GgufKey::Architecture))
    } else if f.arch->0@ != "gemma4"@ {
        Some(GgufError::NotGemma4)
    } else if f.block_count is None {
        Some(GgufError::Missing(GgufKey::BlockCount))
    } else if f.hidden is None {
        Some(GgufError::Missing(GgufKey::EmbeddingLength))
    } else if f.ffn is None {
        Some(GgufError::Missing(GgufKey::FeedForwardLength))
    } else if f.n_head is None {
        Some(GgufError::Missing(GgufKey::HeadCount))
    } else if kv_counts(f) is None {
        Some(GgufError::Missing(GgufKey::HeadCountKv))
    } else if kv_counts(f)->0.len() == 0 {
        Some(GgufError::EmptyHeadCountKv)
    } else {
        attention_defect(f)
    }
}

pub open spec fn attention_defect(f: GgufFacts) -> Option<GgufError> {
    if f.key_length_swa is None {
        Some(GgufError::Missing(GgufKey::KeyLengthSwa))
    } else if f.key_length is None {
        Some(GgufError::Missing(GgufKey::KeyLength))
    } else if f.context_length is None {
        Some(GgufError::Missing(GgufKey::ContextLength))
    } else if f.rms_eps is None {
        Some(GgufError::Missing(GgufKey::RmsEpsilon))
    } else if f.sliding_window is None {
        Some(GgufError::Missing(GgufKey::SlidingWindow))
    } else if f.softcap is None && f.softcap_setting == SoftcapSetting::NotANumber {
        Some(GgufError::SoftcapNotANumber)
    } else if f.softcap is None && f.softcap_setting == SoftcapSetting::Unset {
        Some(GgufError::NoSoftcap)
    } else {
        layer_defect(f)
    }
}

pub open spec fn layer_defect(f: GgufFacts) -> Option<GgufError> {
    if f.freq_base is None {
        Some(GgufError::Missing(GgufKey::RopeFreqBase))
    } else if f.freq_base_swa is None {
        Some(GgufError::Missing(GgufKey::RopeFreqBaseSwa))
    } else if f.pattern is None {
        Some(GgufError::Missing(GgufKey::SlidingWindowPattern))
    } else if f.pattern->0@.len() != f.block_count->0 as usize {
        Some(GgufError::PatternLength)
    } else if f.expert_count is None {
        Some(GgufError::Missing(GgufKey::ExpertCount))
    } else if f.expert_used is None {
        Some(GgufError::Missing(GgufKey::ExpertUsedCount))
    } else if f.expert_ffn is None {
        Some(GgufError::Missing(GgufKey::ExpertFeedForwardLength))
    } else if f.token_embd is None || f.token_embd->0@.len() == 0 {
        Some(GgufError::Missing(GgufKey::TokenEmbedding))
    } else {
        None
    }
}

impl GgufConfig {
    pub open spec fn of(self, f: GgufFacts) -> bool {
        let kv = kv_counts(f)->0;
        let global = f.key_length->0 as usize;
        &&& self.hidden_size == f.hidden->0 as usize
        &&& self.intermediate_size == f.ffn->0 as usize
        &&& self.num_hidden_layers == f.block_count->0 as usize
        &&& self.num_attention_heads == f.n_head->0 as usize
        &&& self.num_key_value_heads == largest(kv, kv.len() as int) as usize
        &&& self.num_global_key_value_heads == smallest(kv, kv.len() as int) as usize
        &&& self.head_dim == f.key_length_swa->0 as usize
        &&& self.global_head_dim == global
        &&& self.vocab_size == f.token_embd->0@[0]
        &&& self.max_position_embeddings == f.context_length->0 as usize
        &&& self.rms_norm_eps == f.rms_eps->0
        &&& self.sliding_window == f.sliding_window->0 as usize
        &&& self.final_logit_softcapping == match f.softcap {
            Some(c) => c,
            None => f.softcap_setting->Value_0,
        }
        &&& self.layer_types@ == kinds(f.pattern->0@)
        &&& self.attention_k_eq_v
        &&& self.tie_word_embeddings == !f.has_output
        &&& self.rope_theta_full == f.freq_base->0
        &&& self.rope_theta_sliding == f.freq_base_swa->0
        &&& self.rope_dims == match f.rope_dims {
            Some(n) => n,
            None => global as u64,
        }
        &&& self.num_experts == f.expert_count->0 as usize
        &&& self.top_k_experts == f.expert_used->0 as usize
        &&& self.moe_intermediate_size == f.expert_ffn->0 as usize
    }
}

fn extremes(v: &Vec<u64>) -> (r: (u64, u64))
    requires
        v@.len() > 0,
    ensures
        r.0 == largest(v@, v@.len() as int),
        r.1 == smallest(v@, v@.len() as int),
{
    let mut hi: u64 = v[0];
    let mut lo: u64 = v[0];
    let mut i: usize = 1;
    while i < v.len()
        invariant
            1 <= i <= v@.len(),
            hi == largest(v@, i as int),
            lo == smallest(v@, i as int),
        decreases v@.len() - i,
    {
        if v[i] >= hi {
            hi = v[i];
        }
        if v[i] < lo {
            lo = v[i];
        }
        i = i + 1;
    }
    (hi, lo)
}

fn layer_kinds(p: &Vec<bool>) -> (r: Vec<LayerType>)
    ensures
        r@ == kinds(p@),
{
    let mut r: Vec<LayerType> = Vec::new();
    let mut i: usize = 0;
    while i < p.len()
        invariant
            i <= p@.len(),
            r@ == kinds(p@).take(i as int),
        decreases p@.len() - i,
    {
        r.push(if p[i] { LayerType::SlidingAttention } else { LayerType::FullAttention });
        i = i + 1;
        assert(kinds(p@).take(i as int) =~= kinds(p@).take(i - 1).push(kinds(p@)[i - 1]));
    }
    assert(kinds(p@).take(i as int) =~= kinds(p@));
    r
}

/// A required number of the file.
fn need(v: Option<u64>, key: GgufKey) -> (r: Result<u64, GgufError>)
    ensures
        match r {
            Ok(n) => v == Some(n),
            Err(e) => v is None && e == GgufError::Missing(key),
        },
{
    match v {
        Some(n) => Ok(n),
        None => Err(GgufError::Missing(key)),
    }
}

/// The configuration that a file describes.
pub fn gemma4_moe_config_from_gguf(f: &GgufFacts) -> (r: Result<GgufConfig, GgufError>)
    ensures
        match r {
            Ok(c) => gguf_defect(*f) is None && c.of(*f),
            Err(e) => gguf_defect(*f) == Some(e),
        },
{
    match &f.arch {
        None => {
            return Err(GgufError::Missing(GgufKey::Architecture));
        },
        Some(a) => {
            if !same_text(a.as_str(), "gemma4") {
                return Err(GgufError::NotGemma4);
            }
        },
    }
    let block_count: u64 = match need(f.block_count, GgufKey::BlockCount) {
        Ok(n) => n,
        Err(e) => {
            return Err(e);
        },
    };
    let hidden: u64 = match need(f.hidden, GgufKey::EmbeddingLength) {
        Ok(n) => n,
        Err(e) => {
            return Err(e);
        },
    };
    let ffn: u64 = match need(f.ffn, GgufKey::FeedForwardLength) {
        Ok(n) => n,
        Err(e) => {
            return Err(e);
        },
    };
    let n_head: u64 = match need(f.n_head, GgufKey::HeadCount) {
        Ok(n) => n,
        Err(e) => {
            return Err(e);
        },
    };
    let (kv_hi, kv_lo) = match &f.kv_list {
        Some(v) => {
            if v.len() == 0 {
                return Err(GgufError::EmptyHeadCountKv);
            }
            extremes(v)
        },
        None => match f.kv_one {
            Some(n) => {
                assert(seq![n].len() == 1 && seq![n][0] == n);
                (n, n)
            },
            None => {
                return Err(GgufError::Missing(GgufKey::HeadCountKv));
            },
        },
    };
    let head_dim: u64 = match need(f.key_length_swa, GgufKey::KeyLengthSwa) {
        Ok(n) => n,
        Err(e) => {
            return Err(e);
        },
    };
    let global: u64 = match need(f.key_length, GgufKey::KeyLength) {
        Ok(n) => n,
        Err(e) => {
            return Err(e);
        },
    };
    let context: u64 = match need(f.context_length, GgufKey::ContextLength) {
        Ok(n) => n,
        Err(e) => {
            return Err(e);
        },
    };
    let rms_eps: u64 = match need(f.rms_eps, GgufKey::RmsEpsilon) {
        Ok(n) => n,
        Err(e) => {
            return Err(e);
        },
    };
    let window: u64 = match need(f.sliding_window, GgufKey::SlidingWindow) {
        Ok(n) => n,
        Err(e) => {
            return Err(e);
        },
    };
    let softcap: u64 = match f.softcap {
        Some(c) => c,
        None => match f.softcap_setting {
            SoftcapSetting::Value(c) => c,
            SoftcapSetting::NotANumber => {
                return Err(GgufError::SoftcapNotANumber);
            },
            SoftcapSetting::Unset => {
                return Err(GgufError::NoSoftcap);
            },
        },
    };
    let theta_full: u64 = match need(f.freq_base, GgufKey::RopeFreqBase) {
        Ok(n) => n,
        Err(e) => {
            return Err(e);
        },
    };
    let theta_sliding: u64 = match need(f.freq_base_swa, GgufKey::RopeFreqBaseSwa) {
        Ok(n) => n,
        Err(e) => {
            return Err(e);
        },
    };
    let global_head_dim: usize = global as usize;
    let rope_dims: u64 = match f.rope_dims {
        Some(n) => n,
        None => global_head_dim as u64,
    };
    let num_hidden_layers: usize = block_count as usize;
    let layer_types = match &f.pattern {
        None => {
            return Err(GgufError::Missing(GgufKey::SlidingWindowPattern));
        },
        Some(p) => {
            if p.len() != num_hidden_layers {
                return Err(GgufError::PatternLength);
            }
            layer_kinds(p)
        },
    };
    let experts: u64 = match need(f.expert_count, GgufKey::ExpertCount) {
        Ok(n) => n,
        Err(e) => {
            return Err(e);
        },
    };
    let used: u64 = match need(f.expert_used, GgufKey::ExpertUsedCount) {
        Ok(n) => n,
        Err(e) => {
            return Err(e);
        },
    };
    let expert_ffn: u64 = match need(f.expert_ffn, GgufKey::ExpertFeedForwardLength) {
        Ok(n) => n,
        Err(e) => {
            return Err(e);
        },
    };
    let vocab_size: usize = match &f.token_embd {
        Some(d) => {
            if d.len() == 0 {
                return Err(GgufError::Missing(GgufKey::TokenEmbedding));
            }
            d[0]
        },
        None => {
            return Err(GgufError::Missing(GgufKey::TokenEmbedding));
        },
    };
    Ok(
        GgufConfig {
            hidden_size: hidden as usize,
            intermediate_size: ffn as usize,
            num_hidden_layers,
            num_attention_heads: n_head as usize,
            num_key_value_heads: kv_hi as usize,
            num_global_key_value_heads: kv_lo as usize,
            head_dim: head_dim as usize,
            global_head_dim,
            vocab_size,
            max_position_embeddings: context as usize,
            rms_norm_eps: rms_eps,
            sliding_window: window as usize,
            final_logit_softcapping: softcap,
            layer_types,
            attention_k_eq_v: true,
            tie_word_embeddings: !f.has_output,
            rope_theta_full: theta_full,
            rope_theta_sliding: theta_sliding,
            rope_dims,
            num_experts: experts as usize,
            top_k_experts: used as usize,
            moe_intermediate_size: expert_ffn as usize,
        },
    )
}

} // verus!
