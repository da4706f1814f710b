//! Planning, generation and bookkeeping for Gemma 4 inference.
//!
//! Device graphs are planned here as lists of passes over named buffers, together with the
//! shader texts that they run, the uniforms that they read and the sizes of what they bind.
//! A session is the host's part of a decoding run: what is written before a submission, what
//! is refused, and what a submission leaves behind.

pub mod bf16;
pub mod config;
pub mod json;
pub mod parse;
pub mod text;
pub mod text_laws;

pub mod e4b_adapter;
pub mod e4b_adapter_laws;
pub mod e4b_batch;
pub mod e4b_build;
pub mod e4b_caches;
pub mod e4b_check;
pub mod e4b_emit;
pub mod e4b_env;
pub mod e4b_flash_src;
pub mod e4b_gemm_src;
pub mod e4b_graph_meaning;
pub mod e4b_head;
pub mod e4b_head_meaning;
pub mod e4b_host;
pub mod e4b_ir;
pub mod e4b_kernels;
pub mod e4b_laws;
pub mod e4b_layer;
pub mod e4b_layer_meaning;
pub mod e4b_lora;
pub mod e4b_meaning;
pub mod e4b_names;
pub mod e4b_pipelines;
pub mod e4b_probe;
pub mod e4b_room;
pub mod e4b_sd_laws;
pub mod e4b_sd_lines;
pub mod e4b_sd_pieces;
pub mod e4b_sd_text;
pub mod e4b_session;
pub mod e4b_sizes;
pub mod e4b_src_laws;
pub mod e4b_w4_laws;
pub mod e4b_steps;
pub mod e4b_values;
pub mod e4b_weights;

pub mod moe_attn;
pub mod moe_attn_meaning;
pub mod moe_build;
pub mod moe_caches;
pub mod moe_config;
pub mod moe_emit;
pub mod moe_env;
pub mod moe_ffn;
pub mod moe_forward;
pub mod moe_graph;
pub mod moe_head_meaning;
pub mod moe_host;
pub mod moe_ir;
pub mod moe_layer_meaning;
pub mod moe_ledger;
pub mod moe_load;
pub mod moe_load_laws;
pub mod moe_meaning;
pub mod moe_prompt;
pub mod moe_quant;
pub mod moe_room;
pub mod moe_session;
pub mod moe_sizes;
pub mod moe_src;
pub mod moe_steps;
pub mod moe_values;

pub mod gguf;
pub mod graph;
pub mod mm_splice;
pub mod mm_tensor;
pub mod uniform_words;
pub mod vision;
pub mod vision_load;
pub mod vision_tower;

pub use config::{Gemma4Config, KindDims, LayerType};
