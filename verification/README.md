# nv_models

Inference plans for the Gemma 4 family on wgpu and CUDA graphs, verified with
[Verus](https://github.com/verus-lang/verus).

A model is a list of passes. A pass names its kernel, its buffers, its parameters and its
grid. The library decides all of that, checks what it is given, writes the kernels' text
where it depends on the model, and keeps the state of a session: positions, cached command
lists, what is in flight. It never touches a device. Floating point numbers are carried as
their bits.

## Layout

`src/` is the library. Every function in it states what it returns, and is proved to.

| modules | |
| --- | --- |
| `config`, `moe_config`, `gguf`, `json` | configurations and where they are read from |
| `text`, `text_laws`, `parse`, `bf16` | building and searching text, settings, sixteen-bit numbers |
| `e4b_ir`, `e4b_emit`, `e4b_layer`, `e4b_head`, `e4b_build`, `e4b_host` | the passes of the E4B graph, from a projection to the whole |
| `e4b_check`, `e4b_sizes`, `e4b_weights`, `e4b_names`, `e4b_lora`, `e4b_adapter` | its weights, buffers and adapters |
| `e4b_pipelines`, `e4b_kernels`, `e4b_gemm_src`, `e4b_flash_src`, `e4b_src_laws`, `e4b_w4_laws` | its kernels and their text |
| `e4b_sd_text`, `e4b_sd_pieces`, `e4b_sd_lines`, `e4b_sd_laws` | why the attention stages can be rewritten to decode by shifts |
| `e4b_env`, `e4b_session`, `e4b_batch`, `e4b_probe`, `e4b_laws`, `e4b_caches` | its settings, sessions and what holds of them |
| `moe_*` | the same for the mixture-of-experts graph |
| `graph` | captured decode and verify steps |
| `mm_splice`, `mm_tensor` | image rows in a prompt |
| `vision`, `vision_tower`, `vision_load` | the vision tower's grid, pooling and weights |
| `uniform_words` | parameter blocks as the kernels read them |

Calls into other crates stand behind a few functions in `json`, `mm_tensor` and `bf16`; the
comment above each says what is taken on trust.

`app/` runs the plans: it reads the environment and files, talks to the device, and holds
what is computed in floating point. `tests/` runs the library on concrete values.

Functions named `law_*` state what holds across functions, such as that a graph writes the
keys and the values of each layer once, or that the chunks of a prompt cover it.
