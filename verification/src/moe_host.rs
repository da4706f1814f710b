//! What a mixture-of-experts layer is read from: tensor names, shapes and parts.
use vstd::prelude::*;
use crate::config::LayerType;
use crate::e4b_names::{layer_name, layer_text, LinWant};
use crate::moe_config::Gemma4MoeConfig;
use crate::text::{dec, push_dec};

verus! {

/// A source of tensors in a packed format, as raw bytes with a shape.
pub trait CompressedTensorsRawBytes {
    fn raw_bytes_and_shape_because_tensor_source_get_has_no_f8e4m3_dtype(&self, name: &str) -> Option<
        (Vec<u8>, Vec<usize>),
    >;
}

/// The parts of a matrix in packed four-bit floating point. `global` holds the bits of the
/// factor that the scales are relative to.
pub struct CtNvfp4Parts {
    pub packed: Vec<u8>,
    pub scales: Vec<u8>,
    pub global: u32,
}

/// A part of a packed matrix.
#[derive(Clone, Copy, Debug, PartialEq, Eq, Structural)]
pub enum CtPart {
    Packed,
    Scale,
    Global,
}

impl CtPart {
    pub open spec fn text(self) -> Seq<char> {
        match self {
            CtPart::Packed => "weight_packed"@,
            CtPart::Scale => "weight_scale"@,
            CtPart::Global => "weight_global_scale"@,
        }
    }

    pub fn suffix(self) -> (r: &'static str)
        ensures
            r@ == self.text(),
    {
        match self {
            CtPart::Packed => "weight_packed",
            CtPart::Scale => "weight_scale",
            CtPart::Global => "weight_global_scale",
        }
    }
}

/// Why a packed matrix cannot be read.
#[derive(Clone, Copy, Debug, PartialEq, Eq, Structural)]
pub enum CtError {
    /// The columns do not make whole groups.
    Columns,
    Missing(CtPart),
    Shape(CtPart),
    Length(CtPart),
}

/// The name of a part of the module's matrix.
pub open spec fn part_text(module: Seq<char>, part: CtPart) -> Seq<char> {
    module + "."@ + part.text()
}

pub fn part_name(module: &str, part: CtPart) -> (r: String)
    ensures
        r@ == part_text(module@, part),
{
    let mut b = String::new();
    b.append(module);
    b.append(".");
    b.append(part.suffix());
    assert(b@ =~= part_text(module@, part));
    b
}

/// What is wrong with a part of `rows` rows of `cols` bytes.
pub open spec fn part_defect(
    part: CtPart,
    t: Option<(Vec<u8>, Vec<usize>)>,
    rows: int,
    cols: int,
) -> Option<CtError> {
    match t {
        None => Some(CtError::Missing(part)),
        Some((bytes, shape)) => if shape@ != seq![rows as usize, cols as usize] {
            Some(CtError::Shape(part))
        } else if bytes@.len() != rows * cols {
            Some(CtError::Length(part))
        } else {
            None
        },
    }
}

fn check_part(part: CtPart, t: Option<(Vec<u8>, Vec<usize>)>, rows: usize, cols: usize) -> (r: Result<
    Vec<u8>,
    CtError,
>)
    requires
        rows * cols <= usize::MAX,
    ensures
        match r {
            Err(e) => part_defect(part, t, rows as int, cols as int) == Some(e),
            Ok(b) => {
                &&& part_defect(part, t, rows as int, cols as int) is None
                &&& t is Some && b == (t->0).0
            },
        },
{
    match t {
        None => Err(CtError::Missing(part)),
        Some((bytes, shape)) => {
            let same = shape.len() == 2 && shape[0] == rows && shape[1] == cols;
            proof {
                if same {
                    assert(shape@ =~= seq![rows, cols]);
                }
            }
            if !same {
                return Err(CtError::Shape(part));
            }
            if bytes.len() != rows * cols {
                return Err(CtError::Length(part));
            }
            Ok(bytes)
        },
    }
}

/// The first thing wrong with the parts of an `n` by `k` matrix with groups of `group`
/// columns: two values to a byte, a byte of scale to a group, one single precision factor.
pub open spec fn parts_defect(
    packed: Option<(Vec<u8>, Vec<usize>)>,
    scales: Option<(Vec<u8>, Vec<usize>)>,
    global: Option<(Vec<u8>, Vec<usize>)>,
    group: int,
    n: int,
    k: int,
) -> Option<CtError> {
    if k % group != 0 {
        Some(CtError::Columns)
    } else if part_defect(CtPart::Packed, packed, n, k / 2) is Some {
        part_defect(CtPart::Packed, packed, n, k / 2)
    } else if part_defect(CtPart::Scale, scales, n, k / group) is Some {
        part_defect(CtPart::Scale, scales, n, k / group)
    } else {
        match global {
            None => Some(CtError::Missing(CtPart::Global)),
            Some((bytes, _)) => if bytes@.len() != 4 {
                Some(CtError::Length(CtPart::Global))
            } else {
                None
            },
        }
    }
}

/// Whether `r` holds the parts.
pub open spec fn parts_of(
    r: CtNvfp4Parts,
    packed: Option<(Vec<u8>, Vec<usize>)>,
    scales: Option<(Vec<u8>, Vec<usize>)>,
    global: Option<(Vec<u8>, Vec<usize>)>,
) -> bool {
    &&& packed is Some && r.packed == (packed->0).0
    &&& scales is Some && r.scales == (scales->0).0
    &&& global is Some && r.global == crate::e4b_weights::le32(
        (global->0).0@[0],
        (global->0).0@[1],
        (global->0).0@[2],
        (global->0).0@[3],
    )
}

/// Whether `r` is what comes of these parts: the first thing wrong with them, or the matrix.
pub open spec fn assembled(
    r: Result<CtNvfp4Parts, CtError>,
    packed: Option<(Vec<u8>, Vec<usize>)>,
    scales: Option<(Vec<u8>, Vec<usize>)>,
    global: Option<(Vec<u8>, Vec<usize>)>,
    group: int,
    n: int,
    k: int,
) -> bool {
    match r {
        Err(e) => parts_defect(packed, scales, global, group, n, k) == Some(e),
        Ok(p) => {
            &&& parts_defect(packed, scales, global, group, n, k) is None
            &&& parts_of(p, packed, scales, global)
        },
    }
}

/// Whether the source may answer `t` when it is asked for `name`.
pub open spec fn gives<S: CompressedTensorsRawBytes>(
    w: &S,
    name: Seq<char>,
    t: Option<(Vec<u8>, Vec<usize>)>,
) -> bool {
    exists|s: &str|
        s@ == name && #[trigger] call_ensures(
            S::raw_bytes_and_shape_because_tensor_source_get_has_no_f8e4m3_dtype,
            (w, s),
            t,
        )
}

/// Puts the parts of a matrix together once they are read.
pub fn assemble_parts(
    packed: Option<(Vec<u8>, Vec<usize>)>,
    scales: Option<(Vec<u8>, Vec<usize>)>,
    global: Option<(Vec<u8>, Vec<usize>)>,
    group: usize,
    n: usize,
    k: usize,
) -> (r: Result<CtNvfp4Parts, CtError>)
    requires
        group > 0,
        group % 2 == 0,
        n * k <= usize::MAX,
    ensures
        assembled(r, packed, scales, global, group as int, n as int, k as int),
{
    if k % group != 0 {
        return Err(CtError::Columns);
    }
    proof {
        let h = k as int / 2;
        let g = k as int / group as int;
        assert(g <= k) by (nonlinear_arith)
            requires
                g == k as int / group as int,
                group > 0,
        ;
        assert(n * h <= n * k && n * g <= n * k) by (nonlinear_arith)
            requires
                h <= k,
                g <= k,
        ;
    }
    let packed = match check_part(CtPart::Packed, packed, n, k / 2) {
        Err(e) => {
            return Err(e);
        },
        Ok(b) => b,
    };
    let scales = match check_part(CtPart::Scale, scales, n, k / group) {
        Err(e) => {
            return Err(e);
        },
        Ok(b) => b,
    };
    match global {
        None => Err(CtError::Missing(CtPart::Global)),
        Some((b, _)) => {
            if b.len() != 4 {
                return Err(CtError::Length(CtPart::Global));
            }
            match crate::e4b_weights::u32_words_of(b.as_slice()) {
                Some(w) => {
                    assert(b@.len() == 4 && w@.len() == 1);
                    assert(w@[0] == crate::e4b_weights::le32(b@[0], b@[1], b@[2], b@[3]));
                    Ok(CtNvfp4Parts { packed, scales, global: w[0] })
                },
                None => Err(CtError::Length(CtPart::Global)),
            }
        },
    }
}

/// Reads the parts of a matrix from a source, each under its own name, and puts them
/// together. The source is asked only where the columns make whole groups; what it gives for
/// the names decides the rest.
pub fn compressed_tensors_nvfp4_parts<S: CompressedTensorsRawBytes>(
    w: &S,
    module: &str,
    group: usize,
    n: usize,
    k: usize,
) -> (r: Result<CtNvfp4Parts, CtError>)
    requires
        group > 0,
        group % 2 == 0,
        n * k <= usize::MAX,
    ensures
        (r == Err::<CtNvfp4Parts, CtError>(CtError::Columns)) == (k % group != 0),
        k % group == 0 ==> exists|
            packed: Option<(Vec<u8>, Vec<usize>)>,
            scales: Option<(Vec<u8>, Vec<usize>)>,
            global: Option<(Vec<u8>, Vec<usize>)>,
        |
            {
                &&& gives(w, part_text(module@, CtPart::Packed), packed)
                &&& gives(w, part_text(module@, CtPart::Scale), scales)
                &&& gives(w, part_text(module@, CtPart::Global), global)
                &&& #[trigger] assembled(
                    r,
                    packed,
                    scales,
                    global,
                    group as int,
                    n as int,
                    k as int,
                )
            },
        r matches Ok(p) ==> p.packed@.len() == n * (k as int / 2) && p.scales@.len() == n * (k as int
            / group as int),
{
    if k % group != 0 {
        return Err(CtError::Columns);
    }
    let packed_name = part_name(module, CtPart::Packed);
    let packed = w.raw_bytes_and_shape_because_tensor_source_get_has_no_f8e4m3_dtype(
        packed_name.as_str(),
    );
    assert(gives(w, part_text(module@, CtPart::Packed), packed));
    let scale_name = part_name(module, CtPart::Scale);
    let scales = w.raw_bytes_and_shape_because_tensor_source_get_has_no_f8e4m3_dtype(
        scale_name.as_str(),
    );
    assert(gives(w, part_text(module@, CtPart::Scale), scales));
    let global_name = part_name(module, CtPart::Global);
    let global = w.raw_bytes_and_shape_because_tensor_source_get_has_no_f8e4m3_dtype(
        global_name.as_str(),
    );
    assert(gives(w, part_text(module@, CtPart::Global), global));
    let ghost (p, s, g) = (packed, scales, global);
    let r = assemble_parts(packed, scales, global, group, n, k);
    assert(assembled(r, p, s, g, group as int, n as int, k as int));
    r
}

/// Whether a matrix is read from its packed parts: only where it is not stored plainly.
pub fn takes_packed(has_weight: bool, has_packed: bool) -> (r: bool)
    ensures
        r == (!has_weight && has_packed),
{
    !has_weight && has_packed
}

/// The tensors of a layer that are not experts.
pub struct MoeLayerWant {
    pub kind: LayerType,
    pub q: LinWant,
    pub k: LinWant,
    pub v: Option<LinWant>,
    pub o: LinWant,
    pub mlp_gate: LinWant,
    pub mlp_up: LinWant,
    pub mlp_down: LinWant,
    /// The router is stored plainly, under its whole name.
    pub router: LinWant,
    pub router_scale: String,
    pub per_expert_scale: String,
    pub layer_scalar: String,
    /// Norm weights: name and length.
    pub input_ln: (String, usize),
    pub post_attn_ln: (String, usize),
    pub pre_ffw_ln: (String, usize),
    pub post_ffw_ln: (String, usize),
    pub post_ffw_ln_1: (String, usize),
    pub pre_ffw_ln_2: (String, usize),
    pub post_ffw_ln_2: (String, usize),
    pub q_norm: (String, usize),
    pub k_norm: (String, usize),
}

pub open spec fn norm_is(t: (String, usize), i: int, rest: Seq<char>, len: usize) -> bool {
    t.0@ == layer_text(i, rest) && t.1 == len
}

impl MoeLayerWant {
    pub open spec fn of(self, cfg: Gemma4MoeConfig, i: int) -> bool {
        let c = cfg.base;
        let kind = c.layer_types@[i];
        let hidden = c.hidden_size as int;
        let q_dim = c.num_attention_heads * c.dims(kind).head_dim;
        let kv_dim = c.dims(kind).num_kv_heads * c.dims(kind).head_dim;
        let inter = c.intermediate_size as int;
        &&& self.kind == kind
        &&& self.q.of(layer_text(i, "self_attn.q_proj"@), q_dim, hidden)
        &&& self.k.of(layer_text(i, "self_attn.k_proj"@), kv_dim, hidden)
        &&& self.v is Some == c.spec_has_v(kind)
        &&& self.v matches Some(v) ==> v.of(layer_text(i, "self_attn.v_proj"@), kv_dim, hidden)
        &&& self.o.of(layer_text(i, "self_attn.o_proj"@), hidden, q_dim)
        &&& self.mlp_gate.of(layer_text(i, "mlp.gate_proj"@), inter, hidden)
        &&& self.mlp_up.of(layer_text(i, "mlp.up_proj"@), inter, hidden)
        &&& self.mlp_down.of(layer_text(i, "mlp.down_proj"@), hidden, inter)
        &&& self.router.of(
            layer_text(i, "router.proj.weight"@),
            cfg.num_experts as int,
            hidden,
        )
        &&& self.norms_of(cfg, i)
    }

    pub open spec fn norms_of(self, cfg: Gemma4MoeConfig, i: int) -> bool {
        let h = cfg.base.hidden_size;
        let hd = cfg.base.dims(cfg.base.layer_types@[i]).head_dim;
        &&& self.router_scale@ == layer_text(i, "router.scale"@)
        &&& self.per_expert_scale@ == layer_text(i, "router.per_expert_scale"@)
        &&& self.layer_scalar@ == layer_text(i, "layer_scalar"@)
        &&& norm_is(self.input_ln, i, "input_layernorm.weight"@, h)
        &&& norm_is(self.post_attn_ln, i, "post_attention_layernorm.weight"@, h)
        &&& norm_is(self.pre_ffw_ln, i, "pre_feedforward_layernorm.weight"@, h)
        &&& norm_is(self.post_ffw_ln, i, "post_feedforward_layernorm.weight"@, h)
        &&& norm_is(self.post_ffw_ln_1, i, "post_feedforward_layernorm_1.weight"@, h)
        &&& norm_is(self.pre_ffw_ln_2, i, "pre_feedforward_layernorm_2.weight"@, h)
        &&& norm_is(self.post_ffw_ln_2, i, "post_feedforward_layernorm_2.weight"@, h)
        &&& norm_is(self.q_norm, i, "self_attn.q_norm.weight"@, hd)
        &&& norm_is(self.k_norm, i, "self_attn.k_norm.weight"@, hd)
    }
}

fn want(i: usize, rest: &str, n: usize, k: usize) -> (r: LinWant)
    ensures
        r.of(layer_text(i as int, rest@), n as int, k as int),
{
    LinWant { name: layer_name(i, rest), n, k }
}

fn norm(i: usize, rest: &str, len: usize) -> (r: (String, usize))
    ensures
        norm_is(r, i as int, rest@, len),
{
    (layer_name(i, rest), len)
}

/// The tensors to read for layer `i`, besides its experts.
pub fn host_layer_from_loader(cfg: &Gemma4MoeConfig, i: usize) -> (r: MoeLayerWant)
    requires
        cfg.base.wf(),
        i < cfg.base.num_hidden_layers,
        cfg.base.num_attention_heads * cfg.base.dims(cfg.base.layer_types@[i as int]).head_dim
            <= usize::MAX,
        cfg.base.dims(cfg.base.layer_types@[i as int]).num_kv_heads * cfg.base.dims(
            cfg.base.layer_types@[i as int],
        ).head_dim <= usize::MAX,
    ensures
        r.of(*cfg, i as int),
{
    let c = &cfg.base;
    let hidden: usize = c.hidden_size;
    let inter: usize = c.intermediate_size;
    let kind = c.layer_types[i];
    let hd: usize = c.head_dim_for(kind);
    let q_dim: usize = c.num_attention_heads * hd;
    let kv_dim: usize = c.num_kv_heads_for(kind) * hd;
    let v = if c.has_v(kind) {
        Some(want(i, "self_attn.v_proj", kv_dim, hidden))
    } else {
        None
    };
    MoeLayerWant {
        kind,
        q: want(i, "self_attn.q_proj", q_dim, hidden),
        k: want(i, "self_attn.k_proj", kv_dim, hidden),
        v,
        o: want(i, "self_attn.o_proj", hidden, q_dim),
        mlp_gate: want(i, "mlp.gate_proj", inter, hidden),
        mlp_up: want(i, "mlp.up_proj", inter, hidden),
        mlp_down: want(i, "mlp.down_proj", hidden, inter),
        router: want(i, "router.proj.weight", cfg.num_experts, hidden),
        router_scale: layer_name(i, "router.scale"),
        per_expert_scale: layer_name(i, "router.per_expert_scale"),
        layer_scalar: layer_name(i, "layer_scalar"),
        input_ln: norm(i, "input_layernorm.weight", hidden),
        post_attn_ln: norm(i, "post_attention_layernorm.weight", hidden),
        pre_ffw_ln: norm(i, "pre_feedforward_layernorm.weight", hidden),
        post_ffw_ln: norm(i, "post_feedforward_layernorm.weight", hidden),
        post_ffw_ln_1: norm(i, "post_feedforward_layernorm_1.weight", hidden),
        pre_ffw_ln_2: norm(i, "pre_feedforward_layernorm_2.weight", hidden),
        post_ffw_ln_2: norm(i, "post_feedforward_layernorm_2.weight", hidden),
        q_norm: norm(i, "self_attn.q_norm.weight", hd),
        k_norm: norm(i, "self_attn.k_norm.weight", hd),
    }
}

/// The module of one expert's projection.
pub open spec fn expert_text(i: int, e: int, proj: Seq<char>) -> Seq<char> {
    layer_text(i, "experts."@) + dec(e as nat) + "."@ + proj
}

pub fn expert_name(i: usize, e: usize, proj: &str) -> (r: String)
    ensures
        r@ == expert_text(i as int, e as int, proj@),
{
    let mut b = layer_name(i, "experts.");
    push_dec(&mut b, e as u64);
    b.append(".");
    b.append(proj);
    b
}

/// Where the experts of a layer are read from.
pub enum ExpertSource {
    /// One packed matrix for each expert and projection.
    PerExpert,
    /// All experts in one tensor for gate and up, and one for down.
    Fused { gate_up: String, down: String },
}

/// Chooses the experts' source: the single matrices only where the fused tensor is missing
/// and the first of them is there.
pub fn expert_source(i: usize, has_fused: bool, has_first: bool) -> (r: ExpertSource)
    ensures
        match r {
            ExpertSource::PerExpert => !has_fused && has_first,
            ExpertSource::Fused { gate_up, down } => {
                &&& has_fused || !has_first
                &&& gate_up@ == layer_text(i as int, "experts.gate_up_proj"@)
                &&& down@ == layer_text(i as int, "experts.down_proj"@)
            },
        },
{
    if !has_fused && has_first {
        ExpertSource::PerExpert
    } else {
        ExpertSource::Fused {
            gate_up: layer_name(i, "experts.gate_up_proj"),
            down: layer_name(i, "experts.down_proj"),
        }
    }
}

/// The values of expert `e` in the fused tensors: where its gate, its up and its down
/// matrices begin. Each holds `size` values.
#[derive(Clone, Copy, Debug, PartialEq, Eq, Structural)]
pub struct ExpertPlace {
    pub gate: usize,
    pub up: usize,
    pub down: usize,
    pub size: usize,
}

/// Where expert `e` has its gate matrix, for matrices of `size` values.
pub open spec fn gate_start(e: int, size: int) -> int {
    e * (2 * size)
}

pub open spec fn up_start(e: int, size: int) -> int {
    e * (2 * size) + size
}

pub open spec fn down_start(e: int, size: int) -> int {
    e * size
}

pub fn expert_place(e: usize, n_experts: usize, moe_inter: usize, hidden: usize) -> (r: ExpertPlace)
    requires
        e < n_experts,
        n_experts * (2 * (moe_inter * hidden)) <= usize::MAX,
    ensures
        r.size == moe_inter * hidden,
        r.gate == gate_start(e as int, moe_inter * hidden),
        r.up == up_start(e as int, moe_inter * hidden),
        r.down == down_start(e as int, moe_inter * hidden),
        r.up + r.size <= n_experts * (2 * (moe_inter * hidden)),
        r.down + r.size <= n_experts * (moe_inter * hidden),
{
    proof {
        let s = moe_inter * hidden;
        let n = n_experts as int;
        let i = e as int;
        assert(0 <= s) by (nonlinear_arith)
            requires
                s == moe_inter * hidden,
                moe_inter >= 0,
                hidden >= 0,
        ;
        assert(i * (2 * s) + 2 * s <= n * (2 * s) && 0 <= i * s && i * s + s <= n * s && i * (2
            * s) == 2 * (i * s) && n * (2 * s) == 2 * (n * s) && s <= n * s) by (nonlinear_arith)
            requires
                0 <= i < n,
                0 <= s,
        ;
    }
    let size: usize = moe_inter * hidden;
    let gate: usize = e * (2 * size);
    ExpertPlace { gate, up: gate + size, down: e * size, size }
}

/// Experts stand one behind the other without gaps: each one's up matrix follows its gate
/// matrix, and the next expert's gate matrix follows that.
pub proof fn law_expert_places(e: int, size: int)
    requires
        0 <= e,
        0 <= size,
    ensures
        up_start(e, size) == gate_start(e, size) + size,
        gate_start(e + 1, size) == up_start(e, size) + size,
        down_start(e + 1, size) == down_start(e, size) + size,
        gate_start(0, size) == 0,
        down_start(0, size) == 0,
{
    assert((e + 1) * (2 * size) == e * (2 * size) + 2 * size && (e + 1) * size == e * size + size)
        by (nonlinear_arith);
}

} // verus!
