//! What the vision tower is read from: tensor names and shapes, and synthetic weights.
use vstd::prelude::*;
use crate::text::{dec, push_dec};
use crate::vision::Gemma4VisionConfig;
use crate::vision_tower::VisionError;

verus! {

/// The element types that the tower is asked for.
#[derive(Clone, Copy, Debug, PartialEq, Eq, Structural)]
pub enum VisionDtype {
    U8,
    BF16,
    F16,
    F32,
}

/// Bytes stand for matrices in eight bits by row, around which everything else is in
/// sixteen bits.
pub fn act_dtype(dtype: VisionDtype) -> (r: VisionDtype)
    ensures
        r == if dtype == VisionDtype::U8 {
            VisionDtype::BF16
        } else {
            dtype
        },
{
    if dtype == VisionDtype::U8 {
        VisionDtype::BF16
    } else {
        dtype
    }
}

/// What the names of the tower's tensors begin with.
#[derive(Clone, Copy, Debug, PartialEq, Eq, Structural)]
pub enum NameRoot {
    /// Under the model.
    Model,
    /// At the top.
    Bare,
}

impl NameRoot {
    pub open spec fn tower_text(self) -> Seq<char> {
        match self {
            NameRoot::Model => "model.vision_tower"@,
            NameRoot::Bare => "vision_tower"@,
        }
    }

    pub fn tower(self) -> (r: &'static str)
        ensures
            r@ == self.tower_text(),
    {
        match self {
            NameRoot::Model => "model.vision_tower",
            NameRoot::Bare => "vision_tower",
        }
    }

    pub open spec fn projection_text(self) -> Seq<char> {
        match self {
            NameRoot::Model => "model.embed_vision.embedding_projection.weight"@,
            NameRoot::Bare => "embed_vision.embedding_projection.weight"@,
        }
    }

    pub fn projection(self) -> (r: &'static str)
        ensures
            r@ == self.projection_text(),
    {
        match self {
            NameRoot::Model => "model.embed_vision.embedding_projection.weight",
            NameRoot::Bare => "embed_vision.embedding_projection.weight",
        }
    }
}

/// The name that is looked up to see where the tower is.
pub fn tower_probe(root: NameRoot) -> (r: String)
    ensures
        r@ == tower_name_text(root, "patch_embedder.input_proj.weight"@),
{
    tower_name(root, "patch_embedder.input_proj.weight")
}

pub open spec fn found(model: bool, bare: bool) -> Option<NameRoot> {
    if model {
        Some(NameRoot::Model)
    } else if bare {
        Some(NameRoot::Bare)
    } else {
        None
    }
}

/// Which of the names that are looked up a checkpoint has.
#[derive(Clone, Copy, Debug, PartialEq, Eq, Structural)]
pub struct VisionNamesPresent {
    pub model_tower: bool,
    pub bare_tower: bool,
    pub model_projection: bool,
    pub bare_projection: bool,
}

/// Where a checkpoint keeps the tower and the projection behind it.
#[derive(Clone, Copy, Debug, PartialEq, Eq, Structural)]
pub struct VisionPlace {
    pub tower: NameRoot,
    pub projection: NameRoot,
}

impl Gemma4VisionConfig {
    pub open spec fn place_of(&self, has: VisionNamesPresent) -> Result<VisionPlace, VisionError> {
        if self.num_key_value_heads != self.num_attention_heads {
            Err(VisionError::Config(crate::vision::VisionConfigError::KeyHeads))
        } else {
            match (
                found(has.model_tower, has.bare_tower),
                found(has.model_projection, has.bare_projection),
            ) {
                (None, _) => Err(VisionError::NoTower),
                (_, None) => Err(VisionError::NoProjection),
                (Some(tower), Some(projection)) => Ok(VisionPlace { tower, projection }),
            }
        }
    }

    /// Finds where a checkpoint keeps the tower.
    pub fn locate(&self, has: VisionNamesPresent) -> (r: Result<VisionPlace, VisionError>)
        ensures
            r == self.place_of(has),
    {
        match self.check_heads() {
            Ok(_) => {},
            Err(e) => {
                return Err(VisionError::Config(e));
            },
        }
        let tower = if has.model_tower {
            NameRoot::Model
        } else if has.bare_tower {
            NameRoot::Bare
        } else {
            return Err(VisionError::NoTower);
        };
        let projection = if has.model_projection {
            NameRoot::Model
        } else if has.bare_projection {
            NameRoot::Bare
        } else {
            return Err(VisionError::NoProjection);
        };
        Ok(VisionPlace { tower, projection })
    }

    /// Reads the text model's width off the shape of the projection.
    pub fn text_width(&self, projection_dims: &[usize]) -> (r: Result<usize, VisionError>)
        ensures
            r == if projection_dims@.len() == 2 && projection_dims@[1] == self.hidden_size {
                Ok::<usize, VisionError>(projection_dims@[0])
            } else {
                Err(VisionError::ProjectionShape)
            },
    {
        if projection_dims.len() != 2 || projection_dims[1] != self.hidden_size {
            return Err(VisionError::ProjectionShape);
        }
        Ok(projection_dims[0])
    }

    /// Checks the shape of the position table: one half for columns, one for rows.
    pub fn check_table(&self, dims: &[usize]) -> (r: Result<(), VisionError>)
        ensures
            r == if dims@ == seq![2usize, self.position_embedding_size, self.hidden_size] {
                Ok::<(), VisionError>(())
            } else {
                Err(VisionError::TableShape)
            },
    {
        let ghost want = seq![2usize, self.position_embedding_size, self.hidden_size];
        if dims.len() != 3 || dims[0] != 2 || dims[1] != self.position_embedding_size || dims[2]
            != self.hidden_size {
            assert(dims@ != want) by {
                assert(want.len() == 3 && want[0] == 2 && want[1] == self.position_embedding_size
                    && want[2] == self.hidden_size);
            }
            return Err(VisionError::TableShape);
        }
        assert(dims@ =~= want);
        Ok(())
    }
}

pub open spec fn tower_name_text(root: NameRoot, rest: Seq<char>) -> Seq<char> {
    root.tower_text() + "."@ + rest
}

/// The name of a tensor of the tower.
pub fn tower_name(root: NameRoot, rest: &str) -> (r: String)
    ensures
        r@ == tower_name_text(root, rest@),
{
    let mut b = String::new();
    b.append(root.tower());
    b.append(".");
    b.append(rest);
    assert(b@ =~= tower_name_text(root, rest@));
    b
}

pub open spec fn vision_layer_text(root: NameRoot, i: int, rest: Seq<char>) -> Seq<char> {
    root.tower_text() + ".encoder.layers."@ + dec(i as nat) + "."@ + rest
}

/// The name of a tensor of layer `i`.
pub fn vision_layer_name(root: NameRoot, i: usize, rest: &str) -> (r: String)
    ensures
        r@ == vision_layer_text(root, i as int, rest@),
{
    let mut b = String::new();
    b.append(root.tower());
    b.append(".encoder.layers.");
    push_dec(&mut b, i as u64);
    b.append(".");
    b.append(rest);
    assert(b@ =~= vision_layer_text(root, i as int, rest@));
    b
}

fn ended(base: &String, end: &str) -> (r: String)
    ensures
        r@ == base@ + end@,
{
    let mut b = String::new();
    b.append(base.as_str());
    b.append(end);
    assert(b@ =~= base@ + end@);
    b
}

/// The names of the bounds that a matrix clips its input and its output to.
pub struct ClipNames {
    pub input_min: String,
    pub input_max: String,
    pub output_min: String,
    pub output_max: String,
}

/// A matrix of `n` rows and `k` columns to be read, with or without bounds.
pub struct VisionLinWant {
    pub weight: String,
    pub n: usize,
    pub k: usize,
    pub clips: Option<ClipNames>,
}

impl VisionLinWant {
    pub open spec fn of(self, base: Seq<char>, n: int, k: int, clipped: bool) -> bool {
        &&& self.weight@ == base + ".linear.weight"@
        &&& self.n == n
        &&& self.k == k
        &&& match self.clips {
            Some(c) => clipped && c.input_min@ == base + ".input_min"@ && c.input_max@ == base
                + ".input_max"@ && c.output_min@ == base + ".output_min"@ && c.output_max@ == base
                + ".output_max"@,
            None => !clipped,
        }
    }
}

/// A matrix that may be clipped.
pub fn load_clipped(base: String, n: usize, k: usize, use_clips: bool) -> (r: VisionLinWant)
    ensures
        r.of(base@, n as int, k as int, use_clips),
{
    let clips = if use_clips {
        Some(
            ClipNames {
                input_min: ended(&base, ".input_min"),
                input_max: ended(&base, ".input_max"),
                output_min: ended(&base, ".output_min"),
                output_max: ended(&base, ".output_max"),
            },
        )
    } else {
        None
    };
    VisionLinWant { weight: ended(&base, ".linear.weight"), n, k, clips }
}

/// A vector of norm weights to be read.
pub struct VisionNormWant {
    pub name: String,
    pub dim: usize,
}

impl VisionNormWant {
    pub open spec fn of(self, name: Seq<char>, dim: int) -> bool {
        self.name@ == name && self.dim == dim
    }
}

/// The tensors of a layer.
pub struct VisionLayerWant {
    pub input_layernorm: VisionNormWant,
    pub post_attention_layernorm: VisionNormWant,
    pub pre_feedforward_layernorm: VisionNormWant,
    pub post_feedforward_layernorm: VisionNormWant,
    pub q_proj: VisionLinWant,
    pub k_proj: VisionLinWant,
    pub v_proj: VisionLinWant,
    pub o_proj: VisionLinWant,
    pub q_norm: VisionNormWant,
    pub k_norm: VisionNormWant,
    pub gate_proj: VisionLinWant,
    pub up_proj: VisionLinWant,
    pub down_proj: VisionLinWant,
}

impl VisionLayerWant {
    pub open spec fn norms_of(self, root: NameRoot, i: int, h: int, head_dim: int) -> bool {
        &&& self.input_layernorm.of(vision_layer_text(root, i, "input_layernorm.weight"@), h)
        &&& self.post_attention_layernorm.of(
            vision_layer_text(root, i, "post_attention_layernorm.weight"@),
            h,
        )
        &&& self.pre_feedforward_layernorm.of(
            vision_layer_text(root, i, "pre_feedforward_layernorm.weight"@),
            h,
        )
        &&& self.post_feedforward_layernorm.of(
            vision_layer_text(root, i, "post_feedforward_layernorm.weight"@),
            h,
        )
        &&& self.q_norm.of(vision_layer_text(root, i, "self_attn.q_norm.weight"@), head_dim)
        &&& self.k_norm.of(vision_layer_text(root, i, "self_attn.k_norm.weight"@), head_dim)
    }

    pub open spec fn matrices_of(
        self,
        root: NameRoot,
        i: int,
        h: int,
        inter: int,
        clipped: bool,
    ) -> bool {
        &&& self.q_proj.of(vision_layer_text(root, i, "self_attn.q_proj"@), h, h, clipped)
        &&& self.k_proj.of(vision_layer_text(root, i, "self_attn.k_proj"@), h, h, clipped)
        &&& self.v_proj.of(vision_layer_text(root, i, "self_attn.v_proj"@), h, h, clipped)
        &&& self.o_proj.of(vision_layer_text(root, i, "self_attn.o_proj"@), h, h, clipped)
        &&& self.gate_proj.of(vision_layer_text(root, i, "mlp.gate_proj"@), inter, h, clipped)
        &&& self.up_proj.of(vision_layer_text(root, i, "mlp.up_proj"@), inter, h, clipped)
        &&& self.down_proj.of(vision_layer_text(root, i, "mlp.down_proj"@), h, inter, clipped)
    }

    /// The tensors of layer `i` of a tower.
    pub open spec fn of(self, root: NameRoot, i: int, cfg: Gemma4VisionConfig) -> bool {
        &&& self.norms_of(root, i, cfg.hidden_size as int, cfg.head_dim as int)
        &&& self.matrices_of(
            root,
            i,
            cfg.hidden_size as int,
            cfg.intermediate_size as int,
            cfg.use_clipped_linears,
        )
    }
}

fn norm_want(root: NameRoot, i: usize, rest: &str, dim: usize) -> (r: VisionNormWant)
    ensures
        r.of(vision_layer_text(root, i as int, rest@), dim as int),
{
    VisionNormWant { name: vision_layer_name(root, i, rest), dim }
}

fn layer_want(root: NameRoot, i: usize, cfg: &Gemma4VisionConfig) -> (r: VisionLayerWant)
    ensures
        r.of(root, i as int, *cfg),
{
    let h: usize = cfg.hidden_size;
    let inter: usize = cfg.intermediate_size;
    let c: bool = cfg.use_clipped_linears;
    VisionLayerWant {
        input_layernorm: norm_want(root, i, "input_layernorm.weight", h),
        post_attention_layernorm: norm_want(root, i, "post_attention_layernorm.weight", h),
        pre_feedforward_layernorm: norm_want(root, i, "pre_feedforward_layernorm.weight", h),
        post_feedforward_layernorm: norm_want(root, i, "post_feedforward_layernorm.weight", h),
        q_proj: load_clipped(vision_layer_name(root, i, "self_attn.q_proj"), h, h, c),
        k_proj: load_clipped(vision_layer_name(root, i, "self_attn.k_proj"), h, h, c),
        v_proj: load_clipped(vision_layer_name(root, i, "self_attn.v_proj"), h, h, c),
        o_proj: load_clipped(vision_layer_name(root, i, "self_attn.o_proj"), h, h, c),
        q_norm: norm_want(root, i, "self_attn.q_norm.weight", cfg.head_dim),
        k_norm: norm_want(root, i, "self_attn.k_norm.weight", cfg.head_dim),
        gate_proj: load_clipped(vision_layer_name(root, i, "mlp.gate_proj"), inter, h, c),
        up_proj: load_clipped(vision_layer_name(root, i, "mlp.up_proj"), inter, h, c),
        down_proj: load_clipped(vision_layer_name(root, i, "mlp.down_proj"), h, inter, c),
    }
}

/// The tensors of a tower.
pub struct VisionWant {
    pub position_table: String,
    /// The matrix that patches are embedded by; it is never clipped.
    pub input_proj: String,
    pub input_rows: usize,
    pub input_cols: usize,
    pub layers: Vec<VisionLayerWant>,
}

impl Gemma4VisionConfig {
    /// Lists the tensors of the tower.
    pub fn load(&self, place: VisionPlace) -> (r: VisionWant)
        requires
            self.fits(),
        ensures
            r.position_table@ == tower_name_text(
                place.tower,
                "patch_embedder.position_embedding_table"@,
            ),
            r.input_proj@ == tower_name_text(place.tower, "patch_embedder.input_proj.weight"@),
            r.input_rows == self.hidden_size,
            r.input_cols == self.patch_size * self.patch_size * 3,
            r.layers@.len() == self.num_hidden_layers,
            forall|i: int|
                0 <= i < r.layers@.len() ==> (#[trigger] r.layers@[i]).of(place.tower, i, *self),
    {
        let mut layers: Vec<VisionLayerWant> = Vec::new();
        let mut i: usize = 0;
        while i < self.num_hidden_layers
            invariant
                i <= self.num_hidden_layers,
                layers@.len() == i,
                forall|j: int| 0 <= j < i ==> (#[trigger] layers@[j]).of(place.tower, j, *self),
            decreases self.num_hidden_layers - i,
        {
            layers.push(layer_want(place.tower, i, self));
            i = i + 1;
        }
        VisionWant {
            position_table: tower_name(place.tower, "patch_embedder.position_embedding_table"),
            input_proj: tower_name(place.tower, "patch_embedder.input_proj.weight"),
            input_rows: self.hidden_size,
            input_cols: self.patch_pixels(),
            layers,
        }
    }
}

/// A shape is the one that is wanted of a matrix.
pub fn matrix_has_shape(dims: &[usize], n: usize, k: usize) -> (r: bool)
    ensures
        r == (dims@ == seq![n, k]),
{
    let r = dims.len() == 2 && dims[0] == n && dims[1] == k;
    if r {
        assert(dims@ =~= seq![n, k]);
    } else {
        assert(dims@ != seq![n, k]) by {
            let want = seq![n, k];
            assert(want.len() == 2 && want[0] == n && want[1] == k);
        }
    }
    r
}

/// A shape is the one that is wanted of a vector.
pub fn vector_has_shape(dims: &[usize], n: usize) -> (r: bool)
    ensures
        r == (dims@ == seq![n]),
{
    let r = dims.len() == 1 && dims[0] == n;
    if r {
        assert(dims@ =~= seq![n]);
    } else {
        assert(dims@ != seq![n]) by {
            let want = seq![n];
            assert(want.len() == 1 && want[0] == n);
        }
    }
    r
}

/// What bounds a loaded matrix has, as the bits of the numbers.
#[derive(Clone, Copy, Debug, PartialEq, Eq)]
pub struct ClippedLinear {
    pub input_clip: Option<(u64, u64)>,
    pub output_clip: Option<(u64, u64)>,
}

impl ClippedLinear {
    pub fn plain() -> (r: ClippedLinear)
        ensures
            r.input_clip is None,
            r.output_clip is None,
    {
        ClippedLinear { input_clip: None, output_clip: None }
    }

    pub fn input_clip(&self) -> (r: Option<(u64, u64)>)
        ensures
            r == self.input_clip,
    {
        self.input_clip
    }

    pub fn output_clip(&self) -> (r: Option<(u64, u64)>)
        ensures
            r == self.output_clip,
    {
        self.output_clip
    }
}

/// The bounds that a layer reports.
pub struct VisionLayer {
    pub q_proj: ClippedLinear,
    pub down_proj: ClippedLinear,
}

/// A loaded tower, without its tensors.
pub struct Gemma4VisionTower {
    pub cfg: Gemma4VisionConfig,
    pub layers: Vec<VisionLayer>,
    pub text_hidden_size: usize,
}

impl Gemma4VisionTower {
    pub fn config(&self) -> (r: &Gemma4VisionConfig)
        ensures
            *r == self.cfg,
    {
        &self.cfg
    }

    pub fn num_layers(&self) -> (r: usize)
        ensures
            r == self.layers@.len(),
    {
        self.layers.len()
    }

    pub fn text_hidden_size(&self) -> (r: usize)
        ensures
            r == self.text_hidden_size,
    {
        self.text_hidden_size
    }

    /// The bounds of a layer's first and last matrix.
    pub fn layer_clips(&self, idx: usize) -> (r: Vec<Option<(u64, u64)>>)
        requires
            idx < self.layers@.len(),
        ensures
            r@ == seq![
                self.layers@[idx as int].q_proj.input_clip,
                self.layers@[idx as int].q_proj.output_clip,
                self.layers@[idx as int].down_proj.input_clip,
                self.layers@[idx as int].down_proj.output_clip,
            ],
    {
        let l = &self.layers[idx];
        let mut v: Vec<Option<(u64, u64)>> = Vec::new();
        v.push(l.q_proj.input_clip());
        v.push(l.q_proj.output_clip());
        v.push(l.down_proj.input_clip());
        v.push(l.down_proj.output_clip());
        assert(v@ =~= seq![
            l.q_proj.input_clip,
            l.q_proj.output_clip,
            l.down_proj.input_clip,
            l.down_proj.output_clip,
        ]);
        v
    }
}

/// A generator step, in arithmetic that wraps.
pub open spec fn synth_next(s: u64) -> u64 {
    ((s * 6364136223846793005 + 1442695040888963407) % 0x1_0000_0000_0000_0000) as u64
}

/// The state that a seed starts from.
pub open spec fn synth_start(seed: u64) -> u64 {
    ((seed * 0x9E37_79B9_7F4A_7C15 + 0x1234_5678_9ABC_DEF1) % 0x1_0000_0000_0000_0000) as u64
}

pub open spec fn synth_state(seed: u64, n: nat) -> u64
    decreases n,
{
    if n == 0 {
        synth_start(seed)
    } else {
        synth_next(synth_state(seed, (n - 1) as nat))
    }
}

/// The upper bits of the states that a seed goes through: what synthetic weights are made
/// from.
pub fn synth_words(seed: u64, count: usize) -> (r: Vec<u32>)
    ensures
        r@ == Seq::new(
            count as nat,
            |i: int| (synth_state(seed, (i + 1) as nat) / 0x2_0000_0000) as u32,
        ),
{
    let mut s: u64 = seed.wrapping_mul(0x9E37_79B9_7F4A_7C15).wrapping_add(0x1234_5678_9ABC_DEF1);
    proof {
        lemma_wraps((seed * 0x9E37_79B9_7F4A_7C15) as int, 0x1234_5678_9ABC_DEF1);
    }
    let mut v: Vec<u32> = Vec::new();
    let mut i: usize = 0;
    while i < count
        invariant
            i <= count,
            s == synth_state(seed, i as nat),
            v@ == Seq::new(
                i as nat,
                |j: int| (synth_state(seed, (j + 1) as nat) / 0x2_0000_0000) as u32,
            ),
        decreases count - i,
    {
        let ghost was = s;
        s = s.wrapping_mul(6364136223846793005).wrapping_add(1442695040888963407);
        proof {
            lemma_wraps((was * 6364136223846793005) as int, 1442695040888963407);
        }
        let top: u64 = s >> 33;
        assert(top == s / 0x2_0000_0000 && top < 0x8000_0000) by (bit_vector)
            requires
                top == s >> 33,
        ;
        v.push(top as u32);
        i = i + 1;
        assert(v@ =~= Seq::new(
            i as nat,
            |j: int| (synth_state(seed, (j + 1) as nat) / 0x2_0000_0000) as u32,
        ));
    }
    v
}

proof fn lemma_wraps(a: int, b: int)
    requires
        0 <= a,
        0 <= b,
    ensures
        (a % 0x1_0000_0000_0000_0000 + b) % 0x1_0000_0000_0000_0000 == (a + b)
            % 0x1_0000_0000_0000_0000,
{
}

/// The seed of matrix `j` of layer `i` of a synthetic tower.
pub fn synth_seed(i: usize, j: u64) -> (r: u64)
    requires
        (i + 1) * 1000 + j <= u64::MAX,
    ensures
        r == (i + 1) * 1000 + j,
{
    (i as u64 + 1) * 1000 + j
}

} // verus!
