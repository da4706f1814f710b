//! Fits a low-rank adapter to the decoder: which of its modules go where.
use vstd::prelude::*;
use crate::config::Gemma4Config;
use crate::e4b_build::site_sizes;
use crate::e4b_lora::{E4bLora, E4bLoraLayer, E4bLoraSite, LoraSiteError};
use crate::e4b_names::{layer_name, layer_text, linear_suffix, PREFIX};
use crate::text::{ends_in, ends_with, occurs_at, same_text, starts_with};

verus! {

/// The projections of a layer that an adapter can change.
pub const E4B_LORA_TARGETS: [&'static str; 7] = [
    "self_attn.q_proj",
    "self_attn.k_proj",
    "self_attn.v_proj",
    "self_attn.o_proj",
    "mlp.gate_proj",
    "mlp.up_proj",
    "mlp.down_proj",
];

/// One projection of a fused site: its module and its output width.
pub struct Slice {
    pub name: String,
    pub width: usize,
}

/// The projections of a site, the widths of its output buffers and its input width.
pub struct SiteSlices {
    pub slices: Vec<Slice>,
    pub segs: Vec<usize>,
    pub k: usize,
}

pub struct LayerSlices {
    pub qkv: SiteSlices,
    pub o: SiteSlices,
    pub gate_up: SiteSlices,
    pub down: SiteSlices,
}

/// What a site is made of: module names, widths, output widths and input width.
pub ghost struct SiteModel {
    pub names: Seq<Seq<char>>,
    pub widths: Seq<usize>,
    pub segs: Seq<usize>,
    pub k: usize,
}

pub open spec fn slice_names(s: Seq<Slice>) -> Seq<Seq<char>> {
    Seq::new(s.len(), |i: int| s[i].name@)
}

pub open spec fn slice_widths(s: Seq<Slice>) -> Seq<usize> {
    Seq::new(s.len(), |i: int| s[i].width)
}

impl View for SiteSlices {
    type V = SiteModel;

    open spec fn view(&self) -> SiteModel {
        SiteModel {
            names: slice_names(self.slices@),
            widths: slice_widths(self.slices@),
            segs: self.segs@,
            k: self.k,
        }
    }
}

/// The query, key and value modules of a layer. A layer that reads another's cache has only
/// queries; where values are the keys, the key module serves twice.
pub open spec fn qkv_site(config: Gemma4Config, i: int) -> SiteModel {
    let kind = config.layer_types@[i];
    let d = config.dims(kind);
    let q = (config.num_attention_heads * d.head_dim) as usize;
    let kv = (d.num_kv_heads * d.head_dim) as usize;
    let qn = layer_text(i, "self_attn.q_proj"@);
    let kn = layer_text(i, "self_attn.k_proj"@);
    let vn = layer_text(i, "self_attn.v_proj"@);
    if config.kv_sources@[i] is Some {
        SiteModel { names: seq![qn], widths: seq![q], segs: seq![q], k: config.hidden_size }
    } else {
        SiteModel {
            names: seq![qn, kn, if config.spec_has_v(kind) { vn } else { kn }],
            widths: seq![q, kv, kv],
            segs: seq![q, kv, kv],
            k: config.hidden_size,
        }
    }
}

pub open spec fn o_site(config: Gemma4Config, i: int) -> SiteModel {
    SiteModel {
        names: seq![layer_text(i, "self_attn.o_proj"@)],
        widths: seq![config.hidden_size],
        segs: seq![config.hidden_size],
        k: (config.num_attention_heads * config.dims(config.layer_types@[i]).head_dim) as usize,
    }
}

pub open spec fn gate_up_site(config: Gemma4Config, i: int) -> SiteModel {
    SiteModel {
        names: seq![layer_text(i, "mlp.gate_proj"@), layer_text(i, "mlp.up_proj"@)],
        widths: seq![config.intermediate_size, config.intermediate_size],
        segs: seq![(2 * config.intermediate_size) as usize],
        k: config.hidden_size,
    }
}

pub open spec fn down_site(config: Gemma4Config, i: int) -> SiteModel {
    SiteModel {
        names: seq![layer_text(i, "mlp.down_proj"@)],
        widths: seq![config.hidden_size],
        segs: seq![config.hidden_size],
        k: config.intermediate_size,
    }
}

/// The widths of a layer's projections fit the address type.
pub open spec fn dims_fit(config: Gemma4Config, i: int) -> bool {
    let d = config.dims(config.layer_types@[i]);
    &&& config.num_attention_heads * d.head_dim <= usize::MAX
    &&& d.num_kv_heads * d.head_dim <= usize::MAX
    &&& 2 * config.intermediate_size <= usize::MAX
}

impl LayerSlices {
    pub open spec fn of(self, config: Gemma4Config, i: int) -> bool {
        &&& self.qkv@ == qkv_site(config, i)
        &&& self.o@ == o_site(config, i)
        &&& self.gate_up@ == gate_up_site(config, i)
        &&& self.down@ == down_site(config, i)
    }
}

fn slice(i: usize, rest: &str, width: usize) -> (r: Slice)
    ensures
        r.name@ == layer_text(i as int, rest@),
        r.width == width,
{
    Slice { name: layer_name(i, rest), width }
}

fn one_slice(i: usize, rest: &str, width: usize, k: usize) -> (r: SiteSlices)
    ensures
        r@ == (SiteModel {
            names: seq![layer_text(i as int, rest@)],
            widths: seq![width],
            segs: seq![width],
            k,
        }),
{
    let r = SiteSlices { slices: vec![slice(i, rest, width)], segs: vec![width], k };
    assert(r@.names =~= seq![layer_text(i as int, rest@)]);
    assert(r@.widths =~= seq![width]);
    assert(r@.segs =~= seq![width]);
    r
}

/// The modules that layer `i` takes from an adapter; `None` where a width does not fit the
/// address type.
pub fn lora_slices(config: &Gemma4Config, i: usize) -> (r: Option<LayerSlices>)
    requires
        config.wf(),
        i < config.num_hidden_layers,
    ensures
        match r {
            Some(s) => dims_fit(*config, i as int) && s.of(*config, i as int),
            None => !dims_fit(*config, i as int),
        },
{
    let hidden: usize = config.hidden_size;
    let inter: usize = config.intermediate_size;
    let kind = config.layer_types[i];
    let hd: usize = config.head_dim_for(kind);
    let q_dim: usize = match config.num_attention_heads.checked_mul(hd) {
        Some(d) => d,
        None => {
            return None;
        },
    };
    let kv_dim: usize = match config.num_kv_heads_for(kind).checked_mul(hd) {
        Some(d) => d,
        None => {
            return None;
        },
    };
    if inter > usize::MAX / 2 {
        return None;
    }
    let qkv = if config.kv_sources[i].is_some() {
        one_slice(i, "self_attn.q_proj", q_dim, hidden)
    } else {
        let third = if config.has_v(kind) { "self_attn.v_proj" } else { "self_attn.k_proj" };
        let s = SiteSlices {
            slices: vec![
                slice(i, "self_attn.q_proj", q_dim),
                slice(i, "self_attn.k_proj", kv_dim),
                slice(i, third, kv_dim),
            ],
            segs: vec![q_dim, kv_dim, kv_dim],
            k: hidden,
        };
        assert(s@.names =~= qkv_site(*config, i as int).names);
        assert(s@.widths =~= seq![q_dim, kv_dim, kv_dim]);
        assert(s@.segs =~= seq![q_dim, kv_dim, kv_dim]);
        s
    };
    let gate_up = SiteSlices {
        slices: vec![slice(i, "mlp.gate_proj", inter), slice(i, "mlp.up_proj", inter)],
        segs: vec![2 * inter],
        k: hidden,
    };
    assert(gate_up@.names =~= gate_up_site(*config, i as int).names);
    assert(gate_up@.widths =~= seq![inter, inter]);
    assert(gate_up@.segs =~= gate_up_site(*config, i as int).segs);
    Some(
        LayerSlices {
            qkv,
            o: one_slice(i, "self_attn.o_proj", hidden, q_dim),
            gate_up,
            down: one_slice(i, "mlp.down_proj", hidden, inter),
        },
    )
}

/// The matrices that stand for one projection, zero where the adapter lacks the module.
pub struct SliceData {
    /// The adapter has the module.
    pub found: bool,
    /// The module adapts an embedding.
    pub embedding: bool,
    pub a: Vec<u16>,
    pub b: Vec<u16>,
}

/// Why an adapter cannot be used.
#[derive(Clone, Copy, Debug, PartialEq, Eq, Structural)]
pub enum AdapterError {
    Rank,
    /// An embedding module stands for the projection of this place in its site.
    Embedding(usize),
    Site(LoraSiteError),
    /// A size does not fit the address type.
    Limits,
    NothingMatched,
}

pub open spec fn found_in(d: Seq<SliceData>) -> int
    decreases d.len(),
{
    if d.len() == 0 {
        0
    } else {
        found_in(d.drop_last()) + if d.last().found { 1int } else { 0 }
    }
}

/// The first place that an embedding module stands at.
pub open spec fn embedding_at(d: Seq<SliceData>, i: int) -> Option<int>
    decreases d.len() - i,
{
    if i < 0 || i >= d.len() {
        None
    } else if d[i].found && d[i].embedding {
        Some(i)
    } else {
        embedding_at(d, i + 1)
    }
}

pub open spec fn stacked_a(d: Seq<SliceData>) -> Seq<u16>
    decreases d.len(),
{
    if d.len() == 0 {
        Seq::empty()
    } else {
        stacked_a(d.drop_last()) + d.last().a@
    }
}

pub open spec fn stacked_b(d: Seq<SliceData>) -> Seq<u16>
    decreases d.len(),
{
    if d.len() == 0 {
        Seq::empty()
    } else {
        stacked_b(d.drop_last()) + d.last().b@
    }
}

/// Whether `site` holds the matrices of a site's projections one after the other.
pub open spec fn site_holds(site: E4bLoraSite, m: SiteModel, d: Seq<SliceData>, rank: usize) -> bool {
    &&& site.a@ == stacked_a(d)
    &&& site.b@ == stacked_b(d)
    &&& site.widths@ == m.widths
    &&& site.segs@ == m.segs
    &&& site.k == m.k
    &&& site.rank == rank
}

fn extend_u16(dst: &mut Vec<u16>, src: &Vec<u16>)
    ensures
        final(dst)@ == old(dst)@ + src@,
{
    let mut i: usize = 0;
    while i < src.len()
        invariant
            i <= src.len(),
            dst@ == old(dst)@ + src@.take(i as int),
        decreases src.len() - i,
    {
        dst.push(src[i]);
        i = i + 1;
        assert(src@.take(i as int) =~= src@.take(i - 1).push(src@[i - 1]));
    }
    assert(src@.take(i as int) =~= src@);
}

fn copy_widths(s: &Vec<usize>) -> (r: Vec<usize>)
    ensures
        r@ == s@,
{
    let mut r: Vec<usize> = Vec::new();
    let mut i: usize = 0;
    while i < s.len()
        invariant
            i <= s@.len(),
            r@ == s@.take(i as int),
        decreases s@.len() - i,
    {
        r.push(s[i]);
        i = i + 1;
        assert(s@.take(i as int) =~= s@.take(i - 1).push(s@[i - 1]));
    }
    assert(s@.take(i as int) =~= s@);
    r
}

/// What a site comes to: nothing where no module was found, else its matrices, and how many
/// modules were found.
pub open spec fn site_result(
    r: Result<(Option<E4bLoraSite>, usize), AdapterError>,
    m: SiteModel,
    d: Seq<SliceData>,
    rank: usize,
    max_rank: usize,
) -> bool {
    if embedding_at(d, 0) is Some {
        r == Err::<(Option<E4bLoraSite>, usize), AdapterError>(
            AdapterError::Embedding(embedding_at(d, 0)->0 as usize),
        )
    } else if found_in(d) == 0 {
        r matches Ok((None, 0))
    } else {
        match r {
            Ok((Some(site), n)) => {
                &&& site_holds(site, m, d, rank)
                &&& site.sizes_fit(max_rank)
                &&& site.defect(max_rank) is None
                &&& n == found_in(d)
            },
            Ok((None, _)) => false,
            Err(AdapterError::Limits) => exists|site: E4bLoraSite|
                site_holds(site, m, d, rank) && !site.sizes_fit(max_rank),
            Err(AdapterError::Site(e)) => exists|site: E4bLoraSite|
                site_holds(site, m, d, rank) && site.defect(max_rank) == Some(e),
            Err(_) => false,
        }
    }
}

proof fn lemma_found(d: Seq<SliceData>)
    ensures
        0 <= found_in(d) <= d.len(),
    decreases d.len(),
{
    if d.len() > 0 {
        lemma_found(d.drop_last());
    }
}

/// Puts the matrices of a site together.
pub fn build_lora_site(rank: usize, max_rank: usize, s: &SiteSlices, d: &Vec<SliceData>) -> (r: Result<
    (Option<E4bLoraSite>, usize),
    AdapterError,
>)
    requires
        d@.len() == s.slices@.len(),
    ensures
        site_result(r, s@, d@, rank, max_rank),
{
    let mut matched: usize = 0;
    let mut a: Vec<u16> = Vec::new();
    let mut b: Vec<u16> = Vec::new();
    let mut widths: Vec<usize> = Vec::new();
    let mut i: usize = 0;
    while i < s.slices.len()
        invariant
            i <= s.slices@.len(),
            d@.len() == s.slices@.len(),
            matched == found_in(d@.take(i as int)),
            matched <= i,
            a@ == stacked_a(d@.take(i as int)),
            b@ == stacked_b(d@.take(i as int)),
            widths@ == slice_widths(s.slices@).take(i as int),
            embedding_at(d@, i as int) == embedding_at(d@, 0),
        decreases s.slices@.len() - i,
    {
        proof {
            assert(d@.take(i + 1).drop_last() =~= d@.take(i as int));
            assert(d@.take(i + 1).last() == d@[i as int]);
        }
        if d[i].found {
            if d[i].embedding {
                return Err(AdapterError::Embedding(i));
            }
            matched = matched + 1;
        }
        extend_u16(&mut a, &d[i].a);
        extend_u16(&mut b, &d[i].b);
        widths.push(s.slices[i].width);
        i = i + 1;
        assert(widths@ =~= slice_widths(s.slices@).take(i as int));
    }
    assert(d@.take(i as int) =~= d@);
    assert(slice_widths(s.slices@).take(i as int) =~= slice_widths(s.slices@));
    if matched == 0 {
        return Ok((None, 0));
    }
    let site = E4bLoraSite { a, b, widths, segs: copy_widths(&s.segs), k: s.k, rank };
    assert(site_holds(site, s@, d@, rank));
    let ghost made = site;
    let boxed = Some(site);
    if !site_sizes(&boxed, max_rank) {
        assert(site_holds(made, s@, d@, rank) && !made.sizes_fit(max_rank));
        return Err(AdapterError::Limits);
    }
    match boxed {
        Some(site) => match site.validate(max_rank) {
            Err(e) => {
                assert(site_holds(site, s@, d@, rank) && site.defect(max_rank) == Some(e));
                Err(AdapterError::Site(e))
            },
            Ok(_) => Ok((Some(site), matched)),
        },
        None => Ok((None, 0)),
    }
}

/// The matrices that an adapter gives for each projection of a layer.
pub struct LayerData {
    pub qkv: Vec<SliceData>,
    pub o: Vec<SliceData>,
    pub gate_up: Vec<SliceData>,
    pub down: Vec<SliceData>,
}

impl LayerData {
    /// One entry for each projection of layer `i`.
    pub open spec fn fits(self, config: Gemma4Config, i: int) -> bool {
        &&& self.qkv@.len() == qkv_site(config, i).names.len()
        &&& self.o@.len() == 1
        &&& self.gate_up@.len() == 2
        &&& self.down@.len() == 1
    }

    pub open spec fn found(self) -> int {
        found_in(self.qkv@) + found_in(self.o@) + found_in(self.gate_up@) + found_in(self.down@)
    }
}

/// Whether `site` is what the projections come to.
pub open spec fn site_made(
    site: Option<E4bLoraSite>,
    m: SiteModel,
    d: Seq<SliceData>,
    rank: usize,
    max_rank: usize,
) -> bool {
    site_result(Ok((site, found_in(d) as usize)), m, d, rank, max_rank)
}

pub open spec fn layer_made(
    l: E4bLoraLayer,
    config: Gemma4Config,
    i: int,
    d: LayerData,
    rank: usize,
    max_rank: usize,
) -> bool {
    &&& dims_fit(config, i)
    &&& site_made(l.qkv, qkv_site(config, i), d.qkv@, rank, max_rank)
    &&& site_made(l.o, o_site(config, i), d.o@, rank, max_rank)
    &&& site_made(l.gate_up, gate_up_site(config, i), d.gate_up@, rank, max_rank)
    &&& site_made(l.down, down_site(config, i), d.down@, rank, max_rank)
}

pub open spec fn site_fails(
    e: AdapterError,
    m: SiteModel,
    d: Seq<SliceData>,
    rank: usize,
    max_rank: usize,
) -> bool {
    site_result(Err(e), m, d, rank, max_rank)
}

/// Whether a layer is refused with `e`, at the first of its sites that cannot be made.
pub open spec fn layer_fails(
    e: AdapterError,
    config: Gemma4Config,
    i: int,
    d: LayerData,
    rank: usize,
    max_rank: usize,
) -> bool {
    let q = qkv_site(config, i);
    let o = o_site(config, i);
    let g = gate_up_site(config, i);
    ||| !dims_fit(config, i) && e == AdapterError::Limits
    ||| dims_fit(config, i) && {
        ||| site_fails(e, q, d.qkv@, rank, max_rank)
        ||| site_passes(q, d.qkv@, rank, max_rank) && {
            ||| site_fails(e, o, d.o@, rank, max_rank)
            ||| site_passes(o, d.o@, rank, max_rank) && {
                ||| site_fails(e, g, d.gate_up@, rank, max_rank)
                ||| site_passes(g, d.gate_up@, rank, max_rank) && site_fails(
                    e,
                    down_site(config, i),
                    d.down@,
                    rank,
                    max_rank,
                )
            }
        }
    }
}

pub open spec fn site_passes(m: SiteModel, d: Seq<SliceData>, rank: usize, max_rank: usize) -> bool {
    exists|site: Option<E4bLoraSite>| site_made(site, m, d, rank, max_rank)
}

/// The layers below `n` can all be made.
pub open spec fn layers_pass(
    config: Gemma4Config,
    n: int,
    data: Seq<LayerData>,
    rank: usize,
    max_rank: usize,
) -> bool {
    forall|j: int| 0 <= j < n ==> #[trigger] layer_passes(config, j, data[j], rank, max_rank)
}

pub open spec fn layer_passes(
    config: Gemma4Config,
    i: int,
    d: LayerData,
    rank: usize,
    max_rank: usize,
) -> bool {
    exists|l: E4bLoraLayer| layer_made(l, config, i, d, rank, max_rank)
}

fn build_layer(
    config: &Gemma4Config,
    i: usize,
    rank: usize,
    max_rank: usize,
    s: &LayerSlices,
    d: &LayerData,
) -> (r: Result<(E4bLoraLayer, [usize; 4]), AdapterError>)
    requires
        config.wf(),
        i < config.num_hidden_layers,
        dims_fit(*config, i as int),
        s.of(*config, i as int),
        d.fits(*config, i as int),
    ensures
        match r {
            Ok((l, n)) => {
                &&& layer_made(l, *config, i as int, *d, rank, max_rank)
                &&& n@ == seq![
                    found_in(d.qkv@) as usize,
                    found_in(d.o@) as usize,
                    found_in(d.gate_up@) as usize,
                    found_in(d.down@) as usize,
                ]
            },
            Err(e) => layer_fails(e, *config, i as int, *d, rank, max_rank),
        },
{
    proof {
        assert(s.qkv@.names.len() == s.qkv.slices@.len());
        assert(s.o@.names.len() == s.o.slices@.len());
        assert(s.gate_up@.names.len() == s.gate_up.slices@.len());
        assert(s.down@.names.len() == s.down.slices@.len());
        lemma_found(d.qkv@);
        lemma_found(d.o@);
        lemma_found(d.gate_up@);
        lemma_found(d.down@);
    }
    let (qkv, n0) = match build_lora_site(rank, max_rank, &s.qkv, &d.qkv) {
        Err(e) => {
            return Err(e);
        },
        Ok(x) => x,
    };
    assert(site_made(qkv, qkv_site(*config, i as int), d.qkv@, rank, max_rank));
    let (o, n1) = match build_lora_site(rank, max_rank, &s.o, &d.o) {
        Err(e) => {
            return Err(e);
        },
        Ok(x) => x,
    };
    assert(site_made(o, o_site(*config, i as int), d.o@, rank, max_rank));
    let (gate_up, n2) = match build_lora_site(rank, max_rank, &s.gate_up, &d.gate_up) {
        Err(e) => {
            return Err(e);
        },
        Ok(x) => x,
    };
    assert(site_made(gate_up, gate_up_site(*config, i as int), d.gate_up@, rank, max_rank));
    let (down, n3) = match build_lora_site(rank, max_rank, &s.down, &d.down) {
        Err(e) => {
            return Err(e);
        },
        Ok(x) => x,
    };
    assert(site_made(down, down_site(*config, i as int), d.down@, rank, max_rank));
    let n: [usize; 4] = [n0, n1, n2, n3];
    assert(n@ =~= seq![n0, n1, n2, n3]);
    Ok((E4bLoraLayer { qkv, o, gate_up, down }, n))
}

pub open spec fn found_total(d: Seq<LayerData>) -> int
    decreases d.len(),
{
    if d.len() == 0 {
        0
    } else {
        found_total(d.drop_last()) + d.last().found()
    }
}

/// Whether some layer takes the module `name`.
pub open spec fn is_wanted(config: Gemma4Config, name: Seq<char>, layers: int) -> bool {
    exists|i: int| 0 <= i < layers && #[trigger] layer_takes(config, i, name)
}

pub open spec fn layer_takes(config: Gemma4Config, i: int, name: Seq<char>) -> bool {
    ||| qkv_site(config, i).names.contains(name)
    ||| o_site(config, i).names.contains(name)
    ||| gate_up_site(config, i).names.contains(name)
    ||| down_site(config, i).names.contains(name)
}

/// Whether `name` is a layer's projection by its form.
pub open spec fn is_projection(name: Seq<char>) -> bool {
    &&& occurs_at(name, PREFIX@ + ".layers."@, 0)
    &&& exists|t: int| 0 <= t < 7 && #[trigger] ends_in(name, linear_suffix(t))
}

/// The modules below `n` that are projections of a layer, but none that the graph has.
pub open spec fn skipped_of(config: Gemma4Config, names: Seq<String>, n: int) -> Seq<String>
    decreases n,
{
    if n <= 0 {
        Seq::empty()
    } else {
        let s = skipped_of(config, names, n - 1);
        let name = names[n - 1];
        if is_projection(name@) && !is_wanted(config, name@, config.num_hidden_layers as int) {
            s.push(name)
        } else {
            s
        }
    }
}

fn is_target(name: &str) -> (r: bool)
    ensures
        r == is_projection(name@),
{
    let mut ns = String::new();
    ns.append(PREFIX);
    ns.append(".layers.");
    assert(ns@ =~= PREFIX@ + ".layers."@);
    if !starts_with(name, ns.as_str()) {
        return false;
    }
    let mut t: usize = 0;
    while t < 7
        invariant
            t <= 7,
            occurs_at(name@, PREFIX@ + ".layers."@, 0),
            forall|u: int| 0 <= u < t ==> !#[trigger] ends_in(name@, linear_suffix(u)),
        decreases 7 - t,
    {
        proof {
            assert(E4B_LORA_TARGETS@[t as int]@ == linear_suffix(t as int));
        }
        if ends_with(name, E4B_LORA_TARGETS[t]) {
            assert(ends_in(name@, linear_suffix(t as int)));
            return true;
        }
        t = t + 1;
    }
    false
}

fn among(names: &Vec<Slice>, name: &str) -> (r: bool)
    ensures
        r == slice_names(names@).contains(name@),
{
    let mut i: usize = 0;
    while i < names.len()
        invariant
            i <= names@.len(),
            forall|j: int| 0 <= j < i ==> (#[trigger] names@[j]).name@ != name@,
        decreases names@.len() - i,
    {
        if same_text(names[i].name.as_str(), name) {
            assert(slice_names(names@)[i as int] == name@);
            return true;
        }
        i = i + 1;
    }
    proof {
        if slice_names(names@).contains(name@) {
            let j = choose|j: int| 0 <= j < names@.len() && slice_names(names@)[j] == name@;
            assert(names@[j].name@ == name@);
        }
    }
    false
}

fn wanted_in(slices: &Vec<LayerSlices>, config: &Gemma4Config, name: &str) -> (r: bool)
    requires
        slices@.len() == config.num_hidden_layers,
        forall|i: int| 0 <= i < slices@.len() ==> (#[trigger] slices@[i]).of(*config, i),
    ensures
        r == is_wanted(*config, name@, config.num_hidden_layers as int),
{
    let mut i: usize = 0;
    while i < slices.len()
        invariant
            i <= slices@.len(),
            slices@.len() == config.num_hidden_layers,
            forall|j: int| 0 <= j < slices@.len() ==> (#[trigger] slices@[j]).of(*config, j),
            forall|j: int| 0 <= j < i ==> !#[trigger] layer_takes(*config, j, name@),
        decreases slices@.len() - i,
    {
        let s = &slices[i];
        assert(s.of(*config, i as int));
        if among(&s.qkv.slices, name) || among(&s.o.slices, name) || among(
            &s.gate_up.slices,
            name,
        ) || among(&s.down.slices, name) {
            assert(layer_takes(*config, i as int, name@));
            return true;
        }
        assert(!layer_takes(*config, i as int, name@));
        i = i + 1;
    }
    false
}

fn copy_text(s: &String) -> (r: String)
    ensures
        r@ == s@,
{
    s.as_str().to_owned()
}

impl E4bLora {
    /// Whether an adapter of `rank` came out of the modules `names` with matrices `data`.
    pub open spec fn fitted(
        self,
        config: Gemma4Config,
        rank: usize,
        max_rank: usize,
        names: Seq<String>,
        data: Seq<LayerData>,
    ) -> bool {
        &&& self.spec_rank() == rank
        &&& self.spec_matched() == found_total(data)
        &&& crate::text::texts(self.spec_skipped()) == crate::text::texts(
            skipped_of(config, names, names.len() as int),
        )
        &&& self.spec_layers().len() == config.num_hidden_layers
        &&& forall|i: int|
            0 <= i < config.num_hidden_layers ==> layer_made(
                #[trigger] self.spec_layers()[i],
                config,
                i,
                data[i],
                rank,
                max_rank,
            )
    }
}

proof fn lemma_found_total(d: Seq<LayerData>, i: int)
    requires
        0 <= i < d.len(),
    ensures
        found_total(d.take(i + 1)) == found_total(d.take(i)) + d[i].found(),
{
    assert(d.take(i + 1).drop_last() =~= d.take(i));
    assert(d.take(i + 1).last() == d[i]);
}

/// The projections of all layers; `None` where a width does not fit the address type.
pub fn all_slices(config: &Gemma4Config) -> (r: Option<Vec<LayerSlices>>)
    requires
        config.wf(),
    ensures
        match r {
            Some(s) => {
                &&& s@.len() == config.num_hidden_layers
                &&& forall|i: int| 0 <= i < s@.len() ==> (#[trigger] s@[i]).of(*config, i)
                &&& forall|i: int| 0 <= i < config.num_hidden_layers ==> #[trigger] dims_fit(
                    *config,
                    i,
                )
            },
            None => exists|i: int| 0 <= i < config.num_hidden_layers && !#[trigger] dims_fit(
                *config,
                i,
            ),
        },
{
    let mut v: Vec<LayerSlices> = Vec::new();
    let mut i: usize = 0;
    while i < config.num_hidden_layers
        invariant
            config.wf(),
            i <= config.num_hidden_layers,
            v@.len() == i,
            forall|j: int| 0 <= j < i ==> (#[trigger] v@[j]).of(*config, j),
            forall|j: int| 0 <= j < i ==> #[trigger] dims_fit(*config, j),
        decreases config.num_hidden_layers - i,
    {
        match lora_slices(config, i) {
            None => {
                return None;
            },
            Some(s) => {
                v.push(s);
            },
        }
        i = i + 1;
    }
    Some(v)
}

fn skipped_names(config: &Gemma4Config, slices: &Vec<LayerSlices>, names: &Vec<String>) -> (r: Vec<
    String,
>)
    requires
        slices@.len() == config.num_hidden_layers,
        forall|i: int| 0 <= i < slices@.len() ==> (#[trigger] slices@[i]).of(*config, i),
    ensures
        crate::text::texts(r@) == crate::text::texts(
            skipped_of(*config, names@, names@.len() as int),
        ),
{
    let mut r: Vec<String> = Vec::new();
    let mut i: usize = 0;
    while i < names.len()
        invariant
            i <= names@.len(),
            slices@.len() == config.num_hidden_layers,
            forall|j: int| 0 <= j < slices@.len() ==> (#[trigger] slices@[j]).of(*config, j),
            crate::text::texts(r@) == crate::text::texts(skipped_of(*config, names@, i as int)),
        decreases names@.len() - i,
    {
        let name = names[i].as_str();
        let ghost before = r@;
        let ghost want = skipped_of(*config, names@, i as int);
        proof {
            assert(crate::text::texts(before).len() == crate::text::texts(want).len());
        }
        if is_target(name) && !wanted_in(slices, config, name) {
            r.push(copy_text(&names[i]));
            proof {
                assert(skipped_of(*config, names@, i + 1) == want.push(names@[i as int]));
                assert forall|j: int| 0 <= j < r@.len() implies crate::text::texts(r@)[j]
                    == crate::text::texts(want.push(names@[i as int]))[j] by {
                    if j < before.len() {
                        assert(crate::text::texts(before)[j] == crate::text::texts(want)[j]);
                    }
                }
                assert(crate::text::texts(r@) =~= crate::text::texts(
                    want.push(names@[i as int]),
                ));
            }
        }
        i = i + 1;
    }
    r
}

impl E4bLora {
    /// Fits an adapter of `rank` to the decoder. `names` are its modules, and `data` holds what
    /// it has for each projection of each layer. At least one projection must be adapted.
    pub fn from_adapter(
        config: &Gemma4Config,
        rank: usize,
        max_rank: usize,
        names: &Vec<String>,
        slices: &Vec<LayerSlices>,
        data: &Vec<LayerData>,
    ) -> (r: Result<E4bLora, AdapterError>)
        requires
            config.wf(),
            slices@.len() == config.num_hidden_layers,
            data@.len() == config.num_hidden_layers,
            forall|i: int| 0 <= i < slices@.len() ==> (#[trigger] slices@[i]).of(*config, i),
            forall|i: int| 0 <= i < data@.len() ==> (#[trigger] data@[i]).fits(*config, i),
            forall|i: int| 0 <= i < config.num_hidden_layers ==> #[trigger] dims_fit(*config, i),
            found_total(data@) <= usize::MAX,
        ensures
            match r {
                Ok(l) => {
                    &&& 0 < rank <= max_rank
                    &&& found_total(data@) > 0
                    &&& l.fitted(*config, rank, max_rank, names@, data@)
                },
                Err(AdapterError::Rank) => rank == 0 || rank > max_rank,
                Err(AdapterError::NothingMatched) => {
                    &&& 0 < rank <= max_rank
                    &&& found_total(data@) == 0
                },
                Err(e) => {
                    &&& 0 < rank <= max_rank
                    &&& exists|i: int|
                        0 <= i < config.num_hidden_layers && #[trigger] layer_fails(
                            e,
                            *config,
                            i,
                            data@[i],
                            rank,
                            max_rank,
                        ) && layers_pass(*config, i, data@, rank, max_rank)
                },
            },
    {
        if rank == 0 || rank > max_rank {
            return Err(AdapterError::Rank);
        }
        let mut matched: usize = 0;
        let mut layers: Vec<E4bLoraLayer> = Vec::new();
        let mut i: usize = 0;
        while i < config.num_hidden_layers
            invariant
                config.wf(),
                i <= config.num_hidden_layers,
                0 < rank <= max_rank,
                slices@.len() == config.num_hidden_layers,
                data@.len() == config.num_hidden_layers,
                forall|j: int| 0 <= j < slices@.len() ==> (#[trigger] slices@[j]).of(*config, j),
                forall|j: int| 0 <= j < data@.len() ==> (#[trigger] data@[j]).fits(*config, j),
                forall|j: int| 0 <= j < config.num_hidden_layers ==> #[trigger] dims_fit(*config, j),
                found_total(data@) <= usize::MAX,
                matched == found_total(data@.take(i as int)),
                layers@.len() == i,
                forall|j: int|
                    0 <= j < i ==> layer_made(
                        #[trigger] layers@[j],
                        *config,
                        j,
                        data@[j],
                        rank,
                        max_rank,
                    ),
            decreases config.num_hidden_layers - i,
        {
            proof {
                lemma_found_total(data@, i as int);
                lemma_found_bound(data@, i + 1);
                lemma_found_bound(data@, i as int);
                lemma_found(data@[i as int].qkv@);
                lemma_found(data@[i as int].o@);
                lemma_found(data@[i as int].gate_up@);
                lemma_found(data@[i as int].down@);
                assert(slices@[i as int].of(*config, i as int));
                assert(data@[i as int].fits(*config, i as int));
                assert(dims_fit(*config, i as int));
            }
            match build_layer(config, i, rank, max_rank, &slices[i], &data[i]) {
                Err(e) => {
                    assert(layer_fails(e, *config, i as int, data@[i as int], rank, max_rank));
                    proof {
                        assert forall|j: int| 0 <= j < i implies #[trigger] layer_passes(
                            *config,
                            j,
                            data@[j],
                            rank,
                            max_rank,
                        ) by {
                            assert(layer_made(layers@[j], *config, j, data@[j], rank, max_rank));
                        }
                        lemma_never_other(e, *config, i as int, data@[i as int], rank, max_rank);
                    }
                    return Err(e);
                },
                Ok((l, n)) => {
                    proof {
                        assert(n@[0] + n@[1] + n@[2] + n@[3] == data@[i as int].found());
                    }
                    matched = matched + n[0] + n[1] + n[2] + n[3];
                    layers.push(l);
                },
            }
            i = i + 1;
        }
        assert(data@.take(i as int) =~= data@);
        let skipped = skipped_names(config, slices, names);
        if matched == 0 {
            return Err(AdapterError::NothingMatched);
        }
        Ok(E4bLora::assemble(rank, matched, skipped, layers))
    }
}

proof fn lemma_found_bound(d: Seq<LayerData>, i: int)
    requires
        0 <= i <= d.len(),
    ensures
        0 <= found_total(d.take(i)) <= found_total(d),
    decreases d.len(),
{
    if d.len() == 0 {
        assert(d.take(i) =~= d);
    } else {
        let l = d.last();
        lemma_found(l.qkv@);
        lemma_found(l.o@);
        lemma_found(l.gate_up@);
        lemma_found(l.down@);
        if i == d.len() {
            assert(d.take(i) =~= d);
            lemma_found_bound(d.drop_last(), i - 1);
            assert(d.drop_last().take(i - 1) =~= d.drop_last());
        } else {
            lemma_found_bound(d.drop_last(), i);
            assert(d.drop_last().take(i) =~= d.take(i));
        }
    }
}

proof fn lemma_never_other(
    e: AdapterError,
    config: Gemma4Config,
    i: int,
    d: LayerData,
    rank: usize,
    max_rank: usize,
)
    requires
        layer_fails(e, config, i, d, rank, max_rank),
    ensures
        e != AdapterError::Rank,
        e != AdapterError::NothingMatched,
{
}

} // verus!
