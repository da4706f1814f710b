//! The vision tower's configuration, patch grids and pooling cells.
use vstd::prelude::*;
use crate::json::{is_object, json_get, json_object, json_read, member, number, number_at, read};
use crate::parse::{switched_on, text_of};
use crate::text::same_text;

verus! {

/// The rotary parameters of the tower; `rope_theta` as its bits.
pub struct VisionRopeParams {
    pub rope_theta: u32,
    pub rope_type: Option<String>,
}

/// The configuration of the tower; `rms_norm_eps` as its bits.
pub struct Gemma4VisionConfig {
    pub model_type: Option<String>,
    pub hidden_size: usize,
    pub intermediate_size: usize,
    pub num_hidden_layers: usize,
    pub num_attention_heads: usize,
    pub num_key_value_heads: usize,
    pub head_dim: usize,
    pub patch_size: usize,
    pub pooling_kernel_size: usize,
    pub position_embedding_size: usize,
    pub default_output_length: usize,
    pub rms_norm_eps: u64,
    pub attention_bias: bool,
    pub hidden_activation: String,
    pub use_clipped_linears: bool,
    pub standardize: bool,
    pub rope_parameters: VisionRopeParams,
    pub vision_soft_tokens_per_image: Option<usize>,
}

/// Why a configuration is refused.
#[derive(Clone, Copy, Debug, PartialEq, Eq, Structural)]
pub enum VisionConfigError {
    NotJson,
    NotAnObject,
    /// The member for the tower is there but is not an object.
    VisionNotAnObject,
    ModelType,
    Heads,
    HeadDim,
    /// The tower has a key head for each query head.
    KeyHeads,
}

/// Where in a configuration file the tower is described.
#[derive(Clone, Copy, Debug, PartialEq, Eq, Structural)]
pub enum VisionPart {
    /// The whole file.
    Whole,
    /// A member of its own; the number of soft tokens may stand next to it.
    Member { soft_tokens: Option<u64> },
}

pub open spec fn vision_part_of(v: serde_json::Value) -> Result<VisionPart, VisionConfigError> {
    if !json_object(v) {
        Err(VisionConfigError::NotAnObject)
    } else {
        match json_get(v, "vision_config"@) {
            None => Ok(VisionPart::Whole),
            Some(o) => if json_object(o) {
                Ok(
                    VisionPart::Member {
                        soft_tokens: number_at(v, "vision_soft_tokens_per_image"@),
                    },
                )
            } else {
                Err(VisionConfigError::VisionNotAnObject)
            },
        }
    }
}

/// Finds the description of the tower in a configuration file.
pub fn vision_part(text: &str) -> (r: Result<VisionPart, VisionConfigError>)
    ensures
        r == match json_read(text@) {
            None => Err::<VisionPart, VisionConfigError>(VisionConfigError::NotJson),
            Some(v) => vision_part_of(v),
        },
{
    match read(text) {
        Err(_) => Err(VisionConfigError::NotJson),
        Ok(v) => {
            if !is_object(&v) {
                return Err(VisionConfigError::NotAnObject);
            }
            match member(&v, "vision_config") {
                None => Ok(VisionPart::Whole),
                Some(o) => if is_object(o) {
                    Ok(
                        VisionPart::Member {
                            soft_tokens: number(&v, "vision_soft_tokens_per_image"),
                        },
                    )
                } else {
                    Err(VisionConfigError::VisionNotAnObject)
                },
            }
        },
    }
}

impl Gemma4VisionConfig {
    /// The first thing wrong with a configuration.
    pub open spec fn defect(&self) -> Option<VisionConfigError> {
        if (self.model_type matches Some(m) && m@ != "gemma4_vision"@) {
            Some(VisionConfigError::ModelType)
        } else if self.num_attention_heads * self.head_dim != self.hidden_size {
            Some(VisionConfigError::Heads)
        } else if self.head_dim % 4 != 0 {
            Some(VisionConfigError::HeadDim)
        } else {
            None
        }
    }

    /// Checks a configuration once it is read.
    pub fn validate(&self) -> (r: Result<(), VisionConfigError>)
        ensures
            match r {
                Ok(_) => self.defect() is None,
                Err(e) => self.defect() == Some(e),
            },
    {
        match &self.model_type {
            Some(m) => {
                if !same_text(m.as_str(), "gemma4_vision") {
                    return Err(VisionConfigError::ModelType);
                }
            },
            None => {},
        }
        match self.num_attention_heads.checked_mul(self.head_dim) {
            Some(h) => {
                if h != self.hidden_size {
                    return Err(VisionConfigError::Heads);
                }
            },
            None => {
                return Err(VisionConfigError::Heads);
            },
        }
        if self.head_dim % 4 != 0 {
            return Err(VisionConfigError::HeadDim);
        }
        Ok(())
    }

    /// The tower wants a key head for each query head.
    pub fn check_heads(&self) -> (r: Result<(), VisionConfigError>)
        ensures
            r == if self.num_key_value_heads == self.num_attention_heads {
                Ok::<(), VisionConfigError>(())
            } else {
                Err(VisionConfigError::KeyHeads)
            },
    {
        if self.num_key_value_heads != self.num_attention_heads {
            return Err(VisionConfigError::KeyHeads);
        }
        Ok(())
    }

    /// The values of a patch: three for each of its pixels.
    pub fn patch_pixels(&self) -> (r: usize)
        requires
            self.patch_size * self.patch_size <= usize::MAX,
            self.patch_size * self.patch_size * 3 <= usize::MAX,
        ensures
            r == self.patch_size * self.patch_size * 3,
    {
        self.patch_size * self.patch_size * 3
    }

    /// The pixels along the side of the square that becomes one soft token.
    pub fn unit(&self) -> (r: usize)
        requires
            self.patch_size * self.pooling_kernel_size <= usize::MAX,
        ensures
            r == self.patch_size * self.pooling_kernel_size,
    {
        self.patch_size * self.pooling_kernel_size
    }

    /// The bits of the rotary base.
    pub fn rope_theta(&self) -> (r: u32)
        ensures
            r == self.rope_parameters.rope_theta,
    {
        self.rope_parameters.rope_theta
    }
}

/// The most whole units that `budget` pixels leave next to a side of `other`, at least one.
pub open spec fn side_within(budget: int, other: int, unit: int) -> int {
    let n = budget / other / unit;
    (if n < 1 { 1 } else { n }) * unit
}

/// A resolution cut down to a budget of pixels: the longer side gives way.
pub open spec fn fitted(w: int, h: int, unit: int, budget: int) -> (int, int) {
    if w * h <= budget {
        (w, h)
    } else if h <= w {
        (side_within(budget, h, unit), h)
    } else {
        (w, side_within(budget, w, unit))
    }
}

/// Cuts a resolution down to a budget of pixels.
pub fn fit_resolution(w: usize, h: usize, unit: usize, budget: usize) -> (r: (usize, usize))
    requires
        0 < w,
        0 < h,
        0 < unit,
    ensures
        r.0 == fitted(w as int, h as int, unit as int, budget as int).0,
        r.1 == fitted(w as int, h as int, unit as int, budget as int).1,
{
    let over = match w.checked_mul(h) {
        Some(p) => p > budget,
        None => true,
    };
    if !over {
        return (w, h);
    }
    if h <= w {
        (side(budget, h, unit), h)
    } else {
        (w, side(budget, w, unit))
    }
}

fn side(budget: usize, other: usize, unit: usize) -> (r: usize)
    requires
        0 < other,
        0 < unit,
    ensures
        r == side_within(budget as int, other as int, unit as int),
{
    let a: usize = budget / other;
    let n: usize = a / unit;
    proof {
        assert(a <= budget) by (nonlinear_arith)
            requires
                a == budget / other,
                other > 0,
        ;
        assert(n * unit <= a) by (nonlinear_arith)
            requires
                n == a / unit,
                unit > 0,
        ;
    }
    if n < 1 { unit } else { n * unit }
}

/// A resolution that was cut down is within the budget unless the side that gave way is a
/// single unit and the other alone is too long for it. Whole units stay whole units, and
/// neither side falls below one.
pub proof fn law_fitted(w: int, h: int, unit: int, budget: int)
    requires
        0 < w,
        0 < h,
        0 < unit,
        0 <= budget,
    ensures
        ({
            let (tw, th) = fitted(w, h, unit, budget);
            let shorter = if h <= w { h } else { w };
            &&& tw * th <= budget || (shorter * unit > budget && ((th == h && tw == unit) || (tw
                == w && th == unit)))
            &&& tw == w || tw % unit == 0
            &&& th == h || th % unit == 0
            &&& w >= unit ==> tw >= unit
            &&& h >= unit ==> th >= unit
        }),
{
    if w * h > budget {
        let other = if h <= w { h } else { w };
        let a = budget / other;
        let n = a / unit;
        let k = if n < 1 { 1 } else { n };
        assert((k * unit) % unit == 0) by (nonlinear_arith)
            requires
                unit > 0,
        ;
        assert(k * unit >= unit) by (nonlinear_arith)
            requires
                unit > 0,
                k >= 1,
        ;
        if n >= 1 {
            assert(n * unit * other <= budget && other * (n * unit) <= budget) by (nonlinear_arith)
                requires
                    a == budget / other,
                    n == a / unit,
                    other > 0,
                    unit > 0,
                    n >= 1,
                    budget >= 0,
            ;
        } else {
            assert(a >= 0) by (nonlinear_arith)
                requires
                    a == budget / other,
                    other > 0,
                    budget >= 0,
            ;
            assert(a < unit) by (nonlinear_arith)
                requires
                    a / unit < 1,
                    a >= 0,
                    unit > 0,
            ;
            assert(other * unit > budget) by (nonlinear_arith)
                requires
                    a == budget / other,
                    other > 0,
                    a + 1 <= unit,
            ;
        }
    }
}

/// The soft tokens of an image at a resolution: one for each square of patches, but no more
/// than asked for.
pub open spec fn soft_tokens_at(w: int, h: int, patch: int, kernel: int, most: int) -> int {
    let n = (h / patch) * (w / patch) / (kernel * kernel);
    if n < most { n } else { most }
}

/// An image whose sides are whole units is brought to whole units, at least one along each
/// side. Where its shorter side holds no more units than soft tokens are allowed, the result
/// keeps within the pixels of that many units, and each unit becomes one soft token: at least
/// one and no more than allowed.
pub proof fn law_target(w: int, h: int, patch: int, kernel: int, most: int)
    requires
        0 < patch,
        0 < kernel,
        0 < most,
        0 < w,
        0 < h,
        w % (patch * kernel) == 0,
        h % (patch * kernel) == 0,
    ensures
        ({
            let unit = patch * kernel;
            let budget = most * unit * unit;
            let (tw, th) = fitted(w, h, unit, budget);
            let shorter = if h <= w { h } else { w };
            &&& tw % unit == 0
            &&& th % unit == 0
            &&& tw >= unit
            &&& th >= unit
            &&& tw * th <= budget || tw == unit || th == unit
            &&& shorter <= most * unit ==> {
                &&& tw * th <= budget
                &&& soft_tokens_at(tw, th, patch, kernel, most) == (tw / unit) * (th / unit)
                &&& 1 <= (tw / unit) * (th / unit) <= most
            }
        }),
{
    let unit = patch * kernel;
    let budget = most * unit * unit;
    assert(unit > 0) by (nonlinear_arith)
        requires
            unit == patch * kernel,
            patch > 0,
            kernel > 0,
    ;
    assert(budget > 0) by (nonlinear_arith)
        requires
            budget == most * unit * unit,
            most > 0,
            unit > 0,
    ;
    let (tw, th) = fitted(w, h, unit, budget);
    let shorter = if h <= w { h } else { w };
    law_fitted(w, h, unit, budget);
    assert(w >= unit && h >= unit) by {
        if w < unit {
            vstd::arithmetic::div_mod::lemma_small_mod(w as nat, unit as nat);
        }
        if h < unit {
            vstd::arithmetic::div_mod::lemma_small_mod(h as nat, unit as nat);
        }
    }
    if shorter <= most * unit {
        assert(shorter * unit <= budget) by (nonlinear_arith)
            requires
                shorter <= most * unit,
                unit > 0,
                budget == most * unit * unit,
        ;
        let a = tw / unit;
        let b = th / unit;
        assert(tw == a * unit && th == b * unit) by (nonlinear_arith)
            requires
                tw % unit == 0,
                th % unit == 0,
                a == tw / unit,
                b == th / unit,
                unit > 0,
        ;
        assert(a >= 1 && b >= 1) by (nonlinear_arith)
            requires
                tw == a * unit,
                th == b * unit,
                tw >= unit,
                th >= unit,
                unit > 0,
        ;
        assert(1 <= a * b) by (nonlinear_arith)
            requires
                a >= 1,
                b >= 1,
        ;
        assert(a * b <= most) by (nonlinear_arith)
            requires
                (a * unit) * (b * unit) <= most * unit * unit,
                unit > 0,
        ;
        lemma_patches(a, patch, kernel);
        lemma_patches(b, patch, kernel);
        let kk = kernel * kernel;
        assert(kk > 0 && (b * kernel) * (a * kernel) == (a * b) * kk) by (nonlinear_arith)
            requires
                kk == kernel * kernel,
                kernel > 0,
        ;
        vstd::arithmetic::div_mod::lemma_div_by_multiple(a * b, kk);
    }
}

/// An image is scaled to the units that are allowed in all, keeping the ratio of its sides and
/// whole units, at least one: its width to at most the square root of `most * iw / ih` units and
/// its height to at most that of `most * ih / iw`. The resolution that this is fitted to keeps
/// within the allowance, and each of its units becomes one soft token.
pub proof fn law_scaled(iw: int, ih: int, across: int, down: int, patch: int, kernel: int, most: int)
    requires
        0 < iw,
        0 < ih,
        0 < patch,
        0 < kernel,
        0 < most,
        1 <= across,
        1 <= down,
        across == 1 || across * across * ih <= most * iw,
        down == 1 || down * down * iw <= most * ih,
    ensures
        ({
            let unit = patch * kernel;
            let budget = most * unit * unit;
            let (tw, th) = fitted(across * unit, down * unit, unit, budget);
            &&& tw % unit == 0
            &&& th % unit == 0
            &&& tw >= unit
            &&& th >= unit
            &&& tw * th <= budget
            &&& soft_tokens_at(tw, th, patch, kernel, most) == (tw / unit) * (th / unit)
            &&& 1 <= (tw / unit) * (th / unit) <= most
        }),
{
    let unit = patch * kernel;
    assert(unit > 0) by (nonlinear_arith)
        requires
            unit == patch * kernel,
            patch > 0,
            kernel > 0,
    ;
    let w = across * unit;
    let h = down * unit;
    assert(w > 0 && h > 0 && w % unit == 0 && h % unit == 0) by (nonlinear_arith)
        requires
            w == across * unit,
            h == down * unit,
            across >= 1,
            down >= 1,
            unit > 0,
    ;
    // The side that is not the longer one of the image has no more units than are allowed.
    let fewer = if ih <= iw {
        down
    } else {
        across
    };
    assert(fewer <= most) by {
        if fewer > 1 {
            assert(fewer * fewer <= most) by (nonlinear_arith)
                requires
                    iw > 0,
                    ih > 0,
                    most > 0,
                    (ih <= iw && fewer * fewer * iw <= most * ih) || (ih > iw && fewer * fewer * ih
                        <= most * iw),
            ;
            assert(fewer <= fewer * fewer) by (nonlinear_arith)
                requires
                    fewer > 1,
            ;
        }
    }
    let shorter = if h <= w {
        h
    } else {
        w
    };
    assert(shorter <= fewer * unit);
    assert(fewer * unit <= most * unit) by (nonlinear_arith)
        requires
            fewer <= most,
            unit > 0,
    ;
    law_target(w, h, patch, kernel, most);
}

proof fn lemma_patches(n: int, patch: int, kernel: int)
    requires
        0 <= n,
        0 < patch,
        0 < kernel,
    ensures
        (n * (patch * kernel)) / patch == n * kernel,
{
    assert(n * (patch * kernel) == (n * kernel) * patch) by (nonlinear_arith);
    assert(0 <= n * kernel) by (nonlinear_arith)
        requires
            0 <= n,
            0 < kernel,
    ;
    vstd::arithmetic::div_mod::lemma_div_by_multiple(n * kernel, patch);
}

impl Gemma4VisionConfig {
    /// The soft tokens of an image at a target resolution.
    pub fn soft_tokens_at_resolution(&self, w: usize, h: usize, max_soft_tokens: Option<usize>) -> (r:
        usize)
        requires
            0 < self.patch_size,
            0 < self.pooling_kernel_size,
            self.pooling_kernel_size * self.pooling_kernel_size <= usize::MAX,
            (h as int / self.patch_size as int) * (w as int / self.patch_size as int) <= usize::MAX,
        ensures
            r == soft_tokens_at(
                w as int,
                h as int,
                self.patch_size as int,
                self.pooling_kernel_size as int,
                match max_soft_tokens {
                    Some(n) => n as int,
                    None => self.default_output_length as int,
                },
            ),
    {
        let most: usize = match max_soft_tokens {
            Some(n) => n,
            None => self.default_output_length,
        };
        let k: usize = self.pooling_kernel_size;
        assert(k * k > 0) by (nonlinear_arith)
            requires
                k > 0,
        ;
        let n: usize = (h / self.patch_size) * (w / self.patch_size) / (k * k);
        if n < most { n } else { most }
    }
}

/// The patch at place `i` of a grid that is walked row by row.
pub open spec fn grid_place(w: int, i: int) -> (i64, i64) {
    ((i % w) as i64, (i / w) as i64)
}

pub open spec fn grid_places(w: int, h: int) -> Seq<(i64, i64)> {
    Seq::new((w * h) as nat, |i: int| grid_place(w, i))
}

/// The positions of all patches of a grid, row by row.
pub fn full_grid_positions(grid_w: usize, grid_h: usize) -> (r: Vec<(i64, i64)>)
    requires
        grid_w * grid_h <= usize::MAX,
    ensures
        r@ == grid_places(grid_w as int, grid_h as int),
{
    let mut r: Vec<(i64, i64)> = Vec::new();
    let mut y: usize = 0;
    while y < grid_h
        invariant
            y <= grid_h,
            grid_w * grid_h <= usize::MAX,
            r@.len() == y * grid_w,
            forall|i: int| 0 <= i < r@.len() ==> #[trigger] r@[i] == grid_place(grid_w as int, i),
        decreases grid_h - y,
    {
        let ghost base = y * grid_w;
        let mut x: usize = 0;
        while x < grid_w
            invariant
                y < grid_h,
                x <= grid_w,
                base == y * grid_w,
                r@.len() == base + x,
                forall|i: int|
                    0 <= i < r@.len() ==> #[trigger] r@[i] == grid_place(grid_w as int, i),
            decreases grid_w - x,
        {
            proof {
                let w = grid_w as int;
                let i = base + x;
                assert(i % w == x && i / w == y) by (nonlinear_arith)
                    requires
                        i == y * w + x,
                        0 <= x < w,
                        y >= 0,
                ;
            }
            r.push((x as i64, y as i64));
            x = x + 1;
        }
        assert((y + 1) * grid_w == y * grid_w + grid_w) by (nonlinear_arith);
        y = y + 1;
    }
    assert(grid_h * grid_w == grid_w * grid_h) by (nonlinear_arith);
    assert(r@ =~= grid_places(grid_w as int, grid_h as int));
    r
}

pub open spec fn all_valid(v: Seq<bool>) -> bool {
    forall|i: int| 0 <= i < v.len() ==> #[trigger] v[i]
}

pub fn every(v: &[bool]) -> (r: bool)
    ensures
        r == all_valid(v@),
{
    let mut i: usize = 0;
    while i < v.len()
        invariant
            i <= v@.len(),
            forall|j: int| 0 <= j < i ==> #[trigger] v@[j],
        decreases v@.len() - i,
    {
        if !v[i] {
            assert(!v@[i as int]);
            return false;
        }
        i = i + 1;
    }
    true
}

/// How many leading patches lie in row zero.
pub open spec fn first_row(p: Seq<(i64, i64)>, i: int) -> int
    decreases p.len() - i,
{
    if i < 0 || i >= p.len() || p[i].1 != 0 {
        i
    } else {
        first_row(p, i + 1)
    }
}

/// The grid that positions walk row by row, if they do: its width is the length of row zero.
pub open spec fn grid_of(p: Seq<(i64, i64)>, valid: Seq<bool>) -> Option<(int, int)> {
    let w = first_row(p, 0);
    if p.len() == 0 || !all_valid(valid) || w == 0 || p.len() % w as nat != 0 {
        None
    } else if p == grid_places(w, p.len() as int / w) {
        Some((w, p.len() as int / w))
    } else {
        None
    }
}

proof fn lemma_first_row(p: Seq<(i64, i64)>, i: int)
    requires
        0 <= i <= p.len(),
    ensures
        i <= first_row(p, i) <= p.len(),
        forall|j: int| i <= j < first_row(p, i) ==> (#[trigger] p[j]).1 == 0,
        first_row(p, i) < p.len() ==> p[first_row(p, i)].1 != 0,
    decreases p.len() - i,
{
    if i < p.len() && p[i].1 == 0 {
        lemma_first_row(p, i + 1);
    }
}

/// Finds the grid that positions walk row by row.
pub fn detect_row_major_full_grid(positions: &[(i64, i64)], valid: &[bool]) -> (r: Option<
    (usize, usize),
>)
    ensures
        match r {
            Some((w, h)) => grid_of(positions@, valid@) == Some((w as int, h as int)),
            None => grid_of(positions@, valid@) is None,
        },
{
    let n: usize = positions.len();
    if n == 0 || !every(valid) {
        return None;
    }
    let mut w: usize = 0;
    while w < n && positions[w].1 == 0
        invariant
            n == positions@.len(),
            w <= n,
            first_row(positions@, w as int) == first_row(positions@, 0),
        decreases n - w,
    {
        w = w + 1;
    }
    if w == 0 {
        return None;
    }
    if n % w != 0 {
        return None;
    }
    let h: usize = n / w;
    let ghost want = grid_places(w as int, h as int);
    proof {
        assert(w * h == n) by (nonlinear_arith)
            requires
                h == n / w,
                n % w == 0,
                w > 0,
        ;
    }
    let mut i: usize = 0;
    while i < n
        invariant
            n == positions@.len(),
            0 < w,
            w * h == n,
            h == n / w,
            i <= n,
            w == first_row(positions@, 0),
            want == grid_places(w as int, h as int),
            forall|j: int| 0 <= j < i ==> #[trigger] positions@[j] == want[j],
        decreases n - i,
    {
        let p = positions[i];
        assert(0 <= i % w && i % w <= i && 0 <= i / w && i / w <= i) by (nonlinear_arith)
            requires
                w > 0,
        ;
        if p.0 != (i % w) as i64 || p.1 != (i / w) as i64 {
            assert(positions@[i as int] != want[i as int]);
            return None;
        }
        i = i + 1;
    }
    assert(positions@ =~= want);
    Some((w, h))
}

/// Positions are recognised as a grid exactly where they are the positions of that whole grid
/// and every one is valid.
pub proof fn law_grid_detected(p: Seq<(i64, i64)>, valid: Seq<bool>, w: int, h: int)
    requires
        0 < w <= i64::MAX,
        0 < h <= i64::MAX,
    ensures
        grid_of(p, valid) == Some((w, h)) <==> p.len() > 0 && all_valid(valid) && p == grid_places(
            w,
            h,
        ),
{
    if p == grid_places(w, h) && all_valid(valid) {
        lemma_grid_detected(w, h, valid);
    }
}

proof fn lemma_grid_detected(w: int, h: int, valid: Seq<bool>)
    requires
        0 < w <= i64::MAX,
        0 < h <= i64::MAX,
        all_valid(valid),
    ensures
        grid_of(grid_places(w, h), valid) == Some((w, h)),
{
    let p = grid_places(w, h);
    assert(w * h >= w) by (nonlinear_arith)
        requires
            w > 0,
            h > 0,
    ;
    lemma_first_row(p, 0);
    let f = first_row(p, 0);
    assert forall|j: int| 0 <= j < w implies (#[trigger] p[j]).1 == 0 by {
        assert(j / w == 0) by (nonlinear_arith)
            requires
                0 <= j < w,
        ;
    }
    if h > 1 {
        assert(w < w * h) by (nonlinear_arith)
            requires
                w > 0,
                h > 1,
        ;
        assert(w / w == 1) by (nonlinear_arith)
            requires
                w > 0,
        ;
        assert(p[w].1 == 1);
        if f > w {
            assert(p[w].1 == 0);
        }
    } else {
        assert(w * h == w) by (nonlinear_arith)
            requires
                h == 1,
        ;
    }
    if f < w {
        assert(p[f].1 == 0);
    }
    assert(f == w);
    assert((w * h) % w == 0 && (w * h) / w == h) by (nonlinear_arith)
        requires
            w > 0,
    ;
}

/// A coordinate as an index into a table of `size` entries.
pub open spec fn clamped_id(x: i64, size: int) -> int {
    if x < 0 {
        0
    } else if x > size - 1 {
        size - 1
    } else {
        x as int
    }
}

fn clamp_id(x: i64, size: usize) -> (r: u32)
    requires
        0 < size <= u32::MAX,
    ensures
        r == clamped_id(x, size as int),
{
    let cap: i64 = (size - 1) as i64;
    if x < 0 {
        0
    } else if x > cap {
        cap as u32
    } else {
        x as u32
    }
}

/// The table entries of the patches' columns and rows.
pub fn position_ids(positions: &[(i64, i64)], size: usize) -> (r: (Vec<u32>, Vec<u32>))
    requires
        0 < size <= u32::MAX,
    ensures
        r.0@.len() == positions@.len(),
        r.1@.len() == positions@.len(),
        forall|i: int|
            #![trigger positions@[i]]
            0 <= i < positions@.len() ==> r.0@[i] == clamped_id(positions@[i].0, size as int)
                && r.1@[i] == clamped_id(positions@[i].1, size as int),
{
    let mut xs: Vec<u32> = Vec::new();
    let mut ys: Vec<u32> = Vec::new();
    let mut i: usize = 0;
    while i < positions.len()
        invariant
            0 < size <= u32::MAX,
            i <= positions@.len(),
            xs@.len() == i,
            ys@.len() == i,
            forall|j: int|
                #![trigger positions@[j]]
                0 <= j < i ==> xs@[j] == clamped_id(positions@[j].0, size as int) && ys@[j]
                    == clamped_id(positions@[j].1, size as int),
        decreases positions@.len() - i,
    {
        xs.push(clamp_id(positions[i].0, size));
        ys.push(clamp_id(positions[i].1, size));
        i = i + 1;
    }
    (xs, ys)
}

/// A patch is real unless both of its coordinates are minus one.
pub open spec fn is_patch(p: (i64, i64)) -> bool {
    !(p.0 == -1 && p.1 == -1)
}

/// Which patches are real.
pub fn valid_patches(positions: &[(i64, i64)]) -> (r: Vec<bool>)
    ensures
        r@ == Seq::new(positions@.len(), |i: int| is_patch(positions@[i])),
{
    let mut r: Vec<bool> = Vec::new();
    let mut i: usize = 0;
    while i < positions.len()
        invariant
            i <= positions@.len(),
            r@ == Seq::new(i as nat, |j: int| is_patch(positions@[j])),
        decreases positions@.len() - i,
    {
        let p = positions[i];
        r.push(!(p.0 == -1 && p.1 == -1));
        i = i + 1;
        assert(r@ =~= Seq::new(i as nat, |j: int| is_patch(positions@[j])));
    }
    r
}

/// Whether the tower's stages are timed.
pub fn vision_prof_enabled(v: Option<&str>) -> (r: bool)
    ensures
        r == (text_of(v) == Some("1"@)),
{
    switched_on(v)
}

} // verus!
