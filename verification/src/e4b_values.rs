//! What the passes of an E4B graph compute: every kernel as an operation on the values that its
//! buffers hold.
//!
//! A value is a formula over what the buffers held at first, the same for every row of a launch.
//! Running a list of passes leaves a formula in every buffer, which says what the list computes
//! apart from how it is written down. A kernel whose operands do not fit leaves [`Val::Junk`].
use vstd::prelude::*;
use crate::e4b_caches::target_list;
use crate::e4b_emit::{Lists, F32_ONE};
use crate::e4b_ir::{Arg, Bind, Buf, Grid, MkParams, MkPipe, Part, PassModel, Pipe, Site, Uniform};

verus! {

/// An operation on rows. The counts are those of the whole launch.
pub ghost enum Op {
    /// The `n` rows from `from` on of a weight matrix, times a row.
    Product { site: Site, from: int, n: int },
    /// Parts of a row of `width` divided by their root mean square, times a weight row.
    Norm { width: u32, batch: u32, eps: u32 },
    /// A sum over all `n` elements.
    Sum { n: u32 },
    Scale { n: u32, by: u32 },
    /// Each head turned by the angles of its position.
    Rotate { heads: u32, half: u32, words: u32 },
    /// A cache in eight bits with the rows of some positions written, and its scales.
    PutCodes { heads: u32, head_dim: u32, rows: u32 },
    PutScales { heads: u32, head_dim: u32, rows: u32 },
    /// Attention of queries over keys and values with their scales, by a parameter block.
    Attend,
    /// The first half of a row through the activation, times the second half.
    Gelu { inter: u32, rows: u32 },
    /// The words `from..from + words` of rows of `row` words.
    Piece { from: u32, words: u32, row: u32 },
    /// The first operand through the activation, times the second.
    Gated { words: u32 },
    /// The rows of a table that the tokens name.
    Lookup { embed: bool, row_words: u32, rows: u32, chunk: u32, chunks: u32, tokens: u32 },
    /// A weighted sum of two rows.
    Mix { words: u32, a: u32, b: u32 },
    /// What is written of a value so far: its first rows.
    First { rows: int },
    /// Columns from `at` on beside what stands before them.
    Beside { at: u32, width: u32, row: u32 },
    /// What an adapter adds to the columns, and the columns from `at` on.
    Adapt { by: Uniform },
    Columns { at: u32, width: u32, row: u32 },
    /// The products of a row with the first `upto` rows of the output table.
    Logits { upto: int, k: u32 },
    /// The same for each of `rows` rows, and for the rows `from..from + n` of the table alone.
    RowLogits { upto: int, k: u32, rows: u32, vocab: u32, cap: Option<(u32, u32)> },
    SomeLogits { from: int, n: int, k: u32, rows: u32 },
    /// Logits kept within a bound, or as they are.
    Capped { n: u32, cap: u32 },
    Plain { n: u32 },
    /// The largest of `n` logits for each of `rows` rows: by parts, and the token.
    Best { rows: u32, n: u32 },
    Token { rows: u32, n: u32 },
}

pub ghost enum Val {
    Held(Buf),
    Junk,
    /// The extents of a weight matrix.
    Shape { n: int, k: int },
    /// The rows `from..from + n` of the output table.
    Rows { from: int, n: int },
    Of(Op, Seq<Val>),
}

pub type State = Map<Buf, Val>;

pub open spec fn product(site: Site, from: int, n: int, x: Val) -> Val {
    Val::Of(Op::Product { site, from, n }, seq![x])
}

pub open spec fn norm(x: Val, w: Val, width: u32, batch: u32, eps: u32) -> Val {
    Val::Of(Op::Norm { width, batch, eps }, seq![x, w])
}

/// A sum, scaled unless by one.
pub open spec fn sum(a: Val, b: Val, n: u32, by: u32) -> Val {
    let s = Val::Of(Op::Sum { n }, seq![a, b]);
    if by == F32_ONE {
        s
    } else {
        Val::Of(Op::Scale { n, by }, seq![s])
    }
}

pub open spec fn rotate(x: Val, cos: Val, sin: Val, pos: Val, heads: u32, half: u32, words: u32) -> Val {
    Val::Of(Op::Rotate { heads, half, words }, seq![x, cos, sin, pos])
}

/// The buffer that binding `i` has at `slot`, whole.
pub open spec fn bound(p: PassModel, i: int, slot: u32) -> Buf {
    bound_at(p, i, slot, 0)
}

/// The buffer that binding `i` has at `slot`, from a byte offset on.
pub open spec fn bound_at(p: PassModel, i: int, slot: u32, off: int) -> Buf {
    if 0 <= i < p.binds.len() && p.binds[i].slot == slot && p.binds[i].off == off {
        match p.binds[i].arg {
            Arg::Buf(b) => b,
            Arg::Uni(_) => Buf::TokIdx,
        }
    } else {
        Buf::TokIdx
    }
}

/// The parameters that binding `i` has at `slot`.
pub open spec fn given(p: PassModel, i: int, slot: u32) -> Option<Uniform> {
    if 0 <= i < p.binds.len() && p.binds[i].slot == slot {
        match p.binds[i].arg {
            Arg::Uni(u) => Some(u),
            Arg::Buf(_) => None,
        }
    } else {
        None
    }
}

/// The ways in which a product's operands are bound.
pub ghost enum Form {
    Plain,
    Scaled,
    Blocks,
    Lanes,
}

/// How a product kernel binds its operands, whether it splits its rows, and whether it takes
/// many rows.
pub open spec fn product_form(pipe: Pipe) -> Option<(Form, bool, bool)> {
    match pipe {
        Pipe::GemvPk => Some((Form::Plain, false, false)),
        Pipe::GemvPk3 => Some((Form::Plain, true, false)),
        Pipe::GemvI8Pk => Some((Form::Scaled, false, false)),
        Pipe::GemvI8Pk3 => Some((Form::Scaled, true, false)),
        Pipe::GemvI8gPk => Some((Form::Scaled, false, false)),
        Pipe::GemvI8gPk3 => Some((Form::Scaled, true, false)),
        Pipe::GemvW4Pk => Some((Form::Blocks, false, false)),
        Pipe::GemvW4Pk3 => Some((Form::Blocks, true, false)),
        Pipe::GemvW4V4Pk => Some((Form::Lanes, false, false)),
        Pipe::GemvW4V4Pk3 => Some((Form::Lanes, true, false)),
        Pipe::GemvW4SgPk => Some((Form::Lanes, false, false)),
        Pipe::GemvW4SgPk3 => Some((Form::Lanes, true, false)),
        Pipe::GemvW4SgPkm => Some((Form::Lanes, false, false)),
        Pipe::GemvW4SgPkm3 => Some((Form::Lanes, true, false)),
        Pipe::Mk(_, k) => match k {
            MkPipe::GemmBf16Pk => Some((Form::Plain, false, true)),
            MkPipe::GemmBf16Pk3 => Some((Form::Plain, true, true)),
            MkPipe::GemmI8Pk => Some((Form::Scaled, false, true)),
            MkPipe::GemmI8Pk3 => Some((Form::Scaled, true, true)),
            MkPipe::GemmI8gPk => Some((Form::Scaled, false, true)),
            MkPipe::GemmI8gPk3 => Some((Form::Scaled, true, true)),
            MkPipe::GemmW4Pk => Some((Form::Blocks, false, true)),
            MkPipe::GemmW4Pk3 => Some((Form::Blocks, true, true)),
            MkPipe::GemmW4V4Pk => Some((Form::Lanes, false, true)),
            MkPipe::GemmW4V4Pk3 => Some((Form::Lanes, true, true)),
            MkPipe::GemmW4SgPk => Some((Form::Lanes, false, true)),
            MkPipe::GemmW4SgPk3 => Some((Form::Lanes, true, true)),
            _ => None,
        },
        _ => None,
    }
}

/// The operands of a product: weights, scales, extents, the row, and where the rest begins.
/// `out` says whether the result is bound among them.
pub ghost struct Operands {
    pub w: (int, u32),
    pub s: Option<(int, u32)>,
    pub p: (int, u32),
    pub x: (int, u32),
    pub y: (int, u32),
    pub rest: int,
}

pub open spec fn operands(f: Form, split: bool) -> Operands {
    let d = if split {
        0int
    } else {
        1
    };
    match f {
        Form::Plain => Operands {
            w: (0, 0),
            s: None,
            p: (2 + d, 3),
            x: (1, 1),
            y: (2, 2),
            rest: 3 + d,
        },
        Form::Scaled => Operands {
            w: (0, 0),
            s: Some((3 + d, 22)),
            p: (2 + d, 3),
            x: (1, 1),
            y: (2, 2),
            rest: 4 + d,
        },
        Form::Blocks => Operands {
            w: (0, 0),
            s: Some((1, 1)),
            p: (3 + d, 4),
            x: (2, 2),
            y: (3, 3),
            rest: 4 + d,
        },
        Form::Lanes => Operands {
            w: (1 + d + 1, 6),
            s: Some((0, 1)),
            p: (1 + d, 4),
            x: (1 + d + 2, 7),
            y: (1, 3),
            rest: 1 + d + 3,
        },
    }
}

/// The matrix whose weights, scales and extents are bound, where they are of one matrix.
pub open spec fn site_of(p: PassModel, o: Operands) -> Option<Site> {
    match bound(p, o.w.0, o.w.1) {
        Buf::Proj(site, Part::Weight) => if bound(p, o.p.0, o.p.1) == Buf::Proj(site, Part::Params)
            && (o.s matches Some(sc) ==> bound(p, sc.0, sc.1) == Buf::Proj(site, Part::Scales)) {
            Some(site)
        } else {
            None
        },
        _ => None,
    }
}

/// What a buffer holds after the rows from `row0` on of a value were written, out of `m`.
pub open spec fn rows_of(old: Val, v: Val, row0: int, rows: int, m: int) -> Val {
    if rows > 0 && row0 + rows <= m && (row0 == 0 || old == Val::Of(
        Op::First { rows: row0 },
        seq![v],
    )) {
        if row0 + rows == m {
            v
        } else {
            Val::Of(Op::First { rows: row0 + rows }, seq![v])
        }
    } else {
        Val::Junk
    }
}

/// The extents of a matrix.
pub open spec fn shape(s: State, site: Site) -> (int, int) {
    match s[Buf::Proj(site, Part::Params)] {
        Val::Shape { n, k } => (n, k),
        _ => (0, 0),
    }
}

/// The rows of a matrix that queries, keys and values are split from.
pub open spec fn split_fits(u: Option<Uniform>, n: int) -> bool {
    match u {
        Some(Uniform::Split { q_rows, kv_rows, v_off }) => q_rows + kv_rows <= n && v_off + kv_rows
            <= n,
        _ => false,
    }
}

/// Writes queries, keys and values of one product.
pub open spec fn split_into(
    s: State,
    site: Site,
    x: Val,
    q: Buf,
    k: Buf,
    v: Buf,
    q_rows: u32,
    kv_rows: u32,
    v_off: u32,
    row0: int,
    rows: int,
    m: int,
) -> State {
    s.insert(
        q,
        rows_of(s[q], product(site, 0, q_rows as int, x), row0, rows, m),
    ).insert(
        k,
        rows_of(s[k], product(site, q_rows as int, kv_rows as int, x), row0, rows, m),
    ).insert(v, rows_of(s[v], product(site, v_off as int, kv_rows as int, x), row0, rows, m))
}

/// Whether the strides of a many-row product are those of its matrix.
pub open spec fn strides_fit(params: MkParams, row0: int, n: int, k: int, split: bool) -> bool {
    &&& 2 * params.x_stride_words == k
    &&& if split {
        true
    } else {
        &&& 2 * params.y_stride_words == n
        &&& params.dst_word_off == row0 * params.y_stride_words
    }
}

/// A product by one row or a slab of rows, by the binding of its operands.
pub open spec fn product_step(s: State, p: PassModel, f: Form, split: bool, many: bool, m: int) -> State {
    let o = operands(f, split);
    let last = if split {
        o.rest + 4
    } else {
        o.rest
    };
    let (row0, params) = if many {
        match given(p, last, 35) {
            Some(Uniform::Mk { params, row0 }) => (row0 as int, Some(params)),
            _ => (0, None),
        }
    } else {
        (0int, None)
    };
    let rows = if many {
        match params {
            Some(v) => v.m as int,
            None => 0,
        }
    } else {
        1
    };
    let x_off = match params {
        Some(v) => row0 * v.x_stride_words * 4,
        None => 0,
    };
    match site_of(p, o) {
        None => s.insert(bound(p, o.y.0, o.y.1), Val::Junk),
        Some(site) => {
            let (n, k) = shape(s, site);
            let x = s[bound_at(p, o.x.0, o.x.1, x_off)];
            let fits = match params {
                Some(v) => strides_fit(v, row0, n, k, split),
                None => m == 1 && !many,
            };
            if split {
                match given(p, o.rest + 3, 34) {
                    Some(Uniform::Split { q_rows, kv_rows, v_off }) => if fits && split_fits(
                        given(p, o.rest + 3, 34),
                        n,
                    ) {
                        split_into(
                            s,
                            site,
                            x,
                            bound_at(p, o.rest, 31, row0 * (q_rows / 2) * 4),
                            bound_at(p, o.rest + 1, 32, row0 * (kv_rows / 2) * 4),
                            bound_at(p, o.rest + 2, 33, row0 * (kv_rows / 2) * 4),
                            q_rows,
                            kv_rows,
                            v_off,
                            row0,
                            rows,
                            m,
                        )
                    } else {
                        s.insert(Buf::TokIdx, Val::Junk)
                    },
                    _ => s.insert(Buf::TokIdx, Val::Junk),
                }
            } else {
                let y = bound(p, o.y.0, o.y.1);
                let start = if many {
                    true
                } else {
                    given(p, o.rest, 30) == Some(Uniform::PkOff { dst_word_off: 0 })
                };
                s.insert(
                    y,
                    if fits && start {
                        rows_of(s[y], product(site, 0, n, x), row0, rows, m)
                    } else {
                        Val::Junk
                    },
                )
            }
        },
    }
}

/// A slab of rows on the matrix units.
pub open spec fn tensor_step(s: State, p: PassModel, split: bool, m: int) -> State {
    let at = if split {
        6int
    } else {
        4
    };
    let slot = if split {
        6u32
    } else {
        4u32
    };
    match (bound(p, 0, 0), given(p, at, slot), given(p, at + 1, (slot + 1) as u32)) {
        (
            Buf::Proj(site, Part::Weight),
            Some(Uniform::Mk { params, row0 }),
            Some(Uniform::TensorOps { n_rows, k_elems, q_rows, kv_rows, v_off, .. }),
        ) => {
            let (n, k) = shape(s, site);
            let x = s[bound_at(p, 2, 2, row0 * params.x_stride_words * 4)];
            let rows = params.m as int;
            let fits = bound(p, 1, 1) == Buf::Proj(site, Part::Scales) && n_rows == n && k_elems
                == k && p.grid == Grid::TensorOps(n_rows) && strides_fit(
                params,
                row0 as int,
                n,
                k,
                split,
            );
            if split {
                if fits && q_rows + kv_rows <= n && v_off + kv_rows <= n {
                    split_into(
                        s,
                        site,
                        x,
                        bound_at(p, 3, 3, row0 * (q_rows / 2) * 4),
                        bound_at(p, 4, 4, row0 * (kv_rows / 2) * 4),
                        bound_at(p, 5, 5, row0 * (kv_rows / 2) * 4),
                        q_rows,
                        kv_rows,
                        v_off,
                        row0 as int,
                        rows,
                        m,
                    )
                } else {
                    s.insert(Buf::TokIdx, Val::Junk)
                }
            } else {
                let y = bound(p, 3, 3);
                s.insert(
                    y,
                    if fits {
                        rows_of(s[y], product(site, 0, n, x), row0 as int, rows, m)
                    } else {
                        Val::Junk
                    },
                )
            }
        },
        _ => s.insert(Buf::TokIdx, Val::Junk),
    }
}

pub open spec fn one_each(g: Grid, n: int) -> bool {
    g == Grid::Dims(n as u32, 1, 1) && n <= u32::MAX
}

pub open spec fn covers(g: Grid, n: int) -> bool {
    match g {
        Grid::OneD(c) => c.wg > 0 && c.invocations == n,
        _ => false,
    }
}

/// A norm by the parameters of its kernel.
pub open spec fn norm_by(u: Option<Uniform>, x: Val, w: Val) -> Val {
    match u {
        Some(Uniform::Rms { hidden, batch, eps, words_per_row }) => if words_per_row == hidden / 2 {
            norm(x, w, hidden, batch, eps)
        } else {
            Val::Junk
        },
        Some(Uniform::Fnc { hidden, batch, eps, words_per_row, .. }) => if words_per_row == hidden
            / 2 {
            norm(x, w, hidden, batch, eps)
        } else {
            Val::Junk
        },
        _ => Val::Junk,
    }
}

/// A sum of rows by the parameters of a kernel that norms too.
pub open spec fn sum_by(u: Option<Uniform>, a: Val, b: Val, m: int) -> Val {
    match u {
        Some(Uniform::Rms { hidden, batch, .. }) => if batch == m {
            sum(a, b, (m * hidden) as u32, F32_ONE)
        } else {
            Val::Junk
        },
        Some(Uniform::Fnc { hidden, batch, scale, .. }) => if batch == m {
            sum(a, b, (m * hidden) as u32, scale)
        } else {
            Val::Junk
        },
        _ => Val::Junk,
    }
}

/// A head row's norm by the parameters of the fused kernel.
pub open spec fn head_norm_by(u: Option<Uniform>, g: Grid, x: Val, w: Val) -> Val {
    match u {
        Some(Uniform::Fac { head_dim, eps, rows, .. }) => if one_each(g, rows as int) {
            norm(x, w, head_dim, rows, eps)
        } else {
            Val::Junk
        },
        _ => Val::Junk,
    }
}

pub open spec fn turn_by(u: Option<Uniform>, x: Val, cos: Val, sin: Val, pos: Val) -> Val {
    match u {
        Some(Uniform::Fac { n_heads, half_dim, rows, .. }) => rotate(
            x,
            cos,
            sin,
            pos,
            n_heads,
            half_dim,
            (rows * half_dim) as u32,
        ),
        Some(Uniform::Rope { n_heads, half_dim, total_words, .. }) => rotate(
            x,
            cos,
            sin,
            pos,
            n_heads,
            half_dim,
            total_words,
        ),
        _ => Val::Junk,
    }
}

/// A row in a cache, and the cache's scales, by the parameters of the kernel.
pub open spec fn put(s: State, u: Option<Uniform>, cache: Buf, scales: Buf, row: Val, start: Val) -> State {
    match u {
        Some(Uniform::Fac { n_heads, head_dim, rows, .. }) => put_in(
            s,
            n_heads,
            head_dim,
            rows,
            cache,
            scales,
            row,
            start,
        ),
        Some(Uniform::KvFp8 { n_kv, head_dim, pairs, .. }) => put_in(
            s,
            n_kv,
            head_dim,
            pairs,
            cache,
            scales,
            row,
            start,
        ),
        _ => s.insert(cache, Val::Junk).insert(scales, Val::Junk),
    }
}

pub open spec fn put_in(
    s: State,
    heads: u32,
    head_dim: u32,
    rows: u32,
    cache: Buf,
    scales: Buf,
    row: Val,
    start: Val,
) -> State {
    s.insert(
        cache,
        Val::Of(Op::PutCodes { heads, head_dim, rows }, seq![s[cache], row, start]),
    ).insert(
        scales,
        Val::Of(Op::PutScales { heads, head_dim, rows }, seq![s[scales], row, start]),
    )
}

/// Attention by the operands of its first stage.
pub open spec fn attend(q: Val, k: Val, v: Val, ks: Val, vs: Val, by: Val) -> Val {
    Val::Of(Op::Attend, seq![q, k, v, ks, vs, by])
}

/// What the buffers hold after a pass over `m` rows.
#[verifier::opaque]
pub open spec fn step(s: State, p: PassModel, m: int) -> State {
    match product_form(p.pipe) {
        Some(f) => if p.pipe is GemvPk && bound(p, 0, 0) is EmbedChunk {
            table_step(s, p)
        } else {
            product_step(s, p, f.0, f.1, f.2, m)
        },
        None => match p.pipe {
            Pipe::LmHeadSg => table_step(s, p),
            Pipe::LmHeadI8
            | Pipe::Softcap
            | Pipe::CastF32
            | Pipe::ArgmaxStage1
            | Pipe::ArgmaxCapStage1
            | Pipe::ArgmaxStage2
            | Pipe::VerifySmk
            | Pipe::VerifyCap => head_step(s, p),
            _ => other_step(s, p, m),
        },
    }
}

/// The logits of one row after those of a chunk of the table joined the ones before.
pub open spec fn logits_more(old: Val, x: Val, table: Val, n: u32, off: u32, k: u32) -> Val {
    match table {
        Val::Rows { from, n: rows } => if rows == n && from == 2 * off && (from == 0 || old
            == Val::Of(Op::Logits { upto: from, k }, seq![x])) {
            Val::Of(Op::Logits { upto: from + rows, k }, seq![x])
        } else {
            Val::Junk
        },
        _ => Val::Junk,
    }
}

/// A product with a chunk of the output table.
pub open spec fn table_step(s: State, p: PassModel) -> State {
    let y = bound(p, 2, 2);
    s.insert(
        y,
        match (given(p, 3, 3), given(p, 4, 30)) {
            (
                Some(Uniform::GemvBf16 { n_rows, k_elems, w_row_words, groups }),
                Some(Uniform::PkOff { dst_word_off }),
            ) => if p.pipe is GemvPk || p.pipe is LmHeadSg {
                if w_row_words == k_elems / 2 && groups.invocations == n_rows && p.grid
                    == Grid::OneD(groups) {
                    logits_more(
                        s[y],
                        s[bound(p, 1, 1)],
                        s[bound(p, 0, 0)],
                        n_rows,
                        dst_word_off,
                        k_elems,
                    )
                } else {
                    Val::Junk
                }
            } else {
                Val::Junk
            },
            _ => Val::Junk,
        },
    )
}

pub open spec fn head_step(s: State, p: PassModel) -> State {
    match p.pipe {
        Pipe::LmHeadI8 => {
            let y = bound(p, 3, 3);
            s.insert(
                y,
                match (bound(p, 0, 0), bound(p, 1, 1), given(p, 4, 4)) {
                    (
                        Buf::LmI8Weight(c),
                        Buf::LmI8Scales(d),
                        Some(Uniform::LmI8 { n_rows, k_elems, groups, dst_word_off }),
                    ) => if c == d && groups.invocations == n_rows && p.grid == Grid::OneD(groups) {
                        logits_more(
                            s[y],
                            s[bound(p, 2, 2)],
                            s[Buf::LmI8Weight(c)],
                            n_rows,
                            dst_word_off,
                            k_elems,
                        )
                    } else {
                        Val::Junk
                    },
                    _ => Val::Junk,
                },
            )
        },
        Pipe::Softcap | Pipe::CastF32 => s.insert(
            bound(p, 2, 4),
            match given(p, 1, 3) {
                Some(Uniform::Scale { n, n_words, cap, .. }) => if n_words == n / 2 && covers(
                    p.grid,
                    n_words as int,
                ) {
                    Val::Of(
                        if p.pipe is Softcap {
                            Op::Capped { n, cap }
                        } else {
                            Op::Plain { n }
                        },
                        seq![s[bound(p, 0, 0)]],
                    )
                } else {
                    Val::Junk
                },
                _ => Val::Junk,
            },
        ),
        Pipe::ArgmaxCapStage1 => {
            let l = match given(p, 4, 67) {
                Some(Uniform::ArgmaxCap { n, cap }) => Val::Of(
                    Op::Capped { n, cap },
                    seq![s[bound(p, 0, 65)]],
                ),
                _ => Val::Junk,
            };
            let best = match given(p, 4, 67) {
                Some(Uniform::ArgmaxCap { n, .. }) => Val::Of(Op::Best { rows: 1, n }, seq![l]),
                _ => Val::Junk,
            };
            s.insert(bound(p, 1, 66), l).insert(bound(p, 2, 55), best).insert(bound(p, 3, 56), best)
        },
        Pipe::ArgmaxStage1 => {
            let best = match (given(p, 3, 58), p.grid) {
                (Some(Uniform::ArgmaxRows { rows, n }), Grid::Dims(_, y, z)) => if y == rows && z
                    == 1 {
                    Val::Of(Op::Best { rows, n }, seq![s[bound(p, 0, 54)]])
                } else {
                    Val::Junk
                },
                _ => Val::Junk,
            };
            s.insert(bound(p, 1, 55), best).insert(bound(p, 2, 56), best)
        },
        Pipe::ArgmaxStage2 => s.insert(
            bound(p, 2, 57),
            match (s[bound(p, 0, 55)], given(p, 3, 58)) {
                (
                    Val::Of(Op::Best { rows, n }, args),
                    Some(Uniform::ArgmaxRows { rows: r, n: k }),
                ) => if s[bound(p, 1, 56)] == s[bound(p, 0, 55)] && rows == r && n == k && one_each(
                    p.grid,
                    rows as int,
                ) {
                    Val::Of(Op::Token { rows, n }, args)
                } else {
                    Val::Junk
                },
                _ => Val::Junk,
            },
        ),
        Pipe::VerifySmk => s.insert(
            bound(p, 2, 2),
            match (s[bound(p, 0, 0)], given(p, 3, 3)) {
                (
                    Val::Rows { from, n },
                    Some(Uniform::Smk { n_rows, k_elems, row_words, groups, m_live }),
                ) => if n == n_rows && row_words == k_elems / 2 && groups.invocations == n_rows
                    && p.grid == Grid::OneD(groups) {
                    Val::Of(
                        Op::SomeLogits { from, n, k: k_elems, rows: m_live },
                        seq![s[bound(p, 1, 1)]],
                    )
                } else {
                    Val::Junk
                },
                _ => Val::Junk,
            },
        ),
        Pipe::VerifyCap => {
            let y = bound(p, 1, 1);
            s.insert(
                y,
                match (s[bound(p, 0, 0)], given(p, 2, 2)) {
                    (
                        Val::Of(Op::SomeLogits { from, n, k, rows }, args),
                        Some(
                            Uniform::VerifyCap { n_rows, row_off, vocab, m, cap, inv_cap, softcap },
                        ),
                    ) => {
                        let by = if softcap == 1 {
                            Some((cap, inv_cap))
                        } else {
                            None
                        };
                        if from == row_off && n == n_rows && rows == m && covers(
                            p.grid,
                            m * n_rows,
                        ) && (from == 0 || s[y] == Val::Of(
                            Op::RowLogits { upto: from, k, rows, vocab, cap: by },
                            args,
                        )) {
                            Val::Of(
                                Op::RowLogits { upto: from + n, k, rows, vocab, cap: by },
                                args,
                            )
                        } else {
                            Val::Junk
                        }
                    },
                    _ => Val::Junk,
                },
            )
        },
        _ => s,
    }
}

pub open spec fn other_step(s: State, p: PassModel, m: int) -> State {
    match p.pipe {
        Pipe::TensorOpsPk => tensor_step(s, p, false, m),
        Pipe::TensorOpsPk3 => tensor_step(s, p, true, m),
        Pipe::Rms => s.insert(
            bound(p, 2, 2),
            match given(p, 3, 3) {
                Some(Uniform::Rms { batch, .. }) => if covers(p.grid, batch as int) {
                    norm_by(given(p, 3, 3), s[bound(p, 0, 0)], s[bound(p, 1, 1)])
                } else {
                    Val::Junk
                },
                _ => Val::Junk,
            },
        ),
        Pipe::RmsRes => {
            let u = given(p, 4, 4);
            let r = sum_by(u, s[bound(p, 1, 1)], s[bound(p, 0, 0)], m);
            s.insert(bound(p, 1, 1), r).insert(
                bound(p, 3, 3),
                if one_each(p.grid, m) {
                    norm_by(u, r, s[bound(p, 2, 2)])
                } else {
                    Val::Junk
                },
            )
        },
        Pipe::ResAdd => s.insert(
            bound(p, 2, 2),
            match given(p, 3, 3) {
                Some(Uniform::Scale { n, n_words, scale, .. }) => if 2 * n_words == n && covers(
                    p.grid,
                    n_words as int,
                ) {
                    sum(s[bound(p, 0, 0)], s[bound(p, 1, 1)], n, scale)
                } else {
                    Val::Junk
                },
                _ => Val::Junk,
            },
        ),
        Pipe::FncA => {
            let u = given(p, 5, 5);
            let d = norm_by(u, s[bound(p, 0, 0)], s[bound(p, 2, 2)]);
            let r = sum_by(u, s[bound(p, 1, 1)], d, m);
            s.insert(bound(p, 1, 1), r).insert(
                bound(p, 4, 4),
                if covers(p.grid, m) {
                    norm_by(u, r, s[bound(p, 3, 3)])
                } else {
                    Val::Junk
                },
            )
        },
        Pipe::FncB => {
            let u = given(p, 4, 5);
            let d = norm_by(u, s[bound(p, 0, 0)], s[bound(p, 2, 2)]);
            s.insert(
                bound(p, 3, 4),
                if covers(p.grid, m) {
                    sum_by(u, s[bound(p, 1, 1)], d, m)
                } else {
                    Val::Junk
                },
            )
        },
        Pipe::FncC => {
            let u = given(p, 5, 5);
            let d = norm_by(u, s[bound(p, 0, 0)], s[bound(p, 2, 2)]);
            let r = sum_by(u, s[bound(p, 1, 1)], d, m);
            s.insert(
                bound(p, 4, 4),
                if covers(p.grid, m) {
                    r
                } else {
                    Val::Junk
                },
            ).insert(bound(p, 6, 6), norm_by(u, r, s[bound(p, 3, 3)]))
        },
        Pipe::Scale => s.insert(
            bound(p, 1, 2),
            match given(p, 2, 3) {
                Some(Uniform::Scale { n, n_words, scale, .. }) => if 2 * n_words == n && covers(
                    p.grid,
                    n_words as int,
                ) {
                    Val::Of(Op::Scale { n, by: scale }, seq![s[bound(p, 0, 0)]])
                } else {
                    Val::Junk
                },
                _ => Val::Junk,
            },
        ),
        Pipe::Axpby => s.insert(
            bound(p, 2, 2),
            match given(p, 3, 3) {
                Some(Uniform::Axpby { n_words, sa, sb }) => if covers(p.grid, n_words as int) {
                    Val::Of(
                        Op::Mix { words: n_words, a: sa, b: sb },
                        seq![s[bound(p, 0, 0)], s[bound(p, 1, 1)]],
                    )
                } else {
                    Val::Junk
                },
                _ => Val::Junk,
            },
        ),
        Pipe::Gather | Pipe::Mk(false, MkPipe::Gather) => s.insert(
            bound(p, 9, 9),
            lookup(p, s[bound(p, 8, 8)], m),
        ),
        Pipe::GeluEven => s.insert(
            bound(p, 1, 4),
            match given(p, 2, 5) {
                Some(Uniform::Gelu { inter, inter_words, rows, tot_pairs }) => if inter_words
                    == inter / 2 && rows == m && tot_pairs == m * inter {
                    Val::Of(Op::Gelu { inter, rows }, seq![s[bound(p, 0, 3)]])
                } else {
                    Val::Junk
                },
                _ => Val::Junk,
            },
        ),
        Pipe::GateMul | Pipe::Mk(false, MkPipe::GateMul) => s.insert(
            bound(p, 2, 2),
            match given(p, 3, 3) {
                Some(Uniform::GateMul { n_words, pli_word_off, tok_words, pli_stride }) => if n_words
                    == m * tok_words && pli_word_off + tok_words <= pli_stride && covers(
                    p.grid,
                    n_words as int,
                ) {
                    Val::Of(
                        Op::Gated { words: n_words },
                        seq![
                            s[bound(p, 0, 0)],
                            Val::Of(
                                Op::Piece { from: pli_word_off, words: tok_words, row: pli_stride },
                                seq![s[bound(p, 1, 1)]],
                            ),
                        ],
                    )
                } else {
                    Val::Junk
                },
                _ => Val::Junk,
            },
        ),
        Pipe::FacQ => s.insert(
            bound(p, 5, 6),
            turn_by(
                given(p, 6, 9),
                head_norm_by(given(p, 6, 9), p.grid, s[bound(p, 0, 0)], s[bound(p, 1, 1)]),
                s[bound(p, 2, 2)],
                s[bound(p, 3, 3)],
                s[bound(p, 4, 4)],
            ),
        ),
        Pipe::FacK => put(
            s,
            given(p, 8, 9),
            bound(p, 6, 7),
            bound(p, 7, 8),
            turn_by(
                given(p, 8, 9),
                head_norm_by(given(p, 8, 9), p.grid, s[bound(p, 0, 0)], s[bound(p, 1, 1)]),
                s[bound(p, 2, 2)],
                s[bound(p, 3, 3)],
                s[bound(p, 4, 4)],
            ),
            s[bound(p, 5, 5)],
        ),
        Pipe::FacV => put(
            s,
            given(p, 5, 9),
            bound(p, 3, 7),
            bound(p, 4, 8),
            head_norm_by(given(p, 5, 9), p.grid, s[bound(p, 0, 0)], s[bound(p, 1, 1)]),
            s[bound(p, 2, 5)],
        ),
        Pipe::RopeF32 => s.insert(
            bound(p, 5, 6),
            turn_by(
                given(p, 4, 5),
                s[bound(p, 0, 0)],
                s[bound(p, 1, 2)],
                s[bound(p, 2, 3)],
                s[bound(p, 3, 4)],
            ),
        ),
        Pipe::Rope => s.insert(
            bound(p, 1, 1),
            turn_by(
                given(p, 5, 5),
                s[bound(p, 0, 0)],
                s[bound(p, 2, 2)],
                s[bound(p, 3, 3)],
                s[bound(p, 4, 4)],
            ),
        ),
        Pipe::KvQuant => match given(p, 4, 4) {
            Some(Uniform::KvFp8 { n_tokens, n_kv, pairs, .. }) if n_tokens == m && pairs == m * n_kv
                && one_each(p.grid, pairs as int) => put(
                s,
                given(p, 4, 4),
                bound(p, 1, 1),
                bound(p, 2, 2),
                s[bound(p, 0, 0)],
                s[bound(p, 3, 3)],
            ),
            _ => s.insert(bound(p, 1, 1), Val::Junk).insert(bound(p, 2, 2), Val::Junk),
        },
        Pipe::Flash1(_)
        | Pipe::Flash1Fold(_)
        | Pipe::Flash1FoldDeep(_)
        | Pipe::Mk(false, MkPipe::Flash1)
        | Pipe::Mk(false, MkPipe::Flash1Qtile) => s.insert(
            bound(p, 4, 7),
            attend(
                s[bound(p, 0, 0)],
                s[bound(p, 2, 5)],
                s[bound(p, 3, 6)],
                s[bound(p, 5, 8)],
                s[bound(p, 6, 9)],
                s[bound(p, 1, 4)],
            ),
        ),
        // The second stage merges what the first left, by the same parameters.
        Pipe::Flash2Pk | Pipe::Flash2PkDeep | Pipe::Mk(false, MkPipe::Flash2Pk) => s.insert(
            bound(p, 0, 3),
            match s[bound(p, 2, 7)] {
                Val::Of(Op::Attend, args) if args[5] == s[bound(p, 1, 4)] => s[bound(p, 2, 7)],
                _ => Val::Junk,
            },
        ),
        Pipe::TensorOpsAttn | Pipe::TensorOpsAttnWide => s.insert(
            bound(p, 5, 5),
            attend(
                s[bound(p, 0, 0)],
                s[bound(p, 1, 1)],
                s[bound(p, 2, 2)],
                s[bound(p, 3, 3)],
                s[bound(p, 4, 4)],
                s[bound(p, 6, 6)],
            ),
        ),
        Pipe::LoraWiden => s.insert(
            bound(p, 1, 1),
            match given(p, 2, 2) {
                Some(Uniform::LoraCvt { width, wide_row_elems, wide_col_off, .. }) => beside(
                    s[bound(p, 1, 1)],
                    s[bound(p, 0, 0)],
                    wide_col_off,
                    width,
                    wide_row_elems,
                ),
                _ => Val::Junk,
            },
        ),
        Pipe::LoraFused => s.insert(
            bound(p, 3, 3),
            match given(p, 5, 5) {
                Some(u) => Val::Of(
                    Op::Adapt { by: u },
                    seq![
                        s[bound(p, 3, 3)],
                        s[bound(p, 0, 0)],
                        s[bound(p, 1, 1)],
                        s[bound(p, 2, 2)],
                        s[bound(p, 4, 4)],
                    ],
                ),
                None => Val::Junk,
            },
        ),
        Pipe::LoraRepack => s.insert(
            bound(p, 0, 0),
            match given(p, 2, 2) {
                Some(Uniform::LoraCvt { width, wide_row_elems, wide_col_off, .. }) => Val::Of(
                    Op::Columns { at: wide_col_off, width, row: wide_row_elems },
                    seq![s[bound(p, 1, 1)]],
                ),
                _ => Val::Junk,
            },
        ),
        _ => s,
    }
}

/// Columns beside those that end where they begin.
pub open spec fn beside(old: Val, seg: Val, at: u32, width: u32, row: u32) -> Val {
    if at == 0 {
        Val::Of(Op::Beside { at, width, row }, seq![seg])
    } else {
        match old {
            Val::Of(Op::Beside { at: a, width: w, row: r }, _) if a + w == at && r == row => Val::Of(
                Op::Beside { at, width, row },
                seq![old, seg],
            ),
            _ => Val::Junk,
        }
    }
}

/// The chunk that binding `i` holds of a table.
pub open spec fn chunk_at(p: PassModel, i: int, embed: bool) -> Option<usize> {
    match (embed, bound(p, i, i as u32)) {
        (true, Buf::EmbedChunk(c)) => Some(c),
        (false, Buf::PleChunk(c)) => Some(c),
        _ => None,
    }
}

/// The rows of a table, whose chunks are bound in order.
pub open spec fn lookup(p: PassModel, tokens: Val, m: int) -> Val {
    let embed = bound(p, 0, 0) is EmbedChunk;
    match given(p, 10, 10) {
        Some(Uniform::Gather { rows_per_chunk, row_words, total_rows, n_chunks }) => if one_each(
            p.grid,
            m,
        ) && n_chunks <= 8 && forall|i: int|
            0 <= i < n_chunks ==> #[trigger] chunk_at(p, i, embed) == Some(i as usize) {
            Val::Of(
                Op::Lookup {
                    embed,
                    row_words,
                    rows: total_rows,
                    chunk: rows_per_chunk,
                    chunks: n_chunks,
                    tokens: m as u32,
                },
                seq![tokens],
            )
        } else {
            Val::Junk
        },
        _ => Val::Junk,
    }
}

/// What the buffers hold after a list of passes.
pub open spec fn run(s: State, ps: Seq<PassModel>, m: int) -> State
    decreases ps.len(),
{
    if ps.len() == 0 {
        s
    } else {
        step(run(s, ps.drop_last(), m), ps.last(), m)
    }
}

/// What the buffers hold after the passes of the list that grows.
#[verifier::opaque]
pub open spec fn held(s: State, l: Lists, m: int) -> State {
    run(s, target_list(l), m)
}

pub proof fn lemma_held_pushed(s: State, l: Lists, m: int, pipe: Pipe, binds: Seq<Bind>, grid: Grid)
    ensures
        held(s, l.pushed(pipe, binds, grid), m) == step(
            held(s, l, m),
            PassModel { pipe, binds, grid },
            m,
        ),
        l.pushed(pipe, binds, grid).target == l.target,
{
    reveal(held);
    let p = PassModel { pipe, binds, grid };
    assert(target_list(l).push(p).drop_last() =~= target_list(l));
    assert(target_list(l.pushed(pipe, binds, grid)) == target_list(l).push(p));
}

} // verus!
