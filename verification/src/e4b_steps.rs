//! What each piece of an E4B pass list leaves in the buffers.
use vstd::prelude::*;
use crate::e4b_emit::{
    gemv_pipe, min_int, mk_rows, one_d, operand_binds, rms_params, split_params, Dst, Lists,
    Pipelines, Proj, Target, Toolkit,
};
use crate::e4b_ir::{at, param, Buf, Grid, Part, PassModel, Pipe, Uniform, W4Variant};
use crate::e4b_values::{
    bound, held, lemma_held_pushed, norm, operands, product, product_form, product_step, rows_of,
    site_of, split_into, step, sum, Form, Op, State, Val,
};

verus! {

pub open spec fn k_of(proj: Proj) -> usize {
    match proj {
        Proj::Bf16 { k, .. } => k,
        Proj::I8 { k, .. } => k,
        Proj::W4 { k, .. } => k,
    }
}

/// The extents that the device holds of a matrix are those of the projection.
pub open spec fn has_shape(s: State, proj: Proj) -> bool {
    s[Buf::Proj(proj.spec_site(), Part::Params)] == Val::Shape {
        n: proj.spec_n() as int,
        k: k_of(proj) as int,
    }
}

/// `m` rows of a projection's input and output are whole words and fit the kernels' counts.
pub open spec fn rows_sized(proj: Proj, m: int) -> bool {
    &&& proj.spec_n() % 2 == 0
    &&& k_of(proj) % 2 == 0
    &&& m * proj.spec_n() <= u32::MAX
    &&& m * k_of(proj) <= u32::MAX
    &&& 0 < m <= u32::MAX
    &&& proj.spec_n() <= u32::MAX
    &&& k_of(proj) <= u32::MAX
}

pub proof fn lemma_rms(
    s: State,
    l: Lists,
    m: int,
    x: Buf,
    w: Buf,
    y: Buf,
    batch: int,
    hidden: usize,
    eps: u32,
)
    requires
        0 <= batch <= u32::MAX,
        hidden <= u32::MAX,
    ensures
        ({
            let h = held(s, l, m);
            let t = l.rms(x, w, y, batch, hidden, eps);
            &&& held(s, t, m) == h.insert(y, norm(h[x], h[w], hidden as u32, batch as u32, eps))
            &&& t.target == l.target
        }),
{
    let t = l.rms(x, w, y, batch, hidden, eps);
    let binds = seq![
        at(0, x, 0),
        at(1, w, 0),
        at(2, y, 0),
        param(3, rms_params(batch, hidden, eps)),
    ];
    lemma_held_pushed(s, l, m, Pipe::Rms, binds, one_d(batch, 1));
    reveal(step);
}

pub proof fn lemma_resadd(s: State, l: Lists, m: int, a: Buf, b: Buf, y: Buf, n: int, scale: u32)
    requires
        0 <= n <= u32::MAX,
        n % 2 == 0,
    ensures
        ({
            let h = held(s, l, m);
            let t = l.resadd(a, b, y, n, scale);
            &&& held(s, t, m) == h.insert(y, sum(h[a], h[b], n as u32, scale))
            &&& t.target == l.target
        }),
{
    let t = l.resadd(a, b, y, n, scale);
    let p = match l.target {
        Target::Decode => t.decode.last(),
        Target::Prefill => t.prefill.last(),
        Target::Verify => t.verify.last(),
    };
    lemma_held_pushed(s, l, m, p.pipe, p.binds, p.grid);
    assert(t == l.pushed(p.pipe, p.binds, p.grid));
    reveal(step);
}

/// Where a product goes in one piece.
pub open spec fn packed_at(dst: Dst, y: Buf, n: usize) -> bool {
    dst == Dst::Packed { y, word_off: 0, y_stride_words: (n / 2) as usize }
}

/// Where a product's rows go as queries, keys and values.
pub open spec fn split_at(
    dst: Dst,
    q: Buf,
    k: Buf,
    v: Buf,
    q_rows: usize,
    kv_rows: usize,
    v_off: usize,
    n: usize,
) -> bool {
    &&& dst == Dst::SplitQkv { q, k, v, q_rows, kv_rows, v_off }
    &&& q_rows + kv_rows <= n
    &&& v_off + kv_rows <= n
    &&& q != k && q != v && k != v
}

proof fn lemma_gemv_packed(s: State, l: Lists, pl: Pipelines, proj: Proj, x: Buf, dst: Dst, y: Buf)
    requires
        packed_at(dst, y, proj.spec_n()),
        has_shape(held(s, l, 1), proj),
    ensures
        ({
            let h = held(s, l, 1);
            let t = l.gemv(pl, proj, x, dst);
            &&& held(s, t, 1) == h.insert(
                y,
                product(proj.spec_site(), 0, proj.spec_n() as int, h[x]),
            )
            &&& t.target == l.target
        }),
{
    let tail = seq![
        param(30, Uniform::PkOff { dst_word_off: 0 }),
    ];
    lemma_held_pushed(
        s,
        l,
        1,
        gemv_pipe(pl, proj, false),
        operand_binds(proj, x, 0, dst) + tail,
        Grid::OneD(proj.spec_groups()),
    );
    reveal(step);
}

proof fn lemma_gemv_split(
    s: State,
    l: Lists,
    pl: Pipelines,
    proj: Proj,
    x: Buf,
    dst: Dst,
    q: Buf,
    k: Buf,
    v: Buf,
    q_rows: usize,
    kv_rows: usize,
    v_off: usize,
)
    requires
        split_at(dst, q, k, v, q_rows, kv_rows, v_off, proj.spec_n()),
        has_shape(held(s, l, 1), proj),
        proj.spec_n() <= u32::MAX,
    ensures
        ({
            let h = held(s, l, 1);
            let t = l.gemv(pl, proj, x, dst);
            let site = proj.spec_site();
            &&& held(s, t, 1) == h.insert(q, product(site, 0, q_rows as int, h[x])).insert(
                k,
                product(site, q_rows as int, kv_rows as int, h[x]),
            ).insert(v, product(site, v_off as int, kv_rows as int, h[x]))
            &&& t.target == l.target
        }),
{
    let tail = seq![
        at(31, q, 0),
        at(32, k, 0),
        at(33, v, 0),
        param(34, split_params(q_rows, kv_rows, v_off)),
    ];
    let binds = operand_binds(proj, x, 0, dst) + tail;
    let site = proj.spec_site();
    let w = at(0, Buf::Proj(site, Part::Weight), 0);
    let pr = Buf::Proj(site, Part::Params);
    let sc = Buf::Proj(site, Part::Scales);
    match proj {
        Proj::Bf16 { .. } => {
            assert(binds =~= seq![
                w,
                at(1, x, 0),
                at(3, pr, 0),
                tail[0],
                tail[1],
                tail[2],
                tail[3],
            ]);
        },
        Proj::I8 { .. } => {
            assert(binds =~= seq![
                w,
                at(1, x, 0),
                at(3, pr, 0),
                at(22, sc, 0),
                tail[0],
                tail[1],
                tail[2],
                tail[3],
            ]);
        },
        Proj::W4 { variant: W4Variant::Block, .. } => {
            assert(binds =~= seq![
                w,
                at(1, sc, 0),
                at(2, x, 0),
                at(4, pr, 0),
                tail[0],
                tail[1],
                tail[2],
                tail[3],
            ]);
        },
        Proj::W4 { .. } => {
            assert(binds =~= seq![
                at(1, sc, 0),
                at(4, pr, 0),
                at(6, Buf::Proj(site, Part::Weight), 0),
                at(7, x, 0),
                tail[0],
                tail[1],
                tail[2],
                tail[3],
            ]);
        },
    }
    let p = PassModel {
        pipe: gemv_pipe(pl, proj, true),
        binds,
        grid: Grid::OneD(proj.spec_groups()),
    };
    lemma_held_pushed(s, l, 1, p.pipe, p.binds, p.grid);
    let form = match proj {
        Proj::Bf16 { .. } => Form::Plain,
        Proj::I8 { .. } => Form::Scaled,
        Proj::W4 { variant: W4Variant::Block, .. } => Form::Blocks,
        Proj::W4 { .. } => Form::Lanes,
    };
    let o = operands(form, true);
    assert(product_form(p.pipe) == Some((form, true, false)));
    assert(site_of(p, o) == Some(site));
    let qr = q_rows as u32;
    let kr = kv_rows as u32;
    assert(0 * (qr as int / 2) * 4 == 0 && 0 * (kr as int / 2) * 4 == 0) by (nonlinear_arith);
    assert(bound(p, o.x.0, o.x.1) == x);
    assert(bound(p, o.rest, 31) == q);
    assert(bound(p, o.rest + 1, 32) == k);
    assert(bound(p, o.rest + 2, 33) == v);
    let h = held(s, l, 1);
    assert(product_step(h, p, form, true, false, 1) == split_into(
        h,
        site,
        h[x],
        q,
        k,
        v,
        qr,
        kr,
        v_off as u32,
        0,
        1,
        1,
    ));
    reveal(step);
}

/// Whether a buffer holds the rows before `row0` of a value.
pub open spec fn begun(old: Val, v: Val, row0: int) -> bool {
    row0 > 0 ==> old == Val::Of(Op::First { rows: row0 }, seq![v])
}

proof fn lemma_row_offset(row0: int, m: int, stride: int, n: int)
    requires
        0 <= row0 <= m,
        0 <= stride,
        2 * stride == n,
        m * n <= u32::MAX,
    ensures
        0 <= row0 * stride <= u32::MAX,
        0 <= row0 * stride * 4 <= u64::MAX,
{
    assert(0 <= row0 * stride <= m * n) by (nonlinear_arith)
        requires
            0 <= row0 <= m,
            0 <= stride,
            2 * stride == n,
    ;
}

/// One slab of rows of a product in one piece.
proof fn lemma_slab_packed(
    s: State,
    l: Lists,
    kit: Toolkit,
    proj: Proj,
    x: Buf,
    row0: int,
    rows: int,
    m: int,
    x_stride: int,
    dst: Dst,
    y: Buf,
)
    requires
        packed_at(dst, y, proj.spec_n()),
        has_shape(held(s, l, m), proj),
        rows_sized(proj, m),
        2 * x_stride == k_of(proj),
        0 <= row0,
        0 < rows,
        row0 + rows <= m,
    ensures
        ({
            let h = held(s, l, m);
            let t = l.gemv_mk_slab(kit, proj, x, row0, rows, x_stride, dst);
            let v = product(proj.spec_site(), 0, proj.spec_n() as int, h[x]);
            &&& held(s, t, m) == h.insert(y, rows_of(h[y], v, row0, rows, m))
            &&& t.target == l.target
        }),
{
    let n = proj.spec_n() as int;
    lemma_row_offset(row0, m, n / 2, n);
    lemma_row_offset(row0, m, x_stride, k_of(proj) as int);
    let t = l.gemv_mk_slab(kit, proj, x, row0, rows, x_stride, dst);
    let p = match l.target {
        Target::Decode => t.decode.last(),
        Target::Prefill => t.prefill.last(),
        Target::Verify => t.verify.last(),
    };
    lemma_held_pushed(s, l, m, p.pipe, p.binds, p.grid);
    assert(t == l.pushed(p.pipe, p.binds, p.grid));
    reveal(step);
}

proof fn lemma_slabs_packed(
    s: State,
    l: Lists,
    kit: Toolkit,
    proj: Proj,
    x: Buf,
    row0: int,
    m: int,
    x_stride: int,
    dst: Dst,
    y: Buf,
)
    requires
        packed_at(dst, y, proj.spec_n()),
        has_shape(held(s, l, m), proj),
        rows_sized(proj, m),
        2 * x_stride == k_of(proj),
        0 <= row0 < m,
        kit.lim.slab_rows > 0,
        x != y,
        y != Buf::Proj(proj.spec_site(), Part::Params),
        begun(
            held(s, l, m)[y],
            product(proj.spec_site(), 0, proj.spec_n() as int, held(s, l, m)[x]),
            row0,
        ),
    ensures
        ({
            let h = held(s, l, m);
            let t = l.gemv_mk_from(kit, proj, x, row0, m, x_stride, dst);
            let v = product(proj.spec_site(), 0, proj.spec_n() as int, h[x]);
            &&& held(s, t, m) == h.insert(y, v)
            &&& t.target == l.target
        }),
    decreases m - row0,
{
    let h = held(s, l, m);
    let v = product(proj.spec_site(), 0, proj.spec_n() as int, h[x]);
    let rows = min_int(kit.lim.slab_rows as int, m - row0);
    let l1 = l.gemv_mk_slab(kit, proj, x, row0, rows, x_stride, dst);
    lemma_slab_packed(s, l, kit, proj, x, row0, rows, m, x_stride, dst, y);
    if row0 + rows < m {
        lemma_slabs_packed(s, l1, kit, proj, x, row0 + rows, m, x_stride, dst, y);
        assert(held(s, l1, m).insert(y, v) =~= h.insert(y, v));
    } else {
        assert(l1.gemv_mk_from(kit, proj, x, row0 + rows, m, x_stride, dst) == l1);
    }
}

/// One slab of rows of a product split into queries, keys and values.
proof fn lemma_slab_split(
    s: State,
    l: Lists,
    kit: Toolkit,
    proj: Proj,
    x: Buf,
    row0: int,
    rows: int,
    m: int,
    x_stride: int,
    dst: Dst,
    q: Buf,
    k: Buf,
    v: Buf,
    q_rows: usize,
    kv_rows: usize,
    v_off: usize,
)
    requires
        split_at(dst, q, k, v, q_rows, kv_rows, v_off, proj.spec_n()),
        has_shape(held(s, l, m), proj),
        rows_sized(proj, m),
        2 * x_stride == k_of(proj),
        0 <= row0,
        0 < rows,
        row0 + rows <= m,
    ensures
        ({
            let h = held(s, l, m);
            let t = l.gemv_mk_slab(kit, proj, x, row0, rows, x_stride, dst);
            let site = proj.spec_site();
            &&& held(s, t, m) == h.insert(
                q,
                rows_of(h[q], product(site, 0, q_rows as int, h[x]), row0, rows, m),
            ).insert(
                k,
                rows_of(
                    h[k],
                    product(site, q_rows as int, kv_rows as int, h[x]),
                    row0,
                    rows,
                    m,
                ),
            ).insert(
                v,
                rows_of(
                    h[v],
                    product(site, v_off as int, kv_rows as int, h[x]),
                    row0,
                    rows,
                    m,
                ),
            )
            &&& t.target == l.target
        }),
{
    let n = proj.spec_n() as int;
    lemma_row_offset(row0, m, x_stride, k_of(proj) as int);
    assert(0 <= row0 * (q_rows as int / 2) <= m * n && 0 <= row0 * (kv_rows as int / 2) <= m * n)
        by (nonlinear_arith)
        requires
            0 <= row0 <= m,
            0 <= q_rows as int / 2 <= n,
            0 <= kv_rows as int / 2 <= n,
    ;
    let t = l.gemv_mk_slab(kit, proj, x, row0, rows, x_stride, dst);
    let p = match l.target {
        Target::Decode => t.decode.last(),
        Target::Prefill => t.prefill.last(),
        Target::Verify => t.verify.last(),
    };
    lemma_held_pushed(s, l, m, p.pipe, p.binds, p.grid);
    assert(t == l.pushed(p.pipe, p.binds, p.grid));
    reveal(step);
}

proof fn lemma_slabs_split(
    s: State,
    l: Lists,
    kit: Toolkit,
    proj: Proj,
    x: Buf,
    row0: int,
    m: int,
    x_stride: int,
    dst: Dst,
    q: Buf,
    k: Buf,
    v: Buf,
    q_rows: usize,
    kv_rows: usize,
    v_off: usize,
)
    requires
        split_at(dst, q, k, v, q_rows, kv_rows, v_off, proj.spec_n()),
        has_shape(held(s, l, m), proj),
        rows_sized(proj, m),
        2 * x_stride == k_of(proj),
        0 <= row0 < m,
        kit.lim.slab_rows > 0,
        x != q && x != k && x != v,
        q != Buf::Proj(proj.spec_site(), Part::Params),
        k != Buf::Proj(proj.spec_site(), Part::Params),
        v != Buf::Proj(proj.spec_site(), Part::Params),
        ({
            let h = held(s, l, m);
            let site = proj.spec_site();
            &&& begun(h[q], product(site, 0, q_rows as int, h[x]), row0)
            &&& begun(h[k], product(site, q_rows as int, kv_rows as int, h[x]), row0)
            &&& begun(h[v], product(site, v_off as int, kv_rows as int, h[x]), row0)
        }),
    ensures
        ({
            let h = held(s, l, m);
            let t = l.gemv_mk_from(kit, proj, x, row0, m, x_stride, dst);
            let site = proj.spec_site();
            &&& held(s, t, m) == h.insert(q, product(site, 0, q_rows as int, h[x])).insert(
                k,
                product(site, q_rows as int, kv_rows as int, h[x]),
            ).insert(v, product(site, v_off as int, kv_rows as int, h[x]))
            &&& t.target == l.target
        }),
    decreases m - row0,
{
    let h = held(s, l, m);
    let site = proj.spec_site();
    let rows = min_int(kit.lim.slab_rows as int, m - row0);
    let l1 = l.gemv_mk_slab(kit, proj, x, row0, rows, x_stride, dst);
    lemma_slab_split(
        s,
        l,
        kit,
        proj,
        x,
        row0,
        rows,
        m,
        x_stride,
        dst,
        q,
        k,
        v,
        q_rows,
        kv_rows,
        v_off,
    );
    let h1 = held(s, l1, m);
    if row0 + rows < m {
        lemma_slabs_split(
            s,
            l1,
            kit,
            proj,
            x,
            row0 + rows,
            m,
            x_stride,
            dst,
            q,
            k,
            v,
            q_rows,
            kv_rows,
            v_off,
        );
        let a = product(site, 0, q_rows as int, h[x]);
        let b = product(site, q_rows as int, kv_rows as int, h[x]);
        let c = product(site, v_off as int, kv_rows as int, h[x]);
        assert(h1.insert(q, a).insert(k, b).insert(v, c) =~= h.insert(q, a).insert(k, b).insert(
            v,
            c,
        ));
    } else {
        assert(l1.gemv_mk_from(kit, proj, x, row0 + rows, m, x_stride, dst) == l1);
    }
}

/// Whether the kernels of the list take all `m` rows.
pub open spec fn takes_rows(kit: Toolkit, l: Lists, m: int) -> bool {
    m == 1 || (kit.lim.slab_rows > 0 && mk_rows(kit.pl, l.target, m) == m)
}

/// A projection of `m` rows leaves their products.
pub proof fn lemma_project(
    s: State,
    l: Lists,
    kit: Toolkit,
    proj: Proj,
    x: Buf,
    m: int,
    x_stride: int,
    dst: Dst,
    y: Buf,
)
    requires
        packed_at(dst, y, proj.spec_n()),
        has_shape(held(s, l, m), proj),
        rows_sized(proj, m),
        takes_rows(kit, l, m),
        2 * x_stride == k_of(proj),
        x != y,
        !(y is Proj),
    ensures
        ({
            let h = held(s, l, m);
            let t = l.project(kit, proj, x, m, x_stride, dst);
            &&& held(s, t, m) == h.insert(
                y,
                product(proj.spec_site(), 0, proj.spec_n() as int, h[x]),
            )
            &&& t.target == l.target
        }),
{
    if m == 1 {
        lemma_gemv_packed(s, l, kit.pl, proj, x, dst, y);
    } else {
        lemma_slabs_packed(s, l, kit, proj, x, 0, m, x_stride, dst, y);
    }
}

/// A projection of `m` rows leaves their queries, keys and values.
pub proof fn lemma_project_split(
    s: State,
    l: Lists,
    kit: Toolkit,
    proj: Proj,
    x: Buf,
    m: int,
    x_stride: int,
    dst: Dst,
    q: Buf,
    k: Buf,
    v: Buf,
    q_rows: usize,
    kv_rows: usize,
    v_off: usize,
)
    requires
        split_at(dst, q, k, v, q_rows, kv_rows, v_off, proj.spec_n()),
        has_shape(held(s, l, m), proj),
        rows_sized(proj, m),
        takes_rows(kit, l, m),
        2 * x_stride == k_of(proj),
        x != q && x != k && x != v,
        !(q is Proj) && !(k is Proj) && !(v is Proj),
    ensures
        ({
            let h = held(s, l, m);
            let t = l.project(kit, proj, x, m, x_stride, dst);
            let site = proj.spec_site();
            &&& held(s, t, m) == h.insert(q, product(site, 0, q_rows as int, h[x])).insert(
                k,
                product(site, q_rows as int, kv_rows as int, h[x]),
            ).insert(v, product(site, v_off as int, kv_rows as int, h[x]))
            &&& t.target == l.target
        }),
{
    if m == 1 {
        lemma_gemv_split(s, l, kit.pl, proj, x, dst, q, k, v, q_rows, kv_rows, v_off);
    } else {
        lemma_slabs_split(
            s,
            l,
            kit,
            proj,
            x,
            0,
            m,
            x_stride,
            dst,
            q,
            k,
            v,
            q_rows,
            kv_rows,
            v_off,
        );
    }
}

} // verus!
