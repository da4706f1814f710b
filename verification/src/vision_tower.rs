//! The vision tower: how patches are pooled, which route an image takes, and what is read
//! from a checkpoint.
use vstd::prelude::*;
use crate::vision::{
    all_valid, clamped_id, detect_row_major_full_grid, every, full_grid_positions, grid_of,
    grid_place, grid_places, is_patch, position_ids, valid_patches, Gemma4VisionConfig,
    VisionConfigError,
};

verus! {

/// Why the tower cannot be loaded or run.
#[derive(Clone, Copy, Debug, PartialEq, Eq, Structural)]
pub enum VisionError {
    Config(VisionConfigError),
    /// A patch does not have the number of values that the configuration gives it.
    PatchPixels,
    /// There is not one pair of coordinates for each patch.
    PositionIds,
    /// A grid is empty or not made of whole pooling cells.
    Grid,
    /// The pixels do not fill the planned grid.
    Plan,
    /// No patch is real.
    NoPatches,
    NoTower,
    NoProjection,
    ProjectionShape,
    TableShape,
}

/// Division that drops the fraction on both sides of zero.
pub open spec fn toward_zero(x: int, k: int) -> int {
    if x >= 0 {
        x / k
    } else {
        -((-x) / k)
    }
}

fn div_toward_zero(x: i64, k: i64) -> (r: i64)
    requires
        0 < k,
    ensures
        r == toward_zero(x as int, k as int),
{
    if x >= 0 {
        let q: u64 = x as u64 / k as u64;
        assert(q <= x) by (nonlinear_arith)
            requires
                q == x as int / k as int,
                x >= 0,
                k > 0,
        ;
        return q as i64;
    }
    if k == 1 {
        return x;
    }
    let m: u64 = if x == i64::MIN {
        9223372036854775808
    } else {
        (-x) as u64
    };
    let q: u64 = m / k as u64;
    assert(q * 2 <= m) by (nonlinear_arith)
        requires
            q == m as int / k as int,
            k >= 2,
    ;
    -(q as i64)
}

/// The pooling cell of a patch, by row and column.
pub open spec fn cell_of(p: (i64, i64), k: int) -> (int, int) {
    (toward_zero(p.1 as int, k), toward_zero(p.0 as int, k))
}

/// Rows first, then columns.
pub open spec fn cell_before(a: (int, int), b: (int, int)) -> bool {
    a.0 < b.0 || (a.0 == b.0 && a.1 < b.1)
}

/// The real ones among the first `n` patches that lie in a cell, in order.
pub open spec fn cell_patches(
    positions: Seq<(i64, i64)>,
    valid: Seq<bool>,
    k: int,
    cell: (int, int),
    n: int,
) -> Seq<u32>
    decreases n,
{
    if n <= 0 {
        Seq::empty()
    } else {
        let s = cell_patches(positions, valid, k, cell, n - 1);
        if valid[n - 1] && cell_of(positions[n - 1], k) == cell {
            s.push((n - 1) as u32)
        } else {
            s
        }
    }
}

/// A pooling cell with the patches that are averaged in it.
pub struct PoolCell {
    pub row: i64,
    pub col: i64,
    pub patches: Vec<u32>,
}

impl PoolCell {
    pub open spec fn key(self) -> (int, int) {
        (self.row as int, self.col as int)
    }
}

/// Some real one among the first `n` patches lies in a cell.
pub open spec fn cell_used(
    positions: Seq<(i64, i64)>,
    valid: Seq<bool>,
    k: int,
    cell: (int, int),
    n: int,
) -> bool {
    exists|i: int| 0 <= i < n && #[trigger] valid[i] && cell_of(positions[i], k) == cell
}

pub open spec fn some_key(cells: Seq<PoolCell>, key: (int, int)) -> bool {
    exists|c: int| 0 <= c < cells.len() && (#[trigger] cells[c]).key() == key
}

/// `cells` are exactly the cells that the first `n` patches use, in order, each with its
/// patches.
pub open spec fn pools(
    cells: Seq<PoolCell>,
    positions: Seq<(i64, i64)>,
    valid: Seq<bool>,
    k: int,
    n: int,
) -> bool {
    &&& forall|a: int, b: int|
        0 <= a < b < cells.len() ==> cell_before((#[trigger] cells[a]).key(), (#[trigger] cells[b]).key())
    &&& forall|c: int|
        #![trigger cells[c]]
        0 <= c < cells.len() ==> cells[c].patches@ == cell_patches(
            positions,
            valid,
            k,
            cells[c].key(),
            n,
        ) && cells[c].patches@.len() > 0
    &&& forall|i: int|
        0 <= i < n && #[trigger] valid[i] ==> some_key(cells, cell_of(positions[i], k))
}

proof fn lemma_cell_patches(
    positions: Seq<(i64, i64)>,
    valid: Seq<bool>,
    k: int,
    cell: (int, int),
    n: int,
)
    ensures
        cell_patches(positions, valid, k, cell, n).len() > 0 ==> cell_used(positions, valid, k, cell, n),
    decreases n,
{
    if n > 0 {
        lemma_cell_patches(positions, valid, k, cell, n - 1);
        if valid[n - 1] && cell_of(positions[n - 1], k) == cell {
        } else if cell_patches(positions, valid, k, cell, n - 1).len() > 0 {
            let i = choose|i: int|
                0 <= i < n - 1 && #[trigger] valid[i] && cell_of(positions[i], k) == cell;
            assert(0 <= i < n && valid[i]);
        }
    }
}

proof fn lemma_skip(
    cells: Seq<PoolCell>,
    positions: Seq<(i64, i64)>,
    valid: Seq<bool>,
    k: int,
    n: int,
)
    requires
        0 <= n,
        pools(cells, positions, valid, k, n),
        !valid[n],
    ensures
        pools(cells, positions, valid, k, n + 1),
{
    assert forall|c: int| #![trigger cells[c]] 0 <= c < cells.len() implies cells[c].patches@
        == cell_patches(positions, valid, k, cells[c].key(), n + 1) by {
        assert(cell_patches(positions, valid, k, cells[c].key(), n + 1) == cell_patches(
            positions,
            valid,
            k,
            cells[c].key(),
            n,
        ));
    }
}

proof fn lemma_join(
    a: Seq<PoolCell>,
    b: Seq<PoolCell>,
    p: int,
    positions: Seq<(i64, i64)>,
    valid: Seq<bool>,
    k: int,
    n: int,
)
    requires
        0 <= n,
        pools(a, positions, valid, k, n),
        valid[n],
        0 <= p < a.len(),
        a[p].key() == cell_of(positions[n], k),
        b.len() == a.len(),
        forall|c: int| 0 <= c < a.len() && c != p ==> #[trigger] b[c] == a[c],
        b[p].key() == a[p].key(),
        b[p].patches@ == a[p].patches@.push(n as u32),
    ensures
        pools(b, positions, valid, k, n + 1),
{
    let new = cell_of(positions[n], k);
    assert forall|c: int| 0 <= c < b.len() implies (#[trigger] b[c]).key() == a[c].key() by {
    }
    assert forall|x: int, y: int| 0 <= x < y < b.len() implies cell_before(
        (#[trigger] b[x]).key(),
        (#[trigger] b[y]).key(),
    ) by {
        assert(cell_before(a[x].key(), a[y].key()));
    }
    assert forall|c: int| #![trigger b[c]] 0 <= c < b.len() implies b[c].patches@ == cell_patches(
        positions,
        valid,
        k,
        b[c].key(),
        n + 1,
    ) && b[c].patches@.len() > 0 by {
        assert(a[c].patches@ == cell_patches(positions, valid, k, a[c].key(), n));
        if c < p {
            assert(cell_before(a[c].key(), a[p].key()));
        }
        if c > p {
            assert(cell_before(a[p].key(), a[c].key()));
        }
    }
    assert forall|i: int| 0 <= i < n + 1 && #[trigger] valid[i] implies some_key(
        b,
        cell_of(positions[i], k),
    ) by {
        if i == n {
            assert(b[p].key() == new);
        } else {
            assert(some_key(a, cell_of(positions[i], k)));
            let c = choose|c: int|
                0 <= c < a.len() && (#[trigger] a[c]).key() == cell_of(positions[i], k);
            assert(b[c].key() == a[c].key());
        }
    }
}

proof fn lemma_open(
    a: Seq<PoolCell>,
    b: Seq<PoolCell>,
    p: int,
    positions: Seq<(i64, i64)>,
    valid: Seq<bool>,
    k: int,
    n: int,
)
    requires
        0 <= n,
        pools(a, positions, valid, k, n),
        valid[n],
        0 <= p <= a.len(),
        forall|c: int|
            0 <= c < p ==> cell_before((#[trigger] a[c]).key(), cell_of(positions[n], k)),
        p < a.len() ==> cell_before(cell_of(positions[n], k), a[p].key()),
        b.len() == a.len() + 1,
        forall|c: int| 0 <= c < p ==> #[trigger] b[c] == a[c],
        forall|c: int| p < c < b.len() ==> #[trigger] b[c] == a[c - 1],
        b[p].key() == cell_of(positions[n], k),
        b[p].patches@ == seq![n as u32],
    ensures
        pools(b, positions, valid, k, n + 1),
{
    let new = cell_of(positions[n], k);
    assert forall|c: int| p <= c < a.len() implies cell_before(new, (#[trigger] a[c]).key()) by {
        if c > p {
            assert(cell_before(a[p].key(), a[c].key()));
        }
    }
    assert(!some_key(a, new)) by {
        if some_key(a, new) {
            let c = choose|c: int| 0 <= c < a.len() && (#[trigger] a[c]).key() == new;
            if c < p {
                assert(cell_before(a[c].key(), new));
            } else {
                assert(cell_before(new, a[c].key()));
            }
        }
    }
    assert(cell_patches(positions, valid, k, new, n).len() == 0) by {
        lemma_cell_patches(positions, valid, k, new, n);
        if cell_used(positions, valid, k, new, n) {
            let i = choose|i: int|
                0 <= i < n && #[trigger] valid[i] && cell_of(positions[i], k) == new;
            assert(some_key(a, cell_of(positions[i], k)));
        }
    }
    assert(cell_patches(positions, valid, k, new, n + 1) =~= seq![n as u32]);
    assert forall|x: int, y: int| 0 <= x < y < b.len() implies cell_before(
        (#[trigger] b[x]).key(),
        (#[trigger] b[y]).key(),
    ) by {
        if y < p {
            assert(cell_before(a[x].key(), a[y].key()));
        } else if y == p {
            assert(cell_before(a[x].key(), new));
        } else if x < p {
            assert(cell_before(a[x].key(), new));
            assert(cell_before(new, a[y - 1].key()));
        } else if x == p {
            assert(cell_before(new, a[y - 1].key()));
        } else {
            assert(cell_before(a[x - 1].key(), a[y - 1].key()));
        }
    }
    assert forall|c: int| #![trigger b[c]] 0 <= c < b.len() implies b[c].patches@ == cell_patches(
        positions,
        valid,
        k,
        b[c].key(),
        n + 1,
    ) && b[c].patches@.len() > 0 by {
        if c != p {
            let d = if c < p {
                c
            } else {
                c - 1
            };
            assert(b[c] == a[d]);
            assert(a[d].key() != new);
            assert(a[d].patches@ == cell_patches(positions, valid, k, a[d].key(), n));
        }
    }
    assert forall|i: int| 0 <= i < n + 1 && #[trigger] valid[i] implies some_key(
        b,
        cell_of(positions[i], k),
    ) by {
        if i == n {
            assert(b[p].key() == new);
        } else {
            assert(some_key(a, cell_of(positions[i], k)));
            let c = choose|c: int|
                0 <= c < a.len() && (#[trigger] a[c]).key() == cell_of(positions[i], k);
            if c < p {
                assert(b[c] == a[c]);
            } else {
                assert(b[c + 1] == a[c]);
            }
        }
    }
}

/// Groups the real patches by the pooling cell that they lie in, row by row.
pub fn pool_cells(positions: &[(i64, i64)], valid: &[bool], pooling_kernel_size: usize) -> (r: Result<
    Vec<PoolCell>,
    VisionError,
>)
    requires
        positions@.len() <= valid@.len(),
        positions@.len() <= u32::MAX,
        0 < pooling_kernel_size <= i64::MAX,
    ensures
        match r {
            Ok(cells) => pools(
                cells@,
                positions@,
                valid@,
                pooling_kernel_size as int,
                positions@.len() as int,
            ) && cells@.len() > 0,
            Err(e) => e == VisionError::NoPatches && forall|i: int|
                0 <= i < positions@.len() ==> !#[trigger] valid@[i],
        },
{
    let k: i64 = pooling_kernel_size as i64;
    let mut cells: Vec<PoolCell> = Vec::new();
    let mut i: usize = 0;
    while i < positions.len()
        invariant
            i <= positions@.len() <= valid@.len(),
            positions@.len() <= u32::MAX,
            0 < k,
            pools(cells@, positions@, valid@, k as int, i as int),
        decreases positions@.len() - i,
    {
        if valid[i] {
            let row: i64 = div_toward_zero(positions[i].1, k);
            let col: i64 = div_toward_zero(positions[i].0, k);
            let ghost new = cell_of(positions@[i as int], k as int);
            let mut p: usize = 0;
            while p < cells.len() && (cells[p].row < row || (cells[p].row == row && cells[p].col
                < col))
                invariant
                    p <= cells@.len(),
                    new == (row as int, col as int),
                    forall|c: int| 0 <= c < p ==> cell_before((#[trigger] cells@[c]).key(), new),
                decreases cells@.len() - p,
            {
                p = p + 1;
            }
            let ghost before = cells@;
            if p < cells.len() && cells[p].row == row && cells[p].col == col {
                cells[p].patches.push(i as u32);
                proof {
                    lemma_join(before, cells@, p as int, positions@, valid@, k as int, i as int);
                }
            } else {
                let mut patches: Vec<u32> = Vec::new();
                patches.push(i as u32);
                assert(patches@ =~= seq![i as u32]);
                cells.insert(p, PoolCell { row, col, patches });
                proof {
                    lemma_open(before, cells@, p as int, positions@, valid@, k as int, i as int);
                }
            }
        } else {
            proof {
                lemma_skip(cells@, positions@, valid@, k as int, i as int);
            }
        }
        i = i + 1;
    }
    if cells.len() == 0 {
        assert forall|j: int| 0 <= j < positions@.len() implies !#[trigger] valid@[j] by {
            if valid@[j] {
                assert(some_key(cells@, cell_of(positions@[j], k as int)));
            }
        }
        return Err(VisionError::NoPatches);
    }
    Ok(cells)
}

proof fn lemma_listed(
    positions: Seq<(i64, i64)>,
    valid: Seq<bool>,
    k: int,
    cell: (int, int),
    n: int,
    i: int,
)
    requires
        0 <= n <= u32::MAX,
        0 <= i <= u32::MAX,
    ensures
        cell_patches(positions, valid, k, cell, n).contains(i as u32) <==> (i < n && valid[i]
            && cell_of(positions[i], k) == cell),
    decreases n,
{
    let s = cell_patches(positions, valid, k, cell, n);
    if n > 0 {
        let t = cell_patches(positions, valid, k, cell, n - 1);
        lemma_listed(positions, valid, k, cell, n - 1, i);
        if valid[n - 1] && cell_of(positions[n - 1], k) == cell {
            assert(s == t.push((n - 1) as u32));
            if i == n - 1 {
                assert(s[t.len() as int] == i as u32);
            } else if t.contains(i as u32) {
                let j = choose|j: int| 0 <= j < t.len() && t[j] == i as u32;
                assert(s[j] == i as u32);
            } else if s.contains(i as u32) {
                let j = choose|j: int| 0 <= j < s.len() && s[j] == i as u32;
                assert(t[j] == i as u32);
            }
        }
    }
}

/// Every real patch is averaged in exactly one cell, the one that it lies in, and no other
/// patch is averaged at all.
pub proof fn law_pooled_once(
    cells: Seq<PoolCell>,
    positions: Seq<(i64, i64)>,
    valid: Seq<bool>,
    k: int,
    i: int,
)
    requires
        pools(cells, positions, valid, k, positions.len() as int),
        0 <= i < positions.len() <= u32::MAX,
    ensures
        forall|c: int|
            0 <= c < cells.len() ==> ((#[trigger] cells[c]).patches@.contains(i as u32) <==> valid[i]
                && cells[c].key() == cell_of(positions[i], k)),
        valid[i] ==> some_key(cells, cell_of(positions[i], k)),
        forall|c: int, d: int|
            #![trigger cells[c], cells[d]]
            0 <= c < cells.len() && 0 <= d < cells.len() && cells[c].patches@.contains(i as u32)
                && cells[d].patches@.contains(i as u32) ==> c == d,
{
    assert forall|c: int| 0 <= c < cells.len() implies ((#[trigger] cells[c]).patches@.contains(
        i as u32,
    ) <==> valid[i] && cells[c].key() == cell_of(positions[i], k)) by {
        lemma_listed(positions, valid, k, cells[c].key(), positions.len() as int, i);
    }
    assert forall|c: int, d: int|
        #![trigger cells[c], cells[d]]
        0 <= c < cells.len() && 0 <= d < cells.len() && cells[c].patches@.contains(i as u32)
            && cells[d].patches@.contains(i as u32) implies c == d by {
        if c < d {
            assert(cell_before(cells[c].key(), cells[d].key()));
        }
        if d < c {
            assert(cell_before(cells[d].key(), cells[c].key()));
        }
    }
}

/// The cell that a patch of a whole grid is averaged in, when the grid is cut into squares
/// of `k` by `k` patches that are numbered row by row.
pub open spec fn grid_cell(w: int, k: int, i: int) -> int {
    (i / w / k) * (w / k) + i % w / k
}

/// Its place among the patches of that cell.
pub open spec fn grid_member(w: int, k: int, i: int) -> int {
    (i / w % k) * k + i % w % k
}

/// The numbers of a patch's cell and of its place in it, in a whole grid.
pub fn pool_full_grid(grid_w: usize, pooling_kernel_size: usize, patch: usize) -> (r: (usize, usize))
    requires
        0 < pooling_kernel_size <= grid_w,
    ensures
        r.0 == grid_cell(grid_w as int, pooling_kernel_size as int, patch as int),
        r.1 == grid_member(grid_w as int, pooling_kernel_size as int, patch as int),
{
    let k: usize = pooling_kernel_size;
    let y: usize = patch / grid_w;
    let x: usize = patch % grid_w;
    proof {
        let w = grid_w as int;
        let cw = w / k as int;
        let cy = y as int / k as int;
        let cx = x as int / k as int;
        let my = y as int % k as int;
        let mx = x as int % k as int;
        assert(y * w + x == patch) by (nonlinear_arith)
            requires
                y == patch as int / w,
                x == patch as int % w,
                w > 0,
        ;
        assert(cy * k + my == y) by (nonlinear_arith)
            requires
                cy == y as int / k as int,
                my == y as int % k as int,
                k > 0,
        ;
        assert(cx * k + mx == x) by (nonlinear_arith)
            requires
                cx == x as int / k as int,
                mx == x as int % k as int,
                k > 0,
        ;
        assert(cw * k <= w && cw >= 0) by (nonlinear_arith)
            requires
                cw == w / k as int,
                k > 0,
                w > 0,
        ;
        assert(cy >= 0 && cx >= 0 && 0 <= my < k && 0 <= mx < k) by (nonlinear_arith)
            requires
                cy == y as int / k as int,
                cx == x as int / k as int,
                my == y as int % k as int,
                mx == x as int % k as int,
                k > 0,
        ;
        assert(0 <= cy * cw && cy * cw + cx <= patch) by (nonlinear_arith)
            requires
                y * w + x == patch,
                cy * k + my == y,
                cx * k + mx == x,
                cw * k <= w,
                cw >= 0,
                cy >= 0,
                cx >= 0,
                my >= 0,
                mx >= 0,
                k >= 1,
        ;
        assert(0 <= my * k && my * k + mx <= patch) by (nonlinear_arith)
            requires
                y * w + x == patch,
                cy * k + my == y,
                cx * k + mx == x,
                k <= w,
                cy >= 0,
                cx >= 0,
                my >= 0,
                mx >= 0,
                k >= 1,
        ;
    }
    ((y / k) * (grid_w / k) + x / k, (y % k) * k + x % k)
}

proof fn lemma_cell_order(a: int, x: int, b: int, y: int, n: int)
    requires
        0 <= x < n,
        0 <= y < n,
    ensures
        (a * n + x < b * n + y) == (a < b || (a == b && x < y)),
        (a * n + x == b * n + y) == (a == b && x == y),
{
    if a < b {
        assert(a * n + n <= b * n) by (nonlinear_arith)
            requires
                a + 1 <= b,
                0 < n,
        ;
    } else if b < a {
        assert(b * n + n <= a * n) by (nonlinear_arith)
            requires
                b + 1 <= a,
                0 < n,
        ;
    }
}

proof fn lemma_column(x: int, w: int, k: int)
    requires
        0 < k,
        0 <= x < w,
        w % k == 0,
    ensures
        0 <= x / k < w / k,
{
    assert(0 <= x / k < w / k) by (nonlinear_arith)
        requires
            0 < k,
            0 <= x < w,
            w % k == 0,
    ;
}

/// The two ways of pooling agree on a whole grid: patches share a cell in one exactly if
/// they share one in the other, cells come in the same order, and so do the patches of a
/// cell.
pub proof fn law_pools_agree(w: int, h: int, k: int, i: int, j: int)
    requires
        0 < k,
        0 < w <= i64::MAX,
        0 < h <= i64::MAX,
        w % k == 0,
        0 <= i < w * h,
        0 <= j < w * h,
    ensures
        ({
            let p = grid_places(w, h);
            &&& (cell_of(p[i], k) == cell_of(p[j], k)) == (grid_cell(w, k, i) == grid_cell(w, k, j))
            &&& cell_before(cell_of(p[i], k), cell_of(p[j], k)) == (grid_cell(w, k, i) < grid_cell(
                w,
                k,
                j,
            ))
            &&& grid_cell(w, k, i) == grid_cell(w, k, j) ==> ((i < j) == (grid_member(w, k, i)
                < grid_member(w, k, j)))
        }),
{
    let p = grid_places(w, h);
    lemma_in_grid(w, h, i);
    lemma_in_grid(w, h, j);
    let (yi, xi) = (i / w, i % w);
    let (yj, xj) = (j / w, j % w);
    assert(p[i] == (xi as i64, yi as i64) && p[j] == (xj as i64, yj as i64));
    lemma_column(xi, w, k);
    lemma_column(xj, w, k);
    lemma_cell_order(yi / k, xi / k, yj / k, xj / k, w / k);
    lemma_split(yi, k);
    lemma_split(xi, k);
    lemma_split(yj, k);
    lemma_split(xj, k);
    lemma_cell_order(yi % k, xi % k, yj % k, xj % k, k);
    lemma_cell_order(yi, xi, yj, xj, w);
}

proof fn lemma_split(a: int, k: int)
    requires
        0 < k,
    ensures
        a == (a / k) * k + a % k,
        0 <= a % k < k,
{
    assert(a == (a / k) * k + a % k && 0 <= a % k < k) by (nonlinear_arith)
        requires
            0 < k,
    ;
}

proof fn lemma_in_grid(w: int, h: int, i: int)
    requires
        0 < w,
        0 <= i < w * h,
    ensures
        0 <= i / w < h,
        0 <= i % w < w,
        i == (i / w) * w + i % w,
{
    lemma_split(i, w);
    assert(0 <= i / w < h) by (nonlinear_arith)
        requires
            0 < w,
            0 <= i < w * h,
    ;
}

/// A whole grid of patches, with the table entries of their columns and rows.
pub struct FullGridPlan {
    pub grid_w: usize,
    pub grid_h: usize,
    pub x_ids: Vec<u32>,
    pub y_ids: Vec<u32>,
}

/// `ids` are the table entries of one coordinate of `positions`.
pub open spec fn ids_are(ids: Seq<u32>, coords: Seq<i64>, size: int) -> bool {
    &&& ids.len() == coords.len()
    &&& forall|i: int| 0 <= i < ids.len() ==> #[trigger] ids[i] == clamped_id(coords[i], size)
}

pub open spec fn columns(p: Seq<(i64, i64)>) -> Seq<i64> {
    Seq::new(p.len(), |i: int| p[i].0)
}

pub open spec fn rows(p: Seq<(i64, i64)>) -> Seq<i64> {
    Seq::new(p.len(), |i: int| p[i].1)
}

impl FullGridPlan {
    /// The plan of a grid against a table of `size` entries.
    pub open spec fn of(self, w: int, h: int, size: int) -> bool {
        &&& self.grid_w == w
        &&& self.grid_h == h
        &&& ids_are(self.x_ids@, columns(grid_places(w, h)), size)
        &&& ids_are(self.y_ids@, rows(grid_places(w, h)), size)
    }

    pub fn grid(&self) -> (r: (usize, usize))
        ensures
            r == (self.grid_w, self.grid_h),
    {
        (self.grid_w, self.grid_h)
    }

    pub fn num_patches(&self) -> (r: usize)
        requires
            self.grid_w * self.grid_h <= usize::MAX,
        ensures
            r == self.grid_w * self.grid_h,
    {
        self.grid_w * self.grid_h
    }
}

/// Zero is the only multiple of zero.
pub open spec fn multiple_of(n: int, k: int) -> bool {
    if k == 0 {
        n == 0
    } else {
        n % k == 0
    }
}

fn divides(k: usize, n: usize) -> (r: bool)
    ensures
        r == multiple_of(n as int, k as int),
{
    if k == 0 {
        n == 0
    } else {
        n % k == 0
    }
}

/// A grid that is not empty and is made of whole cells.
pub open spec fn pools_evenly(w: int, h: int, k: int) -> bool {
    w > 0 && h > 0 && multiple_of(w, k) && multiple_of(h, k)
}

/// How an image goes through the tower.
pub enum VisionRoute {
    /// The patches fill a grid, and cells are squares of it.
    FullGrid(FullGridPlan),
    /// Any other arrangement.
    Irregular(IrregularPlan),
}

/// Patches that fill no grid of whole cells.
pub struct IrregularPlan {
    /// Which patches are real; the others are hidden from attention and zeroed, but only
    /// if there are any.
    pub valid: Vec<bool>,
    pub masked: bool,
    pub x_ids: Vec<u32>,
    pub y_ids: Vec<u32>,
    pub cells: Vec<PoolCell>,
}

pub open spec fn valid_of(p: Seq<(i64, i64)>) -> Seq<bool> {
    Seq::new(p.len(), |i: int| is_patch(p[i]))
}

impl IrregularPlan {
    pub open spec fn of(self, p: Seq<(i64, i64)>, size: int, k: int) -> bool {
        &&& self.valid@ == valid_of(p)
        &&& self.masked == !all_valid(valid_of(p))
        &&& ids_are(self.x_ids@, columns(p), size)
        &&& ids_are(self.y_ids@, rows(p), size)
        &&& pools(self.cells@, p, valid_of(p), k, p.len() as int)
        &&& self.cells@.len() > 0
    }
}

/// The grid that an image is pooled on as a whole, if it is.
pub open spec fn whole_grid(p: Seq<(i64, i64)>, k: int) -> Option<(int, int)> {
    match grid_of(p, valid_of(p)) {
        Some((w, h)) => if multiple_of(w, k) && multiple_of(h, k) {
            Some((w, h))
        } else {
            None
        },
        None => None,
    }
}

impl Gemma4VisionConfig {
    /// The sizes that the tower computes with fit its integers.
    pub open spec fn fits(&self) -> bool {
        &&& self.patch_size * self.patch_size * 3 <= usize::MAX
        &&& 0 < self.position_embedding_size <= u32::MAX
        &&& self.pooling_kernel_size <= i64::MAX
    }

    /// Plans a whole grid.
    pub fn plan_full_grid(&self, grid_w: usize, grid_h: usize) -> (r: Result<FullGridPlan, VisionError>)
        requires
            self.fits(),
            grid_w * grid_h <= usize::MAX,
        ensures
            match r {
                Ok(p) => pools_evenly(
                    grid_w as int,
                    grid_h as int,
                    self.pooling_kernel_size as int,
                ) && p.of(grid_w as int, grid_h as int, self.position_embedding_size as int),
                Err(e) => e == VisionError::Grid && !pools_evenly(
                    grid_w as int,
                    grid_h as int,
                    self.pooling_kernel_size as int,
                ),
            },
    {
        let k: usize = self.pooling_kernel_size;
        if !(grid_w > 0 && grid_h > 0 && divides(k, grid_w) && divides(k, grid_h)) {
            return Err(VisionError::Grid);
        }
        let positions = full_grid_positions(grid_w, grid_h);
        let (x_ids, y_ids) = position_ids(positions.as_slice(), self.position_embedding_size);
        proof {
            lemma_ids(positions@, x_ids@, y_ids@, self.position_embedding_size as int);
        }
        Ok(FullGridPlan { grid_w, grid_h, x_ids, y_ids })
    }

    /// Checks the pixels that are to go through a planned grid: `n` patches of `pp` values.
    pub fn check_full_grid(&self, plan: &FullGridPlan, n: usize, pp: usize) -> (r: Result<
        (),
        VisionError,
    >)
        requires
            self.fits(),
            plan.grid_w * plan.grid_h <= usize::MAX,
        ensures
            r == if pp == self.patch_size * self.patch_size * 3 && n == plan.grid_w * plan.grid_h {
                Ok::<(), VisionError>(())
            } else {
                Err(VisionError::Plan)
            },
    {
        if !(pp == self.patch_pixels() && n == plan.num_patches()) {
            return Err(VisionError::Plan);
        }
        Ok(())
    }

    /// Checks the shapes of an image: `n` patches of `pp` values, and their positions.
    pub fn check_image(&self, n: usize, pp: usize, position_dims: &[usize]) -> (r: Result<
        (),
        VisionError,
    >)
        requires
            self.fits(),
        ensures
            r == if pp != self.patch_size * self.patch_size * 3 {
                Err::<(), VisionError>(VisionError::PatchPixels)
            } else if position_dims@ != seq![n, 2usize] {
                Err(VisionError::PositionIds)
            } else {
                Ok(())
            },
    {
        if pp != self.patch_pixels() {
            return Err(VisionError::PatchPixels);
        }
        if !(position_dims.len() == 2 && position_dims[0] == n && position_dims[1] == 2) {
            assert(position_dims@ != seq![n, 2usize]) by {
                if position_dims@ == seq![n, 2usize] {
                    assert(seq![n, 2usize].len() == 2);
                    assert(position_dims@[0] == n && position_dims@[1] == 2);
                }
            }
            return Err(VisionError::PositionIds);
        }
        assert(position_dims@ =~= seq![n, 2usize]);
        Ok(())
    }

    /// Chooses how an image goes through the tower.
    pub fn route(&self, positions: &[(i64, i64)]) -> (r: Result<VisionRoute, VisionError>)
        requires
            self.fits(),
            0 < self.pooling_kernel_size,
            positions@.len() <= u32::MAX,
        ensures
            match (r, whole_grid(positions@, self.pooling_kernel_size as int)) {
                (Ok(VisionRoute::FullGrid(p)), Some((w, h))) => p.of(
                    w,
                    h,
                    self.position_embedding_size as int,
                ),
                (Ok(VisionRoute::Irregular(p)), None) => p.of(
                    positions@,
                    self.position_embedding_size as int,
                    self.pooling_kernel_size as int,
                ),
                (Err(e), None) => e == VisionError::NoPatches && forall|i: int|
                    0 <= i < positions@.len() ==> !is_patch(#[trigger] positions@[i]),
                _ => false,
            },
    {
        let k: usize = self.pooling_kernel_size;
        let valid = valid_patches(positions);
        assert(valid@ == valid_of(positions@));
        let detected = detect_row_major_full_grid(positions, valid.as_slice());
        match detected {
            Some((w, h)) => {
                if divides(k, w) && divides(k, h) {
                    proof {
                        let n = positions@.len() as int;
                        assert(n == w * h) by {
                            assert(positions@ == grid_places(w as int, n / w as int));
                            assert(grid_places(w as int, h as int).len() == (w * h) as nat);
                        }
                        lemma_sides(w as int, h as int, n);
                    }
                    match self.plan_full_grid(w, h) {
                        Ok(p) => {
                            return Ok(VisionRoute::FullGrid(p));
                        },
                        Err(e) => {
                            assert(false);
                            return Err(e);
                        },
                    }
                }
            },
            None => {},
        }
        let (x_ids, y_ids) = position_ids(positions, self.position_embedding_size);
        proof {
            lemma_ids(positions@, x_ids@, y_ids@, self.position_embedding_size as int);
        }
        let masked = !every(valid.as_slice());
        match pool_cells(positions, valid.as_slice(), k) {
            Ok(cells) => Ok(
                VisionRoute::Irregular(IrregularPlan { valid, masked, x_ids, y_ids, cells }),
            ),
            Err(e) => {
                assert forall|i: int| 0 <= i < positions@.len() implies !is_patch(
                    #[trigger] positions@[i],
                ) by {
                    assert(!valid@[i]);
                }
                Err(e)
            },
        }
    }
}

proof fn lemma_ids(p: Seq<(i64, i64)>, xs: Seq<u32>, ys: Seq<u32>, size: int)
    requires
        xs.len() == p.len(),
        ys.len() == p.len(),
        forall|i: int|
            #![trigger p[i]]
            0 <= i < p.len() ==> xs[i] == clamped_id(p[i].0, size) && ys[i] == clamped_id(
                p[i].1,
                size,
            ),
    ensures
        ids_are(xs, columns(p), size),
        ids_are(ys, rows(p), size),
{
    assert forall|i: int| 0 <= i < xs.len() implies #[trigger] xs[i] == clamped_id(
        columns(p)[i],
        size,
    ) by {
        assert(p[i].0 == columns(p)[i]);
    }
    assert forall|i: int| 0 <= i < ys.len() implies #[trigger] ys[i] == clamped_id(
        rows(p)[i],
        size,
    ) by {
        assert(p[i].1 == rows(p)[i]);
    }
}

proof fn lemma_sides(w: int, h: int, n: int)
    requires
        n == w * h,
        0 < n <= u32::MAX,
        0 <= w,
        0 <= h,
    ensures
        0 < w <= n,
        0 < h <= n,
{
    assert(0 < w <= n && 0 < h <= n) by (nonlinear_arith)
        requires
            n == w * h,
            0 < n,
            0 <= w,
            0 <= h,
    ;
}

/// The whole grid route is the one that a whole grid of whole cells takes.
pub proof fn law_whole_grid_taken(w: int, h: int, k: int)
    requires
        0 < w <= i64::MAX,
        0 < h <= i64::MAX,
        multiple_of(w, k),
        multiple_of(h, k),
    ensures
        whole_grid(grid_places(w, h), k) == Some((w, h)),
{
    let p = grid_places(w, h);
    assert forall|i: int| 0 <= i < valid_of(p).len() implies #[trigger] valid_of(p)[i] by {
        lemma_in_grid(w, h, i);
        assert(p[i] == grid_place(w, i));
    }
    assert(w * h > 0) by (nonlinear_arith)
        requires
            w > 0,
            h > 0,
    ;
    crate::vision::law_grid_detected(p, valid_of(p), w, h);
}

} // verus!
