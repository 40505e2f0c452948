//! Coordinates on a row-major grid: indices, adjacency and the neighbours of a
//! cell.

use vstd::prelude::*;

verus! {

/// Whether `(x, y)` lies on a grid of `w` columns and `h` rows.
pub open spec fn in_grid(w: nat, h: nat, x: int, y: int) -> bool {
    0 <= x < w && 0 <= y < h
}

/// The row-major index of `(x, y)` on a grid of `w` columns.
pub open spec fn cell_index(w: nat, x: int, y: int) -> int {
    y * w + x
}

/// Whether two distinct positions differ by at most one in each axis.
pub open spec fn touching(x1: int, y1: int, x2: int, y2: int) -> bool {
    &&& (x1 != x2 || y1 != y2)
    &&& -1 <= x2 - x1 <= 1
    &&& -1 <= y2 - y1 <= 1
}

/// The neighbours of `(x, y)` found among the first `k` positions of the
/// three-by-three block around it, taken row by row; the centre is no
/// neighbour, and positions off the grid are left out.
pub open spec fn neighbors_upto(w: nat, h: nat, x: int, y: int, k: nat) -> Seq<(int, int)>
    decreases k,
{
    if k == 0 {
        Seq::empty()
    } else {
        let p = k - 1;
        let before = neighbors_upto(w, h, x, y, p as nat);
        let nx = x + p % 3 - 1;
        let ny = y + p / 3 - 1;
        if p != 4 && in_grid(w, h, nx, ny) {
            before.push((nx, ny))
        } else {
            before
        }
    }
}

/// The neighbours of `(x, y)` on the grid, row by row.
pub open spec fn neighbor_seq(w: nat, h: nat, x: int, y: int) -> Seq<(int, int)> {
    neighbors_upto(w, h, x, y, 9)
}

/// Machine coordinates as mathematical points.
pub open spec fn as_points(s: Seq<(usize, usize)>) -> Seq<(int, int)> {
    s.map_values(|p: (usize, usize)| (p.0 as int, p.1 as int))
}

/// An index of a position on the grid lies within the grid's area.
pub proof fn lemma_index_in_area(w: nat, h: nat, x: int, y: int)
    requires
        in_grid(w, h, x, y),
    ensures
        0 <= cell_index(w, x, y) < w * h,
        y * w + w <= w * h,
{
    assert(y * w + w <= h * w) by (nonlinear_arith)
        requires
            0 <= y < h,
            0 <= w,
    ;
    assert(0 <= y * w) by (nonlinear_arith)
        requires
            0 <= y,
            0 <= w,
    ;
    assert(h * w == w * h) by (nonlinear_arith);
}

/// Two positions of one grid that share an index are the same position.
pub proof fn lemma_index_injective(w: nat, x1: int, y1: int, x2: int, y2: int)
    requires
        0 <= x1 < w,
        0 <= x2 < w,
        cell_index(w, x1, y1) == cell_index(w, x2, y2),
    ensures
        x1 == x2,
        y1 == y2,
{
    if y1 < y2 {
        assert(y1 * w + w <= y2 * w) by (nonlinear_arith)
            requires
                y1 < y2,
                0 <= w,
        ;
    } else if y2 < y1 {
        assert(y2 * w + w <= y1 * w) by (nonlinear_arith)
            requires
                y2 < y1,
                0 <= w,
        ;
    }
}

/// The column and row of an index of the area, and that they give the index
/// back.
pub proof fn lemma_index_split(w: nat, h: nat, i: int)
    requires
        0 <= i < w * h,
    ensures
        in_grid(w, h, i % (w as int), i / (w as int)),
        cell_index(w, i % (w as int), i / (w as int)) == i,
{
    let wi = w as int;
    assert(wi > 0) by (nonlinear_arith)
        requires
            0 <= i < wi * h,
            0 <= wi,
            0 <= h,
    ;
    vstd::arithmetic::div_mod::lemma_fundamental_div_mod(i, wi);
    vstd::arithmetic::div_mod::lemma_mod_bound(i, wi);
    let q = i / wi;
    let r = i % wi;
    assert(wi * q == q * wi) by (nonlinear_arith);
    assert(0 <= q < h) by (nonlinear_arith)
        requires
            0 <= i < wi * h,
            i == q * wi + r,
            0 <= r < wi,
    ;
}

/// The column and row read off the index of a position are that position.
pub proof fn lemma_index_roundtrip(w: nat, x: int, y: int)
    requires
        0 <= x < w,
        0 <= y,
    ensures
        cell_index(w, x, y) % (w as int) == x,
        cell_index(w, x, y) / (w as int) == y,
{
    let wi = w as int;
    let i = cell_index(w, x, y);
    vstd::arithmetic::div_mod::lemma_fundamental_div_mod_converse(i, wi, y, x);
}

/// The neighbours of a cell are exactly the grid positions that touch it.
pub proof fn lemma_neighbors_touch(w: nat, h: nat, x: int, y: int, tx: int, ty: int)
    ensures
        neighbor_seq(w, h, x, y).contains((tx, ty)) <==> in_grid(w, h, tx, ty) && touching(
            x,
            y,
            tx,
            ty,
        ),
{
    lemma_neighbors_upto_contains(w, h, x, y, 9, tx, ty);
    if in_grid(w, h, tx, ty) && touching(x, y, tx, ty) {
        let p = (ty - y + 1) * 3 + (tx - x + 1);
        assert(block_position(w, h, x, y, p, tx, ty));
    }
}

/// Whether `(tx, ty)` is the neighbour at position `p` of the block around
/// `(x, y)`.
pub open spec fn block_position(w: nat, h: nat, x: int, y: int, p: int, tx: int, ty: int) -> bool {
    &&& 0 <= p < 9
    &&& p != 4
    &&& tx == x + p % 3 - 1
    &&& ty == y + p / 3 - 1
    &&& in_grid(w, h, tx, ty)
}

proof fn lemma_neighbors_upto_contains(w: nat, h: nat, x: int, y: int, k: nat, tx: int, ty: int)
    requires
        k <= 9,
    ensures
        neighbors_upto(w, h, x, y, k).contains((tx, ty)) <==> exists|p: int|
            p < k && #[trigger] block_position(w, h, x, y, p, tx, ty),
    decreases k,
{
    let s = neighbors_upto(w, h, x, y, k);
    if k == 0 {
        assert(!s.contains((tx, ty)));
    } else {
        let q = (k - 1) as nat;
        let before = neighbors_upto(w, h, x, y, q);
        lemma_neighbors_upto_contains(w, h, x, y, q, tx, ty);
        let nx = x + q % 3 - 1;
        let ny = y + q / 3 - 1;
        if q != 4 && in_grid(w, h, nx, ny) {
            assert(s == before.push((nx, ny)));
            if s.contains((tx, ty)) {
                let j = choose|j: int| 0 <= j < s.len() && s[j] == (tx, ty);
                if j < before.len() {
                    assert(before[j] == (tx, ty));
                    assert(before.contains((tx, ty)));
                } else {
                    assert(block_position(w, h, x, y, q as int, tx, ty));
                }
            }
            if exists|p: int| p < k && #[trigger] block_position(w, h, x, y, p, tx, ty) {
                let p = choose|p: int| p < k && #[trigger] block_position(w, h, x, y, p, tx, ty);
                if p < q {
                    let j = choose|j: int| 0 <= j < before.len() && before[j] == (tx, ty);
                    assert(s[j] == (tx, ty));
                } else {
                    assert(s[before.len() as int] == (tx, ty));
                }
            }
        } else {
            assert(s == before);
            if exists|p: int| p < k && #[trigger] block_position(w, h, x, y, p, tx, ty) {
                let p = choose|p: int| p < k && #[trigger] block_position(w, h, x, y, p, tx, ty);
                assert(p < q);
            }
        }
    }
}

/// The row-major index of `(x, y)` on a grid of `w` columns.
pub fn idx(w: usize, x: usize, y: usize) -> (i: usize)
    requires
        y * w + x <= usize::MAX,
    ensures
        i == cell_index(w as nat, x as int, y as int),
{
    assert(0 <= y * w) by (nonlinear_arith)
        requires
            0 <= y,
            0 <= w,
    ;
    y * w + x
}

/// `c + d - 1`, where that lies in `0..limit`.
fn shifted(c: usize, d: usize, limit: usize) -> (r: Option<usize>)
    requires
        d <= 2,
    ensures
        r == (if 0 <= c + d - 1 < limit {
            Some((c + d - 1) as usize)
        } else {
            None
        }),
{
    if d == 0 {
        if c > 0 && c - 1 < limit {
            Some(c - 1)
        } else {
            None
        }
    } else if d == 1 {
        if c < limit {
            Some(c)
        } else {
            None
        }
    } else {
        if c < limit && c + 1 < limit {
            Some(c + 1)
        } else {
            None
        }
    }
}

/// The up to eight positions around `(x, y)` that lie on a grid of `w`
/// columns and `h` rows, row by row.
pub fn neighbors(w: usize, h: usize, x: usize, y: usize) -> (out: Vec<(usize, usize)>)
    ensures
        as_points(out@) == neighbor_seq(w as nat, h as nat, x as int, y as int),
{
    let mut out: Vec<(usize, usize)> = Vec::with_capacity(8);
    let mut dy: usize = 0;
    while dy < 3
        invariant
            dy <= 3,
            as_points(out@) == neighbors_upto(
                w as nat,
                h as nat,
                x as int,
                y as int,
                (dy * 3) as nat,
            ),
        decreases 3 - dy,
    {
        let mut dx: usize = 0;
        while dx < 3
            invariant
                dy < 3,
                dx <= 3,
                as_points(out@) == neighbors_upto(
                    w as nat,
                    h as nat,
                    x as int,
                    y as int,
                    (dy * 3 + dx) as nat,
                ),
            decreases 3 - dx,
        {
            let ghost before = out@;
            if !(dx == 1 && dy == 1) {
                let nx = shifted(x, dx, w);
                let ny = shifted(y, dy, h);
                if let (Some(nx), Some(ny)) = (nx, ny) {
                    out.push((nx, ny));
                    assert(as_points(out@) == as_points(before).push((nx as int, ny as int)));
                }
            }
            dx += 1;
        }
        dy += 1;
    }
    out
}

} // verus!
