//! Grid positions, king-move (Chebyshev distance 1) adjacency, and the
//! row-major mapping between positions and flat cell indices.

use vstd::prelude::*;

verus! {

/// A cell position on the grid: `x` is the column, `y` is the row.
#[derive(Clone, Copy, Debug, PartialEq, Eq, Structural)]
pub struct Pos {
    pub x: usize,
    pub y: usize,
}

/// `(x, y)` lies inside a `width` x `height` grid.
pub open spec fn in_bounds(width: int, height: int, x: int, y: int) -> bool {
    0 <= x < width && 0 <= y < height
}

/// `(ax, ay)` and `(bx, by)` are distinct cells at Chebyshev distance at
/// most 1: king-move adjacency.
pub open spec fn adjacent(ax: int, ay: int, bx: int, by: int) -> bool {
    &&& !(ax == bx && ay == by)
    &&& -1 <= ax - bx <= 1
    &&& -1 <= ay - by <= 1
}

/// Row-major flat index of `(x, y)` on a grid of the given width.
pub open spec fn cell_idx(width: int, x: int, y: int) -> int {
    y * width + x
}

impl Pos {
    pub open spec fn spec_in_bounds(self, width: int, height: int) -> bool {
        in_bounds(width, height, self.x as int, self.y as int)
    }

    pub open spec fn spec_idx(self, width: int) -> int {
        cell_idx(width, self.x as int, self.y as int)
    }
}

/// An in-bounds position has a flat index within the grid's cell count.
pub proof fn lemma_idx_bounds(width: int, height: int, x: int, y: int)
    requires
        in_bounds(width, height, x, y),
    ensures
        0 <= cell_idx(width, x, y) < width * height,
{
    assert(0 <= y * width + x < width * height) by (nonlinear_arith)
        requires
            0 <= x < width,
            0 <= y < height,
    ;
}

/// Distinct in-bounds positions have distinct flat indices.
pub proof fn lemma_idx_injective(width: int, height: int, x1: int, y1: int, x2: int, y2: int)
    requires
        in_bounds(width, height, x1, y1),
        in_bounds(width, height, x2, y2),
        !(x1 == x2 && y1 == y2),
    ensures
        cell_idx(width, x1, y1) != cell_idx(width, x2, y2),
{
    assert(y1 * width + x1 != y2 * width + x2) by (nonlinear_arith)
        requires
            0 <= x1 < width,
            0 <= x2 < width,
            0 <= y1 < height,
            0 <= y2 < height,
            !(x1 == x2 && y1 == y2),
    ;
}

/// Row-major order: an in-bounds position on an earlier row, or further
/// left on the same row, has the smaller flat index.
pub proof fn lemma_idx_ordered(width: int, height: int, x1: int, y1: int, x2: int, y2: int)
    requires
        in_bounds(width, height, x1, y1),
        in_bounds(width, height, x2, y2),
        y1 < y2 || (y1 == y2 && x1 < x2),
    ensures
        cell_idx(width, x1, y1) < cell_idx(width, x2, y2),
{
    assert(y1 * width + x1 < y2 * width + x2) by (nonlinear_arith)
        requires
            0 <= x1 < width,
            0 <= x2 < width,
            0 <= y1,
            0 <= y2,
            y1 < y2 || (y1 == y2 && x1 < x2),
    ;
}

/// Every flat index below `width * height` decomposes into an in-bounds
/// position whose index it is.
pub proof fn lemma_idx_decompose(width: int, height: int, i: int)
    requires
        1 <= width,
        0 <= i < width * height,
    ensures
        in_bounds(width, height, i % width, i / width),
        cell_idx(width, i % width, i / width) == i,
{
    vstd::arithmetic::div_mod::lemma_fundamental_div_mod(i, width);
    vstd::arithmetic::div_mod::lemma_mod_bound(i, width);
    vstd::arithmetic::div_mod::lemma_div_pos_is_pos(i, width);
    assert(i / width < height && (i / width) * width + i % width == i) by (nonlinear_arith)
        requires
            1 <= width,
            0 <= i < width * height,
            i == width * (i / width) + i % width,
            0 <= i % width < width,
    ;
}

} // verus!
