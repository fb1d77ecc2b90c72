//! The ground-truth board: mine placement and per-cell surrounding-mine
//! counts, fixed once construction is done.

use vstd::prelude::*;

use crate::counting::{b2i, count_matching};
use crate::geometry::{adjacent, cell_idx, in_bounds, Pos};

verus! {

/// One ground-truth cell: whether it hides a mine, and how many of its
/// king-move neighbours do.
#[derive(Clone, Copy, Debug, PartialEq, Eq, Structural)]
pub struct Cell {
    pub is_mine: bool,
    pub surrounding_mines: usize,
}

/// Whether the cell at `(x, y)` of the row-major grid `g` is a mine; false
/// off the grid.
pub open spec fn mine_at(g: Seq<Cell>, width: int, height: int, x: int, y: int) -> bool {
    &&& in_bounds(width, height, x, y)
    &&& 0 <= cell_idx(width, x, y) < g.len()
    &&& g[cell_idx(width, x, y)].is_mine
}

/// How many of the up-to-8 king-move neighbours of `(x, y)` are mines.
pub open spec fn neighbour_mines(g: Seq<Cell>, width: int, height: int, x: int, y: int) -> int {
    b2i(mine_at(g, width, height, x - 1, y - 1)) + b2i(mine_at(g, width, height, x, y - 1)) + b2i(
        mine_at(g, width, height, x + 1, y - 1),
    ) + b2i(mine_at(g, width, height, x - 1, y)) + b2i(mine_at(g, width, height, x + 1, y)) + b2i(
        mine_at(g, width, height, x - 1, y + 1),
    ) + b2i(mine_at(g, width, height, x, y + 1)) + b2i(mine_at(g, width, height, x + 1, y + 1))
}

/// The ground-truth grid for one game, immutable after construction.
#[derive(Clone, Debug)]
pub struct MinesweeperBoard {
    pub width: usize,
    pub height: usize,
    /// Row-major: the cell at `(x, y)` sits at index `y * width + x`.
    pub cells: Vec<Cell>,
    pub mines_count: usize,
}

impl MinesweeperBoard {
    pub open spec fn total(self) -> int {
        self.width * self.height
    }

    /// The stored count of the cell at `(x, y)` equals the number of its
    /// mine neighbours.
    pub open spec fn count_ok(self, x: int, y: int) -> bool {
        self.cells@[cell_idx(self.width as int, x, y)].surrounding_mines == neighbour_mines(
            self.cells@,
            self.width as int,
            self.height as int,
            x,
            y,
        )
    }

    pub open spec fn spec_mine_at(self, x: int, y: int) -> bool {
        mine_at(self.cells@, self.width as int, self.height as int, x, y)
    }

    /// The board invariant: positive geometry that fits the machine, a grid
    /// of exactly `width * height` cells, exactly `mines_count` of them
    /// mines (fewer than there are cells), and every cell's
    /// `surrounding_mines` equal to the number of its mine neighbours.
    pub open spec fn wf(self) -> bool {
        &&& 1 <= self.width
        &&& 1 <= self.height
        &&& self.total() <= isize::MAX
        &&& self.cells@.len() == self.total()
        &&& self.mines_count < self.total()
        &&& count_matching(self.cells@, |c: Cell| c.is_mine) == self.mines_count
        &&& forall|x: int, y: int|
            in_bounds(self.width as int, self.height as int, x, y) ==> #[trigger] self.count_ok(
                x,
                y,
            )
    }

    /// All in-bounds positions at Chebyshev distance 1 from `pos`, in
    /// row-major order of the surrounding window: each returned position is
    /// a distinct in-bounds king-move neighbour of `pos`, and every such
    /// neighbour is returned.
    pub fn neighbours(&self, pos: Pos) -> (r: Vec<Pos>)
        requires
            self.wf(),
        ensures
            forall|j: int|
                0 <= j < r@.len() ==> (#[trigger] r@[j]).spec_in_bounds(
                    self.width as int,
                    self.height as int,
                ) && adjacent(r@[j].x as int, r@[j].y as int, pos.x as int, pos.y as int),
            forall|j: int, k: int| 0 <= j < k < r@.len() ==> r@[j] != r@[k],
            forall|j: int, k: int|
                0 <= j < k < r@.len() ==> (#[trigger] r@[j]).spec_idx(self.width as int) < (
                #[trigger] r@[k]).spec_idx(self.width as int),
            forall|q: Pos|
                q.spec_in_bounds(self.width as int, self.height as int) && adjacent(
                    q.x as int,
                    q.y as int,
                    pos.x as int,
                    pos.y as int,
                ) ==> r@.contains(q),
            r@.len() <= 8,
    {
        let w = self.width;
        let h = self.height;
        let x = pos.x;
        let y = pos.y;
        let mut r: Vec<Pos> = Vec::new();
        if x >= 1 && y >= 1 && x - 1 < w && y - 1 < h {
            r.push(Pos { x: x - 1, y: y - 1 });
        }
        if x < w && y >= 1 && y - 1 < h {
            r.push(Pos { x, y: y - 1 });
        }
        if x < w - 1 && y >= 1 && y - 1 < h {
            r.push(Pos { x: x + 1, y: y - 1 });
        }
        if x >= 1 && x - 1 < w && y < h {
            r.push(Pos { x: x - 1, y });
        }
        if x < w - 1 && y < h {
            r.push(Pos { x: x + 1, y });
        }
        if x >= 1 && x - 1 < w && y < h - 1 {
            r.push(Pos { x: x - 1, y: y + 1 });
        }
        if x < w && y < h - 1 {
            r.push(Pos { x, y: y + 1 });
        }
        if x < w - 1 && y < h - 1 {
            r.push(Pos { x: x + 1, y: y + 1 });
        }
        proof {
            broadcast use vstd::seq_lib::lemma_seq_contains_after_push;

            assert forall|j: int, k: int| 0 <= j < k < r@.len() implies r@[j].spec_idx(
                w as int,
            ) < r@[k].spec_idx(w as int) by {
                let a = r@[j];
                let b = r@[k];
                assert(a.y < b.y || (a.y == b.y && a.x < b.x));
                crate::geometry::lemma_idx_ordered(
                    w as int,
                    h as int,
                    a.x as int,
                    a.y as int,
                    b.x as int,
                    b.y as int,
                );
            }
            assert forall|q: Pos|
                q.spec_in_bounds(w as int, h as int) && adjacent(
                    q.x as int,
                    q.y as int,
                    x as int,
                    y as int,
                ) implies r@.contains(q) by {
                let qx = q.x as int;
                let qy = q.y as int;
                assert(qx == x - 1 || qx == x || qx == x + 1);
                assert(qy == y - 1 || qy == y || qy == y + 1);
            }
        }
        r
    }

    /// Builds a board whose mines sit exactly at the given distinct
    /// row-major cell indices.
    #[verifier::rlimit(100)]
    pub fn from_mine_indices(width: usize, height: usize, mines: &Vec<usize>) -> (b:
        MinesweeperBoard)
        requires
            1 <= width,
            1 <= height,
            width * height <= isize::MAX,
            mines@.len() < width * height,
            forall|j: int| 0 <= j < mines@.len() ==> mines@[j] < width * height,
            forall|j: int, k: int| 0 <= j < k < mines@.len() ==> mines@[j] != mines@[k],
        ensures
            b.wf(),
            b.width == width,
            b.height == height,
            b.mines_count == mines@.len(),
            forall|i: int|
                0 <= i < b.cells@.len() ==> ((#[trigger] b.cells@[i]).is_mine <==> mines@.contains(
                    i as usize,
                )),
    {
        let total = width * height;
        let mut cells: Vec<Cell> = Vec::new();
        while cells.len() < total
            invariant
                cells@.len() <= total,
                forall|i: int|
                    0 <= i < cells@.len() ==> #[trigger] cells@[i] == (Cell {
                        is_mine: false,
                        surrounding_mines: 0,
                    }),
            decreases total - cells@.len(),
        {
            cells.push(Cell { is_mine: false, surrounding_mines: 0 });
        }
        proof {
            crate::counting::lemma_count_prefix_zero(
                cells@,
                |c: Cell| c.is_mine,
                cells@.len() as int,
            );
        }
        let mut k: usize = 0;
        while k < mines.len()
            invariant
                k <= mines@.len(),
                cells@.len() == total,
                total == width * height,
                mines@.len() < width * height,
                forall|j: int| 0 <= j < mines@.len() ==> mines@[j] < width * height,
                forall|j: int, j2: int| 0 <= j < j2 < mines@.len() ==> mines@[j] != mines@[j2],
                forall|i: int|
                    0 <= i < cells@.len() ==> ((#[trigger] cells@[i]).is_mine <==> exists|j: int|
                        0 <= j < k && mines@[j] == i),
                forall|i: int|
                    0 <= i < cells@.len() ==> (#[trigger] cells@[i]).surrounding_mines == 0,
                count_matching(cells@, |c: Cell| c.is_mine) == k,
            decreases mines@.len() - k,
        {
            let mi = mines[k];
            proof {
                assert(!cells@[mi as int].is_mine);
                crate::counting::lemma_count_update(
                    cells@,
                    |c: Cell| c.is_mine,
                    mi as int,
                    Cell { is_mine: true, surrounding_mines: 0 },
                );
            }
            cells[mi] = Cell { is_mine: true, surrounding_mines: 0 };
            k += 1;
        }
        let mut yy: usize = 0;
        while yy < height
            invariant
                yy <= height,
                cells@.len() == total,
                total == width * height,
                1 <= width,
                1 <= height,
                forall|i: int|
                    0 <= i < cells@.len() ==> ((#[trigger] cells@[i]).is_mine <==> mines@.contains(
                        i as usize,
                    )),
                count_matching(cells@, |c: Cell| c.is_mine) == mines@.len(),
                forall|a: int, b: int|
                    in_bounds(width as int, height as int, a, b) && b < yy ==> #[trigger] cells@[cell_idx(
                        width as int,
                        a,
                        b,
                    )].surrounding_mines == neighbour_mines(
                        cells@,
                        width as int,
                        height as int,
                        a,
                        b,
                    ),
            decreases height - yy,
        {
            let mut xx: usize = 0;
            while xx < width
                invariant
                    xx <= width,
                    yy < height,
                    cells@.len() == total,
                    total == width * height,
                    1 <= width,
                    1 <= height,
                    forall|i: int|
                        0 <= i < cells@.len() ==> ((#[trigger] cells@[i]).is_mine
                            <==> mines@.contains(i as usize)),
                    count_matching(cells@, |c: Cell| c.is_mine) == mines@.len(),
                    forall|a: int, b: int|
                        in_bounds(width as int, height as int, a, b) && (b < yy || (b == yy && a
                            < xx)) ==> #[trigger] cells@[cell_idx(
                            width as int,
                            a,
                            b,
                        )].surrounding_mines == neighbour_mines(
                            cells@,
                            width as int,
                            height as int,
                            a,
                            b,
                        ),
                decreases width - xx,
            {
                proof {
                    crate::geometry::lemma_idx_bounds(
                        width as int,
                        height as int,
                        xx as int,
                        yy as int,
                    );
                }
                let idx = yy * width + xx;
                let mut c: usize = 0;
                if xx >= 1 && yy >= 1 {
                    proof {
                        crate::geometry::lemma_idx_bounds(
                            width as int,
                            height as int,
                            xx - 1,
                            yy - 1,
                        );
                    }
                    if cells[(yy - 1) * width + (xx - 1)].is_mine {
                        c += 1;
                    }
                }
                if yy >= 1 {
                    proof {
                        crate::geometry::lemma_idx_bounds(width as int, height as int, xx as int, yy - 1);
                    }
                    if cells[(yy - 1) * width + xx].is_mine {
                        c += 1;
                    }
                }
                if xx + 1 < width && yy >= 1 {
                    proof {
                        crate::geometry::lemma_idx_bounds(width as int, height as int, xx + 1, yy - 1);
                    }
                    if cells[(yy - 1) * width + (xx + 1)].is_mine {
                        c += 1;
                    }
                }
                if xx >= 1 {
                    proof {
                        crate::geometry::lemma_idx_bounds(width as int, height as int, xx - 1, yy as int);
                    }
                    if cells[yy * width + (xx - 1)].is_mine {
                        c += 1;
                    }
                }
                if xx + 1 < width {
                    proof {
                        crate::geometry::lemma_idx_bounds(width as int, height as int, xx + 1, yy as int);
                    }
                    if cells[yy * width + (xx + 1)].is_mine {
                        c += 1;
                    }
                }
                if xx >= 1 && yy + 1 < height {
                    proof {
                        crate::geometry::lemma_idx_bounds(width as int, height as int, xx - 1, yy + 1);
                    }
                    if cells[(yy + 1) * width + (xx - 1)].is_mine {
                        c += 1;
                    }
                }
                if yy + 1 < height {
                    proof {
                        crate::geometry::lemma_idx_bounds(width as int, height as int, xx as int, yy + 1);
                    }
                    if cells[(yy + 1) * width + xx].is_mine {
                        c += 1;
                    }
                }
                if xx + 1 < width && yy + 1 < height {
                    proof {
                        crate::geometry::lemma_idx_bounds(width as int, height as int, xx + 1, yy + 1);
                    }
                    if cells[(yy + 1) * width + (xx + 1)].is_mine {
                        c += 1;
                    }
                }
                proof {
                    assert(c as int == neighbour_mines(
                        cells@,
                        width as int,
                        height as int,
                        xx as int,
                        yy as int,
                    ));
                }
                let ghost gpre = cells@;
                let cur = cells[idx];
                cells[idx] = Cell { is_mine: cur.is_mine, surrounding_mines: c };
                proof {
                    crate::counting::lemma_count_update(
                        gpre,
                        |cc: Cell| cc.is_mine,
                        idx as int,
                        Cell { is_mine: cur.is_mine, surrounding_mines: c },
                    );
                    lemma_nm_congruent(gpre, cells@, width as int, height as int);
                    assert forall|a: int, b: int|
                        in_bounds(width as int, height as int, a, b) && (b < yy || (b == yy && a
                            <= xx)) implies #[trigger] cells@[cell_idx(
                        width as int,
                        a,
                        b,
                    )].surrounding_mines == neighbour_mines(
                        cells@,
                        width as int,
                        height as int,
                        a,
                        b,
                    ) by {
                        if !(a == xx && b == yy) {
                            crate::geometry::lemma_idx_injective(
                                width as int,
                                height as int,
                                a,
                                b,
                                xx as int,
                                yy as int,
                            );
                            crate::geometry::lemma_idx_bounds(width as int, height as int, a, b);
                        }
                    }
                }
                xx += 1;
            }
            yy += 1;
        }
        MinesweeperBoard { width, height, cells, mines_count: mines.len() }
    }

    /// Creates a board of the given geometry with `mines` mines placed
    /// uniformly at random without replacement, drawn from `rng`.
    pub fn new(width: usize, height: usize, mines: usize, rng: &mut rand::rngs::StdRng) -> (b:
        MinesweeperBoard)
        requires
            1 <= width,
            1 <= height,
            width * height <= isize::MAX,
            mines < width * height,
        ensures
            b.wf(),
            b.width == width,
            b.height == height,
            b.mines_count == mines,
    {
        let total = width * height;
        let idxs = crate::rng::sample_indices(rng, total, mines);
        Self::from_mine_indices(width, height, &idxs)
    }
}

/// Grids that agree on every cell's `is_mine` have the same `mine_at` and
/// `neighbour_mines` everywhere.
proof fn lemma_nm_congruent(g1: Seq<Cell>, g2: Seq<Cell>, width: int, height: int)
    requires
        g1.len() == g2.len(),
        forall|i: int| 0 <= i < g1.len() ==> g1[i].is_mine == g2[i].is_mine,
    ensures
        forall|x: int, y: int|
            #[trigger] neighbour_mines(g1, width, height, x, y) == neighbour_mines(
                g2,
                width,
                height,
                x,
                y,
            ),
{
    assert forall|x: int, y: int| #[trigger] mine_at(g1, width, height, x, y) == mine_at(
        g2,
        width,
        height,
        x,
        y,
    ) by {}
}

} // verus!
