//! The game session: the per-cell overlay the player sees, the focus
//! cursor, the flag and reveal counters, and the reveal / flag /
//! auto-reveal operations with win and loss detection.

use vstd::prelude::*;

use crate::board::{mine_at, neighbour_mines, MinesweeperBoard};
use crate::counting::{b2i, count_matching};
use crate::geometry::{adjacent, cell_idx, in_bounds, Pos};

verus! {

/// The overlay value a revealed mine shows: one past the largest possible
/// neighbour count.
pub const DETONATED: usize = 9;

/// Player-visible state of one cell. A cell toggles between `Unrevealed`
/// and `Flagged` until it is revealed; once `Revealed` it never changes
/// again.
#[derive(Clone, Copy, Debug, PartialEq, Eq, Structural)]
pub enum OverlayCell {
    Unrevealed,
    Flagged,
    Revealed(usize),
}

/// Result of a player action: the game goes on, is won, or is lost with
/// the displayed number of mines left to clear.
#[derive(Clone, Copy, Debug, PartialEq, Eq, Structural)]
pub enum Outcome {
    Continue,
    Win,
    Loss(isize),
}

/// A direction for moving the focus cursor.
#[derive(Clone, Copy, Debug, PartialEq, Eq, Structural)]
pub enum Direction {
    Up,
    Down,
    Left,
    Right,
}

/// The cell was revealed without detonating: it shows a neighbour count.
pub open spec fn is_safe_revealed(c: OverlayCell) -> bool {
    match c {
        OverlayCell::Revealed(n) => n != DETONATED,
        _ => false,
    }
}

/// Whether the overlay cell at `(x, y)` is flagged; false off the grid.
pub open spec fn flagged_at(o: Seq<OverlayCell>, width: int, height: int, x: int, y: int) -> bool {
    &&& in_bounds(width, height, x, y)
    &&& 0 <= cell_idx(width, x, y) < o.len()
    &&& o[cell_idx(width, x, y)] is Flagged
}

/// How many of the up-to-8 king-move neighbours of `(x, y)` are flagged.
pub open spec fn flagged_neighbours(o: Seq<OverlayCell>, width: int, height: int, x: int, y: int) -> int {
    b2i(flagged_at(o, width, height, x - 1, y - 1)) + b2i(flagged_at(o, width, height, x, y - 1))
        + b2i(flagged_at(o, width, height, x + 1, y - 1)) + b2i(flagged_at(o, width, height, x - 1, y))
        + b2i(flagged_at(o, width, height, x + 1, y)) + b2i(flagged_at(o, width, height, x - 1, y + 1))
        + b2i(flagged_at(o, width, height, x, y + 1)) + b2i(flagged_at(o, width, height, x + 1, y + 1))
}

/// Every cell that shows a zero count in `o2` but was still unrevealed in
/// `o1` has no unrevealed in-bounds neighbour left in `o2`: the flood fill
/// ran to completion through it.
pub open spec fn zero_region_closed(
    o1: Seq<OverlayCell>,
    o2: Seq<OverlayCell>,
    width: int,
    height: int,
) -> bool {
    forall|p2: Pos, q: Pos|
        p2.spec_in_bounds(width, height) && q.spec_in_bounds(width, height) && adjacent(
            q.x as int,
            q.y as int,
            p2.x as int,
            p2.y as int,
        ) && #[trigger] o2[p2.spec_idx(width)] == OverlayCell::Revealed(0) && o1[p2.spec_idx(
            width,
        )] is Unrevealed ==> #[trigger] o2[q.spec_idx(width)] != OverlayCell::Unrevealed
}

/// The overlay after toggling the flag on cell `i`: an unrevealed cell
/// becomes flagged, a flagged one unrevealed, a revealed one is left alone.
pub open spec fn flag_toggled(o: Seq<OverlayCell>, i: int) -> Seq<OverlayCell> {
    if 0 <= i < o.len() {
        match o[i] {
            OverlayCell::Unrevealed => o.update(i, OverlayCell::Flagged),
            OverlayCell::Flagged => o.update(i, OverlayCell::Unrevealed),
            OverlayCell::Revealed(_) => o,
        }
    } else {
        o
    }
}

/// `o2` extends `o1`: no cell moves backwards — whatever was flagged or
/// revealed is untouched, and any change turns an unrevealed cell into a
/// revealed one.
pub open spec fn overlay_monotone(o1: Seq<OverlayCell>, o2: Seq<OverlayCell>) -> bool {
    &&& o1.len() == o2.len()
    &&& forall|i: int| 0 <= i < o1.len() && o1[i] != OverlayCell::Unrevealed ==> o2[i] == o1[i]
    &&& forall|i: int|
        0 <= i < o1.len() && o2[i] != o1[i] ==> (o1[i] is Unrevealed && o2[i] is Revealed)
}

/// One game in progress: the immutable ground-truth board plus everything
/// the player has done to it.
pub struct BoardView {
    pub board: MinesweeperBoard,
    /// Row-major, parallel to `board.cells`.
    pub overlay: Vec<OverlayCell>,
    pub focused: Pos,
    /// Number of cells currently flagged.
    pub flags: usize,
    /// Number of cells revealed without detonating.
    pub revealed: usize,
    /// False once the game has ended in a win or a loss; every operation on
    /// an ended session leaves it unchanged.
    pub active: bool,
}

impl BoardView {
    pub open spec fn width(self) -> int {
        self.board.width as int
    }

    pub open spec fn height(self) -> int {
        self.board.height as int
    }

    pub open spec fn total(self) -> int {
        self.board.total()
    }

    /// How many cells are not mines: revealing them all wins the game.
    pub open spec fn safe_total(self) -> int {
        self.total() - self.board.mines_count
    }

    /// The displayed mines-left counter: total mines minus flags placed,
    /// whether or not the flags are correct.
    pub open spec fn remaining_int(self) -> int {
        self.board.mines_count - self.flags
    }

    pub open spec fn idx_of(self, p: Pos) -> int {
        p.spec_idx(self.board.width as int)
    }

    /// The session invariant: the board is well formed, the overlay is a
    /// parallel grid, the cursor is on the grid, the two counters count
    /// what they claim to, every revealed cell shows the truth (its mine
    /// count, or `DETONATED` exactly on a mine), and no mine is revealed
    /// while the game is still running.
    pub open spec fn wf(self) -> bool {
        &&& self.board.wf()
        &&& self.overlay@.len() == self.total()
        &&& self.focused.spec_in_bounds(self.width(), self.height())
        &&& self.flags == count_matching(self.overlay@, |c: OverlayCell| c is Flagged)
        &&& self.revealed == count_matching(self.overlay@, |c: OverlayCell| is_safe_revealed(c))
        &&& forall|i: int|
            0 <= i < self.overlay@.len() ==> match #[trigger] self.overlay@[i] {
                OverlayCell::Revealed(n) => (self.board.cells@[i].is_mine <==> n == DETONATED) && (
                !self.board.cells@[i].is_mine ==> n == self.board.cells@[i].surrounding_mines),
                _ => true,
            }
        &&& (self.active ==> forall|i: int|
            0 <= i < self.overlay@.len() ==> #[trigger] self.overlay@[i] != OverlayCell::Revealed(
                DETONATED,
            ))
    }

    /// Starts a fresh session on `board`: everything unrevealed, the cursor
    /// in the middle of the grid.
    pub fn new(board: MinesweeperBoard) -> (s: BoardView)
        requires
            board.wf(),
        ensures
            s.wf(),
            s.board == board,
            s.flags == 0,
            s.revealed == 0,
            s.active,
            s.focused == (Pos { x: board.width / 2, y: board.height / 2 }),
            forall|i: int| 0 <= i < s.overlay@.len() ==> #[trigger] s.overlay@[i] is Unrevealed,
    {
        let total = board.width * board.height;
        let mut overlay: Vec<OverlayCell> = Vec::new();
        while overlay.len() < total
            invariant
                overlay@.len() <= total,
                forall|i: int|
                    0 <= i < overlay@.len() ==> #[trigger] overlay@[i] is Unrevealed,
            decreases total - overlay@.len(),
        {
            overlay.push(OverlayCell::Unrevealed);
        }
        proof {
            crate::counting::lemma_count_prefix_zero(
                overlay@,
                |c: OverlayCell| c is Flagged,
                overlay@.len() as int,
            );
            crate::counting::lemma_count_prefix_zero(
                overlay@,
                |c: OverlayCell| is_safe_revealed(c),
                overlay@.len() as int,
            );
        }
        let focused = Pos { x: board.width / 2, y: board.height / 2 };
        BoardView { board, overlay, focused, flags: 0, revealed: 0, active: true }
    }

    /// The displayed mines-left counter; negative when more flags stand
    /// than there are mines.
    pub fn remaining_mines(&self) -> (r: isize)
        requires
            self.wf(),
        ensures
            r as int == self.remaining_int(),
    {
        proof {
            crate::counting::lemma_count_bounds(self.overlay@, |c: OverlayCell| c is Flagged);
        }
        (self.board.mines_count as isize) - (self.flags as isize)
    }

    /// Toggles a flag on `pos`. Out-of-bounds positions, revealed cells and
    /// ended games are left untouched; flagging never ends the game.
    pub fn flag(&mut self, pos: Pos) -> (r: Outcome)
        requires
            old(self).wf(),
        ensures
            final(self).wf(),
            r == Outcome::Continue,
            final(self).board == old(self).board,
            final(self).focused == old(self).focused,
            final(self).revealed == old(self).revealed,
            final(self).active == old(self).active,
            !old(self).active ==> *final(self) == *old(self),
            old(self).active && !pos.spec_in_bounds(old(self).width(), old(self).height())
                ==> *final(self) == *old(self),
            old(self).active && pos.spec_in_bounds(old(self).width(), old(self).height())
                ==> final(self).overlay@ == flag_toggled(old(self).overlay@, old(self).idx_of(pos)),
            old(self).active && pos.spec_in_bounds(old(self).width(), old(self).height())
                && old(self).overlay@[old(self).idx_of(pos)] is Unrevealed
                ==> final(self).flags == old(self).flags + 1,
            old(self).active && pos.spec_in_bounds(old(self).width(), old(self).height())
                && old(self).overlay@[old(self).idx_of(pos)] is Flagged
                ==> final(self).flags == old(self).flags - 1,
            old(self).active && pos.spec_in_bounds(old(self).width(), old(self).height())
                && old(self).overlay@[old(self).idx_of(pos)] is Revealed
                ==> *final(self) == *old(self),
    {
        if !self.active {
            return Outcome::Continue;
        }
        if !(pos.x < self.board.width && pos.y < self.board.height) {
            return Outcome::Continue;
        }
        proof {
            crate::geometry::lemma_idx_bounds(
                self.width(),
                self.height(),
                pos.x as int,
                pos.y as int,
            );
        }
        let idx = pos.y * self.board.width + pos.x;
        let ghost opre = self.overlay@;
        match self.overlay[idx] {
            OverlayCell::Unrevealed => {
                self.overlay[idx] = OverlayCell::Flagged;
                proof {
                    crate::counting::lemma_count_update(
                        opre,
                        |c: OverlayCell| c is Flagged,
                        idx as int,
                        OverlayCell::Flagged,
                    );
                    crate::counting::lemma_count_update(
                        opre,
                        |c: OverlayCell| is_safe_revealed(c),
                        idx as int,
                        OverlayCell::Flagged,
                    );
                    crate::counting::lemma_count_bounds(
                        self.overlay@,
                        |c: OverlayCell| c is Flagged,
                    );
                }
                self.flags = self.flags + 1;
            },
            OverlayCell::Flagged => {
                self.overlay[idx] = OverlayCell::Unrevealed;
                proof {
                    crate::counting::lemma_count_update(
                        opre,
                        |c: OverlayCell| c is Flagged,
                        idx as int,
                        OverlayCell::Unrevealed,
                    );
                    crate::counting::lemma_count_update(
                        opre,
                        |c: OverlayCell| is_safe_revealed(c),
                        idx as int,
                        OverlayCell::Unrevealed,
                    );
                    crate::counting::lemma_count_bounds(
                        self.overlay@,
                        |c: OverlayCell| c is Flagged,
                    );
                }
                self.flags = self.flags - 1;
            },
            OverlayCell::Revealed(_) => {},
        }
        Outcome::Continue
    }

    /// Moves the focus cursor one cell in `dir`, clamped to the grid.
    pub fn move_focus(&mut self, dir: Direction)
        requires
            old(self).wf(),
        ensures
            final(self).wf(),
            final(self).board == old(self).board,
            final(self).overlay@ == old(self).overlay@,
            final(self).flags == old(self).flags,
            final(self).revealed == old(self).revealed,
            final(self).active == old(self).active,
            dir is Up ==> final(self).focused == (Pos {
                x: old(self).focused.x,
                y: if old(self).focused.y >= 1 {
                    (old(self).focused.y - 1) as usize
                } else {
                    0
                },
            }),
            dir is Down ==> final(self).focused == (Pos {
                x: old(self).focused.x,
                y: if old(self).focused.y + 1 < old(self).board.height {
                    (old(self).focused.y + 1) as usize
                } else {
                    old(self).focused.y
                },
            }),
            dir is Left ==> final(self).focused == (Pos {
                x: if old(self).focused.x >= 1 {
                    (old(self).focused.x - 1) as usize
                } else {
                    0
                },
                y: old(self).focused.y,
            }),
            dir is Right ==> final(self).focused == (Pos {
                x: if old(self).focused.x + 1 < old(self).board.width {
                    (old(self).focused.x + 1) as usize
                } else {
                    old(self).focused.x
                },
                y: old(self).focused.y,
            }),
    {
        match dir {
            Direction::Up => {
                if self.focused.y >= 1 {
                    self.focused = Pos { x: self.focused.x, y: self.focused.y - 1 };
                }
            },
            Direction::Down => {
                if self.focused.y + 1 < self.board.height {
                    self.focused = Pos { x: self.focused.x, y: self.focused.y + 1 };
                }
            },
            Direction::Left => {
                if self.focused.x >= 1 {
                    self.focused = Pos { x: self.focused.x - 1, y: self.focused.y };
                }
            },
            Direction::Right => {
                if self.focused.x + 1 < self.board.width {
                    self.focused = Pos { x: self.focused.x + 1, y: self.focused.y };
                }
            },
        }
    }

    /// Moves the focus cursor straight to `pos`; positions off the grid
    /// are ignored.
    pub fn set_focus(&mut self, pos: Pos)
        requires
            old(self).wf(),
        ensures
            final(self).wf(),
            final(self).board == old(self).board,
            final(self).overlay@ == old(self).overlay@,
            final(self).flags == old(self).flags,
            final(self).revealed == old(self).revealed,
            final(self).active == old(self).active,
            pos.spec_in_bounds(old(self).width(), old(self).height()) ==> final(self).focused
                == pos,
            !pos.spec_in_bounds(old(self).width(), old(self).height()) ==> final(self).focused
                == old(self).focused,
    {
        if pos.x < self.board.width && pos.y < self.board.height {
            self.focused = pos;
        }
    }

    /// Maps a screen coordinate to a cell: cells are drawn two columns
    /// wide, so the horizontal offset is halved.
    pub fn get_cell(&self, mouse_x: usize, mouse_y: usize, offset_x: usize, offset_y: usize) -> (r:
        Option<Pos>)
        requires
            self.wf(),
        ensures
            r is Some <==> mouse_x >= offset_x && mouse_y >= offset_y && (mouse_x - offset_x) / 2
                < self.width() && mouse_y - offset_y < self.height(),
            r is Some ==> r == Some(
                Pos { x: ((mouse_x - offset_x) / 2) as usize, y: (mouse_y - offset_y) as usize },
            ),
    {
        if mouse_x >= offset_x && mouse_y >= offset_y {
            let x = (mouse_x - offset_x) / 2;
            let y = mouse_y - offset_y;
            if x < self.board.width && y < self.board.height {
                return Some(Pos { x, y });
            }
        }
        None
    }

    /// The call would act on `pos`: the game is running and `pos` is an
    /// unrevealed, unflagged cell on the grid.
    pub open spec fn reveal_acts(self, pos: Pos) -> bool {
        &&& self.active
        &&& pos.spec_in_bounds(self.width(), self.height())
        &&& self.overlay@[self.idx_of(pos)] is Unrevealed
    }

    /// Whether the board cell under `p` is a mine.
    pub open spec fn mine_under(self, p: Pos) -> bool {
        self.board.spec_mine_at(p.x as int, p.y as int)
    }

    /// Reveals `pos`. Revealing a mine ends the game with a loss and leaves
    /// every other cell untouched; a safe cell comes to show its neighbour
    /// count, and a count of zero floods outward through the cell's
    /// neighbours. The game is won exactly when every safe cell stands
    /// revealed. Ended games, positions off the grid and cells already
    /// flagged or revealed are left unchanged.
    #[verifier::loop_isolation(false)]
    #[verifier::rlimit(100)]
    pub fn reveal_cell(&mut self, pos: Pos) -> (r: Outcome)
        requires
            old(self).wf(),
        ensures
            final(self).wf(),
            final(self).board == old(self).board,
            final(self).focused == old(self).focused,
            final(self).flags == old(self).flags,
            overlay_monotone(old(self).overlay@, final(self).overlay@),
            final(self).revealed >= old(self).revealed,
            !old(self).reveal_acts(pos) ==> *final(self) == *old(self) && r == Outcome::Continue,
            (r is Loss) <==> (old(self).reveal_acts(pos) && old(self).mine_under(pos)),
            r is Loss ==> final(self).overlay@ == old(self).overlay@.update(old(self).idx_of(pos), OverlayCell::Revealed(DETONATED)),
            r is Loss ==> final(self).revealed == old(self).revealed,
            r is Loss ==> (r matches Outcome::Loss(m) && m as int == old(self).remaining_int()),
            old(self).reveal_acts(pos) && !old(self).mine_under(pos) ==> final(self).overlay@[old(self).idx_of(pos)] == OverlayCell::Revealed(old(self).board.cells@[old(self).idx_of(pos)].surrounding_mines) && final(self).revealed > old(self).revealed,
            old(self).reveal_acts(pos) && !old(self).mine_under(pos) && old(self).board.cells@[old(self).idx_of(pos)].surrounding_mines > 0 ==> final(self).overlay@ == old(self).overlay@.update(old(self).idx_of(pos), OverlayCell::Revealed(old(self).board.cells@[old(self).idx_of(pos)].surrounding_mines)) && final(self).revealed == old(self).revealed + 1,
            old(self).reveal_acts(pos) && !old(self).mine_under(pos) ==> zero_region_closed(old(self).overlay@, final(self).overlay@, old(self).width(), old(self).height()),
            old(self).reveal_acts(pos) && !old(self).mine_under(pos) && old(self).board.cells@[old(self).idx_of(pos)].surrounding_mines == 0 ==> (forall|q: Pos| #[trigger] q.spec_in_bounds(old(self).width(), old(self).height()) && adjacent(q.x as int, q.y as int, pos.x as int, pos.y as int) && old(self).overlay@[old(self).idx_of(q)] is Unrevealed ==> final(self).overlay@[old(self).idx_of(q)] is Revealed),
            r is Win ==> final(self).revealed == final(self).safe_total() && !final(self).active && old(self).active,
            old(self).reveal_acts(pos) && !old(self).mine_under(pos) ==> ((r is Win) <==> final(self).revealed == old(self).safe_total()),
            r is Continue ==> final(self).active == old(self).active,
            (r is Win || r is Loss) ==> !final(self).active,
        decreases count_matching(self.overlay@, |c: OverlayCell| c is Unrevealed),
    {
        let ghost sentry = *self;
        if !self.active {
            return Outcome::Continue;
        }
        if !(pos.x < self.board.width && pos.y < self.board.height) {
            return Outcome::Continue;
        }
        proof {
            crate::geometry::lemma_idx_bounds(self.width(), self.height(), pos.x as int, pos.y as int);
        }
        let idx = pos.y * self.board.width + pos.x;
        match self.overlay[idx] {
            OverlayCell::Unrevealed => {},
            _ => {
                return Outcome::Continue;
            },
        }
        let cell = self.board.cells[idx];
        if cell.is_mine {
            let ghost opre = self.overlay@;
            self.overlay[idx] = OverlayCell::Revealed(DETONATED);
            proof {
                crate::counting::lemma_count_update(opre, |c: OverlayCell| c is Flagged, idx as int, OverlayCell::Revealed(DETONATED));
                crate::counting::lemma_count_update(opre, |c: OverlayCell| is_safe_revealed(c), idx as int, OverlayCell::Revealed(DETONATED));
                crate::counting::lemma_count_bounds(self.overlay@, |c: OverlayCell| c is Flagged);
            }
            self.active = false;
            let rem = (self.board.mines_count as isize) - (self.flags as isize);
            return Outcome::Loss(rem);
        }
        let n = cell.surrounding_mines;
        proof {
            assert(self.board.count_ok(pos.x as int, pos.y as int));
            assert(0 <= neighbour_mines(self.board.cells@, self.width(), self.height(), pos.x as int, pos.y as int) <= 8);
        }
        let ghost opre = self.overlay@;
        self.overlay[idx] = OverlayCell::Revealed(n);
        proof {
            crate::counting::lemma_count_update(opre, |c: OverlayCell| c is Flagged, idx as int, OverlayCell::Revealed(n));
            crate::counting::lemma_count_update(opre, |c: OverlayCell| is_safe_revealed(c), idx as int, OverlayCell::Revealed(n));
            crate::counting::lemma_count_bounds(self.overlay@, |c: OverlayCell| is_safe_revealed(c));
            crate::counting::lemma_count_update(opre, |c: OverlayCell| c is Unrevealed, idx as int, OverlayCell::Revealed(n));
        }
        self.revealed = self.revealed + 1;
        proof {
            assert forall|p2: Pos|
                p2.spec_in_bounds(sentry.width(), sentry.height()) && !(p2.x == pos.x && p2.y
                    == pos.y) implies self.overlay@[p2.spec_idx(sentry.board.width as int)]
                == sentry.overlay@[p2.spec_idx(sentry.board.width as int)] by {
                crate::geometry::lemma_idx_bounds(sentry.width(), sentry.height(), p2.x as int, p2.y as int);
                crate::geometry::lemma_idx_injective(sentry.width(), sentry.height(), p2.x as int, p2.y as int, pos.x as int, pos.y as int);
            }
        }
        if n == 0 {
            let nbrs = self.board.neighbours(pos);
            let mut i: usize = 0;
            while i < nbrs.len()
                invariant
                    i <= nbrs@.len(),
                    self.wf(),
                    self.board == sentry.board,
                    self.focused == sentry.focused,
                    self.flags == sentry.flags,
                    overlay_monotone(sentry.overlay@, self.overlay@),
                    self.revealed > sentry.revealed,
                    count_matching(self.overlay@, |c: OverlayCell| c is Unrevealed) < count_matching(sentry.overlay@, |c: OverlayCell| c is Unrevealed),
                    self.overlay@[idx as int] == OverlayCell::Revealed(0),
                    self.active == sentry.active || (!self.active && self.revealed == self.safe_total()),
                    forall|j: int| 0 <= j < i ==> (sentry.overlay@[(#[trigger] nbrs@[j]).spec_idx(sentry.board.width as int)] is Unrevealed ==> self.overlay@[nbrs@[j].spec_idx(sentry.board.width as int)] is Revealed),
                    forall|p2: Pos, q: Pos| !(p2.x == pos.x && p2.y == pos.y) && p2.spec_in_bounds(sentry.width(), sentry.height()) && q.spec_in_bounds(sentry.width(), sentry.height()) && adjacent(q.x as int, q.y as int, p2.x as int, p2.y as int) && #[trigger] self.overlay@[p2.spec_idx(sentry.board.width as int)] == OverlayCell::Revealed(0) && sentry.overlay@[p2.spec_idx(sentry.board.width as int)] is Unrevealed ==> #[trigger] self.overlay@[q.spec_idx(sentry.board.width as int)] != OverlayCell::Unrevealed,
                decreases nbrs@.len() - i,
            {
                let p = nbrs[i];
                let ghost scur = *self;
                proof {
                    crate::geometry::lemma_idx_bounds(self.width(), self.height(), p.x as int, p.y as int);
                    crate::counting::lemma_count_bounds(self.overlay@, |c: OverlayCell| c is Unrevealed);
                    assert(neighbour_mines(self.board.cells@, self.width(), self.height(), pos.x as int, pos.y as int) == 0);
                    assert(p.x as int == pos.x as int - 1 || p.x as int == pos.x as int || p.x as int == pos.x as int + 1);
                    assert(p.y as int == pos.y as int - 1 || p.y as int == pos.y as int || p.y as int == pos.y as int + 1);
                    assert(!mine_at(scur.board.cells@, scur.width(), scur.height(), p.x as int, p.y as int));
                    if scur.overlay@[p.spec_idx(scur.board.width as int)] is Unrevealed && !scur.active {
                        assert(scur.revealed == scur.safe_total());
                        assert(forall|k: int| 0 <= k < scur.overlay@.len() ==> (is_safe_revealed(#[trigger] scur.overlay@[k]) ==> !scur.board.cells@[k].is_mine));
                        crate::counting::lemma_disjoint_counts_strict(scur.overlay@, scur.board.cells@, |c: OverlayCell| is_safe_revealed(c), |c: crate::board::Cell| c.is_mine, scur.overlay@.len() as int, p.spec_idx(scur.board.width as int));
                        assert(false);
                    }
                }
                let r2 = self.reveal_cell(p);
                proof {
                    crate::counting::lemma_count_pointwise_le(scur.overlay@, self.overlay@, |c: OverlayCell| c is Unrevealed, self.overlay@.len() as int);
                    assert forall|k: int| 0 <= k < sentry.overlay@.len() && sentry.overlay@[k] != OverlayCell::Unrevealed implies self.overlay@[k] == sentry.overlay@[k] by {
                        assert(scur.overlay@[k] == sentry.overlay@[k]);
                    }
                    assert forall|k: int| 0 <= k < sentry.overlay@.len() && self.overlay@[k] != sentry.overlay@[k] implies (sentry.overlay@[k] is Unrevealed && self.overlay@[k] is Revealed) by {
                        if self.overlay@[k] == scur.overlay@[k] {
                            assert(scur.overlay@[k] != sentry.overlay@[k]);
                        }
                    }
                    assert(sentry.overlay@[p.spec_idx(sentry.board.width as int)] is Unrevealed ==> self.overlay@[p.spec_idx(sentry.board.width as int)] is Revealed);
                    assert forall|j: int| 0 <= j < i + 1 implies (sentry.overlay@[(#[trigger] nbrs@[j]).spec_idx(sentry.board.width as int)] is Unrevealed ==> self.overlay@[nbrs@[j].spec_idx(sentry.board.width as int)] is Revealed) by {
                        let kk = nbrs@[j].spec_idx(sentry.board.width as int);
                        crate::geometry::lemma_idx_bounds(sentry.width(), sentry.height(), nbrs@[j].x as int, nbrs@[j].y as int);
                        if j < i && sentry.overlay@[kk] is Unrevealed {
                            assert(scur.overlay@[kk] is Revealed);
                            assert(self.overlay@[kk] == scur.overlay@[kk]);
                        }
                    }
                    assert forall|p2: Pos, q: Pos| !(p2.x == pos.x && p2.y == pos.y) && p2.spec_in_bounds(sentry.width(), sentry.height()) && q.spec_in_bounds(sentry.width(), sentry.height()) && adjacent(q.x as int, q.y as int, p2.x as int, p2.y as int) && #[trigger] self.overlay@[p2.spec_idx(sentry.board.width as int)] == OverlayCell::Revealed(0) && sentry.overlay@[p2.spec_idx(sentry.board.width as int)] is Unrevealed implies #[trigger] self.overlay@[q.spec_idx(sentry.board.width as int)] != OverlayCell::Unrevealed by {
                        let wid = sentry.board.width as int;
                        crate::geometry::lemma_idx_bounds(sentry.width(), sentry.height(), p2.x as int, p2.y as int);
                        crate::geometry::lemma_idx_bounds(sentry.width(), sentry.height(), q.x as int, q.y as int);
                        if scur.overlay@[p2.spec_idx(wid)] is Unrevealed {
                            assert(self.overlay@[p2.spec_idx(wid)] != scur.overlay@[p2.spec_idx(wid)]);
                            assert(scur.reveal_acts(p));
                            assert(zero_region_closed(scur.overlay@, self.overlay@, sentry.width(), sentry.height()));
                        } else {
                            assert(self.overlay@[p2.spec_idx(wid)] == scur.overlay@[p2.spec_idx(wid)]);
                            assert(scur.overlay@[q.spec_idx(wid)] != OverlayCell::Unrevealed);
                            assert(self.overlay@[q.spec_idx(wid)] == scur.overlay@[q.spec_idx(wid)]);
                        }
                    }
                }
                if let Outcome::Loss(_) = r2 {
                    proof {
                        assert(false);
                    }
                    return r2;
                }
                i += 1;
            }
            proof {
                assert forall|q: Pos| #[trigger] q.spec_in_bounds(sentry.width(), sentry.height()) && adjacent(q.x as int, q.y as int, pos.x as int, pos.y as int) && sentry.overlay@[sentry.idx_of(q)] is Unrevealed implies self.overlay@[sentry.idx_of(q)] is Revealed by {
                    assert(nbrs@.contains(q));
                    let j = choose|j: int| 0 <= j < nbrs@.len() && nbrs@[j] == q;
                    assert(sentry.overlay@[nbrs@[j].spec_idx(sentry.board.width as int)] is Unrevealed ==> self.overlay@[nbrs@[j].spec_idx(sentry.board.width as int)] is Revealed);
                }
                assert forall|p2: Pos, q: Pos| p2.spec_in_bounds(sentry.width(), sentry.height()) && q.spec_in_bounds(sentry.width(), sentry.height()) && adjacent(q.x as int, q.y as int, p2.x as int, p2.y as int) && #[trigger] self.overlay@[p2.spec_idx(sentry.board.width as int)] == OverlayCell::Revealed(0) && sentry.overlay@[p2.spec_idx(sentry.board.width as int)] is Unrevealed implies #[trigger] self.overlay@[q.spec_idx(sentry.board.width as int)] != OverlayCell::Unrevealed by {
                    crate::geometry::lemma_idx_bounds(sentry.width(), sentry.height(), p2.x as int, p2.y as int);
                    crate::geometry::lemma_idx_bounds(sentry.width(), sentry.height(), q.x as int, q.y as int);
                    if p2.x == pos.x && p2.y == pos.y {
                        if sentry.overlay@[q.spec_idx(sentry.board.width as int)] is Unrevealed {
                            assert(self.overlay@[q.spec_idx(sentry.board.width as int)] is Revealed);
                        } else {
                            assert(self.overlay@[q.spec_idx(sentry.board.width as int)] == sentry.overlay@[q.spec_idx(sentry.board.width as int)]);
                        }
                    }
                }
                assert(zero_region_closed(sentry.overlay@, self.overlay@, sentry.width(), sentry.height()));
            }
        } else {
            proof {
                assert forall|p2: Pos, q: Pos| p2.spec_in_bounds(sentry.width(), sentry.height()) && q.spec_in_bounds(sentry.width(), sentry.height()) && adjacent(q.x as int, q.y as int, p2.x as int, p2.y as int) && #[trigger] self.overlay@[p2.spec_idx(sentry.board.width as int)] == OverlayCell::Revealed(0) && sentry.overlay@[p2.spec_idx(sentry.board.width as int)] is Unrevealed implies #[trigger] self.overlay@[q.spec_idx(sentry.board.width as int)] != OverlayCell::Unrevealed by {
                    crate::geometry::lemma_idx_bounds(sentry.width(), sentry.height(), p2.x as int, p2.y as int);
                    crate::geometry::lemma_idx_injective(sentry.width(), sentry.height(), p2.x as int, p2.y as int, pos.x as int, pos.y as int);
                }
                assert(zero_region_closed(sentry.overlay@, self.overlay@, sentry.width(), sentry.height()));
            }
        }
        if self.revealed == self.board.width * self.board.height - self.board.mines_count {
            self.active = false;
            return Outcome::Win;
        }
        Outcome::Continue
    }

    /// The chord would act on `pos`: the game is running and `pos` shows a
    /// neighbour count that exactly matches its number of flagged
    /// neighbours.
    pub open spec fn chord_acts(self, pos: Pos) -> bool {
        &&& self.active
        &&& pos.spec_in_bounds(self.width(), self.height())
        &&& match self.overlay@[self.idx_of(pos)] {
            OverlayCell::Revealed(n) => flagged_neighbours(
                self.overlay@,
                self.width(),
                self.height(),
                pos.x as int,
                pos.y as int,
            ) == n,
            _ => false,
        }
    }

    /// Counts the flagged cells among the neighbours of `pos`.
    fn count_flagged_neighbours(&self, pos: Pos) -> (c: usize)
        requires
            self.wf(),
        ensures
            c == flagged_neighbours(self.overlay@, self.width(), self.height(), pos.x as int, pos.y as int),
    {
        let w = self.board.width;
        let h = self.board.height;
        let x = pos.x;
        let y = pos.y;
        let mut c: usize = 0;
        if x >= 1 && y >= 1 && x - 1 < w && y - 1 < h {
            proof { crate::geometry::lemma_idx_bounds(w as int, h as int, x - 1, y - 1); }
            if matches!(self.overlay[(y - 1) * w + (x - 1)], OverlayCell::Flagged) { c += 1; }
        }
        if x < w && y >= 1 && y - 1 < h {
            proof { crate::geometry::lemma_idx_bounds(w as int, h as int, x as int, y - 1); }
            if matches!(self.overlay[(y - 1) * w + x], OverlayCell::Flagged) { c += 1; }
        }
        if x < w - 1 && y >= 1 && y - 1 < h {
            proof { crate::geometry::lemma_idx_bounds(w as int, h as int, x + 1, y - 1); }
            if matches!(self.overlay[(y - 1) * w + (x + 1)], OverlayCell::Flagged) { c += 1; }
        }
        if x >= 1 && x - 1 < w && y < h {
            proof { crate::geometry::lemma_idx_bounds(w as int, h as int, x - 1, y as int); }
            if matches!(self.overlay[y * w + (x - 1)], OverlayCell::Flagged) { c += 1; }
        }
        if x < w - 1 && y < h {
            proof { crate::geometry::lemma_idx_bounds(w as int, h as int, x + 1, y as int); }
            if matches!(self.overlay[y * w + (x + 1)], OverlayCell::Flagged) { c += 1; }
        }
        if x >= 1 && x - 1 < w && y < h - 1 {
            proof { crate::geometry::lemma_idx_bounds(w as int, h as int, x - 1, y + 1); }
            if matches!(self.overlay[(y + 1) * w + (x - 1)], OverlayCell::Flagged) { c += 1; }
        }
        if x < w && y < h - 1 {
            proof { crate::geometry::lemma_idx_bounds(w as int, h as int, x as int, y + 1); }
            if matches!(self.overlay[(y + 1) * w + x], OverlayCell::Flagged) { c += 1; }
        }
        if x < w - 1 && y < h - 1 {
            proof { crate::geometry::lemma_idx_bounds(w as int, h as int, x + 1, y + 1); }
            if matches!(self.overlay[(y + 1) * w + (x + 1)], OverlayCell::Flagged) { c += 1; }
        }
        c
    }

    /// Chord: when `pos` shows a count that equals its number of flagged
    /// neighbours, reveals every neighbour in turn, stopping at the first
    /// win or loss; otherwise does nothing.
    #[verifier::loop_isolation(false)]
    #[verifier::rlimit(100)]
    pub fn auto_reveal(&mut self, pos: Pos) -> (r: Outcome)
        requires
            old(self).wf(),
        ensures
            final(self).wf(),
            final(self).board == old(self).board,
            final(self).focused == old(self).focused,
            final(self).flags == old(self).flags,
            overlay_monotone(old(self).overlay@, final(self).overlay@),
            final(self).revealed >= old(self).revealed,
            !old(self).chord_acts(pos) ==> *final(self) == *old(self) && r == Outcome::Continue,
            old(self).chord_acts(pos) ==> (r is Win || r is Loss || (forall|q: Pos| #[trigger] q.spec_in_bounds(old(self).width(), old(self).height()) && adjacent(q.x as int, q.y as int, pos.x as int, pos.y as int) && old(self).overlay@[old(self).idx_of(q)] is Unrevealed ==> final(self).overlay@[old(self).idx_of(q)] is Revealed)),
            r is Loss ==> (exists|q: Pos| #[trigger] q.spec_in_bounds(old(self).width(), old(self).height()) && adjacent(q.x as int, q.y as int, pos.x as int, pos.y as int) && old(self).overlay@[old(self).idx_of(q)] is Unrevealed && old(self).mine_under(q) && final(self).overlay@[old(self).idx_of(q)] == OverlayCell::Revealed(DETONATED) && (forall|q2: Pos| #[trigger] q2.spec_in_bounds(old(self).width(), old(self).height()) && adjacent(q2.x as int, q2.y as int, pos.x as int, pos.y as int) && old(self).overlay@[old(self).idx_of(q2)] is Unrevealed && old(self).mine_under(q2) ==> old(self).idx_of(q) <= old(self).idx_of(q2))),
            old(self).chord_acts(pos) && (forall|q: Pos| #[trigger] q.spec_in_bounds(old(self).width(), old(self).height()) && adjacent(q.x as int, q.y as int, pos.x as int, pos.y as int) && old(self).overlay@[old(self).idx_of(q)] is Unrevealed ==> !old(self).mine_under(q)) ==> !(r is Loss),
            old(self).chord_acts(pos) && (forall|q: Pos| #[trigger] q.spec_in_bounds(old(self).width(), old(self).height()) && adjacent(q.x as int, q.y as int, pos.x as int, pos.y as int) && old(self).overlay@[old(self).idx_of(q)] is Unrevealed ==> !old(self).mine_under(q)) ==> (forall|q: Pos| #[trigger] q.spec_in_bounds(old(self).width(), old(self).height()) && adjacent(q.x as int, q.y as int, pos.x as int, pos.y as int) && old(self).overlay@[old(self).idx_of(q)] is Unrevealed ==> final(self).overlay@[old(self).idx_of(q)] is Revealed),
            old(self).active && old(self).revealed < old(self).safe_total() ==> ((r is Win) <==> final(self).revealed == old(self).safe_total()),
            r is Win ==> !final(self).active && old(self).active,
            r is Loss ==> !final(self).active && old(self).active && (r matches Outcome::Loss(m) && m as int == old(self).remaining_int()),
            r is Continue ==> final(self).active == old(self).active,
    {
        let ghost sentry = *self;
        if !self.active {
            return Outcome::Continue;
        }
        if !(pos.x < self.board.width && pos.y < self.board.height) {
            return Outcome::Continue;
        }
        proof {
            crate::geometry::lemma_idx_bounds(self.width(), self.height(), pos.x as int, pos.y as int);
        }
        let idx = pos.y * self.board.width + pos.x;
        let n = match self.overlay[idx] {
            OverlayCell::Revealed(n) => n,
            _ => {
                return Outcome::Continue;
            },
        };
        let tagged = self.count_flagged_neighbours(pos);
        if tagged != n {
            return Outcome::Continue;
        }
        let nbrs = self.board.neighbours(pos);
        let mut i: usize = 0;
        while i < nbrs.len()
            invariant
                i <= nbrs@.len(),
                self.wf(),
                self.board == sentry.board,
                self.focused == sentry.focused,
                self.flags == sentry.flags,
                self.active == sentry.active,
                overlay_monotone(sentry.overlay@, self.overlay@),
                self.revealed >= sentry.revealed,
                sentry.revealed < sentry.safe_total() ==> self.revealed < self.safe_total(),
                forall|j: int| 0 <= j < i ==> (sentry.overlay@[(#[trigger] nbrs@[j]).spec_idx(sentry.board.width as int)] is Unrevealed ==> self.overlay@[nbrs@[j].spec_idx(sentry.board.width as int)] is Revealed),
                forall|j: int| 0 <= j < i ==> !(sentry.overlay@[(#[trigger] nbrs@[j]).spec_idx(sentry.board.width as int)] is Unrevealed && sentry.mine_under(nbrs@[j])),
            decreases nbrs@.len() - i,
        {
            let p = nbrs[i];
            let ghost scur = *self;
            let r2 = self.reveal_cell(p);
            proof {
                assert forall|k: int| 0 <= k < sentry.overlay@.len() && sentry.overlay@[k] != OverlayCell::Unrevealed implies self.overlay@[k] == sentry.overlay@[k] by {
                    assert(scur.overlay@[k] == sentry.overlay@[k]);
                }
                assert forall|k: int| 0 <= k < sentry.overlay@.len() && self.overlay@[k] != sentry.overlay@[k] implies (sentry.overlay@[k] is Unrevealed && self.overlay@[k] is Revealed) by {
                    if self.overlay@[k] == scur.overlay@[k] {
                        assert(scur.overlay@[k] != sentry.overlay@[k]);
                    }
                }
            }
            match r2 {
                Outcome::Continue => {},
                _ => {
                    proof {
                        crate::geometry::lemma_idx_bounds(sentry.width(), sentry.height(), p.x as int, p.y as int);
                        assert(p.spec_in_bounds(sentry.width(), sentry.height()));
                        if r2 is Loss {
                            assert(scur.reveal_acts(p) && scur.mine_under(p));
                            assert(sentry.overlay@[p.spec_idx(sentry.board.width as int)] is Unrevealed);
                            assert(sentry.mine_under(p));
                            assert(self.overlay@[p.spec_idx(sentry.board.width as int)] == OverlayCell::Revealed(DETONATED));
                            assert forall|q2: Pos| #[trigger] q2.spec_in_bounds(sentry.width(), sentry.height()) && adjacent(q2.x as int, q2.y as int, pos.x as int, pos.y as int) && sentry.overlay@[sentry.idx_of(q2)] is Unrevealed && sentry.mine_under(q2) implies p.spec_idx(sentry.board.width as int) <= q2.spec_idx(sentry.board.width as int) by {
                                assert(nbrs@.contains(q2));
                                let j = choose|j: int| 0 <= j < nbrs@.len() && nbrs@[j] == q2;
                                assert(j >= i);
                                if j > i {
                                    assert(nbrs@[i as int].spec_idx(sentry.board.width as int) < nbrs@[j].spec_idx(sentry.board.width as int));
                                }
                            }
                            assert(exists|q: Pos| #[trigger] q.spec_in_bounds(sentry.width(), sentry.height()) && adjacent(q.x as int, q.y as int, pos.x as int, pos.y as int) && sentry.overlay@[sentry.idx_of(q)] is Unrevealed && sentry.mine_under(q) && self.overlay@[sentry.idx_of(q)] == OverlayCell::Revealed(DETONATED) && (forall|q2: Pos| #[trigger] q2.spec_in_bounds(sentry.width(), sentry.height()) && adjacent(q2.x as int, q2.y as int, pos.x as int, pos.y as int) && sentry.overlay@[sentry.idx_of(q2)] is Unrevealed && sentry.mine_under(q2) ==> sentry.idx_of(p) <= sentry.idx_of(q2)));
                        }
                        if r2 is Win {
                            assert forall|q: Pos| #[trigger] q.spec_in_bounds(sentry.width(), sentry.height()) && adjacent(q.x as int, q.y as int, pos.x as int, pos.y as int) && sentry.overlay@[sentry.idx_of(q)] is Unrevealed && !sentry.mine_under(q) implies self.overlay@[sentry.idx_of(q)] is Revealed by {
                                crate::geometry::lemma_idx_bounds(sentry.width(), sentry.height(), q.x as int, q.y as int);
                                if self.overlay@[sentry.idx_of(q)] is Unrevealed {
                                    assert(self.revealed == self.safe_total());
                                    assert(forall|k: int| 0 <= k < self.overlay@.len() ==> (is_safe_revealed(#[trigger] self.overlay@[k]) ==> !self.board.cells@[k].is_mine));
                                    crate::counting::lemma_disjoint_counts_strict(self.overlay@, self.board.cells@, |c: OverlayCell| is_safe_revealed(c), |c: crate::board::Cell| c.is_mine, self.overlay@.len() as int, sentry.idx_of(q));
                                    assert(false);
                                }
                            }
                        }
                    }
                    return r2;
                },
            }
            proof {
                lemma_revealed_le_safe(*self);
                crate::geometry::lemma_idx_bounds(sentry.width(), sentry.height(), p.x as int, p.y as int);
                if sentry.overlay@[p.spec_idx(sentry.board.width as int)] is Unrevealed {
                    if scur.overlay@[p.spec_idx(sentry.board.width as int)] is Unrevealed {
                        assert(!(r2 is Loss));
                        assert(!scur.mine_under(p));
                    } else {
                        assert(scur.overlay@[p.spec_idx(sentry.board.width as int)] is Revealed);
                        assert(!scur.board.cells@[p.spec_idx(sentry.board.width as int)].is_mine);
                    }
                    assert(!sentry.mine_under(p));
                }
                assert forall|j: int| 0 <= j < i + 1 implies (sentry.overlay@[(#[trigger] nbrs@[j]).spec_idx(sentry.board.width as int)] is Unrevealed ==> self.overlay@[nbrs@[j].spec_idx(sentry.board.width as int)] is Revealed) by {
                    let kk = nbrs@[j].spec_idx(sentry.board.width as int);
                    crate::geometry::lemma_idx_bounds(sentry.width(), sentry.height(), nbrs@[j].x as int, nbrs@[j].y as int);
                    if j < i && sentry.overlay@[kk] is Unrevealed {
                        assert(scur.overlay@[kk] is Revealed);
                        assert(self.overlay@[kk] == scur.overlay@[kk]);
                    }
                }
            }
            i += 1;
        }
        proof {
            assert forall|q: Pos| #[trigger] q.spec_in_bounds(sentry.width(), sentry.height()) && adjacent(q.x as int, q.y as int, pos.x as int, pos.y as int) && sentry.overlay@[sentry.idx_of(q)] is Unrevealed implies self.overlay@[sentry.idx_of(q)] is Revealed by {
                assert(nbrs@.contains(q));
                let j = choose|j: int| 0 <= j < nbrs@.len() && nbrs@[j] == q;
                assert(sentry.overlay@[nbrs@[j].spec_idx(sentry.board.width as int)] is Unrevealed ==> self.overlay@[nbrs@[j].spec_idx(sentry.board.width as int)] is Revealed);
            }
        }
        Outcome::Continue
    }
}

/// Under the session invariant the reveal counter can never pass the
/// number of safe cells.
pub proof fn lemma_revealed_le_safe(s: BoardView)
    requires
        s.wf(),
    ensures
        s.revealed <= s.safe_total(),
{
    assert(forall|k: int| 0 <= k < s.overlay@.len() ==> !(is_safe_revealed(#[trigger] s.overlay@[k]) && s.board.cells@[k].is_mine));
    crate::counting::lemma_disjoint_counts(s.overlay@, s.board.cells@, |c: OverlayCell| is_safe_revealed(c), |c: crate::board::Cell| c.is_mine, s.overlay@.len() as int);
}

/// Law: toggling the flag on the same cell twice restores the overlay to
/// exactly what it was — and with it, through the session invariant, the
/// flag count and the displayed mine counter.
pub proof fn lemma_flag_twice_restores(o: Seq<OverlayCell>, i: int)
    requires
        0 <= i < o.len(),
    ensures
        flag_toggled(flag_toggled(o, i), i) == o,
{
    let o1 = flag_toggled(o, i);
    match o[i] {
        OverlayCell::Unrevealed => {
            assert(flag_toggled(o1, i) =~= o);
        },
        OverlayCell::Flagged => {
            assert(flag_toggled(o1, i) =~= o);
        },
        OverlayCell::Revealed(_) => {},
    }
}

} // verus!
