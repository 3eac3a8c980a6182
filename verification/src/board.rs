//! The mathematical model: a generation as a set of live coordinates, the
//! neighbour count, the transition rule and the step from one generation to
//! the next.

use vstd::prelude::*;

verus! {

/// One generation: a rectangle of `width` by `height` cells and the
/// coordinates `(x, y)` of the cells that are alive.
#[verifier::ext_equal]
pub struct Board {
    pub width: int,
    pub height: int,
    pub live: Set<(int, int)>,
}

/// The transition rule: a live cell stays alive with two or three live
/// neighbours, a dead cell comes alive with exactly three.
pub open spec fn rule(alive: bool, live_neighbours: int) -> bool {
    if alive {
        live_neighbours == 2 || live_neighbours == 3
    } else {
        live_neighbours == 3
    }
}

impl Board {
    /// Both dimensions are positive and no coordinate outside the rectangle
    /// is recorded as alive.
    pub open spec fn wf(self) -> bool {
        &&& 0 < self.width
        &&& 0 < self.height
        &&& forall|x: int, y: int| #[trigger] self.live.contains((x, y)) ==> self.contains(x, y)
    }

    /// `(x, y)` lies inside the rectangle.
    pub open spec fn contains(self, x: int, y: int) -> bool {
        0 <= x < self.width && 0 <= y < self.height
    }

    /// Every coordinate of the rectangle.
    pub open spec fn positions(self) -> Set<(int, int)> {
        Set::new(|p: (int, int)| self.contains(p.0, p.1))
    }

    /// The cell at `(x, y)` is alive. Every position outside the rectangle
    /// is dead.
    pub open spec fn alive(self, x: int, y: int) -> bool {
        self.contains(x, y) && self.live.contains((x, y))
    }

    /// 1 for a live cell, 0 for a dead one or for a position off the board.
    pub open spec fn population(self, x: int, y: int) -> int {
        if self.alive(x, y) {
            1
        } else {
            0
        }
    }

    /// The number of live cells among the eight positions around `(x, y)`.
    pub open spec fn live_neighbours(self, x: int, y: int) -> int {
        self.population(x - 1, y - 1) + self.population(x - 1, y) + self.population(x - 1, y + 1)
            + self.population(x, y - 1) + self.population(x, y + 1)
            + self.population(x + 1, y - 1) + self.population(x + 1, y) + self.population(x + 1, y + 1)
    }

    /// The cell at `(x, y)` is alive in the next generation.
    pub open spec fn alive_next(self, x: int, y: int) -> bool {
        self.contains(x, y) && rule(self.alive(x, y), self.live_neighbours(x, y))
    }

    /// The next generation: the rule applied to every cell at once.
    pub open spec fn step(self) -> Board {
        Board {
            width: self.width,
            height: self.height,
            live: Set::new(|p: (int, int)| self.alive_next(p.0, p.1)),
        }
    }
}

/// The four cells of the two-by-two block whose corner nearest the origin
/// is `(x, y)`.
pub open spec fn block(x: int, y: int) -> Set<(int, int)> {
    set![(x, y), (x + 1, y), (x, y + 1), (x + 1, y + 1)]
}

/// A cell never has fewer than zero or more than eight live neighbours,
/// on any board and at any position.
pub proof fn lemma_live_neighbours_bounds(board: Board, x: int, y: int)
    ensures
        0 <= board.live_neighbours(x, y) <= 8,
{
}

/// Positions beyond the edge count as dead: on a board of at least two
/// columns and two rows whose cells are all alive, the corner cell `(0, 0)`
/// has exactly three live neighbours.
pub proof fn lemma_corner_of_full_board(board: Board)
    requires
        2 <= board.width,
        2 <= board.height,
        board.live == board.positions(),
    ensures
        board.live_neighbours(0, 0) == 3,
{
    assert(board.alive(1, 0) && board.alive(0, 1) && board.alive(1, 1));
}

/// A step keeps the dimensions, and the generation it gives is well formed.
pub proof fn lemma_step_keeps_shape(board: Board)
    requires
        board.wf(),
    ensures
        board.step().wf(),
        board.step().width == board.width,
        board.step().height == board.height,
{
}

/// The next generation depends on the current one alone: two boards that
/// are the same generation have the same successor.
pub proof fn lemma_step_deterministic(a: Board, b: Board)
    requires
        a.width == b.width,
        a.height == b.height,
        forall|x: int, y: int| a.alive(x, y) == b.alive(x, y),
    ensures
        a.step() == b.step(),
{
    assert(a.step().live =~= b.step().live);
}

/// The block is a still life: a board whose only live cells are the four
/// cells of a two-by-two block is its own next generation.
pub proof fn lemma_block_is_still(board: Board, x: int, y: int)
    requires
        board.contains(x, y),
        board.contains(x + 1, y + 1),
        board.live == block(x, y),
    ensures
        board.step() == board,
{
    assert forall|p: (int, int)| board.step().live.contains(p) == board.live.contains(p) by {
        lemma_block_cell(board, x, y, p.0, p.1);
    }
    assert(board.step().live =~= board.live);
}

/// On a board that holds one block and nothing else, the rule leaves the
/// cell `(a, b)` as it is.
proof fn lemma_block_cell(board: Board, x: int, y: int, a: int, b: int)
    requires
        board.contains(x, y),
        board.contains(x + 1, y + 1),
        board.live == block(x, y),
    ensures
        board.alive_next(a, b) == board.live.contains((a, b)),
{
    assert forall|c: int, d: int| board.alive(c, d) == ((c == x || c == x + 1) && (d == y || d == y + 1)) by {
        assert(board.live.contains((c, d)) == ((c, d) == (x, y) || (c, d) == (x + 1, y) || (c, d) == (
            x,
            y + 1,
        ) || (c, d) == (x + 1, y + 1)));
    }
    assert(board.alive(a, b) == board.live.contains((a, b)));
}

} // verus!
