//! The executable grid: two buffers of cell states, addressed by coordinate.

use crate::board::{rule, Board};
use crate::random::gen_ratio;
use vstd::prelude::*;

verus! {

/// The position of the cell `(x, y)` in a buffer that stores a grid of the
/// given width row after row.
pub open spec fn cell_index(width: int, x: int, y: int) -> int {
    y * width + x
}

/// The generation that a row-after-row buffer of cell states stands for.
pub open spec fn board_of(width: int, height: int, cells: Seq<bool>) -> Board {
    Board {
        width,
        height,
        live: Set::new(
            |p: (int, int)|
                0 <= p.0 < width && 0 <= p.1 < height && cells[cell_index(width, p.0, p.1)],
        ),
    }
}

/// Inside a grid every coordinate has a position within the buffer.
pub proof fn lemma_cell_index_bounds(width: int, height: int, x: int, y: int)
    by (nonlinear_arith)
    requires
        0 <= x < width,
        0 <= y < height,
    ensures
        0 <= cell_index(width, x, y) < width * height,
{
}

/// Two coordinates of one grid that share a position in the buffer are the
/// same coordinate.
pub proof fn lemma_cell_index_injective(width: int, x1: int, y1: int, x2: int, y2: int)
    by (nonlinear_arith)
    requires
        0 <= x1 < width,
        0 <= x2 < width,
        cell_index(width, x1, y1) == cell_index(width, x2, y2),
    ensures
        x1 == x2,
        y1 == y2,
{
}

/// A bounded Game of Life grid. `cells` holds the current generation;
/// `next_cells` is the buffer that an update writes the next one to before
/// the two change roles.
pub struct GameOfLife {
    width: i32,
    height: i32,
    cells: Vec<bool>,
    next_cells: Vec<bool>,
}

impl View for GameOfLife {
    type V = Board;

    /// The current generation.
    open spec fn view(&self) -> Board {
        board_of(self.spec_width() as int, self.spec_height() as int, self.cells())
    }
}

impl GameOfLife {
    /// The number of cells in a row.
    pub closed spec fn spec_width(&self) -> i32 {
        self.width
    }

    /// The number of rows.
    pub closed spec fn spec_height(&self) -> i32 {
        self.height
    }

    /// The buffer of the current generation, row after row.
    pub closed spec fn cells(&self) -> Seq<bool> {
        self.cells@
    }

    /// The second buffer. It holds no part of the current generation.
    pub closed spec fn scratch(&self) -> Seq<bool> {
        self.next_cells@
    }

    /// Both dimensions are positive, and each of the two buffers holds
    /// exactly `width * height` cells.
    pub open spec fn wf(&self) -> bool {
        &&& 0 < self.spec_width()
        &&& 0 < self.spec_height()
        &&& self.spec_width() * self.spec_height() <= i32::MAX
        &&& self.cells().len() == self.spec_width() * self.spec_height()
        &&& self.scratch().len() == self.spec_width() * self.spec_height()
    }

    /// A grid of `width` by `height` cells, all of them dead.
    pub fn new(width: i32, height: i32) -> (grid: GameOfLife)
        requires
            0 < width,
            0 < height,
            width * height <= i32::MAX,
        ensures
            grid.wf(),
            grid@.width == width,
            grid@.height == height,
            grid@.live == Set::<(int, int)>::empty(),
            forall|i: int| 0 <= i < grid.scratch().len() ==> !grid.scratch()[i],
    {
        assert(0 < width * height) by (nonlinear_arith)
            requires
                0 < width,
                0 < height,
        ;
        let cells = vec![false; (width * height) as usize];
        let next_cells = cells.clone();
        proof {
            assert forall|p: (int, int)| 0 <= p.0 < width && 0 <= p.1 < height implies !cells@[cell_index(
                width as int,
                p.0,
                p.1,
            )] by {
                lemma_cell_index_bounds(width as int, height as int, p.0, p.1);
            }
        }
        Self { width, height, cells, next_cells }
    }

    /// The position of the cell `(x, y)` in either buffer.
    pub fn get_index(&self, x: i32, y: i32) -> (index: usize)
        requires
            self.wf(),
            self@.contains(x as int, y as int),
        ensures
            index == cell_index(self@.width, x as int, y as int),
            index < self.cells().len(),
    {
        proof {
            lemma_cell_index_bounds(self.width as int, self.height as int, x as int, y as int);
            assert(y * self.width >= 0) by (nonlinear_arith)
                requires
                    0 <= y,
                    0 < self.width,
            ;
        }
        (y * self.width + x) as usize
    }

    /// Whether the cell `(x, y)` is alive in the current generation.
    pub fn get_cell(&self, x: i32, y: i32) -> (alive: bool)
        requires
            self.wf(),
            self@.contains(x as int, y as int),
        ensures
            alive == self@.alive(x as int, y as int),
    {
        let index = self.get_index(x, y);
        self.cells[index]
    }

    /// Makes the cell `(x, y)` of the current generation alive or dead and
    /// leaves every other cell, and the second buffer, as they were.
    pub fn set_cell(&mut self, x: i32, y: i32, state: bool)
        requires
            old(self).wf(),
            old(self)@.contains(x as int, y as int),
        ensures
            final(self).wf(),
            final(self)@.width == old(self)@.width,
            final(self)@.height == old(self)@.height,
            final(self)@.live == if state {
                old(self)@.live.insert((x as int, y as int))
            } else {
                old(self)@.live.remove((x as int, y as int))
            },
            final(self).scratch() == old(self).scratch(),
    {
        let index = self.get_index(x, y);
        self.cells[index] = state;
        proof {
            let w = self.width as int;
            let target = (x as int, y as int);
            let expected = if state {
                old(self)@.live.insert(target)
            } else {
                old(self)@.live.remove(target)
            };
            assert forall|p: (int, int)| self@.live.contains(p) == expected.contains(p) by {
                if old(self)@.contains(p.0, p.1) && p != target {
                    lemma_cell_index_bounds(w, self.height as int, p.0, p.1);
                    if cell_index(w, p.0, p.1) == index {
                        lemma_cell_index_injective(w, p.0, p.1, x as int, y as int);
                    }
                }
            }
            assert(self@.live =~= expected);
        }
    }

    /// The number of live cells among the eight positions around `(x, y)`.
    /// A position outside the grid counts as dead.
    pub fn live_neighbours(&self, x: i32, y: i32) -> (count: i32)
        requires
            self.wf(),
            i32::MIN < x < i32::MAX,
            i32::MIN < y < i32::MAX,
        ensures
            count == self@.live_neighbours(x as int, y as int),
            0 <= count <= 8,
    {
        let mut count: i32 = 0;
        for i in -1..2i32
            invariant
                self.wf(),
                i32::MIN < x < i32::MAX,
                i32::MIN < y < i32::MAX,
                count == columns_before(self@, x as int, y as int, i as int),
        {
            for j in -1..2i32
                invariant
                    self.wf(),
                    -1 <= i < 2,
                    i32::MIN < x < i32::MAX,
                    i32::MIN < y < i32::MAX,
                    count == columns_before(self@, x as int, y as int, i as int) + column_before(
                        self@,
                        x as int,
                        y as int,
                        i as int,
                        j as int,
                    ),
            {
                if !(i == 0 && j == 0) {
                    let nx = x + i;
                    let ny = y + j;
                    if !(nx < 0 || nx >= self.width || ny < 0 || ny >= self.height) {
                        if self.get_cell(nx, ny) {
                            count += 1;
                        }
                    }
                }
            }
        }
        count
    }

    /// Replaces the current generation by the next one. The next generation
    /// is written to the second buffer from the current one, which is only
    /// read; then the two buffers change roles.
    pub fn update(&mut self)
        requires
            old(self).wf(),
        ensures
            final(self).wf(),
            final(self)@ == old(self)@.step(),
            final(self).scratch() == old(self).cells(),
    {
        let ghost before = *self;
        let width = self.width;
        let height = self.height;
        for y in 0..height
            invariant
                self.wf(),
                self.width == width == before.width,
                self.height == height == before.height,
                self.cells == before.cells,
                forall|a: int, b: int|
                    0 <= a < width && 0 <= b < y ==> self.next_cells@[#[trigger] cell_index(
                        width as int,
                        a,
                        b,
                    )] == before@.alive_next(a, b),
        {
            for x in 0..width
                invariant
                    self.wf(),
                    0 <= y < height,
                    self.width == width == before.width,
                    self.height == height == before.height,
                    self.cells == before.cells,
                    forall|a: int, b: int|
                        0 <= a < width && 0 <= b < y ==> self.next_cells@[#[trigger] cell_index(
                            width as int,
                            a,
                            b,
                        )] == before@.alive_next(a, b),
                    forall|a: int|
                        0 <= a < x ==> self.next_cells@[#[trigger] cell_index(
                            width as int,
                            a,
                            y as int,
                        )] == before@.alive_next(a, y as int),
            {
                let idx = self.get_index(x, y);
                let live_neighbours = self.live_neighbours(x, y);
                let cell = self.cells[idx];
                let next_cell = next_state(cell, live_neighbours);
                self.next_cells[idx] = next_cell;
                proof {
                    let w = width as int;
                    assert forall|a: int, b: int|
                        0 <= a < w && 0 <= b <= y && (a, b) != (x as int, y as int) implies cell_index(
                        w,
                        a,
                        b,
                    ) != idx && 0 <= cell_index(w, a, b) < self.next_cells@.len() by {
                        lemma_cell_index_bounds(w, height as int, a, b);
                        if cell_index(w, a, b) == idx {
                            lemma_cell_index_injective(w, a, b, x as int, y as int);
                        }
                    }
                }
            }
        }
        std::mem::swap(&mut self.cells, &mut self.next_cells);
        proof {
            assert(self@.live =~= before@.step().live);
        }
    }

    /// Sets the nine cells of the fixed pattern alive, with the pattern's
    /// corner at `(x, y)`, and leaves every other cell as it was. The
    /// pattern must lie within the grid.
    pub fn place_lwss(&mut self, x: i32, y: i32)
        requires
            old(self).wf(),
            0 <= x,
            0 <= y,
            x + 3 < old(self)@.width,
            y + 4 < old(self)@.height,
        ensures
            final(self).wf(),
            final(self)@.width == old(self)@.width,
            final(self)@.height == old(self)@.height,
            final(self)@.live == old(self)@.live.union(lwss(x as int, y as int)),
            final(self).scratch() == old(self).scratch(),
    {
        let ghost before = *self;
        let pattern: [(i32, i32); 9] = [
            (1, 0),
            (2, 0),
            (0, 1),
            (3, 1),
            (0, 2),
            (1, 2),
            (2, 2),
            (3, 3),
            (2, 4),
        ];
        for k in 0..9usize
            invariant
                self.wf(),
                self@.width == before@.width,
                self@.height == before@.height,
                self.scratch() == before.scratch(),
                0 <= x,
                0 <= y,
                x + 3 < self@.width,
                y + 4 < self@.height,
                pattern@.len() == 9,
                forall|j: int| 0 <= j < 9 ==> (#[trigger] pattern@[j]).0 == lwss_offsets()[j].0
                    && pattern@[j].1 == lwss_offsets()[j].1,
                self@.live == before@.live.union(lwss_prefix(x as int, y as int, k as int)),
        {
            let (dx, dy) = pattern[k];
            self.set_cell(x + dx, y + dy, true);
            proof {
                assert(lwss_prefix(x as int, y as int, k + 1) =~= lwss_prefix(
                    x as int,
                    y as int,
                    k as int,
                ).insert((x + dx, y + dy)));
                assert(self@.live =~= before@.live.union(lwss_prefix(x as int, y as int, k + 1)));
            }
        }
        proof {
            assert(lwss_prefix(x as int, y as int, 9) =~= lwss(x as int, y as int));
        }
    }

    /// Draws every cell of the current generation anew, each alive with
    /// probability `numerator / denominator` and independently of the
    /// others. Which cells come out alive is not determined, except that
    /// with `numerator == denominator` all of them do and with
    /// `numerator == 0` none does.
    pub fn randomize(&mut self, numerator: u32, denominator: u32)
        requires
            old(self).wf(),
            0 < denominator,
            numerator <= denominator,
        ensures
            final(self).wf(),
            final(self)@.width == old(self)@.width,
            final(self)@.height == old(self)@.height,
            final(self).scratch() == old(self).scratch(),
            numerator == denominator ==> final(self)@.live == final(self)@.positions(),
            numerator == 0 ==> final(self)@.live == Set::<(int, int)>::empty(),
    {
        let mut rng = rand::thread_rng();
        let len = self.cells.len();
        for i in 0..len
            invariant
                self.wf(),
                len == self.cells@.len(),
                self.width == old(self).width,
                self.height == old(self).height,
                self.next_cells == old(self).next_cells,
                0 < denominator,
                numerator <= denominator,
                numerator == denominator ==> forall|k: int| 0 <= k < i ==> self.cells@[k],
                numerator == 0 ==> forall|k: int| 0 <= k < i ==> !self.cells@[k],
        {
            let live = gen_ratio(&mut rng, numerator, denominator);
            self.cells[i] = live;
        }
        proof {
            let w = self.width as int;
            let h = self.height as int;
            assert forall|p: (int, int)| 0 <= p.0 < w && 0 <= p.1 < h implies 0 <= #[trigger] cell_index(
                w,
                p.0,
                p.1,
            ) < self.cells@.len() by {
                lemma_cell_index_bounds(w, h, p.0, p.1);
            }
            if numerator == denominator {
                assert(self@.live =~= self@.positions());
            }
            if numerator == 0 {
                assert(self@.live =~= Set::<(int, int)>::empty());
            }
        }
    }

    /// The number of cells in a row.
    #[verifier::when_used_as_spec(spec_width)]
    pub fn width(&self) -> (width: i32)
        ensures
            width == self.spec_width(),
    {
        self.width
    }

    /// The number of rows.
    #[verifier::when_used_as_spec(spec_height)]
    pub fn height(&self) -> (height: i32)
        ensures
            height == self.spec_height(),
    {
        self.height
    }
}

/// The generation that a well-formed grid shows is a well-formed board of
/// the grid's dimensions.
pub proof fn lemma_view_wf(grid: GameOfLife)
    requires
        grid.wf(),
    ensures
        grid@.wf(),
        grid@.width * grid@.height == grid.cells().len() == grid.scratch().len(),
{
}

/// An update is a function of the current generation alone: two grids that
/// show the same generation show the same generation after one update
/// each, whatever their second buffers held.
pub proof fn lemma_update_deterministic(
    a: GameOfLife,
    a_updated: GameOfLife,
    b: GameOfLife,
    b_updated: GameOfLife,
)
    requires
        a@ == b@,
        a_updated@ == a@.step(),
        b_updated@ == b@.step(),
    ensures
        a_updated@ == b_updated@,
{
}

/// The two buffers are exchanged, not shared. Once `updated` has come from
/// `before` by an update, writing a cell of `updated` gives `changed`, whose
/// second buffer still holds the generation of `before`, cell for cell.
pub proof fn lemma_buffers_exchanged(
    before: GameOfLife,
    updated: GameOfLife,
    changed: GameOfLife,
    x: int,
    y: int,
    state: bool,
)
    requires
        before.wf(),
        updated.wf(),
        updated@ == before@.step(),
        updated.scratch() == before.cells(),
        changed.wf(),
        changed@.width == updated@.width,
        changed@.height == updated@.height,
        changed@.live == if state {
            updated@.live.insert((x, y))
        } else {
            updated@.live.remove((x, y))
        },
        changed.scratch() == updated.scratch(),
    ensures
        changed.scratch() == before.cells(),
        board_of(before@.width, before@.height, changed.scratch()) == before@,
{
}

/// The offsets of the nine cells of the fixed pattern from its corner.
pub open spec fn lwss_offsets() -> Seq<(int, int)> {
    seq![(1, 0), (2, 0), (0, 1), (3, 1), (0, 2), (1, 2), (2, 2), (3, 3), (2, 4)]
}

/// The nine cells of the fixed pattern with its corner at `(x, y)`.
pub open spec fn lwss(x: int, y: int) -> Set<(int, int)> {
    set![
        (x + 1, y),
        (x + 2, y),
        (x, y + 1),
        (x + 3, y + 1),
        (x, y + 2),
        (x + 1, y + 2),
        (x + 2, y + 2),
        (x + 3, y + 3),
        (x + 2, y + 4),
    ]
}

/// The first `count` cells of the pattern, in the order of `lwss_offsets`.
spec fn lwss_prefix(x: int, y: int, count: int) -> Set<(int, int)> {
    Set::new(
        |p: (int, int)|
            exists|j: int|
                0 <= j < count && j < 9 && p == (
                    x + (#[trigger] lwss_offsets()[j]).0,
                    y + lwss_offsets()[j].1,
                ),
    )
}

/// The state that the rule gives a cell for the next generation, from its
/// state now and the number of its live neighbours.
pub fn next_state(alive: bool, live_neighbours: i32) -> (next: bool)
    ensures
        next == rule(alive, live_neighbours as int),
{
    match (alive, live_neighbours) {
        (true, 2) | (true, 3) => true,
        (true, _) => false,
        (false, 3) => true,
        (false, _) => false,
    }
}

/// What the position at offset `(dx, dy)` from `(x, y)` adds to the
/// neighbour count of `(x, y)`.
spec fn offset_population(board: Board, x: int, y: int, dx: int, dy: int) -> int {
    if dx == 0 && dy == 0 {
        0
    } else {
        board.population(x + dx, y + dy)
    }
}

/// The part of the neighbour count of `(x, y)` that comes from the column
/// at offset `dx`, rows at offsets below `dy` only.
spec fn column_before(board: Board, x: int, y: int, dx: int, dy: int) -> int {
    (if -1 < dy {
        offset_population(board, x, y, dx, -1)
    } else {
        0
    }) + (if 0 < dy {
        offset_population(board, x, y, dx, 0)
    } else {
        0
    }) + (if 1 < dy {
        offset_population(board, x, y, dx, 1)
    } else {
        0
    })
}

/// The part of the neighbour count of `(x, y)` that comes from the columns
/// at offsets below `dx`.
spec fn columns_before(board: Board, x: int, y: int, dx: int) -> int {
    (if -1 < dx {
        column_before(board, x, y, -1, 2)
    } else {
        0
    }) + (if 0 < dx {
        column_before(board, x, y, 0, 2)
    } else {
        0
    }) + (if 1 < dx {
        column_before(board, x, y, 1, 2)
    } else {
        0
    })
}

} // verus!
