use vstd::prelude::*;

use crate::grid::Grid;
use crate::grid::LifeError;
use crate::grid::grid_seq_wf;

verus! {

/// Whether the cell at (x, y) of grid content `g` is on. Positions outside
/// `[0, g.len()) x [0, g[x].len())` hold no cell at all, so they are never
/// on: the grid is bounded, not toroidal.
pub open spec fn on_at(g: Seq<Seq<bool>>, x: int, y: int) -> bool {
    0 <= x < g.len() && 0 <= y < g[x].len() && g[x][y]
}

/// What one candidate neighbor contributes to a neighbor count.
pub open spec fn one_if(b: bool) -> int {
    if b {
        1
    } else {
        0
    }
}

/// The number of on cells in the bounded Moore neighborhood of (x, y): the
/// up-to-8 cells horizontally, vertically and diagonally adjacent to it.
/// Positions that fall outside the grid contribute nothing, so edge and
/// corner cells have fewer than 8 candidate neighbors and nothing wraps to
/// the opposite side.
pub open spec fn neighbor_count(g: Seq<Seq<bool>>, x: int, y: int) -> int {
    one_if(on_at(g, x - 1, y - 1)) + one_if(on_at(g, x - 1, y)) + one_if(on_at(g, x - 1, y + 1))
        + one_if(on_at(g, x, y - 1)) + one_if(on_at(g, x, y + 1)) + one_if(
        on_at(g, x + 1, y - 1),
    ) + one_if(on_at(g, x + 1, y)) + one_if(on_at(g, x + 1, y + 1))
}

/// Conway's transition rule: the cell at (x, y) is on in the generation
/// after `g` exactly when it has three on neighbors (birth or survival),
/// or two on neighbors while being on itself (survival).
pub open spec fn next_state(g: Seq<Seq<bool>>, x: int, y: int) -> bool {
    neighbor_count(g, x, y) == 3 || (neighbor_count(g, x, y) == 2 && on_at(g, x, y))
}

/// Birth and survival by three: a cell with exactly three on neighbors is
/// on in the next generation, whatever its prior state. `update`'s contract
/// gives every cell of the updated grid as `next_state` of the old one, so
/// this holds of every cell after an update.
pub proof fn lemma_three_neighbors_on(g: Seq<Seq<bool>>, x: int, y: int)
    requires
        neighbor_count(g, x, y) == 3,
    ensures
        next_state(g, x, y),
{
}

/// Survival by two: a cell with exactly two on neighbors keeps its state
/// across one generation.
pub proof fn lemma_two_neighbors_keep(g: Seq<Seq<bool>>, x: int, y: int)
    requires
        neighbor_count(g, x, y) == 2,
    ensures
        next_state(g, x, y) == on_at(g, x, y),
{
}

/// Death otherwise: an on cell whose neighbor count is neither two nor
/// three, and an off cell whose neighbor count is not three, is off in the
/// next generation.
pub proof fn lemma_dies_otherwise(g: Seq<Seq<bool>>, x: int, y: int)
    requires
        on_at(g, x, y) ==> neighbor_count(g, x, y) != 2 && neighbor_count(g, x, y) != 3,
        !on_at(g, x, y) ==> neighbor_count(g, x, y) != 3,
    ensures
        !next_state(g, x, y),
{
}

/// The neighborhood is bounded: a position outside the grid never counts.
/// When every in-bounds Moore neighbor of (x, y) is off, the neighbor
/// count is zero, however close (x, y) stands to an edge or a corner:
/// nothing wraps around from the opposite side.
pub proof fn lemma_counts_only_in_bounds(g: Seq<Seq<bool>>, x: int, y: int)
    requires
        forall|i: int, j: int|
            0 <= i < g.len() && 0 <= j < g[i].len() && x - 1 <= i <= x + 1 && y - 1 <= j <= y + 1
                && !(i == x && j == y) ==> !(#[trigger] g[i][j]),
    ensures
        neighbor_count(g, x, y) == 0,
{
}

/// Whether `g` holds exactly a two-by-two block of on cells whose low
/// corner is (bx, by) and every other cell off, with the block at least one
/// cell away from every edge.
pub open spec fn lone_block(g: Seq<Seq<bool>>, bx: int, by: int) -> bool {
    &&& 1 <= bx && bx + 1 <= g.len() - 2
    &&& 1 <= by && by + 1 <= g[0].len() - 2
    &&& forall|i: int, j: int|
        0 <= i < g.len() && 0 <= j < g[0].len() ==> ((#[trigger] g[i][j]) <==> (bx <= i <= bx + 1
            && by <= j <= by + 1))
}

/// Still life: a two-by-two block of on cells surrounded by off cells is
/// left unchanged by a generation update, cell for cell. The updated grid
/// then holds the same lone block again, so repeated updates leave it in
/// place indefinitely.
pub proof fn lemma_block_still_life(g: Seq<Seq<bool>>, bx: int, by: int)
    requires
        grid_seq_wf(g),
        lone_block(g, bx, by),
    ensures
        forall|x: int, y: int|
            0 <= x < g.len() && 0 <= y < g[0].len() ==> #[trigger] next_state(g, x, y) == on_at(
                g,
                x,
                y,
            ),
{
    assert forall|x: int, y: int|
        0 <= x < g.len() && 0 <= y < g[0].len() implies #[trigger] next_state(g, x, y) == on_at(
        g,
        x,
        y,
    ) by {
        assert forall|i: int, j: int| #[trigger]
            on_at(g, i, j) <==> (bx <= i <= bx + 1 && by <= j <= by + 1) by {
            if 0 <= i < g.len() && 0 <= j < g[0].len() {
                assert(g[i].len() == g[0].len());
            }
        }
    }
}

/// Whether `g` holds exactly three on cells in a horizontal row centered
/// at (cx, cy) and every other cell off, with the whole three-by-three box
/// around the center inside the grid.
pub open spec fn lone_row(g: Seq<Seq<bool>>, cx: int, cy: int) -> bool {
    &&& 1 <= cx && cx + 1 <= g.len() - 1
    &&& 1 <= cy && cy + 1 <= g[0].len() - 1
    &&& forall|i: int, j: int|
        0 <= i < g.len() && 0 <= j < g[0].len() ==> ((#[trigger] g[i][j]) <==> (j == cy && cx - 1
            <= i <= cx + 1))
}

/// Whether `g` holds exactly three on cells in a vertical column centered
/// at (cx, cy) and every other cell off, with the whole three-by-three box
/// around the center inside the grid.
pub open spec fn lone_column(g: Seq<Seq<bool>>, cx: int, cy: int) -> bool {
    &&& 1 <= cx && cx + 1 <= g.len() - 1
    &&& 1 <= cy && cy + 1 <= g[0].len() - 1
    &&& forall|i: int, j: int|
        0 <= i < g.len() && 0 <= j < g[0].len() ==> ((#[trigger] g[i][j]) <==> (i == cx && cy - 1
            <= j <= cy + 1))
}

/// One generation turns a horizontal blinker into the vertical blinker
/// with the same center: exactly the three cells in the column through the
/// center are on afterwards.
pub proof fn lemma_blinker_row_to_column(g: Seq<Seq<bool>>, cx: int, cy: int)
    requires
        grid_seq_wf(g),
        lone_row(g, cx, cy),
    ensures
        forall|x: int, y: int|
            0 <= x < g.len() && 0 <= y < g[0].len() ==> ((#[trigger] next_state(g, x, y)) <==> (x
                == cx && cy - 1 <= y <= cy + 1)),
{
    assert forall|x: int, y: int|
        0 <= x < g.len() && 0 <= y < g[0].len() implies ((#[trigger] next_state(g, x, y)) <==> (x
        == cx && cy - 1 <= y <= cy + 1)) by {
        assert forall|i: int, j: int| #[trigger]
            on_at(g, i, j) <==> (j == cy && cx - 1 <= i <= cx + 1) by {
            if 0 <= i < g.len() && 0 <= j < g[0].len() {
                assert(g[i].len() == g[0].len());
            }
        }
    }
}

/// One generation turns a vertical blinker into the horizontal blinker
/// with the same center: exactly the three cells in the row through the
/// center are on afterwards.
pub proof fn lemma_blinker_column_to_row(g: Seq<Seq<bool>>, cx: int, cy: int)
    requires
        grid_seq_wf(g),
        lone_column(g, cx, cy),
    ensures
        forall|x: int, y: int|
            0 <= x < g.len() && 0 <= y < g[0].len() ==> ((#[trigger] next_state(g, x, y)) <==> (y
                == cy && cx - 1 <= x <= cx + 1)),
{
    assert forall|x: int, y: int|
        0 <= x < g.len() && 0 <= y < g[0].len() implies ((#[trigger] next_state(g, x, y)) <==> (y
        == cy && cx - 1 <= x <= cx + 1)) by {
        assert forall|i: int, j: int| #[trigger]
            on_at(g, i, j) <==> (i == cx && cy - 1 <= j <= cy + 1) by {
            if 0 <= i < g.len() && 0 <= j < g[0].len() {
                assert(g[i].len() == g[0].len());
            }
        }
    }
}

/// The blinker oscillates with period two. Let g2 be g advanced by one
/// generation and g3 be g2 advanced by one more, as `update`'s contract
/// gives them. If g is a horizontal blinker, g2 is the vertical blinker
/// with the same center, and g3 equals g again, cell for cell.
pub proof fn lemma_blinker_period_two(
    g: Seq<Seq<bool>>,
    g2: Seq<Seq<bool>>,
    g3: Seq<Seq<bool>>,
    cx: int,
    cy: int,
)
    requires
        grid_seq_wf(g),
        grid_seq_wf(g2),
        grid_seq_wf(g3),
        g2.len() == g.len() && g2[0].len() == g[0].len(),
        g3.len() == g.len() && g3[0].len() == g[0].len(),
        lone_row(g, cx, cy),
        forall|x: int, y: int|
            0 <= x < g.len() && 0 <= y < g[0].len() ==> #[trigger] g2[x][y] == next_state(g, x, y),
        forall|x: int, y: int|
            0 <= x < g.len() && 0 <= y < g[0].len() ==> #[trigger] g3[x][y] == next_state(
                g2,
                x,
                y,
            ),
    ensures
        lone_column(g2, cx, cy),
        forall|x: int, y: int|
            0 <= x < g.len() && 0 <= y < g[0].len() ==> #[trigger] g3[x][y] == g[x][y],
{
    lemma_blinker_row_to_column(g, cx, cy);
    lemma_blinker_column_to_row(g2, cx, cy);
}

/// A generation-update rule over a grid. An implementation owns whatever
/// scratch storage it needs for the extents it was built for; `update`
/// replaces every cell of the grid with its next-generation state under
/// the implementation's transition rule, all at once: every new state is
/// computed from the previous generation only.
pub trait Algorithm {
    /// The transition rule: whether the cell at (x, y) is on in the
    /// generation following `g`.
    spec fn rule(g: Seq<Seq<bool>>, x: int, y: int) -> bool;

    /// Well-formedness of the rule's own scratch storage.
    spec fn wf(&self) -> bool;

    /// The grid extents this instance was built for.
    spec fn rule_width(&self) -> nat;

    spec fn rule_height(&self) -> nat;

    /// Advances the grid by exactly one generation, or fails with
    /// DimensionMismatch, leaving everything unchanged, when the grid's
    /// extents differ from the ones this rule was built for.
    fn update(&mut self, grid: &mut Grid) -> (r: Result<(), LifeError>)
        requires
            old(self).wf(),
            old(grid).wf(),
        ensures
            final(self).wf(),
            final(grid).wf(),
            final(self).rule_width() == old(self).rule_width(),
            final(self).rule_height() == old(self).rule_height(),
            r is Ok <==> (old(grid)@.len() == old(self).rule_width() && old(grid)@[0].len()
                == old(self).rule_height()),
            r is Ok ==> {
                &&& final(grid)@.len() == old(grid)@.len()
                &&& final(grid)@[0].len() == old(grid)@[0].len()
                &&& forall|x: int, y: int|
                    0 <= x < old(grid)@.len() && 0 <= y < old(grid)@[0].len()
                        ==> #[trigger] final(grid)@[x][y] == Self::rule(old(grid)@, x, y)
            },
            r is Err ==> r == Err::<(), LifeError>(LifeError::DimensionMismatch) && final(grid)@
                == old(grid)@,
    ;
}

/// Conway's Game of Life as an Algorithm. It owns a scratch grid of the
/// extents it was built for; each update computes the whole next generation
/// into the scratch grid first and copies it back afterwards, so that no
/// cell's new state can leak into another cell's neighbor count within the
/// same generation.
pub struct GameOfLife {
    temp_grid: Grid,
}

impl GameOfLife {
    pub fn new(temp_grid: Grid) -> (r: GameOfLife)
        requires
            temp_grid.wf(),
        ensures
            r.wf(),
            r.rule_width() == temp_grid@.len(),
            r.rule_height() == temp_grid@[0].len(),
    {
        GameOfLife { temp_grid }
    }

    /// The number of on cells in the bounded Moore neighborhood of (x, y).
    fn num_neighbors(x: u32, y: u32, grid: &Grid) -> (n: u8)
        requires
            grid.wf(),
            (x as nat) < grid@.len(),
            (y as nat) < grid@[0].len(),
        ensures
            n as int == neighbor_count(grid@, x as int, y as int),
    {
        let width = grid.width();
        let height = grid.height();
        let mut n: u8 = 0;

        if x != 0 && grid.at(x - 1, y) {
            n += 1;
        }
        if x != 0 && y != 0 && grid.at(x - 1, y - 1) {
            n += 1;
        }
        if x != 0 && y + 1 != height && grid.at(x - 1, y + 1) {
            n += 1;
        }
        if y != 0 && grid.at(x, y - 1) {
            n += 1;
        }
        if y != 0 && x + 1 != width && grid.at(x + 1, y - 1) {
            n += 1;
        }
        if x + 1 != width && grid.at(x + 1, y) {
            n += 1;
        }
        if x + 1 != width && y + 1 != height && grid.at(x + 1, y + 1) {
            n += 1;
        }
        if y + 1 != height && grid.at(x, y + 1) {
            n += 1;
        }

        n
    }
}

impl Algorithm for GameOfLife {
    open spec fn rule(g: Seq<Seq<bool>>, x: int, y: int) -> bool {
        next_state(g, x, y)
    }

    closed spec fn wf(&self) -> bool {
        self.temp_grid.wf()
    }

    closed spec fn rule_width(&self) -> nat {
        self.temp_grid@.len()
    }

    closed spec fn rule_height(&self) -> nat {
        self.temp_grid@[0].len()
    }

    fn update(&mut self, grid: &mut Grid) -> (r: Result<(), LifeError>) {
        let width = grid.width();
        let height = grid.height();
        if width != self.temp_grid.width() || height != self.temp_grid.height() {
            return Err(LifeError::DimensionMismatch);
        }

        // First phase: resolve the next state of every cell into the
        // scratch grid, reading only the unmodified current generation.
        let mut y: u32 = 0;
        while y < height
            invariant
                grid.wf(),
                grid@ == old(grid)@,
                self.temp_grid.wf(),
                width as nat == grid@.len(),
                height as nat == grid@[0].len(),
                self.temp_grid@.len() == width as nat,
                self.temp_grid@[0].len() == height as nat,
                0 <= y <= height,
                forall|i: int, j: int|
                    0 <= i < width && 0 <= j < y ==> #[trigger] self.temp_grid@[i][j]
                        == next_state(grid@, i, j),
            decreases height - y,
        {
            let mut x: u32 = 0;
            while x < width
                invariant
                    grid.wf(),
                    grid@ == old(grid)@,
                    self.temp_grid.wf(),
                    width as nat == grid@.len(),
                    height as nat == grid@[0].len(),
                    self.temp_grid@.len() == width as nat,
                    self.temp_grid@[0].len() == height as nat,
                    0 <= y < height,
                    0 <= x <= width,
                    forall|i: int, j: int|
                        0 <= i < width && 0 <= j < y ==> #[trigger] self.temp_grid@[i][j]
                            == next_state(grid@, i, j),
                    forall|i: int|
                        0 <= i < x ==> #[trigger] self.temp_grid@[i][y as int] == next_state(
                            grid@,
                            i,
                            y as int,
                        ),
                decreases width - x,
            {
                let n = Self::num_neighbors(x, y, grid);
                let next = match n {
                    2 => grid.at(x, y),
                    3 => true,
                    _ => false,
                };
                self.temp_grid.put(x, y, next);
                x += 1;
            }
            y += 1;
        }

        // Second phase: copy every resolved state back into the live grid.
        let ghost prev = grid@;
        let mut x: u32 = 0;
        while x < width
            invariant
                grid.wf(),
                self.temp_grid.wf(),
                width as nat == grid@.len(),
                height as nat == grid@[0].len(),
                self.temp_grid@.len() == width as nat,
                self.temp_grid@[0].len() == height as nat,
                prev.len() == width as nat,
                0 <= x <= width,
                forall|i: int, j: int|
                    0 <= i < width && 0 <= j < height ==> #[trigger] self.temp_grid@[i][j]
                        == next_state(prev, i, j),
                forall|i: int, j: int|
                    0 <= i < x && 0 <= j < height ==> #[trigger] grid@[i][j] == next_state(
                        prev,
                        i,
                        j,
                    ),
            decreases width - x,
        {
            let mut y: u32 = 0;
            while y < height
                invariant
                    grid.wf(),
                    self.temp_grid.wf(),
                    width as nat == grid@.len(),
                    height as nat == grid@[0].len(),
                    self.temp_grid@.len() == width as nat,
                    self.temp_grid@[0].len() == height as nat,
                    prev.len() == width as nat,
                    0 <= x < width,
                    0 <= y <= height,
                    forall|i: int, j: int|
                        0 <= i < width && 0 <= j < height ==> #[trigger] self.temp_grid@[i][j]
                            == next_state(prev, i, j),
                    forall|i: int, j: int|
                        0 <= i < x && 0 <= j < height ==> #[trigger] grid@[i][j] == next_state(
                            prev,
                            i,
                            j,
                        ),
                    forall|j: int|
                        0 <= j < y ==> #[trigger] grid@[x as int][j] == next_state(
                            prev,
                            x as int,
                            j,
                        ),
                decreases height - y,
            {
                let v = self.temp_grid.at(x, y);
                grid.put(x, y, v);
                y += 1;
            }
            x += 1;
        }

        Ok(())
    }
}

} // verus!
