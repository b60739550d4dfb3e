//! The cell matrix and the generation-stepping engine.
//!
//! A board is a row-major matrix of booleans with fixed dimensions. One
//! generation applies the classic birth/survival rule to every cell, reading
//! only the prior board, so the rows can be computed in any order — here in
//! parallel through rayon, behind a single trusted wrapper.

use vstd::prelude::*;
use rayon::iter::IntoParallelIterator;
use rayon::iter::ParallelIterator;

verus! {

/// A Game of Life board: `grid[r][c]` is `true` when the cell at row `r`,
/// column `c` is alive. The matrix always has exactly `rows × cols` cells.
pub struct GameOfLife {
    pub grid: Vec<Vec<bool>>,
    pub rows: usize,
    pub cols: usize,
}

impl View for GameOfLife {
    type V = Seq<Seq<bool>>;

    open spec fn view(&self) -> Seq<Seq<bool>> {
        self.grid@.map_values(|row: Vec<bool>| row@)
    }
}

/// A cell is alive when it lies on the board and holds `true`; every
/// coordinate off the board reads as permanently dead (no wraparound).
pub open spec fn cell_alive(v: Seq<Seq<bool>>, r: int, c: int) -> bool {
    0 <= r < v.len() && 0 <= c < v[r].len() && v[r][c]
}

pub open spec fn count_one(b: bool) -> int {
    if b { 1 } else { 0 }
}

/// How many of the eight surrounding cells are alive. Off-board positions
/// read as dead, so edge and corner cells never see phantom neighbors.
pub open spec fn live_neighbors(v: Seq<Seq<bool>>, r: int, c: int) -> int {
    count_one(cell_alive(v, r - 1, c - 1)) + count_one(cell_alive(v, r - 1, c))
        + count_one(cell_alive(v, r - 1, c + 1)) + count_one(cell_alive(v, r, c - 1))
        + count_one(cell_alive(v, r, c + 1)) + count_one(cell_alive(v, r + 1, c - 1))
        + count_one(cell_alive(v, r + 1, c)) + count_one(cell_alive(v, r + 1, c + 1))
}

/// The rule: a live cell survives with exactly 2 or 3 live neighbors; a dead
/// cell is born with exactly 3; every other combination yields a dead cell.
pub open spec fn next_cell(v: Seq<Seq<bool>>, r: int, c: int) -> bool {
    if cell_alive(v, r, c) {
        live_neighbors(v, r, c) == 2 || live_neighbors(v, r, c) == 3
    } else {
        live_neighbors(v, r, c) == 3
    }
}

/// The whole next generation, every cell computed from the prior board alone.
pub open spec fn next_grid(v: Seq<Seq<bool>>) -> Seq<Seq<bool>> {
    Seq::new(v.len(), |r: int| Seq::new(v[r].len(), |c: int| next_cell(v, r, c)))
}

/// The board after flipping one cell: unchanged when the coordinates fall
/// outside the matrix.
pub open spec fn toggled(v: Seq<Seq<bool>>, r: int, c: int) -> Seq<Seq<bool>> {
    if 0 <= r < v.len() && 0 <= c < v[r].len() {
        v.update(r, v[r].update(c, !v[r][c]))
    } else {
        v
    }
}

impl GameOfLife {
    /// The matrix has `rows` rows of `cols` cells each.
    pub open spec fn wf(self) -> bool {
        &&& self@.len() == self.rows
        &&& forall|i: int| 0 <= i < self@.len() ==> #[trigger] self@[i].len() == self.cols
    }

    /// A fresh board of the given dimensions with every cell dead.
    pub fn new(rows: usize, cols: usize) -> (g: GameOfLife)
        ensures
            g.wf(),
            g.rows == rows,
            g.cols == cols,
            forall|r: int, c: int| !cell_alive(g@, r, c),
    {
        let mut grid: Vec<Vec<bool>> = Vec::new();
        let mut i: usize = 0;
        while i < rows
            invariant
                i <= rows,
                grid@.len() == i,
                forall|r: int| 0 <= r < i ==> (#[trigger] grid@[r])@.len() == cols,
                forall|r: int, c: int|
                    0 <= r < i && 0 <= c < cols ==> !(#[trigger] grid@[r]@[c]),
            decreases rows - i,
        {
            let mut row: Vec<bool> = Vec::new();
            let mut j: usize = 0;
            while j < cols
                invariant
                    j <= cols,
                    row@.len() == j,
                    forall|c: int| 0 <= c < j ==> !(#[trigger] row@[c]),
                decreases cols - j,
            {
                row.push(false);
                j = j + 1;
            }
            grid.push(row);
            i = i + 1;
        }
        let g = GameOfLife { grid, rows, cols };
        proof {
            assert(forall|r: int| 0 <= r < g@.len() ==> #[trigger] g@[r] =~= g.grid@[r]@);
        }
        g
    }

    /// Flip the cell at `(row, col)`; silently do nothing out of bounds,
    /// since coordinates coming back from screen transforms may legitimately
    /// fall just off the board.
    pub fn toggle_cell(&mut self, row: usize, col: usize)
        requires
            old(self).wf(),
        ensures
            final(self).wf(),
            final(self).rows == old(self).rows,
            final(self).cols == old(self).cols,
            final(self)@ == toggled(old(self)@, row as int, col as int),
    {
        if row < self.rows && col < self.cols {
            proof {
                assert(self@[row as int] == self.grid@[row as int]@);
            }
            let row_ref = &mut self.grid[row];
            let cell_ref = &mut row_ref[col];
            let cur: bool = *cell_ref;
            *cell_ref = !cur;
            proof {
                assert(self@ =~~= toggled(old(self)@, row as int, col as int));
            }
        } else {
            proof {
                assert(self@ =~~= toggled(old(self)@, row as int, col as int));
            }
        }
    }

    /// Read one cell; out-of-bounds coordinates read as dead.
    pub fn is_alive(&self, row: usize, col: usize) -> (alive: bool)
        requires
            self.wf(),
        ensures
            alive == cell_alive(self@, row as int, col as int),
    {
        if row < self.rows && col < self.cols {
            proof {
                assert(self@[row as int] == self.grid@[row as int]@);
            }
            self.grid[row][col]
        } else {
            false
        }
    }

    /// Read a cell at possibly off-board coordinates.
    fn alive_at(&self, r: i128, c: i128) -> (alive: bool)
        requires
            self.wf(),
        ensures
            alive == cell_alive(self@, r as int, c as int),
    {
        if 0 <= r && r < self.rows as i128 && 0 <= c && c < self.cols as i128 {
            proof {
                assert(self@[r as int] == self.grid@[r as int]@);
            }
            self.grid[r as usize][c as usize]
        } else {
            false
        }
    }

    /// Count the live cells among the eight neighbors, bounds-checked.
    fn count_neighbors(&self, row: usize, col: usize) -> (n: u8)
        requires
            self.wf(),
            row < self.rows,
            col < self.cols,
        ensures
            n == live_neighbors(self@, row as int, col as int),
    {
        let r = row as i128;
        let c = col as i128;
        let mut n: u8 = 0;
        if self.alive_at(r - 1, c - 1) { n = n + 1; }
        if self.alive_at(r - 1, c) { n = n + 1; }
        if self.alive_at(r - 1, c + 1) { n = n + 1; }
        if self.alive_at(r, c - 1) { n = n + 1; }
        if self.alive_at(r, c + 1) { n = n + 1; }
        if self.alive_at(r + 1, c - 1) { n = n + 1; }
        if self.alive_at(r + 1, c) { n = n + 1; }
        if self.alive_at(r + 1, c + 1) { n = n + 1; }
        n
    }

    /// One destination row of the next generation, read from the prior board.
    pub fn compute_row(&self, row: usize) -> (out: Vec<bool>)
        requires
            self.wf(),
            row < self.rows,
        ensures
            out@.len() == self.cols,
            forall|c: int| 0 <= c < self.cols ==> #[trigger] out@[c] == next_cell(self@, row as int, c),
    {
        let mut out: Vec<bool> = Vec::new();
        let mut col: usize = 0;
        while col < self.cols
            invariant
                self.wf(),
                row < self.rows,
                col <= self.cols,
                out@.len() == col,
                forall|c: int|
                    0 <= c < col ==> #[trigger] out@[c] == next_cell(self@, row as int, c),
            decreases self.cols - col,
        {
            let neighbors = self.count_neighbors(row, col);
            let alive = self.grid[row][col];
            let next = if alive {
                neighbors == 2 || neighbors == 3
            } else {
                neighbors == 3
            };
            out.push(next);
            col = col + 1;
        }
        out
    }

    /// A deep copy of the board, taken before a step so the history can
    /// restore it later.
    pub fn snapshot(&self) -> (g: GameOfLife)
        requires
            self.wf(),
        ensures
            g.wf(),
            g.rows == self.rows,
            g.cols == self.cols,
            g@ == self@,
    {
        let mut grid: Vec<Vec<bool>> = Vec::new();
        let mut i: usize = 0;
        while i < self.rows
            invariant
                self.wf(),
                i <= self.rows,
                grid@.len() == i,
                forall|r: int| 0 <= r < i ==> (#[trigger] grid@[r])@ == self@[r],
            decreases self.rows - i,
        {
            let mut row: Vec<bool> = Vec::new();
            let mut j: usize = 0;
            while j < self.cols
                invariant
                    self.wf(),
                    i < self.rows,
                    j <= self.cols,
                    row@.len() == j,
                    forall|c: int| 0 <= c < j ==> #[trigger] row@[c] == self@[i as int][c],
                decreases self.cols - j,
            {
                proof {
                    assert(self@[i as int] == self.grid@[i as int]@);
                }
                row.push(self.grid[i][j]);
                j = j + 1;
            }
            proof {
                assert(row@ =~= self@[i as int]);
            }
            grid.push(row);
            i = i + 1;
        }
        let g = GameOfLife { grid, rows: self.rows, cols: self.cols };
        proof {
            assert(g@ =~~= self@);
        }
        g
    }

    /// Relies on rayon: `into_par_iter().map(..).collect()` over the row range
    /// fans the rows out to worker threads, blocks until all are done, and
    /// collects the results in index order, so slot `r` holds exactly what
    /// `compute_row(r)` returns. Each worker only reads the shared prior
    /// board and builds its own disjoint row.
    #[verifier::external_body]
    fn compute_rows_parallel(&self) -> (out: Vec<Vec<bool>>)
        requires
            self.wf(),
        ensures
            out@.len() == self.rows,
            forall|r: int| 0 <= r < self.rows ==> (#[trigger] out@[r])@.len() == self.cols,
            forall|r: int, c: int|
                0 <= r < self.rows && 0 <= c < self.cols
                    ==> #[trigger] out@[r]@[c] == next_cell(self@, r, c),
    {
        (0..self.rows).into_par_iter().map(|row| self.compute_row(row)).collect()
    }

    /// Replace the board with the next generation, computed wholly from the
    /// immutable prior board and installed as one atomic swap: no caller ever
    /// observes a partially stepped board.
    pub fn next_generation(&mut self)
        requires
            old(self).wf(),
        ensures
            final(self).wf(),
            final(self).rows == old(self).rows,
            final(self).cols == old(self).cols,
            final(self)@ == next_grid(old(self)@),
    {
        let new_grid = self.compute_rows_parallel();
        self.grid = new_grid;
        proof {
            assert(self@ =~~= next_grid(old(self)@));
        }
    }
}

/// Toggling the same cell twice always restores the board, bit for bit; a
/// toggle outside the board was already a no-op.
pub proof fn lemma_toggle_involution(v: Seq<Seq<bool>>, r: int, c: int)
    ensures
        toggled(toggled(v, r, c), r, c) == v,
{
    if 0 <= r < v.len() && 0 <= c < v[r].len() {
        let v1 = toggled(v, r, c);
        assert(v1[r].len() == v[r].len());
        assert(toggled(v1, r, c) =~~= v);
    }
}

/// One generation is a pure function of the cells of the prior board: two
/// boards of the same dimensions that agree cell by cell step to the same
/// board, however the row computations were ordered or partitioned.
pub proof fn lemma_step_deterministic(a: Seq<Seq<bool>>, b: Seq<Seq<bool>>)
    requires
        a.len() == b.len(),
        forall|r: int| 0 <= r < a.len() ==> #[trigger] a[r].len() == b[r].len(),
        forall|r: int, c: int| cell_alive(a, r, c) == cell_alive(b, r, c),
    ensures
        next_grid(a) == next_grid(b),
{
    assert forall|r: int, c: int| live_neighbors(a, r, c) == live_neighbors(b, r, c) by {
        assert(cell_alive(a, r - 1, c - 1) == cell_alive(b, r - 1, c - 1));
        assert(cell_alive(a, r - 1, c) == cell_alive(b, r - 1, c));
        assert(cell_alive(a, r - 1, c + 1) == cell_alive(b, r - 1, c + 1));
        assert(cell_alive(a, r, c - 1) == cell_alive(b, r, c - 1));
        assert(cell_alive(a, r, c + 1) == cell_alive(b, r, c + 1));
        assert(cell_alive(a, r + 1, c - 1) == cell_alive(b, r + 1, c - 1));
        assert(cell_alive(a, r + 1, c) == cell_alive(b, r + 1, c));
        assert(cell_alive(a, r + 1, c + 1) == cell_alive(b, r + 1, c + 1));
    }
    assert(next_grid(a) =~~= next_grid(b));
}

/// No wraparound at the edges: a live corner cell on an otherwise empty board
/// has zero live neighbors, and dies in one generation.
pub proof fn lemma_corner_cell_isolated(v: Seq<Seq<bool>>)
    requires
        cell_alive(v, 0, 0),
        forall|r: int, c: int| !(r == 0 && c == 0) ==> !cell_alive(v, r, c),
    ensures
        live_neighbors(v, 0, 0) == 0,
        !next_cell(v, 0, 0),
{
}

/// A live cell with no live neighbors is dead after exactly one generation.
pub proof fn lemma_lone_cell_dies(v: Seq<Seq<bool>>, r: int, c: int)
    requires
        cell_alive(v, r, c),
        live_neighbors(v, r, c) == 0,
    ensures
        !next_cell(v, r, c),
{
}

} // verus!
