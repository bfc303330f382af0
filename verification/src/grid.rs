//! The cell store: a fixed-size two-dimensional array of cells, with
//! bounds-checked access.  Out-of-range reads return `None` and
//! out-of-range writes do nothing; neither ever fails.

use vstd::prelude::*;

use crate::cell::Cell;
use crate::cell::CellV;
use crate::cell::CellValue;

verus! {

/// Number of rows in a grid.
pub const ROWS: usize = 20;

/// Number of columns in a grid.
pub const COLS: usize = 20;

/// A `ROWS` by `COLS` array of cells, indexed row first.
pub struct Grid {
    cells: Vec<Vec<Cell>>,
}

impl DeepView for Grid {
    type V = Seq<Seq<CellV>>;

    closed spec fn deep_view(&self) -> Seq<Seq<CellV>> {
        self.cells.deep_view()
    }
}

/// The shape every grid keeps: exactly `ROWS` rows of `COLS` cells each.
pub open spec fn grid_wf(g: Seq<Seq<CellV>>) -> bool {
    &&& g.len() == ROWS
    &&& forall|r: int| 0 <= r < g.len() ==> (#[trigger] g[r]).len() == COLS
}

impl Grid {
    /// A grid of empty cells (integer zero, no formula).
    pub fn new() -> (r: Self)
        ensures
            grid_wf(r.deep_view()),
            forall|ri: int, ci: int|
                0 <= ri < ROWS && 0 <= ci < COLS ==> (#[trigger] r.deep_view()[ri][ci]).value
                    == crate::cell::CellValueV::Int(0),
    {
        let mut cells: Vec<Vec<Cell>> = Vec::new();
        while cells.len() < ROWS
            invariant
                cells@.len() <= ROWS,
                forall|ri: int|
                    0 <= ri < cells@.len() ==> (#[trigger] cells@[ri])@.len() == COLS,
                forall|ri: int, ci: int|
                    0 <= ri < cells@.len() && 0 <= ci < COLS ==> (#[trigger] cells@[ri]@[ci]).deep_view().value
                        == crate::cell::CellValueV::Int(0),
            decreases ROWS - cells.len(),
        {
            let mut row: Vec<Cell> = Vec::new();
            while row.len() < COLS
                invariant
                    row@.len() <= COLS,
                    forall|ci: int|
                        0 <= ci < row@.len() ==> (#[trigger] row@[ci]).deep_view().value
                            == crate::cell::CellValueV::Int(0),
                decreases COLS - row.len(),
            {
                row.push(Cell::new_empty());
            }
            cells.push(row);
        }
        let g = Grid { cells };
        proof {
            assert forall|ri: int, ci: int|
                0 <= ri < ROWS && 0 <= ci < COLS implies (#[trigger] g.deep_view()[ri][ci]).value
                == crate::cell::CellValueV::Int(0) by {
                assert(g.deep_view()[ri] == g.cells@[ri].deep_view());
                assert(g.deep_view()[ri][ci] == g.cells@[ri]@[ci].deep_view());
            }
            assert forall|ri: int| 0 <= ri < g.deep_view().len() implies (#[trigger] g.deep_view()[ri]).len()
                == COLS by {
                assert(g.deep_view()[ri] == g.cells@[ri].deep_view());
            }
        }
        g
    }

    /// The cell at the given row and column, or `None` when either index
    /// is out of range.
    pub fn get_cell(&self, row: usize, col: usize) -> (r: Option<&Cell>)
        requires
            grid_wf(self.deep_view()),
        ensures
            match r {
                Some(c) => row < ROWS && col < COLS && c.deep_view() == self.deep_view()[row as int][col as int],
                None => row >= ROWS || col >= COLS,
            },
    {
        proof {
            assert(self.deep_view().len() == self.cells@.len());
        }
        if row < ROWS && col < COLS {
            proof {
                assert(self.deep_view()[row as int] == self.cells@[row as int].deep_view());
                assert(self.cells@[row as int].deep_view().len() == self.cells@[row as int]@.len());
                assert(self.deep_view()[row as int][col as int] == self.cells@[row as int]@[col as int].deep_view());
            }
            Some(&self.cells[row][col])
        } else {
            None
        }
    }

    /// Mutable access to the cell at the given row and column, or `None`
    /// when either index is out of range.  The grid itself is unchanged
    /// when `None` comes back.
    pub fn get_mut_cell(&mut self, row: usize, col: usize) -> (r: Option<&mut Cell>)
        requires
            grid_wf(old(self).deep_view()),
        ensures
            row < ROWS && col < COLS ==> r is Some,
            row >= ROWS || col >= COLS ==> r is None && final(self).deep_view() == old(
                self,
            ).deep_view(),
    {
        proof {
            assert(old(self).deep_view().len() == old(self).cells@.len());
        }
        if row < ROWS && col < COLS {
            proof {
                assert(old(self).deep_view()[row as int] == old(self).cells@[row as int].deep_view());
                assert(old(self).cells@[row as int].deep_view().len() == old(self).cells@[row as int]@.len());
            }
            Some(&mut self.cells[row][col])
        } else {
            None
        }
    }

    /// Stores a value at the given row and column; out of range, the grid
    /// is unchanged.  The cell's formula is kept.
    pub fn set_cell_value(&mut self, row: usize, col: usize, value: CellValue)
        requires
            grid_wf(old(self).deep_view()),
        ensures
            grid_wf(final(self).deep_view()),
            row < ROWS && col < COLS ==> {
                &&& final(self).deep_view()[row as int][col as int].value == value.deep_view()
                &&& final(self).deep_view()[row as int][col as int].formula == old(
                    self,
                ).deep_view()[row as int][col as int].formula
                &&& forall|ri: int, ci: int|
                    0 <= ri < ROWS && 0 <= ci < COLS && !(ri == row && ci == col)
                        ==> #[trigger] final(self).deep_view()[ri][ci] == old(
                        self,
                    ).deep_view()[ri][ci]
            },
            row >= ROWS || col >= COLS ==> final(self).deep_view() == old(self).deep_view(),
    {
        proof {
            assert(old(self).deep_view().len() == old(self).cells@.len());
        }
        if row < ROWS && col < COLS {
            proof {
                assert(old(self).deep_view()[row as int] == old(self).cells@[row as int].deep_view());
                assert(old(self).cells@[row as int].deep_view().len() == old(self).cells@[row as int]@.len());
            }
            let row_vec: &mut Vec<Cell> = &mut self.cells[row];
            let cell: &mut Cell = &mut row_vec[col];
            cell.set_value(value);
            proof {
                lemma_grid_views(*old(self), *self, row as int, col as int);
            }
        }
    }

    /// Stores a formula at the given row and column; out of range, the
    /// grid is unchanged.  The cell's value is kept.
    pub fn set_cell_formula(&mut self, row: usize, col: usize, formula: String)
        requires
            grid_wf(old(self).deep_view()),
        ensures
            grid_wf(final(self).deep_view()),
            row < ROWS && col < COLS ==> {
                &&& final(self).deep_view()[row as int][col as int].formula == Some(formula@)
                &&& final(self).deep_view()[row as int][col as int].value == old(
                    self,
                ).deep_view()[row as int][col as int].value
                &&& forall|ri: int, ci: int|
                    0 <= ri < ROWS && 0 <= ci < COLS && !(ri == row && ci == col)
                        ==> #[trigger] final(self).deep_view()[ri][ci] == old(
                        self,
                    ).deep_view()[ri][ci]
            },
            row >= ROWS || col >= COLS ==> final(self).deep_view() == old(self).deep_view(),
    {
        proof {
            assert(old(self).deep_view().len() == old(self).cells@.len());
        }
        if row < ROWS && col < COLS {
            proof {
                assert(old(self).deep_view()[row as int] == old(self).cells@[row as int].deep_view());
                assert(old(self).cells@[row as int].deep_view().len() == old(self).cells@[row as int]@.len());
            }
            let row_vec: &mut Vec<Cell> = &mut self.cells[row];
            let cell: &mut Cell = &mut row_vec[col];
            cell.set_formula(formula);
            proof {
                lemma_grid_views(*old(self), *self, row as int, col as int);
            }
        }
    }
}

/// After one cell of `b` replaced one cell of `a` and everything else was
/// kept (at the vector level), the deep views agree everywhere but at that
/// cell, and the shape is kept.
proof fn lemma_grid_views(a: Grid, b: Grid, row: int, col: int)
    requires
        grid_wf(a.deep_view()),
        0 <= row < a.cells@.len(),
        0 <= col < a.cells@[row]@.len(),
        b.cells@.len() == a.cells@.len(),
        forall|ri: int| 0 <= ri < a.cells@.len() && ri != row ==> a.cells@[ri] == #[trigger] b.cells@[ri],
        b.cells@[row]@.len() == a.cells@[row]@.len(),
        forall|ci: int|
            0 <= ci < a.cells@[row]@.len() && ci != col ==> a.cells@[row]@[ci] == #[trigger] b.cells@[row]@[ci],
    ensures
        grid_wf(b.deep_view()),
        b.deep_view()[row][col] == b.cells@[row]@[col].deep_view(),
        a.deep_view()[row][col] == a.cells@[row]@[col].deep_view(),
        forall|ri: int, ci: int|
            0 <= ri < a.deep_view().len() && 0 <= ci < a.deep_view()[ri].len() && !(ri == row && ci
                == col) ==> #[trigger] b.deep_view()[ri][ci] == a.deep_view()[ri][ci],
{
    assert forall|ri: int| 0 <= ri < b.deep_view().len() implies (#[trigger] b.deep_view()[ri]).len()
        == COLS by {
        assert(b.deep_view()[ri] == b.cells@[ri].deep_view());
        assert(a.deep_view()[ri] == a.cells@[ri].deep_view());
        assert(a.deep_view()[ri].len() == COLS);
        if ri != row {
            assert(b.cells@[ri] == a.cells@[ri]);
        }
    }
    assert forall|ri: int, ci: int|
        0 <= ri < a.deep_view().len() && 0 <= ci < a.deep_view()[ri].len() && !(ri == row && ci
            == col) implies #[trigger] b.deep_view()[ri][ci] == a.deep_view()[ri][ci] by {
        assert(a.deep_view()[ri] == a.cells@[ri].deep_view());
        assert(b.deep_view()[ri] == b.cells@[ri].deep_view());
        if ri != row {
            assert(b.cells@[ri] == a.cells@[ri]);
        } else {
            assert(a.deep_view()[ri][ci] == a.cells@[ri]@[ci].deep_view());
            assert(b.deep_view()[ri][ci] == b.cells@[ri]@[ci].deep_view());
            assert(a.cells@[row]@[ci] == b.cells@[row]@[ci]);
        }
    }
}

} // verus!
