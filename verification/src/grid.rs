//! One fixed-size buffer of cells.
//!
//! A [`Grid`] is modelled by the set of coordinates of its live cells. Reads
//! outside the grid see a dead cell and writes outside the grid do nothing, so
//! the edge of the grid is a hard boundary: nothing wraps around.

use vstd::prelude::*;

verus! {

/// Number of columns of the grid.
pub const WIDTH: usize = 80;

/// Number of rows of the grid.
pub const HEIGHT: usize = 60;

/// Whether `(x, y)` names a cell of the grid.
pub open spec fn in_bounds(x: int, y: int) -> bool {
    0 <= x < WIDTH && 0 <= y < HEIGHT
}

/// Whether every coordinate in `live` names a cell of the grid.
pub open spec fn within_grid(live: Set<(int, int)>) -> bool {
    forall|x: int, y: int| #[trigger] live.contains((x, y)) ==> in_bounds(x, y)
}

/// Where the cell `(x, y)` is kept: the cells are laid out column by column,
/// each column from top to bottom.
spec fn cell_offset(x: int, y: int) -> int {
    x * HEIGHT + y
}

/// Tests whether `(x, y)` names a cell of the grid.
pub fn cell_in_bounds(x: usize, y: usize) -> (inside: bool)
    ensures
        inside == in_bounds(x as int, y as int),
{
    x < WIDTH && y < HEIGHT
}

/// A `WIDTH` by `HEIGHT` array of cells, each alive or dead.
pub struct Grid {
    cells: Vec<bool>,
}

impl View for Grid {
    type V = Set<(int, int)>;

    /// The coordinates of the live cells.
    closed spec fn view(&self) -> Set<(int, int)> {
        Set::new(|c: (int, int)| in_bounds(c.0, c.1) && self.cells@[cell_offset(c.0, c.1)])
    }
}

impl Grid {
    #[verifier::type_invariant]
    spec fn well_formed(&self) -> bool {
        self.cells@.len() == WIDTH * HEIGHT
    }

    /// No live cell lies outside the grid.
    pub proof fn lemma_within_grid(&self)
        ensures
            within_grid(self@),
    {
    }

    /// A grid in which every cell is dead.
    pub fn new() -> (grid: Grid)
        ensures
            grid@ == Set::<(int, int)>::empty(),
    {
        let grid = Grid { cells: vec![false; WIDTH * HEIGHT] };
        assert(grid@ =~= Set::<(int, int)>::empty());
        grid
    }

    /// Reads the cell at `(x, y)`. A coordinate outside the grid reads as dead.
    pub fn get(&self, x: usize, y: usize) -> (alive: bool)
        ensures
            alive == self@.contains((x as int, y as int)),
            !in_bounds(x as int, y as int) ==> !alive,
    {
        proof {
            use_type_invariant(self);
        }
        x < WIDTH && y < HEIGHT && self.cells[x * HEIGHT + y]
    }

    /// Writes the cell at `(x, y)`. A coordinate outside the grid is ignored.
    pub fn set(&mut self, x: usize, y: usize, value: bool)
        ensures
            in_bounds(x as int, y as int) && value ==> final(self)@ == old(self)@.insert(
                (x as int, y as int),
            ),
            in_bounds(x as int, y as int) && !value ==> final(self)@ == old(self)@.remove(
                (x as int, y as int),
            ),
            !in_bounds(x as int, y as int) ==> final(self)@ == old(self)@,
    {
        proof {
            use_type_invariant(&*self);
        }
        if x < WIDTH && y < HEIGHT {
            self.cells[x * HEIGHT + y] = value;
            proof {
                assert forall|c: (int, int)| in_bounds(c.0, c.1) && c != (x as int, y as int)
                    implies cell_offset(c.0, c.1) != cell_offset(x as int, y as int) by {}
                if value {
                    assert(self@ =~= old(self)@.insert((x as int, y as int)));
                } else {
                    assert(self@ =~= old(self)@.remove((x as int, y as int)));
                }
            }
        }
    }
}

} // verus!
