//! The grid store: two buffers and the index of the active one.
//!
//! The active buffer is the one that is shown and edited; the other one is
//! scratch space for the generation being computed. Swapping the two is a
//! flip of the index: no cell is copied.

use vstd::prelude::*;
use crate::grid::{in_bounds, within_grid, Grid};

verus! {

/// Number of buffers in the store.
pub const BUFFER_COUNT: usize = 2;

/// Two grids of equal size, one of them active.
pub struct DoubleBuffer {
    first: Grid,
    second: Grid,
    second_active: bool,
}

/// What a [`DoubleBuffer`] holds: the live cells of each buffer, and which
/// buffer is active.
pub struct DoubleBufferView {
    pub buffers: Seq<Set<(int, int)>>,
    pub active: int,
}

impl DoubleBufferView {
    /// There are two buffers, the active index names one of them, and no
    /// buffer has a live cell outside the grid.
    pub open spec fn wf(self) -> bool {
        &&& self.buffers.len() == BUFFER_COUNT
        &&& 0 <= self.active < BUFFER_COUNT
        &&& forall|i: int| 0 <= i < BUFFER_COUNT ==> within_grid(#[trigger] self.buffers[i])
    }

    /// Index of the buffer that is not active.
    pub open spec fn inactive(self) -> int {
        1 - self.active
    }

    /// Whether the cell `(x, y)` of buffer `buffer` is alive.
    pub open spec fn alive(self, buffer: int, x: int, y: int) -> bool {
        self.buffers[buffer].contains((x, y))
    }

    /// The store after cell `(x, y)` of buffer `buffer` was written; a write
    /// outside the grid changes nothing.
    pub open spec fn written(self, buffer: int, x: int, y: int, value: bool) -> Self {
        if !in_bounds(x, y) {
            self
        } else if value {
            DoubleBufferView {
                buffers: self.buffers.update(buffer, self.buffers[buffer].insert((x, y))),
                active: self.active,
            }
        } else {
            DoubleBufferView {
                buffers: self.buffers.update(buffer, self.buffers[buffer].remove((x, y))),
                active: self.active,
            }
        }
    }

    /// The store after the roles of the two buffers were exchanged.
    pub open spec fn swapped(self) -> Self {
        DoubleBufferView { buffers: self.buffers, active: self.inactive() }
    }

    /// Writing a cell keeps the store well formed.
    pub proof fn lemma_written_wf(self, buffer: int, x: int, y: int, value: bool)
        requires
            self.wf(),
            0 <= buffer < BUFFER_COUNT,
        ensures
            self.written(buffer, x, y, value).wf(),
    {
        let after = self.written(buffer, x, y, value);
        assert forall|i: int| 0 <= i < BUFFER_COUNT implies within_grid(
            #[trigger] after.buffers[i],
        ) by {
            assert(within_grid(self.buffers[i]));
        }
    }

    /// Swapping keeps the store well formed, and swapping twice gives the
    /// store back.
    pub proof fn lemma_swapped(self)
        requires
            self.wf(),
        ensures
            self.swapped().wf(),
            self.swapped().swapped() == self,
    {
    }
}

impl View for DoubleBuffer {
    type V = DoubleBufferView;

    closed spec fn view(&self) -> DoubleBufferView {
        DoubleBufferView {
            buffers: seq![self.first@, self.second@],
            active: if self.second_active {
                1
            } else {
                0
            },
        }
    }
}

impl DoubleBuffer {
    /// Every store is well formed.
    pub proof fn lemma_view_wf(&self)
        ensures
            self@.wf(),
    {
        self.first.lemma_within_grid();
        self.second.lemma_within_grid();
    }

    /// A store whose two buffers are all dead, with buffer 0 active.
    pub fn new() -> (store: DoubleBuffer)
        ensures
            store@.buffers == seq![Set::<(int, int)>::empty(), Set::<(int, int)>::empty()],
            store@.active == 0,
    {
        DoubleBuffer { first: Grid::new(), second: Grid::new(), second_active: false }
    }

    /// Reads cell `(x, y)` of buffer `buffer_index`. A coordinate outside the
    /// grid is never an error: it reads as dead.
    pub fn is_alive(&self, buffer_index: usize, x: usize, y: usize) -> (alive: bool)
        requires
            buffer_index < BUFFER_COUNT,
        ensures
            alive == self@.alive(buffer_index as int, x as int, y as int),
            !in_bounds(x as int, y as int) ==> !alive,
    {
        if buffer_index == 0 {
            self.first.get(x, y)
        } else {
            self.second.get(x, y)
        }
    }

    /// Reads cell `(x, y)` of the active buffer.
    pub fn is_cell_alive(&self, x: usize, y: usize) -> (alive: bool)
        ensures
            alive == self@.alive(self@.active, x as int, y as int),
            !in_bounds(x as int, y as int) ==> !alive,
    {
        self.is_alive(self.active_index(), x, y)
    }

    /// Writes cell `(x, y)` of buffer `buffer_index`; does nothing for a
    /// coordinate outside the grid. The other buffer and the active index
    /// stay as they are.
    pub fn set_alive(&mut self, buffer_index: usize, x: usize, y: usize, value: bool)
        requires
            buffer_index < BUFFER_COUNT,
        ensures
            final(self)@ == old(self)@.written(buffer_index as int, x as int, y as int, value),
    {
        if buffer_index == 0 {
            self.first.set(x, y, value);
        } else {
            self.second.set(x, y, value);
        }
        proof {
            assert(self@.buffers =~= old(self)@.written(
                buffer_index as int,
                x as int,
                y as int,
                value,
            ).buffers);
        }
    }

    /// Index of the active buffer.
    pub fn active_index(&self) -> (index: usize)
        ensures
            index == self@.active,
            index < BUFFER_COUNT,
    {
        if self.second_active {
            1
        } else {
            0
        }
    }

    /// Index of the buffer that is not active: one minus the active index.
    pub fn inactive_index(&self) -> (index: usize)
        ensures
            index == self@.inactive(),
            index == 1 - self@.active,
            index < BUFFER_COUNT,
    {
        1 - self.active_index()
    }

    /// Makes the inactive buffer the active one. No cell is copied.
    pub fn swap_active(&mut self)
        ensures
            final(self)@ == old(self)@.swapped(),
    {
        self.second_active = !self.second_active;
    }
}

} // verus!
