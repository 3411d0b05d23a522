//! The generation engine: neighbour counting, the transition rule, and the
//! advance of the whole grid by one generation.
//!
//! A generation is computed from the active buffer into the inactive one, cell
//! by cell, and only then do the two buffers change roles. No cell's next state
//! ever sees another cell's next state.

use vstd::prelude::*;
use crate::grid::{in_bounds, within_grid, HEIGHT, WIDTH};
use crate::store::{DoubleBuffer, DoubleBufferView, BUFFER_COUNT};

verus! {

/// One if `(x, y)` is a live cell of `live`, zero if not.
pub open spec fn live_count(live: Set<(int, int)>, x: int, y: int) -> int {
    if live.contains((x, y)) {
        1
    } else {
        0
    }
}

/// Number of live cells among the eight cells that touch `(x, y)`.
pub open spec fn neighbor_count(live: Set<(int, int)>, x: int, y: int) -> int {
    live_count(live, x - 1, y - 1) + live_count(live, x, y - 1) + live_count(live, x + 1, y - 1)
        + live_count(live, x - 1, y) + live_count(live, x + 1, y) + live_count(
        live,
        x - 1,
        y + 1,
    ) + live_count(live, x, y + 1) + live_count(live, x + 1, y + 1)
}

/// The transition rule: a cell is alive in the next generation if it has
/// exactly three live neighbours, or if it is alive and has exactly two.
pub open spec fn next_state(alive: bool, count: int) -> bool {
    count == 3 || (alive && count == 2)
}

/// Whether `(x, y)` is a live cell of the generation that follows `live`.
pub open spec fn next_alive(live: Set<(int, int)>, x: int, y: int) -> bool {
    in_bounds(x, y) && next_state(live.contains((x, y)), neighbor_count(live, x, y))
}

/// The live cells of the generation that follows `live`.
pub open spec fn next_generation(live: Set<(int, int)>) -> Set<(int, int)> {
    Set::new(|c: (int, int)| next_alive(live, c.0, c.1))
}

/// A cell of the grid with exactly three live neighbours is alive in the next
/// generation, whether it is alive now or not.
pub proof fn lemma_three_neighbors_give_life(live: Set<(int, int)>, x: int, y: int)
    requires
        in_bounds(x, y),
        neighbor_count(live, x, y) == 3,
    ensures
        next_generation(live).contains((x, y)),
{
}

/// A live cell of the grid with exactly two live neighbours stays alive.
pub proof fn lemma_two_neighbors_keep_alive(live: Set<(int, int)>, x: int, y: int)
    requires
        in_bounds(x, y),
        live.contains((x, y)),
        neighbor_count(live, x, y) == 2,
    ensures
        next_generation(live).contains((x, y)),
{
}

/// A live cell with fewer than two or more than three live neighbours is dead
/// in the next generation.
pub proof fn lemma_lonely_or_crowded_cell_dies(live: Set<(int, int)>, x: int, y: int)
    requires
        live.contains((x, y)),
        neighbor_count(live, x, y) < 2 || neighbor_count(live, x, y) > 3,
    ensures
        !next_generation(live).contains((x, y)),
{
}

/// A dead cell whose number of live neighbours is not three stays dead.
pub proof fn lemma_dead_cell_stays_dead(live: Set<(int, int)>, x: int, y: int)
    requires
        !live.contains((x, y)),
        neighbor_count(live, x, y) != 3,
    ensures
        !next_generation(live).contains((x, y)),
{
}

/// The generation that follows any set of cells lies within the grid.
pub proof fn lemma_next_generation_within_grid(live: Set<(int, int)>)
    ensures
        within_grid(next_generation(live)),
{
}

/// The generation that follows an all-dead grid is all dead.
pub proof fn lemma_empty_grid_stays_empty()
    ensures
        next_generation(Set::<(int, int)>::empty()) == Set::<(int, int)>::empty(),
{
    assert(next_generation(Set::<(int, int)>::empty()) =~= Set::<(int, int)>::empty());
}

impl DoubleBufferView {
    /// The store after one generation: the inactive buffer holds the
    /// generation that follows the active one, the active buffer is untouched,
    /// and the two have changed roles.
    pub open spec fn advanced(self) -> Self {
        DoubleBufferView {
            buffers: self.buffers.update(
                self.inactive(),
                next_generation(self.buffers[self.active]),
            ),
            active: self.inactive(),
        }
    }

    /// The store after `n` generations.
    pub open spec fn advanced_by(self, n: nat) -> Self
        decreases n,
    {
        if n == 0 {
            self
        } else {
            self.advanced_by((n - 1) as nat).advanced()
        }
    }

    /// One generation keeps the store well formed, flips the active index,
    /// leaves the buffer that was active as it is, and makes the generation
    /// that follows it the new active buffer.
    pub proof fn lemma_advanced(self)
        requires
            self.wf(),
        ensures
            self.advanced().wf(),
            self.advanced().active == 1 - self.active,
            self.advanced().buffers[self.active] == self.buffers[self.active],
            self.advanced().buffers[self.advanced().active] == next_generation(
                self.buffers[self.active],
            ),
    {
        let after = self.advanced();
        lemma_next_generation_within_grid(self.buffers[self.active]);
        assert forall|i: int| 0 <= i < BUFFER_COUNT implies within_grid(
            #[trigger] after.buffers[i],
        ) by {
            assert(within_grid(self.buffers[i]));
        }
    }

    /// One generation on a store whose active buffer is all dead gives a
    /// store whose active buffer is all dead.
    pub proof fn lemma_advanced_from_empty(self)
        requires
            self.wf(),
            self.buffers[self.active] == Set::<(int, int)>::empty(),
        ensures
            self.advanced().buffers[self.advanced().active] == Set::<(int, int)>::empty(),
    {
        self.lemma_advanced();
        lemma_empty_grid_stays_empty();
    }

    /// Any number of generations keeps the store well formed, and each one
    /// flips the active index.
    pub proof fn lemma_advanced_by(self, n: nat)
        requires
            self.wf(),
        ensures
            self.advanced_by(n).wf(),
            self.advanced_by(n).active == (self.active + n) % 2,
        decreases n,
    {
        if n > 0 {
            let before = self.advanced_by((n - 1) as nat);
            self.lemma_advanced_by((n - 1) as nat);
            before.lemma_advanced();
        }
    }

    /// The buffers alternate strictly: starting with buffer 0 active, after
    /// `n` generations the active index is `n` modulo 2.
    pub proof fn lemma_active_index_alternates(self, n: nat)
        requires
            self.wf(),
            self.active == 0,
        ensures
            self.advanced_by(n).active == n % 2,
    {
        self.lemma_advanced_by(n);
    }
}

/// Applies the transition rule to one cell.
///
/// The cases are tried in order. In the last one, a dead cell whose count is
/// not three, the cell keeps the state it has.
pub fn next_cell_state(alive: bool, count: i32) -> (next: bool)
    ensures
        next == next_state(alive, count as int),
{
    if alive && count < 2 {
        false
    } else if alive && (count == 2 || count == 3) {
        true
    } else if alive && count > 3 {
        false
    } else if !alive && count == 3 {
        true
    } else {
        alive
    }
}

impl DoubleBuffer {
    /// Reads cell `(x, y)` of the active buffer as a number: one if it is
    /// alive, zero if it is dead or outside the grid.
    pub fn is_cell_alive_i32(&self, x: usize, y: usize) -> (count: i32)
        ensures
            count == live_count(self@.buffers[self@.active], x as int, y as int),
    {
        if self.is_cell_alive(x, y) {
            1
        } else {
            0
        }
    }

    /// Counts the live cells among the eight neighbours of `(x, y)` in the
    /// active buffer. Neighbours beyond the edge of the grid count as dead.
    /// For a coordinate that is itself outside the grid the count is zero.
    pub fn number_of_neighbors(&self, x: usize, y: usize) -> (count: i32)
        ensures
            in_bounds(x as int, y as int) ==> count == neighbor_count(
                self@.buffers[self@.active],
                x as int,
                y as int,
            ),
            !in_bounds(x as int, y as int) ==> count == 0,
            0 <= count <= 8,
    {
        proof {
            self.lemma_view_wf();
            assert(within_grid(self@.buffers[self@.active]));
        }
        let mut count: i32 = 0;

        if x < WIDTH {
            if y >= 1 && y < HEIGHT {
                count += self.is_cell_alive_i32(x, y - 1);
            }
            if y < HEIGHT - 1 {
                count += self.is_cell_alive_i32(x, y + 1);
            }
        }
        if x < WIDTH - 1 {
            if y >= 1 && y < HEIGHT {
                count += self.is_cell_alive_i32(x + 1, y - 1);
            }
            if y < HEIGHT {
                count += self.is_cell_alive_i32(x + 1, y);
            }
            if y < HEIGHT - 1 {
                count += self.is_cell_alive_i32(x + 1, y + 1);
            }
        }
        if x >= 1 && x < WIDTH {
            if y < HEIGHT - 1 {
                count += self.is_cell_alive_i32(x - 1, y + 1);
            }
            if y < HEIGHT {
                count += self.is_cell_alive_i32(x - 1, y);
            }
            if y >= 1 && y < HEIGHT {
                count += self.is_cell_alive_i32(x - 1, y - 1);
            }
        }
        count
    }

    /// Advances the grid by one generation.
    ///
    /// Every cell of the inactive buffer is rewritten from the active buffer,
    /// which is only read; then the inactive buffer becomes the active one.
    pub fn advance_generation(&mut self)
        ensures
            final(self)@ == old(self)@.advanced(),
    {
        let current: usize = self.active_index();
        let secondary: usize = self.inactive_index();
        let ghost live = self@.buffers[current as int];
        proof {
            self.lemma_view_wf();
        }

        let mut x: usize = 0;
        while x < WIDTH
            invariant
                x <= WIDTH,
                self@.wf(),
                self@.active == current,
                current + secondary == 1,
                self@.buffers[current as int] == live,
                forall|cx: int, cy: int|
                    0 <= cx < x && 0 <= cy < HEIGHT ==> (self@.buffers[secondary as int].contains(
                        (cx, cy),
                    ) <==> #[trigger] next_alive(live, cx, cy)),
            decreases WIDTH - x,
        {
            let mut y: usize = 0;
            while y < HEIGHT
                invariant
                    x < WIDTH,
                    y <= HEIGHT,
                    self@.wf(),
                    self@.active == current,
                    current + secondary == 1,
                    self@.buffers[current as int] == live,
                    forall|cx: int, cy: int|
                        0 <= cx < x && 0 <= cy < HEIGHT ==> (
                        self@.buffers[secondary as int].contains((cx, cy)) <==> #[trigger] next_alive(
                            live,
                            cx,
                            cy,
                        )),
                    forall|cy: int|
                        0 <= cy < y ==> (self@.buffers[secondary as int].contains((x as int, cy))
                            <==> #[trigger] next_alive(live, x as int, cy)),
                decreases HEIGHT - y,
            {
                let count: i32 = self.number_of_neighbors(x, y);
                let alive: bool = self.is_cell_alive(x, y);
                let next: bool = next_cell_state(alive, count);
                self.set_alive(secondary, x, y, next);
                proof {
                    self.lemma_view_wf();
                }
                y += 1;
            }
            x += 1;
        }
        self.swap_active();
        proof {
            self.lemma_view_wf();
            assert forall|c: (int, int)|
                self@.buffers[secondary as int].contains(c) == next_generation(live).contains(
                    c,
                ) by {
                assert(c == (c.0, c.1));
                if in_bounds(c.0, c.1) {
                    assert(self@.buffers[secondary as int].contains((c.0, c.1)) <==> next_alive(
                        live,
                        c.0,
                        c.1,
                    ));
                }
            }
            assert(self@.buffers[secondary as int] =~= next_generation(live));
            assert(self@.buffers =~= old(self)@.advanced().buffers);
        }
    }
}

} // verus!
