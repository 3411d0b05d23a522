//! The simulation: the grid store together with the clock that paces it, and
//! the entry points that a window, its pointer and its frame timer drive.
//!
//! Time is counted in whole nanoseconds. Each tick adds the time that has
//! passed to an accumulator; once a full interval has gathered while the
//! simulation is running, one generation is computed and the accumulator
//! starts again from zero. Whatever had gathered beyond the interval is
//! dropped.

use vstd::prelude::*;
use crate::grid::{within_grid, HEIGHT, WIDTH};
use crate::snapshot::{
    lemma_listing_enters_next_column, lemma_listing_is_complete, lemma_listing_skips_dead_cell,
    lemma_listing_starts_empty, lemma_listing_takes_live_cell, lists_cells_before,
    lists_live_cells,
};
use crate::store::{DoubleBuffer, DoubleBufferView};

verus! {

/// Side length of the square that shows one cell, in pixels.
pub const TILE_SIZE: usize = 10;

/// Time between two generations, in nanoseconds.
pub const TICK_INTERVAL_NANOS: u64 = 1_000_000_000;

/// The button of a pointing device that was pressed.
#[derive(Clone, Copy, Debug, PartialEq, Eq)]
pub enum PointerButton {
    /// The main button: it brings the cell under the pointer to life.
    Primary,
    /// The second button: it pauses or resumes the simulation.
    Secondary,
    /// Any other button: it does nothing.
    Other,
}

/// The live cells that are seeded into a new simulation.
pub open spec fn seed_pattern() -> Set<(int, int)> {
    set![(5int, 5int), (5int, 6int), (5int, 7int), (6int, 6int), (6int, 7int), (6int, 8int)]
}

/// The grid coordinate under a pixel coordinate.
pub open spec fn pixel_to_cell(pixel: int) -> int {
    pixel / (TILE_SIZE as int)
}

/// The grid store, the time gathered since the last generation, and whether
/// the simulation is running.
pub struct Simulation {
    store: DoubleBuffer,
    since_update: u64,
    simulating: bool,
}

/// What a [`Simulation`] holds.
pub struct SimulationView {
    pub store: DoubleBufferView,
    pub elapsed: nat,
    pub running: bool,
}

impl SimulationView {
    /// The store is well formed and the gathered time fits the accumulator.
    pub open spec fn wf(self) -> bool {
        self.store.wf() && self.elapsed <= u64::MAX
    }

    /// The simulation after the cell under pixel `(x_pixel, y_pixel)` was
    /// brought to life in the active buffer; a pixel that lies over no cell
    /// changes nothing.
    pub open spec fn painted(self, x_pixel: int, y_pixel: int) -> Self {
        SimulationView {
            store: self.store.written(
                self.store.active,
                pixel_to_cell(x_pixel),
                pixel_to_cell(y_pixel),
                true,
            ),
            elapsed: self.elapsed,
            running: self.running,
        }
    }

    /// The simulation after it was paused if it ran, or resumed if it did not.
    pub open spec fn toggled(self) -> Self {
        SimulationView { store: self.store, elapsed: self.elapsed, running: !self.running }
    }

    /// The simulation after a button was pressed over pixel
    /// `(x_pixel, y_pixel)`.
    pub open spec fn pressed(self, button: PointerButton, x_pixel: int, y_pixel: int) -> Self {
        match button {
            PointerButton::Primary => self.painted(x_pixel, y_pixel),
            PointerButton::Secondary => self.toggled(),
            PointerButton::Other => self,
        }
    }

    /// The time gathered once `delta` more nanoseconds have passed: the sum,
    /// held at the largest value the accumulator can take.
    pub open spec fn gathered(self, delta: nat) -> nat {
        if self.elapsed + delta > u64::MAX {
            u64::MAX as nat
        } else {
            self.elapsed + delta
        }
    }

    /// Whether a tick of `delta` nanoseconds computes a generation: the
    /// simulation runs and a full interval has gathered.
    pub open spec fn fires(self, delta: nat) -> bool {
        self.running && self.gathered(delta) >= TICK_INTERVAL_NANOS
    }

    /// The simulation after a tick of `delta` nanoseconds.
    pub open spec fn ticked(self, delta: nat) -> Self {
        if self.fires(delta) {
            SimulationView { store: self.store.advanced(), elapsed: 0, running: self.running }
        } else {
            SimulationView {
                store: self.store,
                elapsed: self.gathered(delta),
                running: self.running,
            }
        }
    }

    /// The simulation after one tick for each entry of `deltas`, in order.
    pub open spec fn ticked_all(self, deltas: Seq<nat>) -> Self
        decreases deltas.len(),
    {
        if deltas.len() == 0 {
            self
        } else {
            self.ticked_all(deltas.drop_last()).ticked(deltas.last())
        }
    }

    /// Every entry point keeps the simulation well formed.
    pub proof fn lemma_steps_keep_wf(
        self,
        button: PointerButton,
        x_pixel: int,
        y_pixel: int,
        delta: nat,
    )
        requires
            self.wf(),
        ensures
            self.painted(x_pixel, y_pixel).wf(),
            self.toggled().wf(),
            self.pressed(button, x_pixel, y_pixel).wf(),
            self.ticked(delta).wf(),
    {
        self.store.lemma_written_wf(
            self.store.active,
            pixel_to_cell(x_pixel),
            pixel_to_cell(y_pixel),
            true,
        );
        self.store.lemma_advanced();
    }

    /// An edit writes to the active buffer only: the inactive buffer, the
    /// active index, the clock and the running flag stay as they are.
    pub proof fn lemma_paint_keeps_inactive_buffer(self, x_pixel: int, y_pixel: int)
        requires
            self.wf(),
        ensures
            self.painted(x_pixel, y_pixel).store.buffers[self.store.inactive()]
                == self.store.buffers[self.store.inactive()],
            self.painted(x_pixel, y_pixel).store.active == self.store.active,
            self.painted(x_pixel, y_pixel).elapsed == self.elapsed,
            self.painted(x_pixel, y_pixel).running == self.running,
    {
    }

    /// Pausing and resuming, or resuming and pausing, gives the simulation
    /// back as it was.
    pub proof fn lemma_toggle_twice(self)
        ensures
            self.toggled().toggled() == self,
    {
    }

    /// A generation is computed only while the simulation runs and only once
    /// a full interval has gathered; the clock then starts again from zero.
    /// Otherwise the store is left as it is.
    pub proof fn lemma_tick_fires_only_when_due(self, delta: nat)
        ensures
            self.ticked(delta).store != self.store ==> self.running && self.elapsed + delta
                >= TICK_INTERVAL_NANOS,
            self.fires(delta) ==> self.ticked(delta).elapsed == 0 && self.ticked(delta).store
                == self.store.advanced(),
            self.ticked(delta).running == self.running,
    {
    }

    /// While the simulation is paused, no number of ticks changes either
    /// buffer, the active index or the running flag.
    pub proof fn lemma_paused_ticks_keep_store(self, deltas: Seq<nat>)
        requires
            !self.running,
        ensures
            self.ticked_all(deltas).store == self.store,
            !self.ticked_all(deltas).running,
        decreases deltas.len(),
    {
        if deltas.len() > 0 {
            self.lemma_paused_ticks_keep_store(deltas.drop_last());
        }
    }
}

impl View for Simulation {
    type V = SimulationView;

    closed spec fn view(&self) -> SimulationView {
        SimulationView {
            store: self.store@,
            elapsed: self.since_update as nat,
            running: self.simulating,
        }
    }
}

impl Simulation {
    /// Every simulation is well formed.
    pub proof fn lemma_view_wf(&self)
        ensures
            self@.wf(),
    {
        self.store.lemma_view_wf();
    }

    /// A running simulation with the clock at zero, buffer 0 active and
    /// seeded with [`seed_pattern`], and buffer 1 all dead.
    pub fn new() -> (sim: Simulation)
        ensures
            sim@.store.buffers == seq![seed_pattern(), Set::<(int, int)>::empty()],
            sim@.store.active == 0,
            sim@.elapsed == 0,
            sim@.running,
    {
        let mut buffers = DoubleBuffer::new();
        let active_buffer: usize = buffers.active_index();

        buffers.set_alive(active_buffer, 5, 5, true);
        buffers.set_alive(active_buffer, 5, 6, true);
        buffers.set_alive(active_buffer, 5, 7, true);

        buffers.set_alive(active_buffer, 6, 6, true);
        buffers.set_alive(active_buffer, 6, 7, true);
        buffers.set_alive(active_buffer, 6, 8, true);

        proof {
            assert(buffers@.buffers[0] =~= seed_pattern());
            assert(buffers@.buffers =~= seq![seed_pattern(), Set::<(int, int)>::empty()]);
        }
        Simulation { store: buffers, since_update: 0, simulating: true }
    }

    /// A running simulation on `store`, with the clock at zero.
    pub fn with_store(store: DoubleBuffer) -> (sim: Simulation)
        ensures
            sim@.store == store@,
            sim@.elapsed == 0,
            sim@.running,
    {
        Simulation { store, since_update: 0, simulating: true }
    }

    /// The grid store.
    pub fn store(&self) -> (store: &DoubleBuffer)
        ensures
            store@ == self@.store,
    {
        &self.store
    }

    /// Whether the simulation is running.
    pub fn is_running(&self) -> (running: bool)
        ensures
            running == self@.running,
    {
        self.simulating
    }

    /// Nanoseconds gathered since the last generation.
    pub fn elapsed_nanos(&self) -> (elapsed: u64)
        ensures
            elapsed == self@.elapsed,
    {
        self.since_update
    }

    /// Brings the cell under pixel `(x_pixel, y_pixel)` to life in the active
    /// buffer. The cell is found by whole division by [`TILE_SIZE`]; a pixel
    /// that lies over no cell is ignored.
    pub fn on_pointer_primary(&mut self, x_pixel: usize, y_pixel: usize)
        ensures
            final(self)@ == old(self)@.painted(x_pixel as int, y_pixel as int),
    {
        let cell_x: usize = x_pixel / TILE_SIZE;
        let cell_y: usize = y_pixel / TILE_SIZE;

        if cell_x < WIDTH && cell_y < HEIGHT {
            let active: usize = self.store.active_index();
            self.store.set_alive(active, cell_x, cell_y, true);
        }
    }

    /// Pauses the simulation if it runs, resumes it if it does not.
    pub fn on_pointer_secondary(&mut self)
        ensures
            final(self)@ == old(self)@.toggled(),
    {
        self.simulating = !self.simulating;
    }

    /// Handles a button pressed over pixel `(x_pixel, y_pixel)`: the primary
    /// button edits, the secondary button pauses or resumes, any other does
    /// nothing.
    pub fn mouse_button_down_event(&mut self, button: PointerButton, x_pixel: usize, y_pixel: usize)
        ensures
            final(self)@ == old(self)@.pressed(button, x_pixel as int, y_pixel as int),
    {
        match button {
            PointerButton::Primary => {
                self.on_pointer_primary(x_pixel, y_pixel);
            },
            PointerButton::Secondary => {
                self.on_pointer_secondary();
            },
            PointerButton::Other => {},
        }
    }

    /// Lets `delta_nanos` nanoseconds pass. The time is added to what has
    /// gathered, whether the simulation runs or not; if it runs and a full
    /// interval has gathered, one generation is computed and the clock starts
    /// again from zero.
    pub fn on_tick(&mut self, delta_nanos: u64)
        ensures
            final(self)@ == old(self)@.ticked(delta_nanos as nat),
    {
        self.since_update = self.since_update.saturating_add(delta_nanos);

        if self.since_update >= TICK_INTERVAL_NANOS && self.simulating {
            self.since_update = 0;
            self.store.advance_generation();
        }
    }

    /// The live cells of the active buffer, each once, column by column and
    /// from top to bottom within a column.
    pub fn render_snapshot(&self) -> (cells: Vec<(usize, usize)>)
        ensures
            lists_live_cells(cells@, self@.store.buffers[self@.store.active]),
    {
        let active: usize = self.store.active_index();
        let ghost live = self@.store.buffers[self@.store.active];
        proof {
            self.store.lemma_view_wf();
            lemma_listing_starts_empty(live);
        }
        let mut cells: Vec<(usize, usize)> = Vec::new();

        let mut x: usize = 0;
        while x < WIDTH
            invariant
                x <= WIDTH,
                active == self@.store.active,
                live == self@.store.buffers[active as int],
                within_grid(live),
                lists_cells_before(cells@, live, (x as int, 0)),
            decreases WIDTH - x,
        {
            let mut y: usize = 0;
            while y < HEIGHT
                invariant
                    x < WIDTH,
                    y <= HEIGHT,
                    active == self@.store.active,
                    live == self@.store.buffers[active as int],
                    within_grid(live),
                    lists_cells_before(cells@, live, (x as int, y as int)),
                decreases HEIGHT - y,
            {
                if self.store.is_cell_alive(x, y) {
                    proof {
                        lemma_listing_takes_live_cell(cells@, live, x, y);
                    }
                    cells.push((x, y));
                } else {
                    proof {
                        lemma_listing_skips_dead_cell(cells@, live, x as int, y as int);
                    }
                }
                y += 1;
            }
            proof {
                lemma_listing_enters_next_column(cells@, live, x as int);
            }
            x += 1;
        }
        proof {
            lemma_listing_is_complete(cells@, live);
        }
        cells
    }
}

} // verus!
