//! Conway's Game of Life on a fixed, non-wrapping grid with two buffers.
//!
//! - [`grid`]: one buffer of cells, with reads and writes that absorb
//!   coordinates outside the grid.
//! - [`store`]: the two buffers and the index of the active one.
//! - [`life`]: neighbour counting, the transition rule and the advance by one
//!   generation.
//! - [`snapshot`]: what it means to list the live cells of a buffer.
//! - [`sim`]: the simulation clock and the entry points for pointer presses,
//!   ticks and rendering.

pub mod grid;
pub mod life;
pub mod sim;
pub mod snapshot;
pub mod store;
