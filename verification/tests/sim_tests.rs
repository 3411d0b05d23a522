use conway_life::grid::{HEIGHT, WIDTH};
use conway_life::sim::{PointerButton, Simulation, TICK_INTERVAL_NANOS, TILE_SIZE};
use conway_life::store::DoubleBuffer;

fn empty_simulation() -> Simulation {
    Simulation::with_store(DoubleBuffer::new())
}

fn simulation_with(cells: &[(usize, usize)]) -> Simulation {
    let mut store = DoubleBuffer::new();
    for &(x, y) in cells {
        store.set_alive(0, x, y, true);
    }
    Simulation::with_store(store)
}

fn buffer_cells(sim: &Simulation, buffer: usize) -> Vec<(usize, usize)> {
    let mut cells = Vec::new();
    for x in 0..WIDTH {
        for y in 0..HEIGHT {
            if sim.store().is_alive(buffer, x, y) {
                cells.push((x, y));
            }
        }
    }
    cells
}

fn shown_cells(sim: &Simulation) -> Vec<(usize, usize)> {
    buffer_cells(sim, sim.store().active_index())
}

#[test]
fn constants_have_their_fixed_values() {
    assert_eq!(TILE_SIZE, 10);
    assert_eq!(TICK_INTERVAL_NANOS, 1_000_000_000);
}

#[test]
fn new_simulation_is_seeded_and_running() {
    let sim = Simulation::new();
    assert!(sim.is_running());
    assert_eq!(sim.elapsed_nanos(), 0);
    assert_eq!(sim.store().active_index(), 0);
    assert_eq!(buffer_cells(&sim, 0), vec![(5, 5), (5, 6), (5, 7), (6, 6), (6, 7), (6, 8)]);
    assert!(buffer_cells(&sim, 1).is_empty());
}

#[test]
fn seed_pattern_oscillates_with_period_two() {
    let mut sim = Simulation::new();
    sim.on_tick(TICK_INTERVAL_NANOS);
    assert_eq!(shown_cells(&sim), vec![(4, 6), (5, 5), (5, 8), (6, 5), (6, 8), (7, 7)]);
    sim.on_tick(TICK_INTERVAL_NANOS);
    assert_eq!(shown_cells(&sim), vec![(5, 5), (5, 6), (5, 7), (6, 6), (6, 7), (6, 8)]);
}

#[test]
fn with_store_keeps_the_store() {
    let mut store = DoubleBuffer::new();
    store.set_alive(0, 1, 2, true);
    store.set_alive(1, 3, 4, true);
    store.swap_active();
    let sim = Simulation::with_store(store);
    assert!(sim.is_running());
    assert_eq!(sim.elapsed_nanos(), 0);
    assert_eq!(sim.store().active_index(), 1);
    assert_eq!(buffer_cells(&sim, 0), vec![(1, 2)]);
    assert_eq!(buffer_cells(&sim, 1), vec![(3, 4)]);
}

#[test]
fn primary_click_brings_one_cell_to_life() {
    let mut sim = empty_simulation();
    sim.on_pointer_primary(55, 55);
    let active = sim.store().active_index();
    assert!(sim.store().is_alive(active, 5, 5));
    for x in 0..WIDTH {
        for y in 0..HEIGHT {
            if (x, y) != (5, 5) {
                assert!(!sim.store().is_alive(active, x, y));
            }
        }
    }
    assert!(buffer_cells(&sim, sim.store().inactive_index()).is_empty());
}

#[test]
fn primary_click_finds_the_cell_by_whole_division() {
    let cases: [((usize, usize), (usize, usize)); 8] = [
        ((0, 0), (0, 0)),
        ((9, 9), (0, 0)),
        ((10, 9), (1, 0)),
        ((9, 10), (0, 1)),
        ((19, 20), (1, 2)),
        ((250, 130), (25, 13)),
        ((790, 590), (79, 59)),
        ((799, 599), (79, 59)),
    ];
    for ((x_pixel, y_pixel), cell) in cases {
        let mut sim = empty_simulation();
        sim.on_pointer_primary(x_pixel, y_pixel);
        assert_eq!(shown_cells(&sim), vec![cell], "pixel ({}, {})", x_pixel, y_pixel);
    }
}

#[test]
fn primary_click_outside_the_grid_is_ignored() {
    let mut sim = empty_simulation();
    sim.on_pointer_primary(800, 0);
    sim.on_pointer_primary(0, 600);
    sim.on_pointer_primary(800, 600);
    sim.on_pointer_primary(48_000, 5);
    sim.on_pointer_primary(usize::MAX, 5);
    sim.on_pointer_primary(5, usize::MAX);
    sim.on_pointer_primary(usize::MAX, usize::MAX);
    assert!(buffer_cells(&sim, 0).is_empty());
    assert!(buffer_cells(&sim, 1).is_empty());
}

#[test]
fn primary_click_on_a_live_cell_keeps_it_alive() {
    let mut sim = simulation_with(&[(5, 5)]);
    sim.on_pointer_primary(50, 59);
    assert_eq!(shown_cells(&sim), vec![(5, 5)]);
}

#[test]
fn primary_click_edits_the_active_buffer_only() {
    let mut sim = simulation_with(&[(1, 1), (1, 2), (1, 3)]);
    sim.on_tick(TICK_INTERVAL_NANOS);
    assert_eq!(sim.store().active_index(), 1);
    sim.on_pointer_primary(305, 207);
    assert_eq!(buffer_cells(&sim, 1), vec![(0, 2), (1, 2), (2, 2), (30, 20)]);
    assert_eq!(buffer_cells(&sim, 0), vec![(1, 1), (1, 2), (1, 3)]);
    assert_eq!(sim.elapsed_nanos(), 0);
    assert!(sim.is_running());
}

#[test]
fn secondary_click_twice_restores_the_running_flag() {
    let mut sim = Simulation::new();
    assert!(sim.is_running());
    sim.on_pointer_secondary();
    assert!(!sim.is_running());
    sim.on_pointer_secondary();
    assert!(sim.is_running());

    sim.on_pointer_secondary();
    let paused = sim.is_running();
    sim.on_pointer_secondary();
    sim.on_pointer_secondary();
    assert_eq!(sim.is_running(), paused);
}

#[test]
fn secondary_click_changes_nothing_else() {
    let mut sim = Simulation::new();
    sim.on_tick(123);
    sim.on_pointer_secondary();
    assert_eq!(sim.elapsed_nanos(), 123);
    assert_eq!(sim.store().active_index(), 0);
    assert_eq!(buffer_cells(&sim, 0), vec![(5, 5), (5, 6), (5, 7), (6, 6), (6, 7), (6, 8)]);
    assert!(buffer_cells(&sim, 1).is_empty());
}

#[test]
fn paused_ticks_never_change_a_buffer() {
    let mut sim = Simulation::new();
    sim.on_tick(TICK_INTERVAL_NANOS);
    let first = buffer_cells(&sim, 0);
    let second = buffer_cells(&sim, 1);
    let active = sim.store().active_index();

    sim.on_pointer_secondary();
    for delta in [0, 1, TICK_INTERVAL_NANOS - 1, TICK_INTERVAL_NANOS, 5 * TICK_INTERVAL_NANOS, u64::MAX] {
        sim.on_tick(delta);
        assert!(!sim.is_running());
        assert_eq!(sim.store().active_index(), active);
        assert_eq!(buffer_cells(&sim, 0), first);
        assert_eq!(buffer_cells(&sim, 1), second);
    }
}

#[test]
fn other_buttons_do_nothing() {
    let mut sim = Simulation::new();
    sim.on_tick(77);
    sim.mouse_button_down_event(PointerButton::Other, 105, 105);
    assert!(sim.is_running());
    assert_eq!(sim.elapsed_nanos(), 77);
    assert_eq!(sim.store().active_index(), 0);
    assert_eq!(buffer_cells(&sim, 0), vec![(5, 5), (5, 6), (5, 7), (6, 6), (6, 7), (6, 8)]);
    assert!(buffer_cells(&sim, 1).is_empty());
}

#[test]
fn button_press_is_dispatched_by_button() {
    let mut sim = empty_simulation();
    sim.mouse_button_down_event(PointerButton::Primary, 55, 55);
    assert_eq!(shown_cells(&sim), vec![(5, 5)]);
    assert!(sim.is_running());

    sim.mouse_button_down_event(PointerButton::Secondary, 105, 105);
    assert_eq!(shown_cells(&sim), vec![(5, 5)]);
    assert!(!sim.is_running());

    sim.mouse_button_down_event(PointerButton::Primary, 800, 55);
    assert_eq!(shown_cells(&sim), vec![(5, 5)]);

    sim.mouse_button_down_event(PointerButton::Secondary, 0, 0);
    assert!(sim.is_running());
}

#[test]
fn tick_gathers_time_until_the_interval() {
    let mut sim = simulation_with(&[(1, 1), (1, 2), (1, 3)]);
    sim.on_tick(400_000_000);
    assert_eq!(sim.elapsed_nanos(), 400_000_000);
    assert_eq!(sim.store().active_index(), 0);
    sim.on_tick(400_000_000);
    assert_eq!(sim.elapsed_nanos(), 800_000_000);
    assert_eq!(sim.store().active_index(), 0);
    assert_eq!(shown_cells(&sim), vec![(1, 1), (1, 2), (1, 3)]);

    sim.on_tick(400_000_000);
    assert_eq!(sim.elapsed_nanos(), 0);
    assert_eq!(sim.store().active_index(), 1);
    assert_eq!(shown_cells(&sim), vec![(0, 2), (1, 2), (2, 2)]);
}

#[test]
fn tick_fires_exactly_when_the_interval_is_reached() {
    let mut sim = simulation_with(&[(1, 1), (1, 2), (1, 3)]);
    sim.on_tick(TICK_INTERVAL_NANOS - 1);
    assert_eq!(sim.elapsed_nanos(), 999_999_999);
    assert_eq!(sim.store().active_index(), 0);
    sim.on_tick(1);
    assert_eq!(sim.elapsed_nanos(), 0);
    assert_eq!(sim.store().active_index(), 1);
}

#[test]
fn tick_discards_time_beyond_the_interval() {
    let mut sim = simulation_with(&[(1, 1), (1, 2), (1, 3)]);
    sim.on_tick(3 * TICK_INTERVAL_NANOS + 500);
    // One generation, not three, and nothing carried over.
    assert_eq!(sim.elapsed_nanos(), 0);
    assert_eq!(sim.store().active_index(), 1);
    assert_eq!(shown_cells(&sim), vec![(0, 2), (1, 2), (2, 2)]);
    sim.on_tick(TICK_INTERVAL_NANOS - 1);
    assert_eq!(sim.store().active_index(), 1);
    assert_eq!(sim.elapsed_nanos(), TICK_INTERVAL_NANOS - 1);
}

#[test]
fn tick_of_zero_changes_nothing() {
    let mut sim = Simulation::new();
    sim.on_tick(0);
    assert_eq!(sim.elapsed_nanos(), 0);
    assert_eq!(sim.store().active_index(), 0);
    assert!(sim.is_running());
}

#[test]
fn paused_clock_still_gathers_and_fires_after_resuming() {
    let mut sim = simulation_with(&[(1, 1), (1, 2), (1, 3)]);
    sim.on_pointer_secondary();
    sim.on_tick(700_000_000);
    sim.on_tick(700_000_000);
    assert_eq!(sim.elapsed_nanos(), 1_400_000_000);
    assert_eq!(sim.store().active_index(), 0);

    sim.on_pointer_secondary();
    assert_eq!(sim.store().active_index(), 0);
    sim.on_tick(0);
    assert_eq!(sim.elapsed_nanos(), 0);
    assert_eq!(sim.store().active_index(), 1);
    assert_eq!(shown_cells(&sim), vec![(0, 2), (1, 2), (2, 2)]);
}

#[test]
fn clock_stops_at_its_largest_value() {
    let mut sim = Simulation::new();
    sim.on_pointer_secondary();
    sim.on_tick(u64::MAX - 1);
    assert_eq!(sim.elapsed_nanos(), u64::MAX - 1);
    sim.on_tick(5);
    assert_eq!(sim.elapsed_nanos(), u64::MAX);
    sim.on_tick(u64::MAX);
    assert_eq!(sim.elapsed_nanos(), u64::MAX);

    sim.on_pointer_secondary();
    sim.on_tick(u64::MAX);
    assert_eq!(sim.elapsed_nanos(), 0);
    assert_eq!(sim.store().active_index(), 1);
}

#[test]
fn render_snapshot_lists_the_live_cells_in_scan_order() {
    let sim = Simulation::new();
    assert_eq!(sim.render_snapshot(), vec![(5, 5), (5, 6), (5, 7), (6, 6), (6, 7), (6, 8)]);

    let sim = simulation_with(&[(79, 59), (0, 0), (3, 1), (2, 7), (3, 0), (0, 59), (79, 0)]);
    assert_eq!(
        sim.render_snapshot(),
        vec![(0, 0), (0, 59), (2, 7), (3, 0), (3, 1), (79, 0), (79, 59)]
    );
}

#[test]
fn render_snapshot_of_an_empty_grid_is_empty() {
    let sim = empty_simulation();
    assert!(sim.render_snapshot().is_empty());
}

#[test]
fn render_snapshot_of_a_full_grid_lists_every_cell_once() {
    let mut store = DoubleBuffer::new();
    for x in 0..WIDTH {
        for y in 0..HEIGHT {
            store.set_alive(0, x, y, true);
        }
    }
    let sim = Simulation::with_store(store);
    let cells = sim.render_snapshot();
    assert_eq!(cells.len(), WIDTH * HEIGHT);
    for (i, cell) in cells.iter().enumerate() {
        assert_eq!(*cell, (i / HEIGHT, i % HEIGHT));
    }
}

#[test]
fn render_snapshot_shows_the_active_buffer_only() {
    let mut store = DoubleBuffer::new();
    store.set_alive(0, 1, 1, true);
    store.set_alive(1, 2, 2, true);
    let sim = Simulation::with_store(store);
    assert_eq!(sim.render_snapshot(), vec![(1, 1)]);

    let mut store = DoubleBuffer::new();
    store.set_alive(0, 1, 1, true);
    store.set_alive(1, 2, 2, true);
    store.swap_active();
    let sim = Simulation::with_store(store);
    assert_eq!(sim.render_snapshot(), vec![(2, 2)]);
}

#[test]
fn render_snapshot_follows_the_generations() {
    let mut sim = simulation_with(&[(1, 1), (1, 2), (1, 3)]);
    assert_eq!(sim.render_snapshot(), vec![(1, 1), (1, 2), (1, 3)]);
    sim.on_tick(TICK_INTERVAL_NANOS);
    assert_eq!(sim.render_snapshot(), vec![(0, 2), (1, 2), (2, 2)]);
    sim.on_tick(TICK_INTERVAL_NANOS);
    assert_eq!(sim.render_snapshot(), vec![(1, 1), (1, 2), (1, 3)]);
}

#[test]
fn single_cell_dies_after_one_tick() {
    let mut sim = empty_simulation();
    sim.on_pointer_primary(55, 55);
    sim.on_tick(TICK_INTERVAL_NANOS);
    assert!(shown_cells(&sim).is_empty());
    assert!(sim.render_snapshot().is_empty());
}
