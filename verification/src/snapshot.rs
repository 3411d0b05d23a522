//! What it means to list the live cells of a buffer.
//!
//! A listing names every live cell once, in scan order: column by column, and
//! within a column from top to bottom. A set of cells has exactly one such
//! listing.

use vstd::prelude::*;
use crate::grid::{within_grid, HEIGHT, WIDTH};

verus! {

/// Whether cell `a` comes before cell `b` in scan order.
pub open spec fn scans_before(a: (int, int), b: (int, int)) -> bool {
    a.0 < b.0 || (a.0 == b.0 && a.1 < b.1)
}

/// Entry `i` of a list of cells, as a coordinate.
pub open spec fn cell_at(cells: Seq<(usize, usize)>, i: int) -> (int, int) {
    (cells[i].0 as int, cells[i].1 as int)
}

/// Whether the entries of `cells` are in scan order, each before the next.
pub open spec fn in_scan_order(cells: Seq<(usize, usize)>) -> bool {
    forall|i: int, j: int|
        0 <= i < j < cells.len() ==> scans_before(
            #[trigger] cell_at(cells, i),
            #[trigger] cell_at(cells, j),
        )
}

/// Whether `cells` lists exactly the cells of `live`, each once, in scan
/// order.
pub open spec fn lists_live_cells(cells: Seq<(usize, usize)>, live: Set<(int, int)>) -> bool {
    &&& forall|i: int| 0 <= i < cells.len() ==> live.contains(#[trigger] cell_at(cells, i))
    &&& forall|x: int, y: int| #[trigger]
        live.contains((x, y)) ==> exists|i: int|
            0 <= i < cells.len() && #[trigger] cell_at(cells, i) == (x, y)
    &&& in_scan_order(cells)
}

/// Whether `cells` lists, in scan order, exactly those cells of `live` that
/// come before `bound`.
pub open spec fn lists_cells_before(
    cells: Seq<(usize, usize)>,
    live: Set<(int, int)>,
    bound: (int, int),
) -> bool {
    &&& forall|i: int|
        0 <= i < cells.len() ==> live.contains(#[trigger] cell_at(cells, i)) && scans_before(
            cell_at(cells, i),
            bound,
        )
    &&& forall|x: int, y: int| #[trigger]
        live.contains((x, y)) && scans_before((x, y), bound) ==> exists|i: int|
            0 <= i < cells.len() && #[trigger] cell_at(cells, i) == (x, y)
    &&& in_scan_order(cells)
}

/// Before the first cell of the grid there is nothing to list.
pub proof fn lemma_listing_starts_empty(live: Set<(int, int)>)
    requires
        within_grid(live),
    ensures
        lists_cells_before(Seq::<(usize, usize)>::empty(), live, (0, 0)),
{
}

/// A listing up to a dead cell is a listing up to the cell below it.
pub proof fn lemma_listing_skips_dead_cell(
    cells: Seq<(usize, usize)>,
    live: Set<(int, int)>,
    x: int,
    y: int,
)
    requires
        lists_cells_before(cells, live, (x, y)),
        !live.contains((x, y)),
    ensures
        lists_cells_before(cells, live, (x, y + 1)),
{
    assert forall|cx: int, cy: int| #[trigger]
        live.contains((cx, cy)) && scans_before((cx, cy), (x, y + 1)) implies exists|i: int|
        0 <= i < cells.len() && #[trigger] cell_at(cells, i) == (cx, cy) by {
        assert(scans_before((cx, cy), (x, y)));
    }
}

/// A listing up to a live cell, with that cell added at its end, is a listing
/// up to the cell below it.
pub proof fn lemma_listing_takes_live_cell(
    cells: Seq<(usize, usize)>,
    live: Set<(int, int)>,
    x: usize,
    y: usize,
)
    requires
        lists_cells_before(cells, live, (x as int, y as int)),
        live.contains((x as int, y as int)),
    ensures
        lists_cells_before(cells.push((x, y)), live, (x as int, y + 1)),
{
    let longer = cells.push((x, y));
    let last = cells.len() as int;
    assert(cell_at(longer, last) == (x as int, y as int));
    assert forall|i: int| 0 <= i < last implies #[trigger] cell_at(longer, i) == cell_at(
        cells,
        i,
    ) by {}
    assert forall|i: int| 0 <= i < longer.len() implies live.contains(
        #[trigger] cell_at(longer, i),
    ) && scans_before(cell_at(longer, i), (x as int, y + 1)) by {
        if i < last {
            assert(cell_at(longer, i) == cell_at(cells, i));
        }
    }
    assert forall|i: int, j: int| 0 <= i < j < longer.len() implies scans_before(
        #[trigger] cell_at(longer, i),
        #[trigger] cell_at(longer, j),
    ) by {
        assert(cell_at(longer, i) == cell_at(cells, i));
        if j < last {
            assert(cell_at(longer, j) == cell_at(cells, j));
        }
    }
    assert forall|cx: int, cy: int| #[trigger]
        live.contains((cx, cy)) && scans_before((cx, cy), (x as int, y + 1)) implies exists|
        i: int,
    |
        0 <= i < longer.len() && #[trigger] cell_at(longer, i) == (cx, cy) by {
        if (cx, cy) == (x as int, y as int) {
            assert(cell_at(longer, last) == (cx, cy));
        } else {
            assert(scans_before((cx, cy), (x as int, y as int)));
            let i = choose|i: int| 0 <= i < cells.len() && #[trigger] cell_at(cells, i) == (cx, cy);
            assert(cell_at(longer, i) == (cx, cy));
        }
    }
}

/// A listing up to the end of a column is a listing up to the top of the next
/// column.
pub proof fn lemma_listing_enters_next_column(
    cells: Seq<(usize, usize)>,
    live: Set<(int, int)>,
    x: int,
)
    requires
        within_grid(live),
        lists_cells_before(cells, live, (x, HEIGHT as int)),
    ensures
        lists_cells_before(cells, live, (x + 1, 0)),
{
    assert forall|cx: int, cy: int| #[trigger]
        live.contains((cx, cy)) && scans_before((cx, cy), (x + 1, 0)) implies exists|i: int|
        0 <= i < cells.len() && #[trigger] cell_at(cells, i) == (cx, cy) by {
        assert(scans_before((cx, cy), (x, HEIGHT as int)));
    }
}

/// A listing up to the end of the last column lists every live cell.
pub proof fn lemma_listing_is_complete(cells: Seq<(usize, usize)>, live: Set<(int, int)>)
    requires
        within_grid(live),
        lists_cells_before(cells, live, (WIDTH as int, 0)),
    ensures
        lists_live_cells(cells, live),
{
    assert forall|x: int, y: int| #[trigger] live.contains((x, y)) implies exists|i: int|
        0 <= i < cells.len() && #[trigger] cell_at(cells, i) == (x, y) by {
        assert(scans_before((x, y), (WIDTH as int, 0)));
    }
}

/// In two listings of the same cells, entry `i` of the first is found in the
/// second at `i` or later.
proof fn lemma_entry_not_earlier(
    a: Seq<(usize, usize)>,
    b: Seq<(usize, usize)>,
    live: Set<(int, int)>,
    i: int,
) -> (j: int)
    requires
        lists_live_cells(a, live),
        lists_live_cells(b, live),
        0 <= i < a.len(),
    ensures
        i <= j < b.len(),
        cell_at(b, j) == cell_at(a, i),
    decreases i,
{
    let c = cell_at(a, i);
    assert(live.contains((c.0, c.1)));
    let j = choose|j: int| 0 <= j < b.len() && #[trigger] cell_at(b, j) == (c.0, c.1);
    if i > 0 {
        let before = lemma_entry_not_earlier(a, b, live, i - 1);
        assert(scans_before(cell_at(a, i - 1), cell_at(a, i)));
        if j <= before {
            if j < before {
                assert(scans_before(cell_at(b, j), cell_at(b, before)));
            }
            assert(false);
        }
    }
    j
}

/// In two listings of the same cells, entry `i` is the same cell.
proof fn lemma_entries_agree(
    a: Seq<(usize, usize)>,
    b: Seq<(usize, usize)>,
    live: Set<(int, int)>,
    i: int,
)
    requires
        lists_live_cells(a, live),
        lists_live_cells(b, live),
        0 <= i < a.len(),
    ensures
        i < b.len(),
        a[i] == b[i],
{
    let j = lemma_entry_not_earlier(a, b, live, i);
    let k = lemma_entry_not_earlier(b, a, live, j);
    assert(cell_at(a, k) == cell_at(a, i));
    if i < k {
        assert(scans_before(cell_at(a, i), cell_at(a, k)));
    }
    assert(k == i);
    assert(cell_at(b, i) == cell_at(a, i));
}

/// A set of cells has only one listing.
pub proof fn lemma_listing_is_unique(
    a: Seq<(usize, usize)>,
    b: Seq<(usize, usize)>,
    live: Set<(int, int)>,
)
    requires
        lists_live_cells(a, live),
        lists_live_cells(b, live),
    ensures
        a == b,
{
    if a.len() > 0 {
        lemma_entries_agree(a, b, live, a.len() - 1);
    }
    if b.len() > 0 {
        lemma_entries_agree(b, a, live, b.len() - 1);
    }
    assert(a.len() == b.len());
    assert forall|i: int| 0 <= i < a.len() implies a[i] == b[i] by {
        lemma_entries_agree(a, b, live, i);
    }
    assert(a =~= b);
}

} // verus!
