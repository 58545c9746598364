//! What holds of every generation: the laws that follow from the rule of the
//! automaton and from the way a generation is built, stated over grids as
//! maps and proved once for all grids.

use vstd::prelude::*;

use crate::coord::{coords_of, key_of, lemma_unpack_pack, Direction, COORD_MAX};
use crate::particle::{rule, touches, Action, Cell};
use crate::simulation::{
    border_free, fate, has_key, inside, is_next_generation, neighbourhood, seen,
};

verus! {

/// Whether `later` can be reached from `grid` in exactly `n` generations.
pub open spec fn is_later_generation(
    grid: Map<u32, Cell>,
    columns: int,
    rows: int,
    later: Map<u32, Cell>,
    n: nat,
) -> bool
    decreases n,
{
    if n == 0 {
        later == grid
    } else {
        exists|coins: Set<u32>, mid: Map<u32, Cell>|
            #[trigger] is_next_generation(grid, columns, rows, coins, mid) && is_later_generation(
                mid,
                columns,
                rows,
                later,
                (n - 1) as nat,
            )
    }
}

/// A cell that moves lands on a place that was empty, so a place that held a
/// cell is written to by that cell alone.
pub proof fn lemma_occupied_place_has_one_writer(
    grid: Map<u32, Cell>,
    columns: int,
    rows: int,
    key: u32,
    right_first: bool,
    target: u32,
)
    requires
        grid.contains_key(target),
        fate(grid, columns, rows, key, right_first) matches Some(w) && w.0 == target,
    ensures
        key == target,
{
    reveal(fate);
    let x = coords_of(key).0 as int;
    let y = coords_of(key).1 as int;
    let around = neighbourhood(grid, columns, rows, x, y);
    match rule(grid[key], around, right_first) {
        Action::Move(d) => {
            let tx = x + d.dx();
            let ty = y + d.dy();
            assert(!around.contains_key(d));
            assert(seen(grid, columns, rows, tx, ty) is None);
        },
        _ => {},
    }
}

/// In every next generation, the cell under a key is one that some cell of
/// the old generation wrote there, and an old cell that writes leaves a cell
/// under the key it writes to.
pub proof fn lemma_next_generation_holds_what_was_written(
    grid: Map<u32, Cell>,
    columns: int,
    rows: int,
    coins: Set<u32>,
    next: Map<u32, Cell>,
    key: u32,
)
    requires
        is_next_generation(grid, columns, rows, coins, next),
        grid.contains_key(key),
    ensures
        fate(grid, columns, rows, key, coins.contains(key)) matches Some(w) ==> {
            &&& next.contains_key(w.0)
            &&& w.0 == key ==> next[key] == w.1
        },
        next.contains_key(key) ==> fate(grid, columns, rows, key, coins.contains(key)) == Some(
            (key, next[key]),
        ),
{
    if next.contains_key(key) {
        let writer = choose|k: u32| #[trigger]
            grid.contains_key(k) && fate(grid, columns, rows, k, coins.contains(k)) == Some(
                (key, next[key]),
            );
        lemma_occupied_place_has_one_writer(
            grid,
            columns,
            rows,
            writer,
            coins.contains(writer),
            key,
        );
    }
}

/// No generation brings the border into the grid: if no cell of a grid is
/// the border, no cell of a next generation is.
pub proof fn lemma_border_stays_outside(
    grid: Map<u32, Cell>,
    columns: int,
    rows: int,
    coins: Set<u32>,
    next: Map<u32, Cell>,
)
    requires
        is_next_generation(grid, columns, rows, coins, next),
        border_free(grid),
    ensures
        border_free(next),
{
    reveal(fate);
    assert forall|t: u32| #[trigger] next.contains_key(t) implies next[t] != Cell::Border by {
        let writer = choose|k: u32| #[trigger]
            grid.contains_key(k) && fate(grid, columns, rows, k, coins.contains(k)) == Some(
                (t, next[t]),
            );
        assert(grid[writer] != Cell::Border);
    }
}

/// Wood that touches no fire is still wood, in the same place, in every next
/// generation.
pub proof fn lemma_wood_without_fire_stays(
    grid: Map<u32, Cell>,
    columns: int,
    rows: int,
    coins: Set<u32>,
    next: Map<u32, Cell>,
    key: u32,
)
    requires
        is_next_generation(grid, columns, rows, coins, next),
        grid.contains_key(key),
        grid[key] == Cell::Wood,
        !touches(
            neighbourhood(grid, columns, rows, coords_of(key).0 as int, coords_of(key).1 as int),
            Cell::Fire,
        ),
    ensures
        next.contains_key(key),
        next[key] == Cell::Wood,
{
    assert(fate(grid, columns, rows, key, coins.contains(key)) == Some((key, Cell::Wood))) by {
        reveal(fate);
    }
    lemma_next_generation_holds_what_was_written(grid, columns, rows, coins, next, key);
}

/// Wood next to fire burns: wood with a fire cell at the neighbouring place in
/// direction `d` is fire, in the same place, in every next generation.
pub proof fn lemma_wood_beside_fire_ignites(
    grid: Map<u32, Cell>,
    columns: int,
    rows: int,
    coins: Set<u32>,
    next: Map<u32, Cell>,
    key: u32,
    d: Direction,
)
    requires
        is_next_generation(grid, columns, rows, coins, next),
        grid.contains_key(key),
        grid[key] == Cell::Wood,
        seen(grid, columns, rows, coords_of(key).0 + d.dx(), coords_of(key).1 + d.dy()) == Some(
            Cell::Fire,
        ),
    ensures
        next.contains_key(key),
        next[key] == Cell::Fire,
{
    let around = neighbourhood(
        grid,
        columns,
        rows,
        coords_of(key).0 as int,
        coords_of(key).1 as int,
    );
    assert(around.contains_key(d) && around[d] == Cell::Fire);
    assert(fate(grid, columns, rows, key, coins.contains(key)) == Some((key, Cell::Fire))) by {
        reveal(fate);
    }
    lemma_next_generation_holds_what_was_written(grid, columns, rows, coins, next, key);
}

/// Fire burns out: the place of a fire cell is empty in every next generation.
pub proof fn lemma_fire_burns_out(
    grid: Map<u32, Cell>,
    columns: int,
    rows: int,
    coins: Set<u32>,
    next: Map<u32, Cell>,
    key: u32,
)
    requires
        is_next_generation(grid, columns, rows, coins, next),
        grid.contains_key(key),
        grid[key] == Cell::Fire,
    ensures
        !next.contains_key(key),
{
    assert(fate(grid, columns, rows, key, coins.contains(key)) is None) by {
        reveal(fate);
    }
    lemma_next_generation_holds_what_was_written(grid, columns, rows, coins, next, key);
}

/// A falling cell that is blocked below and on both lower diagonals, by cells
/// or by the border, rests: it is the same cell, in the same place, in every
/// next generation.
pub proof fn lemma_blocked_cell_rests(
    grid: Map<u32, Cell>,
    columns: int,
    rows: int,
    coins: Set<u32>,
    next: Map<u32, Cell>,
    key: u32,
)
    requires
        is_next_generation(grid, columns, rows, coins, next),
        grid.contains_key(key),
        grid[key] == Cell::Sand || grid[key] == Cell::Water,
        seen(grid, columns, rows, coords_of(key).0 as int, coords_of(key).1 + 1) is Some,
        seen(grid, columns, rows, coords_of(key).0 - 1, coords_of(key).1 + 1) is Some,
        seen(grid, columns, rows, coords_of(key).0 + 1, coords_of(key).1 + 1) is Some,
    ensures
        next.contains_key(key),
        next[key] == grid[key],
{
    let around = neighbourhood(
        grid,
        columns,
        rows,
        coords_of(key).0 as int,
        coords_of(key).1 as int,
    );
    assert(around.contains_key(Direction::Down));
    assert(around.contains_key(Direction::DownLeft));
    assert(around.contains_key(Direction::DownRight));
    assert(fate(grid, columns, rows, key, coins.contains(key)) == Some((key, grid[key]))) by {
        reveal(fate);
    }
    lemma_next_generation_holds_what_was_written(grid, columns, rows, coins, next, key);
}

/// A falling cell with room below it falls: where the place straight below
/// is inside the bounds and empty, the cell leaves its place, which is empty
/// in every next generation, and the place below holds a cell.
pub proof fn lemma_cell_with_room_below_falls(
    grid: Map<u32, Cell>,
    columns: int,
    rows: int,
    coins: Set<u32>,
    next: Map<u32, Cell>,
    key: u32,
)
    requires
        is_next_generation(grid, columns, rows, coins, next),
        grid.contains_key(key),
        grid[key] == Cell::Sand || grid[key] == Cell::Water,
        coords_of(key).1 < COORD_MAX,
        seen(grid, columns, rows, coords_of(key).0 as int, coords_of(key).1 + 1) is None,
    ensures
        !next.contains_key(key),
        next.contains_key(key_of(coords_of(key).0, (coords_of(key).1 + 1) as u16)),
{
    let x = coords_of(key).0;
    let y = coords_of(key).1;
    let below = key_of(x, (y + 1) as u16);
    let around = neighbourhood(grid, columns, rows, x as int, y as int);
    assert(!around.contains_key(Direction::Down));
    assert(fate(grid, columns, rows, key, coins.contains(key)) == Some((below, grid[key]))) by {
        reveal(fate);
    }
    lemma_unpack_pack(x, (y + 1) as u16);
    lemma_next_generation_holds_what_was_written(grid, columns, rows, coins, next, key);
}

/// A falling cell that is blocked below and on both lower diagonals writes
/// itself back under its own key, whatever the tie-break.
pub proof fn lemma_blocked_cell_writes_itself(
    grid: Map<u32, Cell>,
    columns: int,
    rows: int,
    key: u32,
    right_first: bool,
)
    requires
        grid[key] == Cell::Sand || grid[key] == Cell::Water,
        seen(grid, columns, rows, coords_of(key).0 as int, coords_of(key).1 + 1) is Some,
        seen(grid, columns, rows, coords_of(key).0 - 1, coords_of(key).1 + 1) is Some,
        seen(grid, columns, rows, coords_of(key).0 + 1, coords_of(key).1 + 1) is Some,
    ensures
        fate(grid, columns, rows, key, right_first) == Some((key, grid[key])),
{
    let around = neighbourhood(
        grid,
        columns,
        rows,
        coords_of(key).0 as int,
        coords_of(key).1 as int,
    );
    assert(around.contains_key(Direction::Down));
    assert(around.contains_key(Direction::DownLeft));
    assert(around.contains_key(Direction::DownRight));
    reveal(fate);
}

/// A falling cell on the bottom row of the grid, or below it, never moves: the
/// border lies under it and under both of its lower diagonals.
pub proof fn lemma_cell_on_bottom_row_rests(
    grid: Map<u32, Cell>,
    columns: int,
    rows: int,
    coins: Set<u32>,
    next: Map<u32, Cell>,
    key: u32,
)
    requires
        is_next_generation(grid, columns, rows, coins, next),
        grid.contains_key(key),
        grid[key] == Cell::Sand || grid[key] == Cell::Water,
        coords_of(key).1 + 1 >= rows,
    ensures
        next.contains_key(key),
        next[key] == grid[key],
{
    lemma_blocked_cell_rests(grid, columns, rows, coins, next, key);
}

/// The key that the cell under `key` writes to, if it writes.
pub open spec fn target_of(
    grid: Map<u32, Cell>,
    columns: int,
    rows: int,
    coins: Set<u32>,
    key: u32,
) -> Option<u32> {
    match fate(grid, columns, rows, key, coins.contains(key)) {
        Some(w) => Some(w.0),
        None => None,
    }
}

/// The keys of `next` are the keys that the cells under `writers` write to,
/// whenever `writers` holds, for every key written to, a cell that writes
/// there, and holds no cell that does not write.
proof fn lemma_next_keys_are_targets(
    grid: Map<u32, Cell>,
    columns: int,
    rows: int,
    coins: Set<u32>,
    next: Map<u32, Cell>,
    writers: Set<u32>,
)
    requires
        is_next_generation(grid, columns, rows, coins, next),
        writers.finite(),
        forall|k: u32| #[trigger]
            writers.contains(k) ==> grid.contains_key(k) && target_of(
                grid,
                columns,
                rows,
                coins,
                k,
            ) is Some,
        forall|t: u32| #[trigger]
            next.contains_key(t) ==> exists|k: u32| #[trigger]
                writers.contains(k) && target_of(grid, columns, rows, coins, k) == Some(t),
    ensures
        next.dom().finite(),
        next.dom().len() <= writers.len(),
{
    let f = |k: u32| target_of(grid, columns, rows, coins, k)->0;
    assert forall|t: u32| next.dom().contains(t) <==> writers.map(f).contains(t) by {
        if next.dom().contains(t) {
            assert(next.contains_key(t));
            let k = choose|k: u32| #[trigger]
                writers.contains(k) && target_of(grid, columns, rows, coins, k) == Some(t);
            assert(writers.contains(k) && f(k) == t);
        }
        if writers.map(f).contains(t) {
            let k = choose|k: u32| writers.contains(k) && f(k) == t;
            assert(grid.contains_key(k));
        }
    }
    assert(writers.map(f) =~= next.dom());
    vstd::set_lib::lemma_map_size_bound(writers, next.dom(), f);
}

/// No generation holds more cells than the one before it.
pub proof fn lemma_generation_never_grows(
    grid: Map<u32, Cell>,
    columns: int,
    rows: int,
    coins: Set<u32>,
    next: Map<u32, Cell>,
)
    requires
        grid.dom().finite(),
        is_next_generation(grid, columns, rows, coins, next),
    ensures
        next.dom().finite(),
        next.dom().len() <= grid.dom().len(),
{
    let writers = grid.dom().filter(
        |k: u32| target_of(grid, columns, rows, coins, k) is Some,
    );
    grid.dom().lemma_len_filter(|k: u32| target_of(grid, columns, rows, coins, k) is Some);
    assert forall|t: u32| #[trigger] next.contains_key(t) implies exists|k: u32| #[trigger]
        writers.contains(k) && target_of(grid, columns, rows, coins, k) == Some(t) by {
        let k = choose|k: u32| #[trigger]
            grid.contains_key(k) && fate(grid, columns, rows, k, coins.contains(k)) == Some(
                (t, next[t]),
            );
        assert(writers.contains(k) && target_of(grid, columns, rows, coins, k) == Some(t));
    }
    lemma_next_keys_are_targets(grid, columns, rows, coins, next, writers);
}

/// Cells are never duplicated: where two cells write to the same place, one
/// cell is left there, and the next generation holds fewer cells than the
/// one before it.
pub proof fn lemma_colliding_cells_leave_one(
    grid: Map<u32, Cell>,
    columns: int,
    rows: int,
    coins: Set<u32>,
    next: Map<u32, Cell>,
    first: u32,
    second: u32,
)
    requires
        grid.dom().finite(),
        is_next_generation(grid, columns, rows, coins, next),
        grid.contains_key(first),
        grid.contains_key(second),
        first != second,
        target_of(grid, columns, rows, coins, first) is Some,
        target_of(grid, columns, rows, coins, first) == target_of(
            grid,
            columns,
            rows,
            coins,
            second,
        ),
    ensures
        next.contains_key(target_of(grid, columns, rows, coins, first)->0),
        next.dom().finite(),
        next.dom().len() < grid.dom().len(),
{
    let all = grid.dom().filter(|k: u32| target_of(grid, columns, rows, coins, k) is Some);
    grid.dom().lemma_len_filter(|k: u32| target_of(grid, columns, rows, coins, k) is Some);
    let writers = all.remove(second);
    assert(all.contains(second));
    assert forall|t: u32| #[trigger] next.contains_key(t) implies exists|k: u32| #[trigger]
        writers.contains(k) && target_of(grid, columns, rows, coins, k) == Some(t) by {
        let k = choose|k: u32| #[trigger]
            grid.contains_key(k) && fate(grid, columns, rows, k, coins.contains(k)) == Some(
                (t, next[t]),
            );
        if k == second {
            assert(writers.contains(first) && target_of(grid, columns, rows, coins, first)
                == Some(t));
        } else {
            assert(writers.contains(k) && target_of(grid, columns, rows, coins, k) == Some(t));
        }
    }
    lemma_next_keys_are_targets(grid, columns, rows, coins, next, writers);
}

/// Whether every cell of `grid` rests: whatever the tie-breaks, each cell
/// writes itself back under its own key.
pub open spec fn is_at_rest(grid: Map<u32, Cell>, columns: int, rows: int) -> bool {
    forall|k: u32, right_first: bool|
        grid.contains_key(k) ==> #[trigger] fate(grid, columns, rows, k, right_first) == Some(
            (k, grid[k]),
        )
}

/// A grid at rest has settled: it is its own next generation.
pub proof fn lemma_grid_at_rest_is_unchanged(
    grid: Map<u32, Cell>,
    columns: int,
    rows: int,
    coins: Set<u32>,
    next: Map<u32, Cell>,
)
    requires
        is_at_rest(grid, columns, rows),
        is_next_generation(grid, columns, rows, coins, next),
    ensures
        next == grid,
{
    assert forall|t: u32| next.contains_key(t) implies grid.contains_key(t) && grid[t]
        == next[t] by {
        let k = choose|k: u32| #[trigger]
            grid.contains_key(k) && fate(grid, columns, rows, k, coins.contains(k)) == Some(
                (t, next[t]),
            );
        assert(fate(grid, columns, rows, k, coins.contains(k)) == Some((k, grid[k])));
    }
    assert forall|k: u32| grid.contains_key(k) implies next.contains_key(k) by {
        assert(fate(grid, columns, rows, k, coins.contains(k)) == Some((k, grid[k])));
    }
    assert(next =~= grid);
}

/// A grid at rest stays as it is through any number of generations.
pub proof fn lemma_grid_at_rest_never_changes(
    grid: Map<u32, Cell>,
    columns: int,
    rows: int,
    later: Map<u32, Cell>,
    n: nat,
)
    requires
        is_at_rest(grid, columns, rows),
        is_later_generation(grid, columns, rows, later, n),
    ensures
        later == grid,
    decreases n,
{
    if n > 0 {
        let (coins, mid) = choose|coins: Set<u32>, mid: Map<u32, Cell>|
            #[trigger] is_next_generation(grid, columns, rows, coins, mid) && is_later_generation(
                mid,
                columns,
                rows,
                later,
                (n - 1) as nat,
            );
        lemma_grid_at_rest_is_unchanged(grid, columns, rows, coins, mid);
        lemma_grid_at_rest_never_changes(grid, columns, rows, later, (n - 1) as nat);
    }
}

/// In a grid that holds a single cell, every place but that of the cell
/// looks empty from inside the bounds and like the border from outside them.
pub proof fn lemma_lone_cell_is_all_there_is(
    key: u32,
    cell: Cell,
    columns: int,
    rows: int,
    x: int,
    y: int,
)
    requires
        x != coords_of(key).0 || y != coords_of(key).1,
    ensures
        seen(map![key => cell], columns, rows, x, y) == if inside(columns, rows, x, y) {
            None
        } else {
            Some(Cell::Border)
        },
{
    if inside(columns, rows, x, y) && has_key(x, y) {
        lemma_unpack_pack(x as u16, y as u16);
    }
}

/// A grid that holds a single cell has, as a next generation, what that cell
/// writes and nothing else.
pub proof fn lemma_lone_cell_decides_alone(
    key: u32,
    cell: Cell,
    columns: int,
    rows: int,
    coins: Set<u32>,
    next: Map<u32, Cell>,
)
    requires
        is_next_generation(map![key => cell], columns, rows, coins, next),
    ensures
        next == match fate(map![key => cell], columns, rows, key, coins.contains(key)) {
            Some((target, new_cell)) => map![target => new_cell],
            None => Map::<u32, Cell>::empty(),
        },
{
    let grid = map![key => cell];
    assert(grid.contains_key(key));
    let expected = match fate(grid, columns, rows, key, coins.contains(key)) {
        Some((target, new_cell)) => map![target => new_cell],
        None => Map::<u32, Cell>::empty(),
    };
    assert forall|t: u32| next.contains_key(t) implies expected.contains_key(t) && expected[t]
        == next[t] by {
        let writer = choose|k: u32| #[trigger]
            grid.contains_key(k) && fate(grid, columns, rows, k, coins.contains(k)) == Some(
                (t, next[t]),
            );
        assert(writer == key);
    }
    assert(next =~= expected);
}

/// A lone piece of wood never changes: a grid that holds nothing but one wood
/// cell is its own next generation.
pub proof fn lemma_lone_wood_is_unchanged(
    key: u32,
    columns: int,
    rows: int,
    coins: Set<u32>,
    next: Map<u32, Cell>,
)
    requires
        is_next_generation(map![key => Cell::Wood], columns, rows, coins, next),
    ensures
        next == map![key => Cell::Wood],
{
    let grid = map![key => Cell::Wood];
    let x = coords_of(key).0 as int;
    let y = coords_of(key).1 as int;
    let around = neighbourhood(grid, columns, rows, x, y);
    assert forall|d: Direction| #[trigger] around.contains_key(d) implies around[d]
        != Cell::Fire by {
        lemma_lone_cell_is_all_there_is(key, Cell::Wood, columns, rows, x + d.dx(), y + d.dy());
    }
    assert(fate(grid, columns, rows, key, coins.contains(key)) == Some((key, Cell::Wood))) by {
        reveal(fate);
    }
    lemma_lone_cell_decides_alone(key, Cell::Wood, columns, rows, coins, next);
}

/// A lone piece of wood is unchanged after any number of generations.
pub proof fn lemma_lone_wood_never_changes(
    key: u32,
    columns: int,
    rows: int,
    later: Map<u32, Cell>,
    n: nat,
)
    requires
        is_later_generation(map![key => Cell::Wood], columns, rows, later, n),
    ensures
        later == map![key => Cell::Wood],
    decreases n,
{
    if n > 0 {
        let grid = map![key => Cell::Wood];
        let (coins, mid) = choose|coins: Set<u32>, mid: Map<u32, Cell>|
            #[trigger] is_next_generation(grid, columns, rows, coins, mid) && is_later_generation(
                mid,
                columns,
                rows,
                later,
                (n - 1) as nat,
            );
        lemma_lone_wood_is_unchanged(key, columns, rows, coins, mid);
        lemma_lone_wood_never_changes(key, columns, rows, later, (n - 1) as nat);
    }
}

/// A lone falling cell with room below it falls straight down: a grid that
/// holds nothing but one sand or water cell at `(x, y)`, with the place below
/// inside the bounds, has one next generation, which holds nothing but that
/// cell at `(x, y + 1)`.
pub proof fn lemma_lone_cell_falls(
    x: u16,
    y: u16,
    cell: Cell,
    columns: int,
    rows: int,
    coins: Set<u32>,
    next: Map<u32, Cell>,
)
    requires
        cell == Cell::Sand || cell == Cell::Water,
        x < columns,
        y + 1 < rows,
        y < COORD_MAX,
        is_next_generation(map![key_of(x, y) => cell], columns, rows, coins, next),
    ensures
        next == map![key_of(x, (y + 1) as u16) => cell],
{
    let key = key_of(x, y);
    let grid = map![key => cell];
    lemma_unpack_pack(x, y);
    lemma_lone_cell_is_all_there_is(key, cell, columns, rows, x as int, y + 1);
    let around = neighbourhood(grid, columns, rows, x as int, y as int);
    assert(!around.contains_key(Direction::Down));
    let below = key_of(x, (y + 1) as u16);
    assert(fate(grid, columns, rows, key, coins.contains(key)) == Some((below, cell))) by {
        reveal(fate);
    }
    lemma_lone_cell_decides_alone(key, cell, columns, rows, coins, next);
}

/// A lone falling cell falls one place in every generation for as long as
/// there is room below it: after `n` generations, with the place `n` rows
/// down still inside the bounds, the grid holds nothing but that cell, `n`
/// rows further down.
pub proof fn lemma_lone_cell_keeps_falling(
    x: u16,
    y: u16,
    cell: Cell,
    columns: int,
    rows: int,
    later: Map<u32, Cell>,
    n: nat,
)
    requires
        cell == Cell::Sand || cell == Cell::Water,
        x < columns,
        y + n < rows,
        y + n <= COORD_MAX,
        is_later_generation(map![key_of(x, y) => cell], columns, rows, later, n),
    ensures
        later == map![key_of(x, (y + n) as u16) => cell],
    decreases n,
{
    if n > 0 {
        let grid = map![key_of(x, y) => cell];
        let (coins, mid) = choose|coins: Set<u32>, mid: Map<u32, Cell>|
            #[trigger] is_next_generation(grid, columns, rows, coins, mid) && is_later_generation(
                mid,
                columns,
                rows,
                later,
                (n - 1) as nat,
            );
        lemma_lone_cell_falls(x, y, cell, columns, rows, coins, mid);
        lemma_lone_cell_keeps_falling(
            x,
            (y + 1) as u16,
            cell,
            columns,
            rows,
            later,
            (n - 1) as nat,
        );
    }
}

/// A lone falling cell that has reached the bottom row stays there: the grid
/// is its own next generation.
pub proof fn lemma_lone_cell_rests_on_bottom_row(
    key: u32,
    cell: Cell,
    columns: int,
    rows: int,
    coins: Set<u32>,
    next: Map<u32, Cell>,
)
    requires
        cell == Cell::Sand || cell == Cell::Water,
        coords_of(key).1 + 1 >= rows,
        is_next_generation(map![key => cell], columns, rows, coins, next),
    ensures
        next == map![key => cell],
{
    let grid = map![key => cell];
    assert(grid.contains_key(key));
    lemma_cell_on_bottom_row_rests(grid, columns, rows, coins, next, key);
    lemma_next_generation_holds_what_was_written(grid, columns, rows, coins, next, key);
    lemma_lone_cell_decides_alone(key, cell, columns, rows, coins, next);
}

/// Two sand cells stacked on the bottom row settle within one generation:
/// with sand at `(x, y)` and at `(x, y + 1)`, the latter on the bottom row, and
/// nothing else in the grid, every next generation is at rest. The upper cell
/// has slid down beside the lower one, or has stayed on top of it where the
/// border leaves no room on either side.
pub proof fn lemma_stacked_pair_settles(
    x: u16,
    y: u16,
    columns: int,
    rows: int,
    coins: Set<u32>,
    next: Map<u32, Cell>,
)
    requires
        x < columns <= COORD_MAX + 1,
        rows == y + 2,
        y < COORD_MAX,
        is_next_generation(
            map![key_of(x, y) => Cell::Sand, key_of(x, (y + 1) as u16) => Cell::Sand],
            columns,
            rows,
            coins,
            next,
        ),
    ensures
        is_at_rest(next, columns, rows),
{
    let upper = key_of(x, y);
    let lower = key_of(x, (y + 1) as u16);
    let grid = map![upper => Cell::Sand, lower => Cell::Sand];
    lemma_unpack_pack(x, y);
    lemma_unpack_pack(x, (y + 1) as u16);
    assert(grid.contains_key(upper) && grid.contains_key(lower));
    // The lower cell lies on the bottom row and rests.
    lemma_blocked_cell_writes_itself(grid, columns, rows, lower, coins.contains(lower));
    assert(next.contains_key(lower));
    // Every cell of the next generation is sand, and lies on the bottom row
    // unless it is the upper cell, hemmed in by the border on both sides.
    assert forall|t: u32| #[trigger] next.contains_key(t) implies next[t] == Cell::Sand && (
    coords_of(t).1 == y + 1 || (t == upper && !inside(columns, rows, x - 1, y + 1) && !inside(
        columns,
        rows,
        x + 1,
        y + 1,
    ))) by {
        let k = choose|k: u32| #[trigger]
            grid.contains_key(k) && fate(grid, columns, rows, k, coins.contains(k)) == Some(
                (t, next[t]),
            );
        if k == upper {
            reveal(fate);
            let around = neighbourhood(grid, columns, rows, x as int, y as int);
            assert(around.contains_key(Direction::Down));
            match rule(Cell::Sand, around, coins.contains(upper)) {
                Action::Move(d) => {
                    let tx = x + d.dx();
                    let ty = y + d.dy();
                    assert(seen(grid, columns, rows, tx, ty) is None);
                    assert(d == Direction::DownLeft || d == Direction::DownRight);
                    lemma_unpack_pack(tx as u16, ty as u16);
                },
                _ => {
                    assert(around.contains_key(Direction::DownLeft));
                    assert(around.contains_key(Direction::DownRight));
                    if inside(columns, rows, x - 1, y + 1) {
                        lemma_unpack_pack((x - 1) as u16, (y + 1) as u16);
                    }
                    if inside(columns, rows, x + 1, y + 1) {
                        if x + 1 <= COORD_MAX {
                            lemma_unpack_pack((x + 1) as u16, (y + 1) as u16);
                        }
                    }
                },
            }
        }
    }
    assert forall|k: u32, right_first: bool| next.contains_key(k) implies #[trigger] fate(
        next,
        columns,
        rows,
        k,
        right_first,
    ) == Some((k, next[k])) by {
        if coords_of(k).1 != y + 1 {
            assert(seen(next, columns, rows, x as int, y + 1) is Some);
        }
        lemma_blocked_cell_writes_itself(next, columns, rows, k, right_first);
    }
}

} // verus!
