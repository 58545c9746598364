//! The grid of cells and the engine that advances it by one generation.
//!
//! The grid is sparse: it stores the occupied places only, each under the key
//! of its position. It is held twice. A generation is computed from the
//! source buffer alone and written into the destination buffer, and the two
//! change places when the generation is complete, so that no cell ever sees a
//! neighbour that has already moved.
//!
//! The outcome of a generation is not a function of the grid. Every falling
//! cell that is blocked below draws its own tie-break, and where several cells
//! move to the same place the one that is written last stays, in an order
//! that the hash map decides. [`is_next_generation`] says which outcomes are
//! possible, and [`Simulation::handle_ticks`] promises one of them.
//! [`Simulation::handle_ticks_with`] takes the tie-break from its caller.

use std::collections::HashMap;
use vstd::prelude::*;
use vstd::std_specs::hash::*;
use vstd::std_specs::iter::IteratorSpec;

use crate::coord::{
    coords_of, get_coords_from_key, key_of, lemma_pack_unpack, CoordError, Direction, Vec2,
    COORD_MAX,
};
use crate::particle::{rule, Action, Cell, Neighbours};
use crate::window::Window;

verus! {

broadcast use vstd::std_specs::hash::group_hash_axioms;

/// The extent, on either axis, of a grid without a window: every position
/// that has a key lies inside it.
pub const UNBOUNDED: i32 = 0x1_0000;

/// Whether `(x, y)` lies inside a grid of `columns` by `rows` places.
pub open spec fn inside(columns: int, rows: int, x: int, y: int) -> bool {
    0 <= x < columns && 0 <= y < rows
}

/// Whether `(x, y)` has a key.
pub open spec fn has_key(x: int, y: int) -> bool {
    0 <= x <= COORD_MAX && 0 <= y <= COORD_MAX
}

/// What a lookup at `(x, y)` sees in `grid`, bounded by `columns` and `rows`:
/// the border outside the bounds, the stored cell inside them, and nothing
/// where no cell is stored.
pub open spec fn seen(grid: Map<u32, Cell>, columns: int, rows: int, x: int, y: int) -> Option<
    Cell,
> {
    if !inside(columns, rows, x, y) {
        Some(Cell::Border)
    } else if has_key(x, y) && grid.contains_key(key_of(x as u16, y as u16)) {
        Some(grid[key_of(x as u16, y as u16)])
    } else {
        None
    }
}

/// The occupied neighbours of the place `(x, y)`, as a lookup in each of the
/// eight directions sees them.
pub open spec fn neighbourhood(
    grid: Map<u32, Cell>,
    columns: int,
    rows: int,
    x: int,
    y: int,
) -> Map<Direction, Cell> {
    Map::new(
        |d: Direction| seen(grid, columns, rows, x + d.dx(), y + d.dy()) is Some,
        |d: Direction| seen(grid, columns, rows, x + d.dx(), y + d.dy())->0,
    )
}

/// The key under which a cell stored under `key` lands when it moves one step
/// in direction `d`: the key of the place it moves to, or its own key when
/// that place lies outside the bounds or has no key.
pub open spec fn landing(columns: int, rows: int, key: u32, d: Direction) -> u32 {
    let x = coords_of(key).0 + d.dx();
    let y = coords_of(key).1 + d.dy();
    if inside(columns, rows, x, y) && has_key(x, y) {
        key_of(x as u16, y as u16)
    } else {
        key
    }
}

/// What `action` writes into the next generation for the cell `cell` stored
/// under `key`: a key and the cell to store there, or nothing.
pub open spec fn staged(columns: int, rows: int, key: u32, cell: Cell, action: Action) -> Option<
    (u32, Cell),
> {
    match action {
        Action::NoChange => Some((key, cell)),
        Action::Replace(new_cell) => Some((key, new_cell)),
        Action::Move(d) => Some((landing(columns, rows, key, d), cell)),
        Action::Vanish => None,
    }
}

/// The buffer after the cell `cell` stored under `key` has written what
/// `action` makes of it.
pub open spec fn after_staging(
    buffer: Map<u32, Cell>,
    columns: int,
    rows: int,
    key: u32,
    cell: Cell,
    action: Action,
) -> Map<u32, Cell> {
    match staged(columns, rows, key, cell, action) {
        Some((target, new_cell)) => buffer.insert(target, new_cell),
        None => buffer,
    }
}

/// What the cell stored under `key` in `grid` writes into the next
/// generation, when its tie-break falls as `right_first` says: what the rule
/// of its material makes of it among the neighbours that it sees.
#[verifier::opaque]
pub open spec fn fate(
    grid: Map<u32, Cell>,
    columns: int,
    rows: int,
    key: u32,
    right_first: bool,
) -> Option<(u32, Cell)> {
    staged(
        columns,
        rows,
        key,
        grid[key],
        rule(
            grid[key],
            neighbourhood(grid, columns, rows, coords_of(key).0 as int, coords_of(key).1 as int),
            right_first,
        ),
    )
}

/// Whether `next` is a generation that can follow `grid` when the cells
/// stored under the keys in `coins`, and no others, try the right diagonal
/// first.
///
/// Every cell of `grid` decides its fate from `grid` alone. The next
/// generation holds a cell exactly under the keys that some fate writes to,
/// and the cell under such a key is one that was written there. Where several
/// cells move to the same place, any one of them may be the one that stays.
pub open spec fn is_next_generation(
    grid: Map<u32, Cell>,
    columns: int,
    rows: int,
    coins: Set<u32>,
    next: Map<u32, Cell>,
) -> bool {
    &&& forall|k: u32| #[trigger]
        grid.contains_key(k) ==> (fate(grid, columns, rows, k, coins.contains(k)) matches Some(w)
            ==> next.contains_key(w.0))
    &&& forall|t: u32| #[trigger]
        next.contains_key(t) ==> exists|k: u32| #[trigger]
            grid.contains_key(k) && fate(grid, columns, rows, k, coins.contains(k)) == Some(
                (t, next[t]),
            )
}

/// The cell stored at `pos` in `grid`, if `pos` has a key and a cell is stored
/// under it.
pub open spec fn cell_at(grid: Map<u32, Cell>, pos: Vec2) -> Option<Cell> {
    if pos.packable() && grid.contains_key(pos.key()) {
        Some(grid[pos.key()])
    } else {
        None
    }
}

/// The grid after painting `cell` at `pos`: the place takes the cell when it
/// has a key and is empty, and nothing changes otherwise.
pub open spec fn paint(grid: Map<u32, Cell>, pos: Vec2, cell: Cell) -> Map<u32, Cell> {
    if pos.packable() && !grid.contains_key(pos.key()) {
        grid.insert(pos.key(), cell)
    } else {
        grid
    }
}

/// The grid after painting `cell` at the first `n` of `points`, in order.
pub open spec fn paint_all(grid: Map<u32, Cell>, points: Seq<Vec2>, cell: Cell, n: int) -> Map<
    u32,
    Cell,
>
    decreases n,
{
    if n <= 0 {
        grid
    } else {
        paint(paint_all(grid, points, cell, n - 1), points[n - 1], cell)
    }
}

/// The grid after erasing the place `pos`.
pub open spec fn erase(grid: Map<u32, Cell>, pos: Vec2) -> Map<u32, Cell> {
    if pos.packable() {
        grid.remove(pos.key())
    } else {
        grid
    }
}

/// Success for a position that has a key, and `InvalidCoordinate` for one that
/// has none.
pub open spec fn accepted(pos: Vec2) -> Result<(), CoordError> {
    if pos.packable() {
        Ok(())
    } else {
        Err(CoordError::InvalidCoordinate { x: pos.x, y: pos.y })
    }
}

/// The number of points at the front of `points` that have a key: the index
/// of the first point without one, or the number of points when all have one.
pub open spec fn accepted_prefix(points: Seq<Vec2>) -> int
    decreases points.len(),
{
    if points.len() == 0 || !points[0].packable() {
        0
    } else {
        1 + accepted_prefix(points.drop_first())
    }
}

/// Whether no cell of `grid` is the border.
pub open spec fn border_free(grid: Map<u32, Cell>) -> bool {
    forall|k: u32| #[trigger] grid.contains_key(k) ==> grid[k] != Cell::Border
}

/// The grid: a sparse map from keys to cells, held twice so that a whole
/// generation is computed from the old cells alone, and the window that
/// bounds it.
pub struct Simulation {
    src_buffer: HashMap<u32, Cell>,
    /// Keys are packed positions: `x` in the high sixteen bits, `y` in the low.
    dst_buffer: HashMap<u32, Cell>,
    window: Option<Window>,
}

impl View for Simulation {
    type V = Map<u32, Cell>;

    /// The cells of the current generation, by key.
    closed spec fn view(&self) -> Map<u32, Cell> {
        self.src_buffer@
    }
}

impl Simulation {
    /// Whether the grid is well formed: the border is what lies outside the
    /// grid, so no stored cell is one.
    pub open spec fn wf(&self) -> bool {
        border_free(self@)
    }

    /// The window that bounds the grid, if one was set.
    pub closed spec fn window(&self) -> Option<Window> {
        self.window
    }

    /// The number of columns inside the bounds.
    pub open spec fn columns(&self) -> int {
        match self.window() {
            Some(w) => w.width as int,
            None => UNBOUNDED as int,
        }
    }

    /// The number of rows inside the bounds.
    pub open spec fn rows(&self) -> int {
        match self.window() {
            Some(w) => w.height as int,
            None => UNBOUNDED as int,
        }
    }

    /// The grid holds finitely many cells.
    pub proof fn lemma_finite(&self)
        ensures
            self@.dom().finite(),
    {
    }

    /// An empty grid without a window.
    pub fn new() -> (sim: Self)
        ensures
            sim@ == Map::<u32, Cell>::empty(),
            sim.window() is None,
            sim.wf(),
    {
        Simulation { src_buffer: HashMap::new(), dst_buffer: HashMap::new(), window: None }
    }

    /// The cell at `pos`, if there is one.
    pub fn get(&self, pos: &Vec2) -> (cell: Option<Cell>)
        ensures
            cell == cell_at(self@, *pos),
    {
        match pos.to_key() {
            Ok(key) => match self.src_buffer.get(&key) {
                Some(cell) => Some(*cell),
                None => None,
            },
            Err(_) => None,
        }
    }

    /// Every cell of the current generation with its position, each once, in
    /// no particular order.
    pub fn iter_cells(&self) -> (cells: Vec<((u16, u16), Cell)>)
        ensures
            cells@.len() == self@.dom().len(),
            forall|i: int|
                0 <= i < cells@.len() ==> {
                    let (pos, cell) = #[trigger] cells@[i];
                    self@.contains_key(key_of(pos.0, pos.1)) && self@[key_of(pos.0, pos.1)] == cell
                },
            forall|k: u32| #[trigger]
                self@.contains_key(k) ==> cells@.contains((coords_of(k), self@[k])),
            forall|i: int, j: int|
                0 <= i < j < cells@.len() ==> (#[trigger] cells@[i]).0 != (#[trigger] cells@[j]).0,
    {
        let mut cells: Vec<((u16, u16), Cell)> = Vec::new();
        for entry in it: self.src_buffer.iter()
            invariant
                it.seq() == spec_hash_map_iter(&self.src_buffer).remaining(),
                it.seq().no_duplicates(),
                cells@.len() == it.index(),
                forall|i: int|
                    0 <= i < cells@.len() ==> #[trigger] cells@[i] == (
                        coords_of(*it.seq()[i].0),
                        *it.seq()[i].1,
                    ),
        {
            let (key, cell) = entry;
            cells.push((get_coords_from_key(*key), *cell));
        }
        proof {
            let entries = spec_hash_map_iter(&self.src_buffer).remaining();
            assert forall|i: int| 0 <= i < cells@.len() implies ({
                let (pos, cell) = #[trigger] cells@[i];
                self@.contains_key(key_of(pos.0, pos.1)) && self@[key_of(pos.0, pos.1)] == cell
            }) by {
                lemma_pack_unpack(*entries[i].0);
                assert(self@.contains_key(*entries[i].0));
            }
            assert forall|k: u32| #[trigger] self@.contains_key(k) implies cells@.contains(
                (coords_of(k), self@[k]),
            ) by {
                assert(entries.contains((&k, &self@[k])));
                let i = choose|i: int| 0 <= i < entries.len() && entries[i] == (&k, &self@[k]);
                assert(cells@[i] == (coords_of(k), self@[k]));
            }
            assert forall|i: int, j: int| 0 <= i < j < cells@.len() implies (#[trigger] cells@[i]).0
                != (#[trigger] cells@[j]).0 by {
                lemma_pack_unpack(*entries[i].0);
                lemma_pack_unpack(*entries[j].0);
                assert(self@.contains_key(*entries[i].0) && self@[*entries[i].0] == *entries[i].1);
                assert(self@.contains_key(*entries[j].0) && self@[*entries[j].0] == *entries[j].1);
                assert(entries[i] != entries[j]);
            }
        }
        cells
    }

    /// The extent of the grid: that of the window if one was set, and
    /// [`UNBOUNDED`] on both axes otherwise.
    pub fn extent(&self) -> (size: (i32, i32))
        ensures
            size.0 == self.columns(),
            size.1 == self.rows(),
    {
        match &self.window {
            Some(window) => (window.width as i32, window.height as i32),
            None => (UNBOUNDED, UNBOUNDED),
        }
    }

    /// Sets the window that bounds the grid from the next generation on.
    pub fn update_window_size(&mut self, window: Window)
        ensures
            final(self).window() == Some(window),
            final(self)@ == old(self)@,
    {
        self.window = Some(window)
    }

    fn flip(&mut self, pos: &Vec2, cell: Cell) -> (r: Result<(), CoordError>)
        ensures
            r == accepted(*pos),
            final(self)@ == paint(old(self)@, *pos, cell),
            final(self).window() == old(self).window(),
    {
        match pos.to_key() {
            Ok(key) => {
                self.src_buffer.entry(key).or_insert(cell);
                assert(self@ =~= paint(old(self)@, *pos, cell));
                Ok(())
            },
            Err(e) => Err(e),
        }
    }

    /// Looks up the cell at `pos` in `map`, bounded by `columns` and `rows`.
    pub fn find_cell(pos: Vec2, columns: i32, rows: i32, map: &HashMap<u32, Cell>) -> (cell: Option<
        &Cell,
    >)
        ensures
            match cell {
                Some(c) => seen(map@, columns as int, rows as int, pos.x as int, pos.y as int)
                    == Some(*c),
                None => seen(map@, columns as int, rows as int, pos.x as int, pos.y as int)
                    is None,
            },
    {
        if pos.x < 0 || pos.y < 0 || pos.x >= columns || pos.y >= rows {
            return Some(&Cell::Border);
        }
        match pos.to_key() {
            Ok(key) => map.get(&key),
            Err(_) => None,
        }
    }

    /// Records in `map` what a lookup one step from `pos` in `direction`
    /// sees, if it sees anything.
    pub fn fill_neighbour(
        &self,
        pos: &Vec2,
        direction: Direction,
        width: i32,
        height: i32,
        map: &mut Neighbours,
    )
        requires
            pos.can_add(direction.offset()),
        ensures
            final(map)@ == match seen(
                self@,
                width as int,
                height as int,
                pos.x + direction.dx(),
                pos.y + direction.dy(),
            ) {
                Some(cell) => old(map)@.insert(direction, cell),
                None => old(map)@,
            },
            *final(map) == match seen(
                self@,
                width as int,
                height as int,
                pos.x + direction.dx(),
                pos.y + direction.dy(),
            ) {
                Some(cell) => old(map).with(direction, cell),
                None => *old(map),
            },
    {
        let direction_vec: Vec2 = Vec2::from(direction);
        if let Some(cell) = Self::find_cell(pos + direction_vec, width, height, &self.src_buffer) {
            map.insert(direction, *cell);
        }
    }

    /// The occupied neighbours of the place `pos`.
    pub fn neighbours_of(&self, pos: &Vec2, width: i32, height: i32) -> (neighbours: Neighbours)
        requires
            i32::MIN < pos.x < i32::MAX,
            i32::MIN < pos.y < i32::MAX,
        ensures
            neighbours@ == neighbourhood(
                self@,
                width as int,
                height as int,
                pos.x as int,
                pos.y as int,
            ),
    {
        let mut neighbour_map = Neighbours::new();
        self.fill_neighbour(pos, Direction::Down, width, height, &mut neighbour_map);
        self.fill_neighbour(pos, Direction::DownRight, width, height, &mut neighbour_map);
        self.fill_neighbour(pos, Direction::Right, width, height, &mut neighbour_map);
        self.fill_neighbour(pos, Direction::UpRight, width, height, &mut neighbour_map);
        self.fill_neighbour(pos, Direction::Up, width, height, &mut neighbour_map);
        self.fill_neighbour(pos, Direction::UpLeft, width, height, &mut neighbour_map);
        self.fill_neighbour(pos, Direction::Left, width, height, &mut neighbour_map);
        self.fill_neighbour(pos, Direction::DownLeft, width, height, &mut neighbour_map);
        proof {
            let (w, h) = (width as int, height as int);
            let (x, y) = (pos.x as int, pos.y as int);
            assert(neighbour_map.down == seen(self@, w, h, x, y + 1));
            assert(neighbour_map.down_right == seen(self@, w, h, x + 1, y + 1));
            assert(neighbour_map.right == seen(self@, w, h, x + 1, y));
            assert(neighbour_map.up_right == seen(self@, w, h, x + 1, y - 1));
            assert(neighbour_map.up == seen(self@, w, h, x, y - 1));
            assert(neighbour_map.up_left == seen(self@, w, h, x - 1, y - 1));
            assert(neighbour_map.left == seen(self@, w, h, x - 1, y));
            assert(neighbour_map.down_left == seen(self@, w, h, x - 1, y + 1));
            assert forall|d: Direction|
                neighbour_map.at(d) == seen(self@, w, h, x + d.dx(), y + d.dy()) by {}
            assert(neighbour_map@ =~= neighbourhood(self@, w, h, x, y));
        }
        neighbour_map
    }

    /// Writes into `buffer` what `action` makes of the cell `cell` stored
    /// under `key`. A move that would leave the bounds is suppressed: the cell
    /// is written back under its own key. A write replaces whatever was
    /// written under the same key before.
    pub fn apply_action(
        buffer: &mut HashMap<u32, Cell>,
        key: u32,
        cell: Cell,
        action: Action,
        columns: i32,
        rows: i32,
    )
        ensures
            final(buffer)@ == after_staging(
                old(buffer)@,
                columns as int,
                rows as int,
                key,
                cell,
                action,
            ),
    {
        match action {
            Action::NoChange => {
                buffer.insert(key, cell);
            },
            Action::Replace(new_cell) => {
                buffer.insert(key, new_cell);
            },
            Action::Move(direction) => {
                let pos = Vec2::from(key);
                let new_pos = pos + Vec2::from(direction);
                if new_pos.x < columns && new_pos.y < rows {
                    match new_pos.to_key() {
                        Ok(new_key) => {
                            buffer.insert(new_key, cell);
                        },
                        Err(_) => {
                            buffer.insert(key, cell);
                        },
                    }
                } else {
                    buffer.insert(key, cell);
                }
            },
            Action::Vanish => {},
        }
    }

    /// Advances the grid by one generation.
    ///
    /// Every cell decides from the old generation alone; the new generation is
    /// built beside the old one and takes its place at the end. The tie-break
    /// of each falling cell is drawn afresh, and where several cells move to
    /// the same place the one written last stays, so the outcome is one of
    /// those that [`is_next_generation`] admits. The window stays as it is.
    pub fn handle_ticks(&mut self)
        ensures
            final(self).window() == old(self).window(),
            exists|coins: Set<u32>|
                is_next_generation(
                    old(self)@,
                    old(self).columns(),
                    old(self).rows(),
                    coins,
                    final(self)@,
                ),
            final(self)@.dom().len() <= old(self)@.dom().len(),
            old(self).wf() ==> final(self).wf(),
    {
        self.advance(None)
    }

    /// Advances the grid by one generation in which every tie-break falls the
    /// same way: every blocked falling cell tries the right diagonal first if
    /// `right_first` holds, and the left one otherwise. Where several cells
    /// move to the same place, the one written last stays, as in
    /// [`Simulation::handle_ticks`].
    pub fn handle_ticks_with(&mut self, right_first: bool)
        ensures
            final(self).window() == old(self).window(),
            is_next_generation(
                old(self)@,
                old(self).columns(),
                old(self).rows(),
                if right_first {
                    Set::<u32>::full()
                } else {
                    Set::<u32>::empty()
                },
                final(self)@,
            ),
            final(self)@.dom().len() <= old(self)@.dom().len(),
            old(self).wf() ==> final(self).wf(),
    {
        self.advance(Some(right_first));
        proof {
            let coins = choose|coins: Set<u32>|
                (forall|k: u32| coins.contains(k) == right_first) && is_next_generation(
                    old(self)@,
                    old(self).columns(),
                    old(self).rows(),
                    coins,
                    self@,
                );
            assert(coins =~= if right_first {
                Set::<u32>::full()
            } else {
                Set::<u32>::empty()
            });
        }
    }

    /// Advances the grid by one generation. The tie-breaks all fall as
    /// `forced` says if it says anything, and are drawn one by one otherwise.
    fn advance(&mut self, forced: Option<bool>)
        ensures
            final(self).window() == old(self).window(),
            exists|coins: Set<u32>|
                (forced matches Some(side) ==> forall|k: u32| coins.contains(k) == side)
                    && #[trigger] is_next_generation(
                    old(self)@,
                    old(self).columns(),
                    old(self).rows(),
                    coins,
                    final(self)@,
                ),
            final(self)@.dom().len() <= old(self)@.dom().len(),
            old(self).wf() ==> final(self).wf(),
    {
        self.dst_buffer.clear();
        let (width, height) = self.extent();
        let ghost grid = self@;
        let ghost columns = self.columns();
        let ghost rows = self.rows();
        let ghost entries = spec_hash_map_iter(&self.src_buffer).remaining();
        let ghost keys = Seq::new(entries.len(), |j: int| *entries[j].0);
        let ghost mut flips: Seq<bool> = Seq::empty();
        for entry in it: self.src_buffer.iter()
            invariant
                it.seq() == entries,
                entries == spec_hash_map_iter(&self.src_buffer).remaining(),
                entries.no_duplicates(),
                keys == Seq::new(entries.len(), |j: int| *entries[j].0),
                self.src_buffer@ == grid,
                self.window == old(self).window,
                width == columns,
                height == rows,
                flips.len() == it.index(),
                forced matches Some(side) ==> forall|j: int|
                    0 <= j < flips.len() ==> flips[j] == side,
                self.dst_buffer@.dom().finite(),
                self.dst_buffer@.dom().len() <= it.index(),
                staged_so_far(grid, columns, rows, keys, flips, it.index(), self.dst_buffer@),
                border_free(grid) ==> border_free(self.dst_buffer@),
        {
            let (key, cell) = entry;
            let pos: Vec2 = Vec2::from(*key);
            let neighbour_map = self.neighbours_of(&pos, width, height);
            let action = match forced {
                Some(side) => cell.update_with(&neighbour_map, side),
                None => cell.update(&neighbour_map),
            };
            let ghost right_first = match forced {
                Some(side) => side,
                None => action == rule(*cell, neighbour_map@, true),
            };
            let ghost before = self.dst_buffer@;
            Self::apply_action(&mut self.dst_buffer, *key, *cell, action, width, height);
            proof {
                let i = it.index();
                assert(grid.contains_key(*entries[i].0) && grid[*entries[i].0] == *entries[i].1);
                assert(keys[i] == *key);
                assert(fate(grid, columns, rows, *key, right_first) == staged(
                    columns,
                    rows,
                    *key,
                    *cell,
                    action,
                )) by {
                    reveal(fate);
                }
                lemma_stage_one(
                    grid,
                    columns,
                    rows,
                    keys,
                    flips,
                    right_first,
                    before,
                    self.dst_buffer@,
                );
                flips = flips.push(right_first);
            }
        }
        std::mem::swap(&mut self.src_buffer, &mut self.dst_buffer);
        proof {
            assert forall|i: int, j: int| 0 <= i < j < keys.len() implies keys[i] != keys[j] by {
                assert(grid.contains_key(*entries[i].0) && grid[*entries[i].0] == *entries[i].1);
                assert(grid.contains_key(*entries[j].0) && grid[*entries[j].0] == *entries[j].1);
                assert(entries[i] != entries[j]);
            }
            assert forall|k: u32| #[trigger] grid.contains_key(k) implies keys.contains(k) by {
                assert(entries.contains((&k, &grid[k])));
                let j = choose|j: int| 0 <= j < entries.len() && entries[j] == (&k, &grid[k]);
                assert(keys[j] == k);
            }
            assert forall|j: int| 0 <= j < keys.len() implies grid.contains_key(
                #[trigger] keys[j],
            ) by {
                assert(grid.contains_key(*entries[j].0));
            }
            let side = match forced {
                Some(side) => side,
                None => false,
            };
            lemma_all_staged(grid, columns, rows, keys, flips, side, self@);
            let coins = choose|coins: Set<u32>|
                ((forall|j: int| 0 <= j < flips.len() ==> flips[j] == side) ==> forall|k: u32|
                    coins.contains(k) == side) && #[trigger] is_next_generation(
                    grid,
                    columns,
                    rows,
                    coins,
                    self@,
                );
            assert(is_next_generation(
                old(self)@,
                old(self).columns(),
                old(self).rows(),
                coins,
                self@,
            ));
        }
    }
}

impl Default for Simulation {
    /// An empty grid without a window.
    fn default() -> (sim: Self)
        ensures
            sim@ == Map::<u32, Cell>::empty(),
            sim.window() is None,
            sim.wf(),
    {
        Simulation::new()
    }
}

/// A surface on which cells are painted and erased by position.
pub trait MaterialCanvas {
    /// The cells on the canvas, by key.
    spec fn cells(&self) -> Map<u32, Cell>;

    /// Paints `cell` at `pos` if the place is empty, and leaves an occupied
    /// place as it is. Fails, and paints nothing, when `pos` has no key.
    fn set_pixel(&mut self, pos: &Vec2, cell: Cell) -> (r: Result<(), CoordError>)
        requires
            cell != Cell::Border,
        ensures
            r == accepted(*pos),
            final(self).cells() == paint(old(self).cells(), *pos, cell),
    ;

    /// Paints `cell` at each of `points` in order, up to the first point
    /// without a key. Fails with that point when there is one.
    fn set_pixels(&mut self, points: &[Vec2], cell: Cell) -> (r: Result<(), CoordError>)
        requires
            cell != Cell::Border,
        ensures
            final(self).cells() == paint_all(
                old(self).cells(),
                points@,
                cell,
                accepted_prefix(points@),
            ),
            r == if accepted_prefix(points@) == points@.len() {
                Ok::<(), CoordError>(())
            } else {
                accepted(points@[accepted_prefix(points@)])
            },
    ;

    /// Erases the cell at `pos`, if there is one. Fails when `pos` has no
    /// key.
    fn remove_pixel(&mut self, pos: &Vec2) -> (r: Result<(), CoordError>)
        ensures
            r == accepted(*pos),
            final(self).cells() == erase(old(self).cells(), *pos),
    ;
}

impl MaterialCanvas for Simulation {
    open spec fn cells(&self) -> Map<u32, Cell> {
        self@
    }

    fn set_pixel(&mut self, pos: &Vec2, cell: Cell) -> (r: Result<(), CoordError>)
        ensures
            final(self).window() == old(self).window(),
            old(self).wf() ==> final(self).wf(),
    {
        self.flip(pos, cell)
    }

    fn set_pixels(&mut self, points: &[Vec2], cell: Cell) -> (r: Result<(), CoordError>)
        ensures
            final(self).window() == old(self).window(),
            old(self).wf() ==> final(self).wf(),
    {
        let mut i: usize = 0;
        while i < points.len()
            invariant
                0 <= i <= points@.len(),
                cell != Cell::Border,
                forall|j: int| 0 <= j < i ==> (#[trigger] points@[j]).packable(),
                self@ == paint_all(old(self)@, points@, cell, i as int),
                self.window() == old(self).window(),
                old(self).wf() ==> self.wf(),
            decreases points@.len() - i,
        {
            let r = self.set_pixel(&points[i], cell);
            if let Err(e) = r {
                proof {
                    lemma_accepted_prefix_is(points@, i as int);
                }
                return Err(e);
            }
            i = i + 1;
        }
        proof {
            lemma_accepted_prefix_is(points@, i as int);
        }
        Ok(())
    }

    fn remove_pixel(&mut self, pos: &Vec2) -> (r: Result<(), CoordError>)
        ensures
            final(self).window() == old(self).window(),
            old(self).wf() ==> final(self).wf(),
    {
        match pos.to_key() {
            Ok(idx) => {
                self.src_buffer.remove(&idx);
                Ok(())
            },
            Err(e) => Err(e),
        }
    }
}

/// The length of the accepted prefix is at most the number of points, every
/// point before it has a key, and the point at it, if there is one, has none.
pub proof fn lemma_accepted_prefix(points: Seq<Vec2>)
    ensures
        0 <= accepted_prefix(points) <= points.len(),
        forall|i: int| 0 <= i < accepted_prefix(points) ==> (#[trigger] points[i]).packable(),
        accepted_prefix(points) < points.len() ==> !points[accepted_prefix(points)].packable(),
    decreases points.len(),
{
    if points.len() == 0 || !points[0].packable() {
    } else {
        let rest = points.drop_first();
        lemma_accepted_prefix(rest);
        assert forall|i: int| 0 <= i < accepted_prefix(points) implies (
        #[trigger] points[i]).packable() by {
            if i > 0 {
                assert(points[i] == rest[i - 1]);
            }
        }
        if accepted_prefix(points) < points.len() {
            assert(points[accepted_prefix(points)] == rest[accepted_prefix(rest)]);
        }
    }
}

/// The accepted prefix is the only index with keys before it and none at it.
pub proof fn lemma_accepted_prefix_is(points: Seq<Vec2>, n: int)
    requires
        0 <= n <= points.len(),
        forall|i: int| 0 <= i < n ==> (#[trigger] points[i]).packable(),
        n < points.len() ==> !points[n].packable(),
    ensures
        accepted_prefix(points) == n,
{
    lemma_accepted_prefix(points);
    let m = accepted_prefix(points);
    if m < n {
        assert(points[m].packable());
    } else if n < m {
        assert(points[n].packable());
    }
}

/// What the `j`-th of the cells stored under `keys` writes, when the
/// tie-breaks fall as `flips` says.
spec fn fate_at(
    grid: Map<u32, Cell>,
    columns: int,
    rows: int,
    keys: Seq<u32>,
    flips: Seq<bool>,
    j: int,
) -> Option<(u32, Cell)> {
    fate(grid, columns, rows, keys[j], flips[j])
}

/// Whether `buffer` holds what the first `n` of the cells stored under `keys`
/// have written, in some order of writing.
spec fn staged_so_far(
    grid: Map<u32, Cell>,
    columns: int,
    rows: int,
    keys: Seq<u32>,
    flips: Seq<bool>,
    n: int,
    buffer: Map<u32, Cell>,
) -> bool {
    &&& forall|j: int|
        0 <= j < n ==> (#[trigger] fate_at(grid, columns, rows, keys, flips, j) matches Some(w)
            ==> buffer.contains_key(w.0))
    &&& forall|t: u32| #[trigger]
        buffer.contains_key(t) ==> exists|j: int|
            0 <= j < n && #[trigger] fate_at(grid, columns, rows, keys, flips, j) == Some(
                (t, buffer[t]),
            )
}

/// One more cell writes: what held of the first `n` cells and the buffer
/// before holds of the first `n + 1` and the buffer after.
proof fn lemma_stage_one(
    grid: Map<u32, Cell>,
    columns: int,
    rows: int,
    keys: Seq<u32>,
    flips: Seq<bool>,
    flip: bool,
    before: Map<u32, Cell>,
    after: Map<u32, Cell>,
)
    requires
        flips.len() < keys.len(),
        staged_so_far(grid, columns, rows, keys, flips, flips.len() as int, before),
        after == match fate(grid, columns, rows, keys[flips.len() as int], flip) {
            Some((target, cell)) => before.insert(target, cell),
            None => before,
        },
    ensures
        staged_so_far(grid, columns, rows, keys, flips.push(flip), flips.len() as int + 1, after),
{
    let n = flips.len() as int;
    let next_flips = flips.push(flip);
    let written = fate(grid, columns, rows, keys[n], flip);
    assert forall|j: int| 0 <= j < n + 1 implies (#[trigger] fate_at(
        grid,
        columns,
        rows,
        keys,
        next_flips,
        j,
    ) matches Some(w) ==> after.contains_key(w.0)) by {
        if j < n {
            assert(fate_at(grid, columns, rows, keys, flips, j) == fate_at(
                grid,
                columns,
                rows,
                keys,
                next_flips,
                j,
            ));
        }
    }
    assert forall|t: u32| #[trigger] after.contains_key(t) implies exists|j: int|
        0 <= j < n + 1 && #[trigger] fate_at(grid, columns, rows, keys, next_flips, j) == Some(
            (t, after[t]),
        ) by {
        if written matches Some(w) && w.0 == t {
            assert(fate_at(grid, columns, rows, keys, next_flips, n) == Some((t, after[t])));
        } else {
            assert(before.contains_key(t));
            let j = choose|j: int|
                0 <= j < n && #[trigger] fate_at(grid, columns, rows, keys, flips, j) == Some(
                    (t, before[t]),
                );
            assert(fate_at(grid, columns, rows, keys, next_flips, j) == Some((t, after[t])));
        }
    }
}

/// Once every cell has written, the buffer is a next generation: the
/// tie-breaks, which were drawn cell by cell, single out one set of keys. The
/// keys under which no cell is stored are in the set or not as `side` says,
/// so that tie-breaks that all fell on that side single out all keys or none.
proof fn lemma_all_staged(
    grid: Map<u32, Cell>,
    columns: int,
    rows: int,
    keys: Seq<u32>,
    flips: Seq<bool>,
    side: bool,
    next: Map<u32, Cell>,
)
    requires
        flips.len() == keys.len(),
        forall|i: int, j: int| 0 <= i < j < keys.len() ==> keys[i] != keys[j],
        forall|k: u32| #[trigger] grid.contains_key(k) ==> keys.contains(k),
        forall|j: int| 0 <= j < keys.len() ==> grid.contains_key(#[trigger] keys[j]),
        staged_so_far(grid, columns, rows, keys, flips, keys.len() as int, next),
    ensures
        exists|coins: Set<u32>|
            ((forall|j: int| 0 <= j < flips.len() ==> flips[j] == side) ==> forall|k: u32|
                coins.contains(k) == side) && #[trigger] is_next_generation(
                grid,
                columns,
                rows,
                coins,
                next,
            ),
{
    let coins = Set::<u32>::new(
        |k: u32|
            if keys.contains(k) {
                flips[keys.index_of(k)]
            } else {
                side
            },
    );
    assert forall|j: int| 0 <= j < keys.len() implies coins.contains(#[trigger] keys[j])
        == flips[j] by {
        let j2 = keys.index_of(keys[j]);
        assert(keys.contains(keys[j]));
        assert(0 <= j2 < keys.len() && keys[j2] == keys[j]);
    }
    assert forall|k: u32| #[trigger] grid.contains_key(k) implies (fate(
        grid,
        columns,
        rows,
        k,
        coins.contains(k),
    ) matches Some(w) ==> next.contains_key(w.0)) by {
        let j = keys.index_of(k);
        assert(keys.contains(k));
        assert(0 <= j < keys.len() && keys[j] == k);
        assert(fate_at(grid, columns, rows, keys, flips, j) == fate(
            grid,
            columns,
            rows,
            k,
            coins.contains(k),
        ));
    }
    assert forall|t: u32| #[trigger] next.contains_key(t) implies exists|k: u32| #[trigger]
        grid.contains_key(k) && fate(grid, columns, rows, k, coins.contains(k)) == Some(
            (t, next[t]),
        ) by {
        let j = choose|j: int|
            0 <= j < keys.len() && #[trigger] fate_at(grid, columns, rows, keys, flips, j) == Some(
                (t, next[t]),
            );
        let k = keys[j];
        assert(grid.contains_key(k) && fate(grid, columns, rows, k, coins.contains(k)) == Some(
            (t, next[t]),
        ));
    }
    assert(is_next_generation(grid, columns, rows, coins, next));
    if forall|j: int| 0 <= j < flips.len() ==> flips[j] == side {
        assert forall|k: u32| coins.contains(k) == side by {
            if keys.contains(k) {
                let j = keys.index_of(k);
                assert(0 <= j < keys.len() && keys[j] == k);
            }
        }
    }
}

} // verus!
