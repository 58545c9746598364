//! The materials a cell can be made of, and the rule by which each material
//! decides, from its eight neighbours alone, what becomes of it in the next
//! generation.

use vstd::prelude::*;

pub use crate::coord::Direction;

verus! {

/// The material of a cell.
///
/// `Border` stands for everything outside the playable area. It is what a
/// lookup beyond the edge of the grid sees, and it is never stored.
#[derive(Clone, Copy, Debug, PartialEq, Eq, Structural)]
pub enum Cell {
    Sand,
    Wood,
    Fire,
    Water,
    Border,
}

/// What becomes of a cell in the next generation.
#[derive(Clone, Copy, Debug, PartialEq, Eq, Structural)]
pub enum Action {
    /// The cell stays as it is.
    NoChange,
    /// The cell stays in place and becomes the given material.
    Replace(Cell),
    /// The cell moves one step in the given direction.
    Move(Direction),
    /// The cell disappears.
    Vanish,
}

/// The display colour of a material.
#[derive(Clone, Copy, Debug, PartialEq, Eq, Structural)]
pub enum Color {
    Yellow,
    Red,
    Cyan,
    Blue,
    Rgb(u8, u8, u8),
}

/// The occupied neighbours of one cell, by direction. A direction without an
/// entry is empty space; a direction that leads off the grid holds
/// [`Cell::Border`].
#[derive(Clone, Copy, Debug, PartialEq, Eq, Structural)]
pub struct Neighbours {
    pub up: Option<Cell>,
    pub up_right: Option<Cell>,
    pub up_left: Option<Cell>,
    pub right: Option<Cell>,
    pub left: Option<Cell>,
    pub down: Option<Cell>,
    pub down_right: Option<Cell>,
    pub down_left: Option<Cell>,
}

impl View for Neighbours {
    type V = Map<Direction, Cell>;

    /// The neighbours as a map from the occupied directions to their cells.
    open spec fn view(&self) -> Map<Direction, Cell> {
        Map::new(|d: Direction| self.at(d) is Some, |d: Direction| self.at(d)->0)
    }
}

impl Neighbours {
    /// The neighbour in direction `d`, if that direction is occupied.
    pub open spec fn at(self, d: Direction) -> Option<Cell> {
        match d {
            Direction::Up => self.up,
            Direction::UpRight => self.up_right,
            Direction::UpLeft => self.up_left,
            Direction::Right => self.right,
            Direction::Left => self.left,
            Direction::Down => self.down,
            Direction::DownRight => self.down_right,
            Direction::DownLeft => self.down_left,
        }
    }

    /// These neighbours with `cell` in direction `d`.
    pub open spec fn with(self, d: Direction, cell: Cell) -> Neighbours {
        match d {
            Direction::Up => Neighbours { up: Some(cell), ..self },
            Direction::UpRight => Neighbours { up_right: Some(cell), ..self },
            Direction::UpLeft => Neighbours { up_left: Some(cell), ..self },
            Direction::Right => Neighbours { right: Some(cell), ..self },
            Direction::Left => Neighbours { left: Some(cell), ..self },
            Direction::Down => Neighbours { down: Some(cell), ..self },
            Direction::DownRight => Neighbours { down_right: Some(cell), ..self },
            Direction::DownLeft => Neighbours { down_left: Some(cell), ..self },
        }
    }

    /// No neighbour in any direction.
    pub open spec fn empty() -> Neighbours {
        Neighbours {
            up: None,
            up_right: None,
            up_left: None,
            right: None,
            left: None,
            down: None,
            down_right: None,
            down_left: None,
        }
    }

    /// No neighbour in any direction.
    pub fn new() -> (n: Self)
        ensures
            n == Neighbours::empty(),
            n@ == Map::<Direction, Cell>::empty(),
    {
        let n = Neighbours {
            up: None,
            up_right: None,
            up_left: None,
            right: None,
            left: None,
            down: None,
            down_right: None,
            down_left: None,
        };
        assert(n@ =~= Map::<Direction, Cell>::empty());
        n
    }

    /// Records `cell` as the neighbour in direction `d`, in place of any
    /// neighbour recorded there before.
    pub fn insert(&mut self, d: Direction, cell: Cell)
        ensures
            *final(self) == old(self).with(d, cell),
            final(self)@ == old(self)@.insert(d, cell),
    {
        match d {
            Direction::Up => self.up = Some(cell),
            Direction::UpRight => self.up_right = Some(cell),
            Direction::UpLeft => self.up_left = Some(cell),
            Direction::Right => self.right = Some(cell),
            Direction::Left => self.left = Some(cell),
            Direction::Down => self.down = Some(cell),
            Direction::DownRight => self.down_right = Some(cell),
            Direction::DownLeft => self.down_left = Some(cell),
        }
        assert(self@ =~= old(self)@.insert(d, cell));
    }

    /// The neighbour in direction `d`, if there is one.
    pub fn get(&self, d: Direction) -> (cell: Option<Cell>)
        ensures
            cell == if self@.contains_key(d) {
                Some(self@[d])
            } else {
                None
            },
    {
        match d {
            Direction::Up => self.up,
            Direction::UpRight => self.up_right,
            Direction::UpLeft => self.up_left,
            Direction::Right => self.right,
            Direction::Left => self.left,
            Direction::Down => self.down,
            Direction::DownRight => self.down_right,
            Direction::DownLeft => self.down_left,
        }
    }

    /// Whether direction `d` is occupied.
    pub fn contains_key(&self, d: Direction) -> (occupied: bool)
        ensures
            occupied == self@.contains_key(d),
    {
        self.get(d).is_some()
    }

    /// Whether some neighbour is made of `material`.
    pub fn contains_value(&self, material: Cell) -> (found: bool)
        ensures
            found == touches(self@, material),
    {
        let found = self.up == Some(material) || self.up_right == Some(material) || self.up_left
            == Some(material) || self.right == Some(material) || self.left == Some(material)
            || self.down == Some(material) || self.down_right == Some(material) || self.down_left
            == Some(material);
        proof {
            if found {
                let d = if self.up == Some(material) {
                    Direction::Up
                } else if self.up_right == Some(material) {
                    Direction::UpRight
                } else if self.up_left == Some(material) {
                    Direction::UpLeft
                } else if self.right == Some(material) {
                    Direction::Right
                } else if self.left == Some(material) {
                    Direction::Left
                } else if self.down == Some(material) {
                    Direction::Down
                } else if self.down_right == Some(material) {
                    Direction::DownRight
                } else {
                    Direction::DownLeft
                };
                assert(self@.contains_key(d) && self@[d] == material);
            }
        }
        found
    }
}

/// Whether some neighbour in `neighbours` is made of `material`.
pub open spec fn touches(neighbours: Map<Direction, Cell>, material: Cell) -> bool {
    exists|d: Direction| #[trigger] neighbours.contains_key(d) && neighbours[d] == material
}

/// The first of the two lower diagonals that a falling cell tries.
pub open spec fn first_diagonal(right_first: bool) -> Direction {
    if right_first {
        Direction::DownRight
    } else {
        Direction::DownLeft
    }
}

/// The second of the two lower diagonals that a falling cell tries.
pub open spec fn second_diagonal(right_first: bool) -> Direction {
    if right_first {
        Direction::DownLeft
    } else {
        Direction::DownRight
    }
}

/// What a cell whose way straight down is blocked does: it slides into the
/// first free lower diagonal, tried in the order that `right_first` gives, and
/// stays where it is when both are taken.
pub open spec fn slide(neighbours: Map<Direction, Cell>, right_first: bool) -> Action {
    if !neighbours.contains_key(first_diagonal(right_first)) {
        Action::Move(first_diagonal(right_first))
    } else if !neighbours.contains_key(second_diagonal(right_first)) {
        Action::Move(second_diagonal(right_first))
    } else {
        Action::NoChange
    }
}

/// What a granular or liquid cell does: it falls straight down when the place
/// below is empty, and slides otherwise.
pub open spec fn fall(neighbours: Map<Direction, Cell>, right_first: bool) -> Action {
    if !neighbours.contains_key(Direction::Down) {
        Action::Move(Direction::Down)
    } else {
        slide(neighbours, right_first)
    }
}

/// What wood does: it catches fire when it touches fire, and is otherwise
/// inert.
pub open spec fn burn(neighbours: Map<Direction, Cell>) -> Action {
    if touches(neighbours, Cell::Fire) {
        Action::Replace(Cell::Fire)
    } else {
        Action::NoChange
    }
}

/// The rule of the automaton: what becomes of `cell`, given its occupied
/// neighbours and the side that a blocked falling cell tries first.
///
/// Sand and water fall; wood burns; fire burns out after one generation; the
/// border is inert.
pub open spec fn rule(cell: Cell, neighbours: Map<Direction, Cell>, right_first: bool) -> Action {
    match cell {
        Cell::Sand => fall(neighbours, right_first),
        Cell::Water => fall(neighbours, right_first),
        Cell::Wood => burn(neighbours),
        Cell::Fire => Action::Vanish,
        Cell::Border => Action::NoChange,
    }
}

/// A falling cell with something below it and on both lower diagonals, be it
/// a cell or the border, does not move, whatever the tie-break.
pub proof fn lemma_hemmed_in_cell_does_not_move(
    cell: Cell,
    neighbours: Map<Direction, Cell>,
    right_first: bool,
)
    requires
        cell == Cell::Sand || cell == Cell::Water,
        neighbours.contains_key(Direction::Down),
        neighbours.contains_key(Direction::DownLeft),
        neighbours.contains_key(Direction::DownRight),
    ensures
        rule(cell, neighbours, right_first) == Action::NoChange,
{
}

/// `rand::random::<bool>()`: a boolean drawn from the thread-local generator
/// of the `rand` crate, which yields either value with equal chance.
///
/// Nothing is claimed of the value: either outcome may come back from any
/// call. The generator seeds itself from the operating system when a thread
/// first uses it, and the call does not return should that fail.
#[verifier::external_body]
fn coin_flip() -> (heads: bool) {
    rand::random::<bool>()
}

impl Cell {
    /// The colour in which this material is drawn.
    pub open spec fn spec_color(self) -> Color {
        match self {
            Cell::Sand => Color::Yellow,
            Cell::Wood => Color::Rgb(25, 120, 25),
            Cell::Fire => Color::Red,
            Cell::Border => Color::Cyan,
            Cell::Water => Color::Blue,
        }
    }

    /// The colour in which this material is drawn.
    pub fn color(&self) -> (c: Color)
        ensures
            c == self.spec_color(),
    {
        match self {
            Cell::Sand => Color::Yellow,
            Cell::Wood => Color::Rgb(25, 120, 25),
            Cell::Fire => Color::Red,
            Cell::Border => Color::Cyan,
            Cell::Water => Color::Blue,
        }
    }

    /// Decides what becomes of this cell, breaking the tie between the two
    /// lower diagonals with a fresh coin flip. The result is what [`rule`]
    /// gives for one of the two sides.
    pub fn update(&self, neighbours: &Neighbours) -> (action: Action)
        ensures
            action == rule(*self, neighbours@, true) || action == rule(*self, neighbours@, false),
    {
        match self {
            Cell::Sand => self.handle_sand(neighbours),
            Cell::Water => self.handle_sand(neighbours),
            Cell::Wood => self.handle_wood(neighbours),
            Cell::Fire => self.handle_fire(neighbours),
            Cell::Border => Action::NoChange,
        }
    }

    /// Decides what becomes of this cell when a blocked falling cell tries the
    /// right diagonal first exactly if `right_first` holds.
    pub fn update_with(&self, neighbours: &Neighbours, right_first: bool) -> (action: Action)
        ensures
            action == rule(*self, neighbours@, right_first),
    {
        match self {
            Cell::Sand | Cell::Water => {
                if !neighbours.contains_key(Direction::Down) {
                    Action::Move(Direction::Down)
                } else {
                    Self::settle(neighbours, right_first)
                }
            },
            Cell::Wood => self.handle_wood(neighbours),
            Cell::Fire => self.handle_fire(neighbours),
            Cell::Border => Action::NoChange,
        }
    }

    /// Where a cell whose way down is blocked goes, given the side to try
    /// first.
    pub fn settle(neighbours: &Neighbours, right_first: bool) -> (action: Action)
        ensures
            action == slide(neighbours@, right_first),
    {
        let (first, second) = if right_first {
            (Direction::DownRight, Direction::DownLeft)
        } else {
            (Direction::DownLeft, Direction::DownRight)
        };
        if !neighbours.contains_key(first) {
            return Action::Move(first);
        }
        if !neighbours.contains_key(second) {
            return Action::Move(second);
        }
        Action::NoChange
    }

    fn handle_sand(&self, neighbours: &Neighbours) -> (action: Action)
        ensures
            action == fall(neighbours@, true) || action == fall(neighbours@, false),
    {
        if !neighbours.contains_key(Direction::Down) {
            return Action::Move(Direction::Down);
        }
        let right_first = coin_flip();
        Self::settle(neighbours, right_first)
    }

    fn handle_fire(&self, _neighbours: &Neighbours) -> (action: Action)
        ensures
            action == Action::Vanish,
    {
        Action::Vanish
    }

    fn handle_wood(&self, neighbours: &Neighbours) -> (action: Action)
        ensures
            action == burn(neighbours@),
    {
        if neighbours.contains_value(Cell::Fire) {
            return Action::Replace(Cell::Fire);
        }
        Action::NoChange
    }
}

} // verus!
