//! Grid coordinates: positions, the eight compass directions, and the packing
//! of a position into the single integer under which the grid stores a cell.
//!
//! A position has a key exactly when both of its components lie in
//! `0 ..= COORD_MAX`. The key holds `x` in its high sixteen bits and `y` in its
//! low sixteen, so every key stands for exactly one position and every such
//! position has exactly one key.

use vstd::prelude::*;

verus! {

/// The largest value either axis of a stored position may take.
pub const COORD_MAX: i32 = 0xFFFF;

/// One of the eight compass directions. Rows grow downward, so `Down` is the
/// direction of increasing `y`.
#[derive(Clone, Copy, Debug, PartialEq, Eq, Hash, Structural)]
pub enum Direction {
    Up,
    UpRight,
    UpLeft,
    Right,
    Left,
    Down,
    DownRight,
    DownLeft,
}

impl Direction {
    /// The horizontal component of the unit step in this direction.
    pub open spec fn dx(self) -> int {
        match self {
            Direction::Up => 0,
            Direction::UpRight => 1,
            Direction::UpLeft => -1,
            Direction::Right => 1,
            Direction::Left => -1,
            Direction::Down => 0,
            Direction::DownRight => 1,
            Direction::DownLeft => -1,
        }
    }

    /// The vertical component of the unit step in this direction.
    pub open spec fn dy(self) -> int {
        match self {
            Direction::Up => -1,
            Direction::UpRight => -1,
            Direction::UpLeft => -1,
            Direction::Right => 0,
            Direction::Left => 0,
            Direction::Down => 1,
            Direction::DownRight => 1,
            Direction::DownLeft => 1,
        }
    }

    /// The unit step in this direction.
    pub open spec fn offset(self) -> Vec2 {
        Vec2 { x: self.dx() as i32, y: self.dy() as i32 }
    }
}

/// A position on the grid, or the offset between two positions.
#[derive(Clone, Copy, Debug, PartialEq, Eq, Structural)]
pub struct Vec2 {
    pub x: i32,
    pub y: i32,
}

/// Why a position could not be turned into grid coordinates.
#[derive(Clone, Copy, Debug, PartialEq, Eq, Structural)]
pub enum CoordError {
    /// The position has a negative component or one above [`COORD_MAX`].
    InvalidCoordinate { x: i32, y: i32 },
}

/// The key of the position `(x, y)`: `x` in the high sixteen bits, `y` in the
/// low sixteen.
pub open spec fn key_of(x: u16, y: u16) -> u32 {
    ((x as u32) << 16) | (y as u32)
}

/// The position that `key` stands for.
pub open spec fn coords_of(key: u32) -> (u16, u16) {
    ((key >> 16) as u16, (key & 0xFFFF) as u16)
}

/// Packs a position into its key.
pub fn get_key_from_coords(x: u16, y: u16) -> (key: u32)
    ensures
        key == key_of(x, y),
{
    (x as u32) << 16 | y as u32
}

/// Unpacks a key into the position it stands for.
pub fn get_coords_from_key(key: u32) -> (coords: (u16, u16))
    ensures
        coords == coords_of(key),
{
    let high: u32 = key >> 16;
    let low: u32 = key & 0xFFFF;
    assert(high <= 0xFFFF && low <= 0xFFFF) by (bit_vector)
        requires
            high == key >> 16,
            low == key & 0xFFFF,
    ;
    (high as u16, low as u16)
}

impl Vec2 {
    /// Whether both components lie in `0 ..= COORD_MAX`, so that the position
    /// has a key.
    pub open spec fn packable(self) -> bool {
        0 <= self.x <= COORD_MAX && 0 <= self.y <= COORD_MAX
    }

    /// The key of a packable position.
    pub open spec fn key(self) -> u32
        recommends
            self.packable(),
    {
        key_of(self.x as u16, self.y as u16)
    }

    /// The position stored under `key`.
    pub open spec fn of_key(key: u32) -> Vec2 {
        Vec2 { x: coords_of(key).0 as i32, y: coords_of(key).1 as i32 }
    }

    /// What converting this position to grid coordinates gives.
    pub open spec fn coords(self) -> Result<(u16, u16), CoordError> {
        if self.packable() {
            Ok((self.x as u16, self.y as u16))
        } else {
            Err(CoordError::InvalidCoordinate { x: self.x, y: self.y })
        }
    }

    /// What converting this position to a key gives.
    pub open spec fn packed(self) -> Result<u32, CoordError> {
        if self.packable() {
            Ok(self.key())
        } else {
            Err(CoordError::InvalidCoordinate { x: self.x, y: self.y })
        }
    }

    /// Whether the componentwise sum with `rhs` fits.
    pub open spec fn can_add(self, rhs: Vec2) -> bool {
        &&& i32::MIN <= self.x + rhs.x <= i32::MAX
        &&& i32::MIN <= self.y + rhs.y <= i32::MAX
    }

    /// The componentwise sum with `rhs`.
    pub open spec fn plus(self, rhs: Vec2) -> Vec2 {
        Vec2 { x: (self.x + rhs.x) as i32, y: (self.y + rhs.y) as i32 }
    }

    /// Whether the componentwise difference with `rhs` fits.
    pub open spec fn can_sub(self, rhs: Vec2) -> bool {
        &&& i32::MIN <= self.x - rhs.x <= i32::MAX
        &&& i32::MIN <= self.y - rhs.y <= i32::MAX
    }

    /// The componentwise difference with `rhs`.
    pub open spec fn minus(self, rhs: Vec2) -> Vec2 {
        Vec2 { x: (self.x - rhs.x) as i32, y: (self.y - rhs.y) as i32 }
    }

    /// Whether both components scaled by `rhs` fit.
    pub open spec fn can_scale(self, rhs: i32) -> bool {
        &&& i32::MIN <= self.x * rhs <= i32::MAX
        &&& i32::MIN <= self.y * rhs <= i32::MAX
    }

    /// Both components scaled by `rhs`.
    pub open spec fn scaled(self, rhs: i32) -> Vec2 {
        Vec2 { x: (self.x * rhs) as i32, y: (self.y * rhs) as i32 }
    }

    /// The grid coordinates of this position, or `InvalidCoordinate` when a
    /// component is negative or does not fit in sixteen bits.
    pub fn to_coords(&self) -> (r: Result<(u16, u16), CoordError>)
        ensures
            r == self.coords(),
    {
        if self.x < 0 || self.y < 0 || self.x > COORD_MAX || self.y > COORD_MAX {
            return Err(CoordError::InvalidCoordinate { x: self.x, y: self.y });
        }
        Ok((self.x as u16, self.y as u16))
    }

    /// The key of this position, or `InvalidCoordinate` when it has none.
    pub fn to_key(&self) -> (r: Result<u32, CoordError>)
        ensures
            r == self.packed(),
    {
        match self.to_coords() {
            Ok((x, y)) => Ok(get_key_from_coords(x, y)),
            Err(e) => Err(e),
        }
    }
}

impl From<Direction> for Vec2 {
    /// The unit step in the given direction.
    fn from(value: Direction) -> (v: Self) {
        match value {
            Direction::Up => Self { x: 0, y: -1 },
            Direction::UpRight => Self { x: 1, y: -1 },
            Direction::UpLeft => Self { x: -1, y: -1 },
            Direction::Right => Self { x: 1, y: 0 },
            Direction::Left => Self { x: -1, y: 0 },
            Direction::Down => Self { x: 0, y: 1 },
            Direction::DownRight => Self { x: 1, y: 1 },
            Direction::DownLeft => Self { x: -1, y: 1 },
        }
    }
}

impl vstd::std_specs::convert::FromSpecImpl<Direction> for Vec2 {
    open spec fn obeys_from_spec() -> bool {
        true
    }

    open spec fn from_spec(value: Direction) -> Self {
        value.offset()
    }
}

impl From<u32> for Vec2 {
    /// The position stored under the given key.
    fn from(value: u32) -> (v: Self) {
        let (x, y) = get_coords_from_key(value);
        Vec2 { x: x as i32, y: y as i32 }
    }
}

impl vstd::std_specs::convert::FromSpecImpl<u32> for Vec2 {
    open spec fn obeys_from_spec() -> bool {
        true
    }

    open spec fn from_spec(value: u32) -> Self {
        Vec2::of_key(value)
    }
}

impl From<(i32, i32)> for Vec2 {
    fn from(value: (i32, i32)) -> (v: Self) {
        Self { x: value.0, y: value.1 }
    }
}

impl vstd::std_specs::convert::FromSpecImpl<(i32, i32)> for Vec2 {
    open spec fn obeys_from_spec() -> bool {
        true
    }

    open spec fn from_spec(value: (i32, i32)) -> Self {
        Vec2 { x: value.0, y: value.1 }
    }
}

impl From<(i16, i16)> for Vec2 {
    fn from(value: (i16, i16)) -> (v: Self) {
        Self { x: value.0 as i32, y: value.1 as i32 }
    }
}

impl vstd::std_specs::convert::FromSpecImpl<(i16, i16)> for Vec2 {
    open spec fn obeys_from_spec() -> bool {
        true
    }

    open spec fn from_spec(value: (i16, i16)) -> Self {
        Vec2 { x: value.0 as i32, y: value.1 as i32 }
    }
}

impl From<(u16, u16)> for Vec2 {
    fn from(value: (u16, u16)) -> (v: Self) {
        Self { x: value.0 as i32, y: value.1 as i32 }
    }
}

impl vstd::std_specs::convert::FromSpecImpl<(u16, u16)> for Vec2 {
    open spec fn obeys_from_spec() -> bool {
        true
    }

    open spec fn from_spec(value: (u16, u16)) -> Self {
        Vec2 { x: value.0 as i32, y: value.1 as i32 }
    }
}

impl From<Vec2> for (i32, i32) {
    fn from(val: Vec2) -> (pair: Self) {
        (val.x, val.y)
    }
}

impl vstd::std_specs::convert::FromSpecImpl<Vec2> for (i32, i32) {
    open spec fn obeys_from_spec() -> bool {
        true
    }

    open spec fn from_spec(val: Vec2) -> Self {
        (val.x, val.y)
    }
}

impl From<&Vec2> for (i32, i32) {
    fn from(val: &Vec2) -> (pair: Self) {
        (val.x, val.y)
    }
}

impl vstd::std_specs::convert::FromSpecImpl<&Vec2> for (i32, i32) {
    open spec fn obeys_from_spec() -> bool {
        true
    }

    open spec fn from_spec(val: &Vec2) -> Self {
        (val.x, val.y)
    }
}

impl TryInto<(u16, u16)> for Vec2 {
    type Error = CoordError;

    fn try_into(self) -> (r: Result<(u16, u16), CoordError>) {
        self.to_coords()
    }
}

impl vstd::std_specs::convert::TryIntoSpecImpl<(u16, u16)> for Vec2 {
    open spec fn obeys_try_into_spec() -> bool {
        true
    }

    open spec fn try_into_spec(self) -> Result<(u16, u16), CoordError> {
        self.coords()
    }
}

impl TryInto<(u16, u16)> for &Vec2 {
    type Error = CoordError;

    fn try_into(self) -> (r: Result<(u16, u16), CoordError>) {
        self.to_coords()
    }
}

impl vstd::std_specs::convert::TryIntoSpecImpl<(u16, u16)> for &Vec2 {
    open spec fn obeys_try_into_spec() -> bool {
        true
    }

    open spec fn try_into_spec(self) -> Result<(u16, u16), CoordError> {
        self.coords()
    }
}

impl TryInto<u32> for Vec2 {
    type Error = CoordError;

    fn try_into(self) -> (r: Result<u32, CoordError>) {
        self.to_key()
    }
}

impl vstd::std_specs::convert::TryIntoSpecImpl<u32> for Vec2 {
    open spec fn obeys_try_into_spec() -> bool {
        true
    }

    open spec fn try_into_spec(self) -> Result<u32, CoordError> {
        self.packed()
    }
}

impl TryInto<u32> for &Vec2 {
    type Error = CoordError;

    fn try_into(self) -> (r: Result<u32, CoordError>) {
        self.to_key()
    }
}

impl vstd::std_specs::convert::TryIntoSpecImpl<u32> for &Vec2 {
    open spec fn obeys_try_into_spec() -> bool {
        true
    }

    open spec fn try_into_spec(self) -> Result<u32, CoordError> {
        self.packed()
    }
}

impl std::ops::Add for Vec2 {
    type Output = Vec2;

    fn add(self, rhs: Self) -> (sum: Vec2) {
        Vec2 { x: self.x + rhs.x, y: self.y + rhs.y }
    }
}

impl vstd::std_specs::ops::AddSpecImpl for Vec2 {
    open spec fn obeys_add_spec() -> bool {
        true
    }

    open spec fn add_req(self, rhs: Self) -> bool {
        self.can_add(rhs)
    }

    open spec fn add_spec(self, rhs: Self) -> Vec2 {
        self.plus(rhs)
    }
}

impl std::ops::Add for &Vec2 {
    type Output = Vec2;

    fn add(self, rhs: Self) -> (sum: Vec2) {
        Vec2 { x: self.x + rhs.x, y: self.y + rhs.y }
    }
}

impl vstd::std_specs::ops::AddSpecImpl for &Vec2 {
    open spec fn obeys_add_spec() -> bool {
        true
    }

    open spec fn add_req(self, rhs: Self) -> bool {
        self.can_add(*rhs)
    }

    open spec fn add_spec(self, rhs: Self) -> Vec2 {
        self.plus(*rhs)
    }
}

impl std::ops::Add<Vec2> for &Vec2 {
    type Output = Vec2;

    fn add(self, rhs: Vec2) -> (sum: Vec2) {
        Vec2 { x: self.x + rhs.x, y: self.y + rhs.y }
    }
}

impl vstd::std_specs::ops::AddSpecImpl<Vec2> for &Vec2 {
    open spec fn obeys_add_spec() -> bool {
        true
    }

    open spec fn add_req(self, rhs: Vec2) -> bool {
        self.can_add(rhs)
    }

    open spec fn add_spec(self, rhs: Vec2) -> Vec2 {
        self.plus(rhs)
    }
}

impl std::ops::Sub for Vec2 {
    type Output = Vec2;

    fn sub(self, rhs: Self) -> (difference: Vec2) {
        Vec2 { x: self.x - rhs.x, y: self.y - rhs.y }
    }
}

impl vstd::std_specs::ops::SubSpecImpl for Vec2 {
    open spec fn obeys_sub_spec() -> bool {
        true
    }

    open spec fn sub_req(self, rhs: Self) -> bool {
        self.can_sub(rhs)
    }

    open spec fn sub_spec(self, rhs: Self) -> Vec2 {
        self.minus(rhs)
    }
}

impl std::ops::Sub for &Vec2 {
    type Output = Vec2;

    fn sub(self, rhs: Self) -> (difference: Vec2) {
        Vec2 { x: self.x - rhs.x, y: self.y - rhs.y }
    }
}

impl vstd::std_specs::ops::SubSpecImpl for &Vec2 {
    open spec fn obeys_sub_spec() -> bool {
        true
    }

    open spec fn sub_req(self, rhs: Self) -> bool {
        self.can_sub(*rhs)
    }

    open spec fn sub_spec(self, rhs: Self) -> Vec2 {
        self.minus(*rhs)
    }
}

impl std::ops::Sub<Vec2> for &Vec2 {
    type Output = Vec2;

    fn sub(self, rhs: Vec2) -> (difference: Vec2) {
        Vec2 { x: self.x - rhs.x, y: self.y - rhs.y }
    }
}

impl vstd::std_specs::ops::SubSpecImpl<Vec2> for &Vec2 {
    open spec fn obeys_sub_spec() -> bool {
        true
    }

    open spec fn sub_req(self, rhs: Vec2) -> bool {
        self.can_sub(rhs)
    }

    open spec fn sub_spec(self, rhs: Vec2) -> Vec2 {
        self.minus(rhs)
    }
}

impl std::ops::Mul<i32> for Vec2 {
    type Output = Vec2;

    fn mul(self, rhs: i32) -> (product: Vec2) {
        Vec2 { x: self.x * rhs, y: self.y * rhs }
    }
}

impl vstd::std_specs::ops::MulSpecImpl<i32> for Vec2 {
    open spec fn obeys_mul_spec() -> bool {
        true
    }

    open spec fn mul_req(self, rhs: i32) -> bool {
        self.can_scale(rhs)
    }

    open spec fn mul_spec(self, rhs: i32) -> Vec2 {
        self.scaled(rhs)
    }
}

impl std::ops::Mul<i32> for &Vec2 {
    type Output = Vec2;

    fn mul(self, rhs: i32) -> (product: Vec2) {
        Vec2 { x: self.x * rhs, y: self.y * rhs }
    }
}

impl vstd::std_specs::ops::MulSpecImpl<i32> for &Vec2 {
    open spec fn obeys_mul_spec() -> bool {
        true
    }

    open spec fn mul_req(self, rhs: i32) -> bool {
        self.can_scale(rhs)
    }

    open spec fn mul_spec(self, rhs: i32) -> Vec2 {
        self.scaled(rhs)
    }
}

/// Packing is plain positional arithmetic: the key is `x * 65536 + y`.
pub proof fn lemma_key_is_positional(x: u16, y: u16)
    ensures
        key_of(x, y) == x * 65536 + y,
{
    assert((((x as u32) << 16) | (y as u32)) == (x as u32) * 65536 + (y as u32)) by (bit_vector);
}

/// Unpacking is division with remainder by 65536.
pub proof fn lemma_coords_are_quotient_and_remainder(key: u32)
    ensures
        coords_of(key).0 == key / 65536,
        coords_of(key).1 == key % 65536,
{
    assert(((key >> 16) as u16) as u32 == key / 65536) by (bit_vector);
    assert(((key & 0xFFFF) as u16) as u32 == key % 65536) by (bit_vector);
}

/// Unpacking undoes packing, for every pair of sixteen-bit coordinates.
pub proof fn lemma_unpack_pack(x: u16, y: u16)
    ensures
        coords_of(key_of(x, y)) == (x, y),
{
    let key = ((x as u32) << 16) | (y as u32);
    assert((key >> 16) as u16 == x) by (bit_vector)
        requires
            key == ((x as u32) << 16) | (y as u32),
    ;
    assert((key & 0xFFFF) as u16 == y) by (bit_vector)
        requires
            key == ((x as u32) << 16) | (y as u32),
    ;
}

/// Packing undoes unpacking: every key is the key of exactly one position.
pub proof fn lemma_pack_unpack(key: u32)
    ensures
        key_of(coords_of(key).0, coords_of(key).1) == key,
{
    assert(((((key >> 16) as u16) as u32) << 16) | (((key & 0xFFFF) as u16) as u32) == key)
        by (bit_vector);
}

/// Two positions with the same key are the same position.
pub proof fn lemma_key_is_injective(x1: u16, y1: u16, x2: u16, y2: u16)
    ensures
        key_of(x1, y1) == key_of(x2, y2) ==> x1 == x2 && y1 == y2,
{
    lemma_unpack_pack(x1, y1);
    lemma_unpack_pack(x2, y2);
}

/// A packable position is the position stored under its own key.
pub proof fn lemma_position_of_own_key(pos: Vec2)
    requires
        pos.packable(),
    ensures
        Vec2::of_key(pos.key()) == pos,
{
    lemma_unpack_pack(pos.x as u16, pos.y as u16);
}

/// The position stored under a key is packable, and its key is that key.
pub proof fn lemma_key_of_own_position(key: u32)
    ensures
        Vec2::of_key(key).packable(),
        Vec2::of_key(key).key() == key,
{
    lemma_pack_unpack(key);
}

} // verus!
