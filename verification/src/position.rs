//! Integer grid coordinates.

use vstd::prelude::*;
use crate::direction::Direction;

verus! {

/// A point of the unbounded integer grid: the mathematical value of a
/// [`Position`].
pub ghost struct Point {
    pub x: int,
    pub y: int,
    pub z: int,
}

/// The absolute value of an integer.
pub open spec fn abs(v: int) -> int {
    if v < 0 {
        -v
    } else {
        v
    }
}

/// The larger of two integers.
pub open spec fn max2(a: int, b: int) -> int {
    if a >= b {
        a
    } else {
        b
    }
}

impl Point {
    /// The point one step away in direction `dir`.
    pub open spec fn neighbor(self, dir: Direction) -> Point {
        match dir {
            Direction::East => Point { x: self.x + 1, ..self },
            Direction::West => Point { x: self.x - 1, ..self },
            Direction::Up => Point { y: self.y + 1, ..self },
            Direction::Down => Point { y: self.y - 1, ..self },
            Direction::North => Point { z: self.z + 1, ..self },
            Direction::South => Point { z: self.z - 1, ..self },
        }
    }

    /// Component-wise sum.
    pub open spec fn plus(self, other: Point) -> Point {
        Point { x: self.x + other.x, y: self.y + other.y, z: self.z + other.z }
    }

    /// Component-wise difference.
    pub open spec fn minus(self, other: Point) -> Point {
        Point { x: self.x - other.x, y: self.y - other.y, z: self.z - other.z }
    }

    /// Every component multiplied by `k`.
    pub open spec fn scaled(self, k: int) -> Point {
        Point { x: self.x * k, y: self.y * k, z: self.z * k }
    }

    /// The Chebyshev norm: the largest absolute component.
    pub open spec fn norm(self) -> int {
        max2(max2(abs(self.x), abs(self.y)), abs(self.z))
    }

    /// The Chebyshev distance to `other`.
    pub open spec fn distance(self, other: Point) -> int {
        self.minus(other).norm()
    }

    /// Whether every component fits a 64-bit signed integer.
    pub open spec fn representable(self) -> bool {
        &&& i64::MIN <= self.x <= i64::MAX
        &&& i64::MIN <= self.y <= i64::MAX
        &&& i64::MIN <= self.z <= i64::MAX
    }

    /// The position that holds this point; meaningful where the point is
    /// representable.
    pub open spec fn to_position(self) -> Position {
        Position { x: self.x as i64, y: self.y as i64, z: self.z as i64 }
    }
}

/// An integer 3D grid coordinate.
///
/// Positions are totally ordered, lexicographically by `(x, y, z)`.
#[derive(Clone, Copy, Debug, PartialEq, Eq, Structural, Hash, Ord)]
pub struct Position {
    pub x: i64,
    pub y: i64,
    pub z: i64,
}

impl View for Position {
    type V = Point;

    open spec fn view(&self) -> Point {
        Point { x: self.x as int, y: self.y as int, z: self.z as int }
    }
}

/// The distance between two coordinates on one axis.
fn axis_distance(a: i64, b: i64) -> (r: u64)
    ensures
        r == abs(a - b),
{
    if a >= b {
        (a as i128 - b as i128) as u64
    } else {
        (b as i128 - a as i128) as u64
    }
}

impl Position {
    /// The position with the given coordinates.
    pub fn new(x: i64, y: i64, z: i64) -> (r: Position)
        ensures
            r.x == x,
            r.y == y,
            r.z == z,
    {
        Position { x, y, z }
    }

    /// The neighbor at `x + 1`.
    pub fn get_east_neighbor(&self) -> (r: Position)
        requires
            self.x < i64::MAX,
        ensures
            r@ == self@.neighbor(Direction::East),
    {
        Position::new(self.x + 1, self.y, self.z)
    }

    /// The neighbor at `x - 1`.
    pub fn get_west_neighbor(&self) -> (r: Position)
        requires
            self.x > i64::MIN,
        ensures
            r@ == self@.neighbor(Direction::West),
    {
        Position::new(self.x - 1, self.y, self.z)
    }

    /// The neighbor at `y + 1`.
    pub fn get_up_neighbor(&self) -> (r: Position)
        requires
            self.y < i64::MAX,
        ensures
            r@ == self@.neighbor(Direction::Up),
    {
        Position::new(self.x, self.y + 1, self.z)
    }

    /// The neighbor at `y - 1`.
    pub fn get_down_neighbor(&self) -> (r: Position)
        requires
            self.y > i64::MIN,
        ensures
            r@ == self@.neighbor(Direction::Down),
    {
        Position::new(self.x, self.y - 1, self.z)
    }

    /// The neighbor at `z + 1`.
    pub fn get_north_neighbor(&self) -> (r: Position)
        requires
            self.z < i64::MAX,
        ensures
            r@ == self@.neighbor(Direction::North),
    {
        Position::new(self.x, self.y, self.z + 1)
    }

    /// The neighbor at `z - 1`.
    pub fn get_south_neighbor(&self) -> (r: Position)
        requires
            self.z > i64::MIN,
        ensures
            r@ == self@.neighbor(Direction::South),
    {
        Position::new(self.x, self.y, self.z - 1)
    }

    /// The neighbor one step away in direction `dir`.
    pub fn get_neighbor(&self, dir: Direction) -> (r: Position)
        requires
            self@.neighbor(dir).representable(),
        ensures
            r@ == self@.neighbor(dir),
    {
        match dir {
            Direction::East => self.get_east_neighbor(),
            Direction::West => self.get_west_neighbor(),
            Direction::Up => self.get_up_neighbor(),
            Direction::Down => self.get_down_neighbor(),
            Direction::North => self.get_north_neighbor(),
            Direction::South => self.get_south_neighbor(),
        }
    }

    /// The neighbor in direction `dir`, or `None` where it would leave the
    /// 64-bit range.
    pub fn checked_neighbor(&self, dir: Direction) -> (r: Option<Position>)
        ensures
            r.is_some() <==> self@.neighbor(dir).representable(),
            r matches Some(p) ==> p@ == self@.neighbor(dir),
    {
        let fits = match dir {
            Direction::East => self.x < i64::MAX,
            Direction::West => self.x > i64::MIN,
            Direction::Up => self.y < i64::MAX,
            Direction::Down => self.y > i64::MIN,
            Direction::North => self.z < i64::MAX,
            Direction::South => self.z > i64::MIN,
        };
        if fits {
            Some(self.get_neighbor(dir))
        } else {
            None
        }
    }

    /// Every component multiplied by `k`.
    pub fn mul_scalar(&self, k: i64) -> (r: Position)
        requires
            self@.scaled(k as int).representable(),
        ensures
            r@ == self@.scaled(k as int),
    {
        Position::new(self.x * k, self.y * k, self.z * k)
    }

    /// The Chebyshev distance to `other`: the largest distance on any axis.
    pub fn chebyshev_distance(&self, other: &Position) -> (r: u64)
        ensures
            r == self@.distance(other@),
    {
        let dx = axis_distance(self.x, other.x);
        let dy = axis_distance(self.y, other.y);
        let dz = axis_distance(self.z, other.z);
        let m = if dx >= dy {
            dx
        } else {
            dy
        };
        if m >= dz {
            m
        } else {
            dz
        }
    }

    /// Stepping to a neighbor and back along the opposite direction returns
    /// to the starting point, for every point and each of the six
    /// directions.
    pub proof fn lemma_neighbor_round_trip(p: Position, dir: Direction)
        ensures
            p@.neighbor(dir).neighbor(dir.opposite()) == p@,
    {
    }
}

impl std::ops::Add for Position {
    type Output = Position;

    fn add(self, other: Position) -> (r: Position) {
        Position { x: self.x + other.x, y: self.y + other.y, z: self.z + other.z }
    }
}

impl vstd::std_specs::ops::AddSpecImpl for Position {
    open spec fn obeys_add_spec() -> bool {
        true
    }

    open spec fn add_req(self, other: Position) -> bool {
        self@.plus(other@).representable()
    }

    open spec fn add_spec(self, other: Position) -> Position {
        self@.plus(other@).to_position()
    }
}

impl std::ops::Sub for Position {
    type Output = Position;

    fn sub(self, other: Position) -> (r: Position) {
        Position { x: self.x - other.x, y: self.y - other.y, z: self.z - other.z }
    }
}

impl vstd::std_specs::ops::SubSpecImpl for Position {
    open spec fn obeys_sub_spec() -> bool {
        true
    }

    open spec fn sub_req(self, other: Position) -> bool {
        self@.minus(other@).representable()
    }

    open spec fn sub_spec(self, other: Position) -> Position {
        self@.minus(other@).to_position()
    }
}

} // verus!
