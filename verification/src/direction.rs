//! The six directions of the grid.

use vstd::prelude::*;

verus! {

/// One of the six axis-aligned directions of the grid.
///
/// East and west run along `x`, up and down along `y`, north and south
/// along `z`.
#[derive(Clone, Copy, Debug, PartialEq, Eq, Structural, Hash)]
pub enum Direction {
    East,
    West,
    Up,
    Down,
    North,
    South,
}

impl Direction {
    /// The direction that points the other way along the same axis.
    pub open spec fn spec_opposite(self) -> Direction {
        match self {
            Direction::East => Direction::West,
            Direction::West => Direction::East,
            Direction::Up => Direction::Down,
            Direction::Down => Direction::Up,
            Direction::North => Direction::South,
            Direction::South => Direction::North,
        }
    }

    /// The direction that points the other way along the same axis.
    #[verifier::when_used_as_spec(spec_opposite)]
    pub fn opposite(self) -> (r: Direction)
        ensures
            r == self.spec_opposite(),
    {
        match self {
            Direction::East => Direction::West,
            Direction::West => Direction::East,
            Direction::Up => Direction::Down,
            Direction::Down => Direction::Up,
            Direction::North => Direction::South,
            Direction::South => Direction::North,
        }
    }

    /// All six directions, in declaration order.
    pub fn all() -> (r: [Direction; 6])
        ensures
            r@ == seq![
                Direction::East,
                Direction::West,
                Direction::Up,
                Direction::Down,
                Direction::North,
                Direction::South,
            ],
    {
        [
            Direction::East,
            Direction::West,
            Direction::Up,
            Direction::Down,
            Direction::North,
            Direction::South,
        ]
    }

    /// Opposite is an involution and never a fixed point.
    pub proof fn lemma_opposite_involution(d: Direction)
        ensures
            d.opposite().opposite() == d,
            d.opposite() != d,
    {
    }
}

} // verus!
