use vstd::prelude::*;

verus! {

/// A direction of travel on the grid.
#[derive(Clone, Copy, Debug, PartialEq, Eq, Structural)]
pub enum Direction {
    Up,
    Down,
    Left,
    Right,
}

/// The direction that a code in `0..4` stands for.
pub open spec fn direction_of(value: u8) -> Direction {
    if value == 0 {
        Direction::Up
    } else if value == 1 {
        Direction::Down
    } else if value == 2 {
        Direction::Left
    } else {
        Direction::Right
    }
}

impl Direction {
    /// The direction that points the other way.
    pub open spec fn opposite(self) -> Direction {
        match self {
            Direction::Up => Direction::Down,
            Direction::Down => Direction::Up,
            Direction::Left => Direction::Right,
            Direction::Right => Direction::Left,
        }
    }

    /// Decodes a direction: 0 is Up, 1 Down, 2 Left, 3 Right. Any other code is
    /// a caller error.
    pub fn from(value: u8) -> (d: Direction)
        requires
            value < 4,
        ensures
            d == direction_of(value),
    {
        match value {
            0 => Direction::Up,
            1 => Direction::Down,
            2 => Direction::Left,
            _ => Direction::Right,
        }
    }
}

} // verus!
