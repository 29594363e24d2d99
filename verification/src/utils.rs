//! Grid locations and the eight relative movement directions.

use vstd::prelude::*;

verus! {

/// An absolute grid cell, `(column, row)`.
pub type AbsoluteLocation = (usize, usize);

/// A relative offset between grid cells, `(columns, rows)`.
pub type RelativeLocation = (isize, isize);

/// One step of relative movement on the grid.
#[derive(Clone, Copy, Debug, PartialEq, Eq, Structural)]
pub enum Direction {
    Left,
    Right,
    Up,
    Down,
    UpLeft,
    UpRight,
    DownLeft,
    DownRight,
}

/// The one-cell offset that a direction stands for, `(columns, rows)`.
/// Columns grow rightward and rows grow downward.
pub open spec fn dir_delta(d: Direction) -> (int, int) {
    match d {
        Direction::Left => (-1, 0),
        Direction::Right => (1, 0),
        Direction::Up => (0, -1),
        Direction::Down => (0, 1),
        Direction::UpLeft => (-1, -1),
        Direction::UpRight => (1, -1),
        Direction::DownLeft => (-1, 1),
        Direction::DownRight => (1, 1),
    }
}

/// The numeric code of a direction; the inverse of [`from_num_spec`].
pub open spec fn dir_num(d: Direction) -> i32 {
    match d {
        Direction::Left => 0,
        Direction::Right => 1,
        Direction::Up => 2,
        Direction::Down => 3,
        Direction::UpLeft => 4,
        Direction::UpRight => 5,
        Direction::DownLeft => 6,
        Direction::DownRight => 7,
    }
}

/// The direction that a numeric code stands for, if any.
pub open spec fn from_num_spec(input: i32) -> Option<Direction> {
    if input == 0 {
        Some(Direction::Left)
    } else if input == 1 {
        Some(Direction::Right)
    } else if input == 2 {
        Some(Direction::Up)
    } else if input == 3 {
        Some(Direction::Down)
    } else if input == 4 {
        Some(Direction::UpLeft)
    } else if input == 5 {
        Some(Direction::UpRight)
    } else if input == 6 {
        Some(Direction::DownLeft)
    } else if input == 7 {
        Some(Direction::DownRight)
    } else {
        None
    }
}

impl Direction {
    /// The relative offset of one step in this direction.
    pub fn location(&self) -> (r: RelativeLocation)
        ensures
            r.0 as int == dir_delta(*self).0,
            r.1 as int == dir_delta(*self).1,
    {
        match self {
            Direction::Left => (-1, 0),
            Direction::Right => (1, 0),
            Direction::Up => (0, -1),
            Direction::Down => (0, 1),
            Direction::UpLeft => (-1, -1),
            Direction::UpRight => (1, -1),
            Direction::DownLeft => (-1, 1),
            Direction::DownRight => (1, 1),
        }
    }

    /// Decode a direction from its numeric code.
    pub fn from_num(input: i32) -> (r: Option<Direction>)
        ensures
            r == from_num_spec(input),
    {
        match input {
            0 => Some(Direction::Left),
            1 => Some(Direction::Right),
            2 => Some(Direction::Up),
            3 => Some(Direction::Down),
            4 => Some(Direction::UpLeft),
            5 => Some(Direction::UpRight),
            6 => Some(Direction::DownLeft),
            7 => Some(Direction::DownRight),
            _ => None,
        }
    }

    /// The numeric code of this direction.
    pub fn to_num(&self) -> (r: i32)
        ensures
            r == dir_num(*self),
            from_num_spec(r) == Some(*self),
    {
        match self {
            Direction::Left => 0,
            Direction::Right => 1,
            Direction::Up => 2,
            Direction::Down => 3,
            Direction::UpLeft => 4,
            Direction::UpRight => 5,
            Direction::DownLeft => 6,
            Direction::DownRight => 7,
        }
    }
}

} // verus!
