//! The eight directions on a chess board.

use vstd::prelude::*;

verus! {

/// Describe 8 directions.
#[derive(Copy, Clone, PartialEq, Eq, Debug, Structural)]
pub enum Direction {
    Up,
    UpRight,
    Right,
    DownRight,
    Down,
    DownLeft,
    Left,
    UpLeft,
}

/// Numbers of line (vertical and horizontal).
pub const NUM_LINES: usize = 4;

/// Enumerate [`Direction`] in line (vertical and horizontal).
pub const ALL_LINE: [Direction; NUM_LINES] = [
    Direction::Up,
    Direction::Right,
    Direction::Down,
    Direction::Left,
];

/// Numbers of diagonal.
pub const NUM_DIAGONAL: usize = 4;

/// Enumerate [`Direction`] in diagonal.
pub const ALL_DIAGONAL: [Direction; NUM_DIAGONAL] = [
    Direction::UpRight,
    Direction::DownRight,
    Direction::DownLeft,
    Direction::UpLeft,
];

/// Numbers of [`Direction`].
pub const NUM_DIRECTION: usize = 8;

/// Enumerate all [`Direction`].
pub const ALL_DIRECTION: [Direction; NUM_DIRECTION] = [
    Direction::Up,
    Direction::UpRight,
    Direction::Right,
    Direction::DownRight,
    Direction::Down,
    Direction::DownLeft,
    Direction::Left,
    Direction::UpLeft,
];

impl Direction {
    /// How many files one step in this direction goes to the right.
    pub open spec fn files(self) -> int {
        match self {
            Direction::UpRight | Direction::Right | Direction::DownRight => 1,
            Direction::UpLeft | Direction::Left | Direction::DownLeft => -1,
            Direction::Up | Direction::Down => 0,
        }
    }

    /// How many ranks one step in this direction goes up.
    pub open spec fn ranks(self) -> int {
        match self {
            Direction::UpLeft | Direction::Up | Direction::UpRight => 1,
            Direction::DownLeft | Direction::Down | Direction::DownRight => -1,
            Direction::Left | Direction::Right => 0,
        }
    }

    /// Whether `direction` is one of the four lines and a step in `self` goes
    /// the same way along it.
    pub open spec fn contains(self, direction: Direction) -> bool {
        match direction {
            Direction::Up => self.ranks() == 1,
            Direction::Down => self.ranks() == -1,
            Direction::Right => self.files() == 1,
            Direction::Left => self.files() == -1,
            _ => false,
        }
    }

    /// Verify if a direction is contained in another.
    ///
    /// A line contains itself; a diagonal contains the two lines that make it
    /// up. No direction contains a diagonal.
    pub fn has(&self, direction: Direction) -> (b: bool)
        ensures
            b == self.contains(direction),
    {
        match *self {
            Direction::Up => direction == Direction::Up,
            Direction::UpRight => match direction {
                Direction::Up | Direction::Right => true,
                _ => false,
            },
            Direction::Right => direction == Direction::Right,
            Direction::DownRight => match direction {
                Direction::Down | Direction::Right => true,
                _ => false,
            },
            Direction::Down => direction == Direction::Down,
            Direction::DownLeft => match direction {
                Direction::Down | Direction::Left => true,
                _ => false,
            },
            Direction::Left => direction == Direction::Left,
            Direction::UpLeft => match direction {
                Direction::Up | Direction::Left => true,
                _ => false,
            },
        }
    }

    /// How many files one step in this direction goes to the right.
    pub fn file_step(&self) -> (d: i8)
        ensures
            d == self.files(),
    {
        match self {
            Direction::UpRight | Direction::Right | Direction::DownRight => 1,
            Direction::UpLeft | Direction::Left | Direction::DownLeft => -1,
            Direction::Up | Direction::Down => 0,
        }
    }

    /// How many ranks one step in this direction goes up.
    pub fn rank_step(&self) -> (d: i8)
        ensures
            d == self.ranks(),
    {
        match self {
            Direction::UpLeft | Direction::Up | Direction::UpRight => 1,
            Direction::DownLeft | Direction::Down | Direction::DownRight => -1,
            Direction::Left | Direction::Right => 0,
        }
    }
}

} // verus!
