//! The ranks (rows) of a chess board.

use crate::error::Error;
use vstd::prelude::*;
use vstd::string::StrSliceExecFns;

verus! {

/// Describe a rank (row) on a chess board.
#[derive(Debug, Copy, Clone, Eq, PartialEq, Ord, PartialOrd, Structural)]
pub enum Rank {
    First,
    Second,
    Third,
    Fourth,
    Fifth,
    Sixth,
    Seventh,
    Eighth,
}

/// Numbers of [`Rank`]
pub const NUM_RANKS: usize = 8;

/// Enumerate all ranks.
pub const ALL_RANKS: [Rank; NUM_RANKS] = [
    Rank::First,
    Rank::Second,
    Rank::Third,
    Rank::Fourth,
    Rank::Fifth,
    Rank::Sixth,
    Rank::Seventh,
    Rank::Eighth,
];

/// The rank that a digit names.
pub open spec fn rank_of_digit(c: char) -> Option<Rank> {
    if c == '1' {
        Some(Rank::First)
    } else if c == '2' {
        Some(Rank::Second)
    } else if c == '3' {
        Some(Rank::Third)
    } else if c == '4' {
        Some(Rank::Fourth)
    } else if c == '5' {
        Some(Rank::Fifth)
    } else if c == '6' {
        Some(Rank::Sixth)
    } else if c == '7' {
        Some(Rank::Seventh)
    } else if c == '8' {
        Some(Rank::Eighth)
    } else {
        None
    }
}

impl Rank {
    /// The index of this rank, from 0 for the first rank to 7 for the eighth.
    pub open spec fn index(self) -> int {
        match self {
            Rank::First => 0,
            Rank::Second => 1,
            Rank::Third => 2,
            Rank::Fourth => 3,
            Rank::Fifth => 4,
            Rank::Sixth => 5,
            Rank::Seventh => 6,
            Rank::Eighth => 7,
        }
    }

    /// The rank with the given index, wrapping around outside 0..=7.
    pub open spec fn at(i: int) -> Rank {
        let k = i % 8;
        if k == 0 {
            Rank::First
        } else if k == 1 {
            Rank::Second
        } else if k == 2 {
            Rank::Third
        } else if k == 3 {
            Rank::Fourth
        } else if k == 4 {
            Rank::Fifth
        } else if k == 5 {
            Rank::Sixth
        } else if k == 6 {
            Rank::Seventh
        } else {
            Rank::Eighth
        }
    }

    /// The digit of this rank.
    pub open spec fn digit(self) -> char {
        match self {
            Rank::First => '1',
            Rank::Second => '2',
            Rank::Third => '3',
            Rank::Fourth => '4',
            Rank::Fifth => '5',
            Rank::Sixth => '6',
            Rank::Seventh => '7',
            Rank::Eighth => '8',
        }
    }

    /// Gets a [`Rank`] from an integer index.
    ///
    /// > **Note**: If index is not in the range 0..=7, wrap around.
    #[inline]
    pub fn new(index: usize) -> (rank: Rank)
        ensures
            rank == Rank::at(index as int),
            rank.index() == index % 8,
    {
        ALL_RANKS[index % NUM_RANKS]
    }

    /// Convert this [`Rank`] into a [`usize`] between 0 and 7 (inclusive).
    #[inline]
    pub fn to_index(&self) -> (i: usize)
        ensures
            i == self.index(),
            i < 8,
    {
        match self {
            Rank::First => 0,
            Rank::Second => 1,
            Rank::Third => 2,
            Rank::Fourth => 3,
            Rank::Fifth => 4,
            Rank::Sixth => 5,
            Rank::Seventh => 6,
            Rank::Eighth => 7,
        }
    }

    /// Go one rank down.
    ///
    /// > **Note**: If impossible, wrap around.
    #[inline]
    pub fn down(&self) -> (rank: Rank)
        ensures
            rank == Rank::at(self.index() - 1),
            rank.index() == (if self.index() == 0 { 7 } else { self.index() - 1 }),
    {
        let idx = self.to_index();
        match idx {
            0 => Rank::new(NUM_RANKS - 1),
            _ => Rank::new(idx - 1),
        }
    }

    /// Go one rank up.
    ///
    /// > **Note**: If impossible, wrap around.
    #[inline]
    pub fn up(&self) -> (rank: Rank)
        ensures
            rank == Rank::at(self.index() + 1),
            rank.index() == (if self.index() == 7 { 0 } else { self.index() + 1 }),
    {
        Rank::new(self.to_index() + 1)
    }

    /// The digit of this rank.
    #[inline]
    pub fn to_char(&self) -> (c: char)
        ensures
            c == self.digit(),
    {
        match self {
            Rank::First => '1',
            Rank::Second => '2',
            Rank::Third => '3',
            Rank::Fourth => '4',
            Rank::Fifth => '5',
            Rank::Sixth => '6',
            Rank::Seventh => '7',
            Rank::Eighth => '8',
        }
    }

    /// The rank that a digit names.
    pub fn from_char(c: char) -> (rank: Option<Rank>)
        ensures
            rank == rank_of_digit(c),
    {
        match c {
            '1' => Some(Rank::First),
            '2' => Some(Rank::Second),
            '3' => Some(Rank::Third),
            '4' => Some(Rank::Fourth),
            '5' => Some(Rank::Fifth),
            '6' => Some(Rank::Sixth),
            '7' => Some(Rank::Seventh),
            '8' => Some(Rank::Eighth),
            _ => None,
        }
    }

    /// Read a rank from the first character of a string.
    ///
    /// # Errors
    ///
    /// - [`Error::InvalidRank`]: the string is empty or does not start with a rank digit.
    pub fn from_str(s: &str) -> (r: Result<Rank, Error>)
        ensures
            r == (if s@.len() >= 1 && rank_of_digit(s@[0]) is Some {
                Ok::<Rank, Error>(rank_of_digit(s@[0])->0)
            } else {
                Err(Error::InvalidRank)
            }),
    {
        if s.unicode_len() < 1 {
            return Err(Error::InvalidRank);
        }
        match Rank::from_char(s.get_char(0)) {
            Some(rank) => Ok(rank),
            None => Err(Error::InvalidRank),
        }
    }
}

} // verus!
