//! A position on a grid, by two coordinates.

use crate::color::Color;
use crate::error::Error;
use crate::text::{chars_of, string_of};
use vstd::prelude::*;

verus! {

/// Describe position in the chess board.
///
/// The coordinates are counted from 1: `x` is the file, from 1 for `a` to 8
/// for `h`, and `y` is the rank, from 1 to 8.
#[derive(Debug, Clone, Copy, PartialEq, Eq, Structural)]
pub struct ChessPosition {
    x: u8,
    y: u8,
}

/// The coordinate that a file letter from `a` to `h` stands for, from 1 to 8.
pub open spec fn file_coordinate(c: char) -> Option<u8> {
    if c == 'a' {
        Some(1u8)
    } else if c == 'b' {
        Some(2u8)
    } else if c == 'c' {
        Some(3u8)
    } else if c == 'd' {
        Some(4u8)
    } else if c == 'e' {
        Some(5u8)
    } else if c == 'f' {
        Some(6u8)
    } else if c == 'g' {
        Some(7u8)
    } else if c == 'h' {
        Some(8u8)
    } else {
        None
    }
}

/// The coordinate that a rank digit from `1` to `8` stands for, from 1 to 8.
pub open spec fn rank_coordinate(c: char) -> Option<u8> {
    if c == '1' {
        Some(1u8)
    } else if c == '2' {
        Some(2u8)
    } else if c == '3' {
        Some(3u8)
    } else if c == '4' {
        Some(4u8)
    } else if c == '5' {
        Some(5u8)
    } else if c == '6' {
        Some(6u8)
    } else if c == '7' {
        Some(7u8)
    } else if c == '8' {
        Some(8u8)
    } else {
        None
    }
}

/// The grid position that a string names, if it starts with a file letter
/// from `a` to `h` and a rank digit from `1` to `8`.
pub open spec fn position_named(s: Seq<char>) -> Option<ChessPosition> {
    if s.len() >= 2 && file_coordinate(s[0]) is Some && rank_coordinate(s[1]) is Some {
        Some(ChessPosition::at(file_coordinate(s[0])->0, rank_coordinate(s[1])->0))
    } else {
        None
    }
}

impl ChessPosition {
    /// The file (ie. the column), in mathematical terms.
    pub closed spec fn file(self) -> u8 {
        self.x
    }

    /// The rank (ie. the row), in mathematical terms.
    pub closed spec fn rank(self) -> u8 {
        self.y
    }

    /// The position with the given file and rank.
    pub closed spec fn at(x: u8, y: u8) -> ChessPosition {
        ChessPosition { x, y }
    }

    /// A position is its file and its rank.
    pub proof fn lemma_at(x: u8, y: u8)
        ensures
            ChessPosition::at(x, y).file() == x,
            ChessPosition::at(x, y).rank() == y,
    {
    }

    /// Create a position from its file `x` and its rank `y`.
    pub fn new(x: u8, y: u8) -> (position: ChessPosition)
        ensures
            position == ChessPosition::at(x, y),
            position.file() == x,
            position.rank() == y,
    {
        ChessPosition { x, y }
    }

    /// Return the rank (ie. the row).
    #[inline]
    pub fn get_rank(&self) -> (y: u8)
        ensures
            y == self.rank(),
    {
        self.y
    }

    /// Return the file (ie. the column)
    #[inline]
    pub fn get_file(&self) -> (x: u8)
        ensures
            x == self.file(),
    {
        self.x
    }

    /// If there is a square above me, return that.  Otherwise, None.
    #[inline]
    pub fn up(&self) -> (r: Option<ChessPosition>)
        requires
            self.rank() < u8::MAX,
        ensures
            r == (if self.rank() == 8 {
                None
            } else {
                Some(ChessPosition::at(self.file(), (self.rank() + 1) as u8))
            }),
    {
        match self.y {
            8 => None,
            _ => Some(ChessPosition::new(self.x, self.y + 1)),
        }
    }

    /// If there is a square below me, return that.  Otherwise, None.
    #[inline]
    pub fn down(&self) -> (r: Option<ChessPosition>)
        ensures
            r == (if self.rank() == 0 {
                None
            } else {
                Some(ChessPosition::at(self.file(), (self.rank() - 1) as u8))
            }),
    {
        match self.y {
            0 => None,
            _ => Some(ChessPosition::new(self.x, self.y - 1)),
        }
    }

    /// If there is a square to the right of me, return that.  Otherwise, None.
    #[inline]
    pub fn right(&self) -> (r: Option<ChessPosition>)
        requires
            self.file() < u8::MAX,
        ensures
            r == (if self.file() == 8 {
                None
            } else {
                Some(ChessPosition::at((self.file() + 1) as u8, self.rank()))
            }),
    {
        match self.x {
            8 => None,
            _ => Some(ChessPosition::new(self.x + 1, self.y)),
        }
    }

    /// If there is a square to the left of me, return that.  Otherwise, None.
    #[inline]
    pub fn left(&self) -> (r: Option<ChessPosition>)
        ensures
            r == (if self.file() == 0 {
                None
            } else {
                Some(ChessPosition::at((self.file() - 1) as u8, self.rank()))
            }),
    {
        match self.x {
            0 => None,
            _ => Some(ChessPosition::new(self.x - 1, self.y)),
        }
    }

    /// If there is a square "forward", given my `Color`, go in that direction.  Otherwise, None.
    #[inline]
    pub fn forward(&self, color: Color) -> (r: Option<ChessPosition>)
        requires
            color == Color::White ==> self.rank() < u8::MAX,
        ensures
            color == Color::White ==> r == (if self.rank() == 8 {
                None
            } else {
                Some(ChessPosition::at(self.file(), (self.rank() + 1) as u8))
            }),
            color == Color::Black ==> r == (if self.rank() == 0 {
                None
            } else {
                Some(ChessPosition::at(self.file(), (self.rank() - 1) as u8))
            }),
    {
        match color {
            Color::White => self.up(),
            Color::Black => self.down(),
        }
    }

    /// If there is a square "backward", given my `Color`, go in that direction.  Otherwise, None.
    #[inline]
    pub fn backward(&self, color: Color) -> (r: Option<ChessPosition>)
        requires
            color == Color::Black ==> self.rank() < u8::MAX,
        ensures
            color == Color::White ==> r == (if self.rank() == 0 {
                None
            } else {
                Some(ChessPosition::at(self.file(), (self.rank() - 1) as u8))
            }),
            color == Color::Black ==> r == (if self.rank() == 8 {
                None
            } else {
                Some(ChessPosition::at(self.file(), (self.rank() + 1) as u8))
            }),
    {
        match color {
            Color::White => self.down(),
            Color::Black => self.up(),
        }
    }

    /// The two characters that this position is written with: the letter
    /// that stands `rank` letters after `a`, then the digit that stands `file`
    /// digits after `1`.
    pub open spec fn text(self) -> Seq<char> {
        seq![((97 + self.rank()) as u8) as char, ((49 + self.file()) as u8) as char]
    }

    /// Write this position with two characters: the letter that stands
    /// `rank` letters after `a`, then the character that stands `file`
    /// characters after `1`.
    pub fn to_string(&self) -> (s: String)
        requires
            97 + self.rank() <= u8::MAX,
            49 + self.file() <= u8::MAX,
        ensures
            s@ == self.text(),
    {
        let mut chars: Vec<char> = Vec::new();
        chars.push((97u8 + self.y) as char);
        chars.push((49u8 + self.x) as char);
        proof {
            assert(chars@ =~= self.text());
        }
        string_of(&chars)
    }

    /// Read a position from its name: a file letter from `a` to `h`
    /// followed by a rank digit from `1` to `8`. What follows these two
    /// characters is not read.
    ///
    /// # Errors
    ///
    /// - [`Error::InvalidGridPosition`]: the string does not start with the name of a position.
    pub fn from_str(s: &str) -> (r: Result<ChessPosition, Error>)
        ensures
            r == (match position_named(s@) {
                Some(position) => Ok::<ChessPosition, Error>(position),
                None => Err(Error::InvalidGridPosition),
            }),
    {
        let chars = chars_of(s);
        if chars.len() < 2 {
            return Err(Error::InvalidGridPosition);
        }
        let x: u8 = match chars[0] {
            'a' => 1,
            'b' => 2,
            'c' => 3,
            'd' => 4,
            'e' => 5,
            'f' => 6,
            'g' => 7,
            'h' => 8,
            _ => {
                return Err(Error::InvalidGridPosition);
            },
        };
        let y: u8 = match chars[1] {
            '1' => 1,
            '2' => 2,
            '3' => 3,
            '4' => 4,
            '5' => 5,
            '6' => 6,
            '7' => 7,
            '8' => 8,
            _ => {
                return Err(Error::InvalidGridPosition);
            },
        };
        Ok(ChessPosition::new(x, y))
    }
}

} // verus!
