//! The six kinds of chess pieces.

use crate::color::Color;
use crate::text::string_of;
use vstd::prelude::*;

verus! {

/// Represent a chess piece.
#[derive(Debug, PartialEq, Eq, Clone, Copy, Structural)]
pub enum Piece {
    Pawn,
    Knight,
    Bishop,
    Rook,
    Queen,
    King,
}

/// How many piece types are there?
pub const NUM_PIECES: usize = 6;

/// An array representing each piece type, in order of ascending value.
pub const ALL_PIECES: [Piece; NUM_PIECES] = [
    Piece::Pawn,
    Piece::Knight,
    Piece::Bishop,
    Piece::Rook,
    Piece::Queen,
    Piece::King,
];

/// The piece and color that a letter of the position notation names:
/// upper case for White, lower case for Black.
pub open spec fn piece_of_letter(c: char) -> Option<(Piece, Color)> {
    if c == 'P' {
        Some((Piece::Pawn, Color::White))
    } else if c == 'N' {
        Some((Piece::Knight, Color::White))
    } else if c == 'B' {
        Some((Piece::Bishop, Color::White))
    } else if c == 'R' {
        Some((Piece::Rook, Color::White))
    } else if c == 'Q' {
        Some((Piece::Queen, Color::White))
    } else if c == 'K' {
        Some((Piece::King, Color::White))
    } else if c == 'p' {
        Some((Piece::Pawn, Color::Black))
    } else if c == 'n' {
        Some((Piece::Knight, Color::Black))
    } else if c == 'b' {
        Some((Piece::Bishop, Color::Black))
    } else if c == 'r' {
        Some((Piece::Rook, Color::Black))
    } else if c == 'q' {
        Some((Piece::Queen, Color::Black))
    } else if c == 'k' {
        Some((Piece::King, Color::Black))
    } else {
        None
    }
}

impl Piece {
    /// The index of this piece, from 0 for the pawn to 5 for the king.
    pub open spec fn index(self) -> int {
        match self {
            Piece::Pawn => 0,
            Piece::Knight => 1,
            Piece::Bishop => 2,
            Piece::Rook => 3,
            Piece::Queen => 4,
            Piece::King => 5,
        }
    }

    /// The letter of this piece in the position notation, for the given color.
    pub open spec fn letter(self, color: Color) -> char {
        match color {
            Color::White => match self {
                Piece::Pawn => 'P',
                Piece::Knight => 'N',
                Piece::Bishop => 'B',
                Piece::Rook => 'R',
                Piece::Queen => 'Q',
                Piece::King => 'K',
            },
            Color::Black => match self {
                Piece::Pawn => 'p',
                Piece::Knight => 'n',
                Piece::Bishop => 'b',
                Piece::Rook => 'r',
                Piece::Queen => 'q',
                Piece::King => 'k',
            },
        }
    }

    /// Convert the `Piece` to a `usize` for table lookups.
    #[inline]
    pub fn to_index(&self) -> (i: usize)
        ensures
            i == self.index(),
            i < 6,
    {
        match self {
            Piece::Pawn => 0,
            Piece::Knight => 1,
            Piece::Bishop => 2,
            Piece::Rook => 3,
            Piece::Queen => 4,
            Piece::King => 5,
        }
    }

    /// The letter of this piece in the position notation, for the given color.
    pub fn to_char(&self, color: Color) -> (c: char)
        ensures
            c == self.letter(color),
            piece_of_letter(c) == Some((*self, color)),
    {
        match color {
            Color::White => match self {
                Piece::Pawn => 'P',
                Piece::Knight => 'N',
                Piece::Bishop => 'B',
                Piece::Rook => 'R',
                Piece::Queen => 'Q',
                Piece::King => 'K',
            },
            Color::Black => match self {
                Piece::Pawn => 'p',
                Piece::Knight => 'n',
                Piece::Bishop => 'b',
                Piece::Rook => 'r',
                Piece::Queen => 'q',
                Piece::King => 'k',
            },
        }
    }

    /// The piece and color that a letter of the position notation names.
    pub fn from_char(c: char) -> (r: Option<(Piece, Color)>)
        ensures
            r == piece_of_letter(c),
    {
        match c {
            'P' => Some((Piece::Pawn, Color::White)),
            'N' => Some((Piece::Knight, Color::White)),
            'B' => Some((Piece::Bishop, Color::White)),
            'R' => Some((Piece::Rook, Color::White)),
            'Q' => Some((Piece::Queen, Color::White)),
            'K' => Some((Piece::King, Color::White)),
            'p' => Some((Piece::Pawn, Color::Black)),
            'n' => Some((Piece::Knight, Color::Black)),
            'b' => Some((Piece::Bishop, Color::Black)),
            'r' => Some((Piece::Rook, Color::Black)),
            'q' => Some((Piece::Queen, Color::Black)),
            'k' => Some((Piece::King, Color::Black)),
            _ => None,
        }
    }

    /// Convert a piece with a [`Color`] to a string: upper case for White,
    /// lower case for Black.
    pub fn to_string(&self, color: Color) -> (s: String)
        ensures
            s@ == seq![self.letter(color)],
    {
        let mut chars: Vec<char> = Vec::new();
        chars.push(self.to_char(color));
        string_of(&chars)
    }
}

} // verus!
