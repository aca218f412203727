//! A move from one square to another.

use crate::square::Square;
use crate::text::string_of;
use vstd::prelude::*;

verus! {

/// Represent a ChessMove in memory.
///
/// A move names no promotion piece: a pawn that reaches the last rank
/// always becomes a queen.
#[derive(Clone, Copy, Eq, PartialEq, Debug, Structural)]
pub struct ChessMove {
    source: Square,
    dest: Square,
}

impl ChessMove {
    /// The square the piece is currently on.
    pub closed spec fn source(self) -> Square {
        self.source
    }

    /// The square the piece is going to.
    pub closed spec fn dest(self) -> Square {
        self.dest
    }

    /// The text of this move: the name of the source square, then that of the destination.
    pub open spec fn text(self) -> Seq<char> {
        self.source().name() + self.dest().name()
    }

    /// Create a new chess move.
    #[inline]
    pub fn new(source: Square, dest: Square) -> (m: ChessMove)
        ensures
            m.source() == source,
            m.dest() == dest,
    {
        ChessMove { source, dest }
    }

    /// Get the source [`Square`] (square the piece is currently on).
    #[inline]
    pub fn get_source(&self) -> (square: Square)
        ensures
            square == self.source(),
    {
        self.source
    }

    /// Get the destination [`Square`] (square the piece is going to).
    #[inline]
    pub fn get_dest(&self) -> (square: Square)
        ensures
            square == self.dest(),
    {
        self.dest
    }

    /// The text of this move: the name of the source square, then that of the destination.
    pub fn to_string(&self) -> (s: String)
        ensures
            s@ == self.text(),
    {
        let mut chars: Vec<char> = Vec::new();
        chars.push(self.source.file().to_char());
        chars.push(self.source.rank().to_char());
        chars.push(self.dest.file().to_char());
        chars.push(self.dest.rank().to_char());
        proof {
            assert(chars@ =~= self.text());
        }
        string_of(&chars)
    }
}

} // verus!
