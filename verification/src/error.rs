//! The errors of this library.

use vstd::prelude::*;
use vstd::string::StringExecFns;

verus! {

/// Sometimes, bad stuff happens.
#[derive(Debug, Clone, PartialEq, Eq)]
pub enum Error {
    /// The FEN (Forsyth-Edwards Notation) string is invalid
    InvalidFen { fen: String },
    /// The board specified did not pass sanity checks.
    InvalidBoard,
    /// An attempt was made to create a grid position from an invalid string
    InvalidGridPosition,
    /// An attempt was made to create a square from an invalid string
    InvalidSquare,
    /// An attempt was made to create a file from an invalid string
    InvalidFile,
    /// An attempt was made to create a rank from an invalid string
    InvalidRank,
    /// The move doesn't respect the chess rules
    InvalidMove,
    /// An attempt was made to create a move from an invalid SAN string
    InvalidSanMove,
}

impl Error {
    /// The message of this error.
    pub fn to_string(&self) -> (s: String)
        ensures
            s@ == (match *self {
                Error::InvalidFen { fen } => "Invalid FEN string: "@ + fen@,
                Error::InvalidBoard => "The board specified did not pass sanity checks.  Are you sure the kings exist and the side to move cannot capture the opposing king?"@,
                Error::InvalidGridPosition => "The string specified does not contain a valid algebraic notation square"@,
                Error::InvalidSquare => "The string specified does not contain a valid algebraic notation square"@,
                Error::InvalidFile => "The string specified does not contain a valid file"@,
                Error::InvalidRank => "The string specified does not contain a valid rank"@,
                Error::InvalidMove => "The move specified does not respect the chess rules"@,
                Error::InvalidSanMove => "The string specified does not contain a valid SAN notation move"@,
            }),
    {
        match self {
            Error::InvalidFen { fen } => {
                let mut s = String::from_str("Invalid FEN string: ");
                s.append(fen.as_str());
                s
            },
            Error::InvalidBoard => String::from_str(
                "The board specified did not pass sanity checks.  Are you sure the kings exist and the side to move cannot capture the opposing king?",
            ),
            Error::InvalidGridPosition => String::from_str(
                "The string specified does not contain a valid algebraic notation square",
            ),
            Error::InvalidSquare => String::from_str(
                "The string specified does not contain a valid algebraic notation square",
            ),
            Error::InvalidFile => String::from_str(
                "The string specified does not contain a valid file",
            ),
            Error::InvalidRank => String::from_str(
                "The string specified does not contain a valid rank",
            ),
            Error::InvalidMove => String::from_str(
                "The move specified does not respect the chess rules",
            ),
            Error::InvalidSanMove => String::from_str(
                "The string specified does not contain a valid SAN notation move",
            ),
        }
    }
}

} // verus!
