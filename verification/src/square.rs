//! The squares of a chess board.

use crate::error::Error;
use crate::file::{file_of_letter, File, NUM_FILES};
use crate::rank::{rank_of_digit, Rank};
use vstd::prelude::*;
use crate::text::{chars_of, string_of};

verus! {

/// Represent a square on the chess board.
#[derive(Copy, Clone, Eq, PartialEq, Ord, PartialOrd, Debug, Structural)]
pub enum Square {
    A1, B1, C1, D1, E1, F1, G1, H1,
    A2, B2, C2, D2, E2, F2, G2, H2,
    A3, B3, C3, D3, E3, F3, G3, H3,
    A4, B4, C4, D4, E4, F4, G4, H4,
    A5, B5, C5, D5, E5, F5, G5, H5,
    A6, B6, C6, D6, E6, F6, G6, H6,
    A7, B7, C7, D7, E7, F7, G7, H7,
    A8, B8, C8, D8, E8, F8, G8, H8,
}

/// How many squares are there?
pub const NUM_SQUARES: usize = 64;

/// Enumerate all squares.
pub const ALL_SQUARES: [Square; NUM_SQUARES] = [
    Square::A1, Square::B1, Square::C1, Square::D1, Square::E1, Square::F1, Square::G1, Square::H1,
    Square::A2, Square::B2, Square::C2, Square::D2, Square::E2, Square::F2, Square::G2, Square::H2,
    Square::A3, Square::B3, Square::C3, Square::D3, Square::E3, Square::F3, Square::G3, Square::H3,
    Square::A4, Square::B4, Square::C4, Square::D4, Square::E4, Square::F4, Square::G4, Square::H4,
    Square::A5, Square::B5, Square::C5, Square::D5, Square::E5, Square::F5, Square::G5, Square::H5,
    Square::A6, Square::B6, Square::C6, Square::D6, Square::E6, Square::F6, Square::G6, Square::H6,
    Square::A7, Square::B7, Square::C7, Square::D7, Square::E7, Square::F7, Square::G7, Square::H7,
    Square::A8, Square::B8, Square::C8, Square::D8, Square::E8, Square::F8, Square::G8, Square::H8,
];

impl Square {
    /// The index of this square: 0 for A1, 1 for B1, row by row up to 63 for H8.
    pub open spec fn index(self) -> int {
        match self {
            Square::A1 => 0,
            Square::B1 => 1,
            Square::C1 => 2,
            Square::D1 => 3,
            Square::E1 => 4,
            Square::F1 => 5,
            Square::G1 => 6,
            Square::H1 => 7,
            Square::A2 => 8,
            Square::B2 => 9,
            Square::C2 => 10,
            Square::D2 => 11,
            Square::E2 => 12,
            Square::F2 => 13,
            Square::G2 => 14,
            Square::H2 => 15,
            Square::A3 => 16,
            Square::B3 => 17,
            Square::C3 => 18,
            Square::D3 => 19,
            Square::E3 => 20,
            Square::F3 => 21,
            Square::G3 => 22,
            Square::H3 => 23,
            Square::A4 => 24,
            Square::B4 => 25,
            Square::C4 => 26,
            Square::D4 => 27,
            Square::E4 => 28,
            Square::F4 => 29,
            Square::G4 => 30,
            Square::H4 => 31,
            Square::A5 => 32,
            Square::B5 => 33,
            Square::C5 => 34,
            Square::D5 => 35,
            Square::E5 => 36,
            Square::F5 => 37,
            Square::G5 => 38,
            Square::H5 => 39,
            Square::A6 => 40,
            Square::B6 => 41,
            Square::C6 => 42,
            Square::D6 => 43,
            Square::E6 => 44,
            Square::F6 => 45,
            Square::G6 => 46,
            Square::H6 => 47,
            Square::A7 => 48,
            Square::B7 => 49,
            Square::C7 => 50,
            Square::D7 => 51,
            Square::E7 => 52,
            Square::F7 => 53,
            Square::G7 => 54,
            Square::H7 => 55,
            Square::A8 => 56,
            Square::B8 => 57,
            Square::C8 => 58,
            Square::D8 => 59,
            Square::E8 => 60,
            Square::F8 => 61,
            Square::G8 => 62,
            Square::H8 => 63,
        }
    }

    /// The square with the given index, wrapping around outside 0..=63.
    pub open spec fn at(i: int) -> Square {
        let k = i % 64;
        if k == 0 {
            Square::A1
        } else if k == 1 {
            Square::B1
        } else if k == 2 {
            Square::C1
        } else if k == 3 {
            Square::D1
        } else if k == 4 {
            Square::E1
        } else if k == 5 {
            Square::F1
        } else if k == 6 {
            Square::G1
        } else if k == 7 {
            Square::H1
        } else if k == 8 {
            Square::A2
        } else if k == 9 {
            Square::B2
        } else if k == 10 {
            Square::C2
        } else if k == 11 {
            Square::D2
        } else if k == 12 {
            Square::E2
        } else if k == 13 {
            Square::F2
        } else if k == 14 {
            Square::G2
        } else if k == 15 {
            Square::H2
        } else if k == 16 {
            Square::A3
        } else if k == 17 {
            Square::B3
        } else if k == 18 {
            Square::C3
        } else if k == 19 {
            Square::D3
        } else if k == 20 {
            Square::E3
        } else if k == 21 {
            Square::F3
        } else if k == 22 {
            Square::G3
        } else if k == 23 {
            Square::H3
        } else if k == 24 {
            Square::A4
        } else if k == 25 {
            Square::B4
        } else if k == 26 {
            Square::C4
        } else if k == 27 {
            Square::D4
        } else if k == 28 {
            Square::E4
        } else if k == 29 {
            Square::F4
        } else if k == 30 {
            Square::G4
        } else if k == 31 {
            Square::H4
        } else if k == 32 {
            Square::A5
        } else if k == 33 {
            Square::B5
        } else if k == 34 {
            Square::C5
        } else if k == 35 {
            Square::D5
        } else if k == 36 {
            Square::E5
        } else if k == 37 {
            Square::F5
        } else if k == 38 {
            Square::G5
        } else if k == 39 {
            Square::H5
        } else if k == 40 {
            Square::A6
        } else if k == 41 {
            Square::B6
        } else if k == 42 {
            Square::C6
        } else if k == 43 {
            Square::D6
        } else if k == 44 {
            Square::E6
        } else if k == 45 {
            Square::F6
        } else if k == 46 {
            Square::G6
        } else if k == 47 {
            Square::H6
        } else if k == 48 {
            Square::A7
        } else if k == 49 {
            Square::B7
        } else if k == 50 {
            Square::C7
        } else if k == 51 {
            Square::D7
        } else if k == 52 {
            Square::E7
        } else if k == 53 {
            Square::F7
        } else if k == 54 {
            Square::G7
        } else if k == 55 {
            Square::H7
        } else if k == 56 {
            Square::A8
        } else if k == 57 {
            Square::B8
        } else if k == 58 {
            Square::C8
        } else if k == 59 {
            Square::D8
        } else if k == 60 {
            Square::E8
        } else if k == 61 {
            Square::F8
        } else if k == 62 {
            Square::G8
        } else {
            Square::H8
        }
    }

    /// The file of this square, in mathematical terms.
    pub open spec fn spec_file(&self) -> File {
        File::at(self.index() % 8)
    }

    /// The rank of this square, in mathematical terms.
    pub open spec fn spec_rank(&self) -> Rank {
        Rank::at(self.index() / 8)
    }

    /// The two characters that name this square: the file's letter, then the rank's digit.
    pub open spec fn name(self) -> Seq<char> {
        seq![self.spec_file().letter(), self.spec_rank().digit()]
    }

    /// The index of the file of this square, from 0 to 7.
    pub open spec fn col(self) -> int {
        self.index() % 8
    }

    /// The index of the rank of this square, from 0 to 7.
    pub open spec fn row(self) -> int {
        self.index() / 8
    }

    /// The square on the given file and rank, by their indices.
    pub open spec fn on(col: int, row: int) -> Square {
        Square::at(col + 8 * row)
    }

    /// Create a new square, from an index.
    ///
    /// > **Note**: If index is not in the range 0..=63, wrap around.
    #[inline]
    pub fn new(index: usize) -> (square: Square)
        ensures
            square == Square::at(index as int),
            square.index() == index % 64,
    {
        ALL_SQUARES[index % NUM_SQUARES]
    }

    /// Convert this `Square` into a `usize` from 0 to 63 inclusive.
    #[inline]
    pub fn to_index(&self) -> (i: usize)
        ensures
            i == self.index(),
            i < 64,
    {
        self.rank().to_index() * NUM_FILES + self.file().to_index()
    }

    /// Make a square from file and rank.
    #[inline]
    pub fn make_square(file: File, rank: Rank) -> (square: Square)
        ensures
            square.index() == file.index() + 8 * rank.index(),
            square.spec_file() == file,
            square.spec_rank() == rank,
    {
        Square::new(file.to_index() + rank.to_index() * NUM_FILES)
    }

    /// Return the file of this square.
    #[inline]
    #[verifier::when_used_as_spec(spec_file)]
    pub fn file(&self) -> (file: File)
        ensures
            file == self.spec_file(),
            file.index() == self.index() % 8,
    {
        match self {
            Square::A1 | Square::A2 | Square::A3 | Square::A4
            | Square::A5 | Square::A6 | Square::A7 | Square::A8 => File::A,
            Square::B1 | Square::B2 | Square::B3 | Square::B4
            | Square::B5 | Square::B6 | Square::B7 | Square::B8 => File::B,
            Square::C1 | Square::C2 | Square::C3 | Square::C4
            | Square::C5 | Square::C6 | Square::C7 | Square::C8 => File::C,
            Square::D1 | Square::D2 | Square::D3 | Square::D4
            | Square::D5 | Square::D6 | Square::D7 | Square::D8 => File::D,
            Square::E1 | Square::E2 | Square::E3 | Square::E4
            | Square::E5 | Square::E6 | Square::E7 | Square::E8 => File::E,
            Square::F1 | Square::F2 | Square::F3 | Square::F4
            | Square::F5 | Square::F6 | Square::F7 | Square::F8 => File::F,
            Square::G1 | Square::G2 | Square::G3 | Square::G4
            | Square::G5 | Square::G6 | Square::G7 | Square::G8 => File::G,
            Square::H1 | Square::H2 | Square::H3 | Square::H4
            | Square::H5 | Square::H6 | Square::H7 | Square::H8 => File::H,
        }
    }

    /// Return the rank of this square.
    #[inline]
    #[verifier::when_used_as_spec(spec_rank)]
    pub fn rank(&self) -> (rank: Rank)
        ensures
            rank == self.spec_rank(),
            rank.index() == self.index() / 8,
    {
        match self {
            Square::A1 | Square::B1 | Square::C1 | Square::D1
            | Square::E1 | Square::F1 | Square::G1 | Square::H1 => Rank::First,
            Square::A2 | Square::B2 | Square::C2 | Square::D2
            | Square::E2 | Square::F2 | Square::G2 | Square::H2 => Rank::Second,
            Square::A3 | Square::B3 | Square::C3 | Square::D3
            | Square::E3 | Square::F3 | Square::G3 | Square::H3 => Rank::Third,
            Square::A4 | Square::B4 | Square::C4 | Square::D4
            | Square::E4 | Square::F4 | Square::G4 | Square::H4 => Rank::Fourth,
            Square::A5 | Square::B5 | Square::C5 | Square::D5
            | Square::E5 | Square::F5 | Square::G5 | Square::H5 => Rank::Fifth,
            Square::A6 | Square::B6 | Square::C6 | Square::D6
            | Square::E6 | Square::F6 | Square::G6 | Square::H6 => Rank::Sixth,
            Square::A7 | Square::B7 | Square::C7 | Square::D7
            | Square::E7 | Square::F7 | Square::G7 | Square::H7 => Rank::Seventh,
            Square::A8 | Square::B8 | Square::C8 | Square::D8
            | Square::E8 | Square::F8 | Square::G8 | Square::H8 => Rank::Eighth,
        }
    }

    /// The square `files` files to the right and `ranks` ranks up from this
    /// one, if the board has such a square.
    pub fn offset(&self, files: i8, ranks: i8) -> (r: Option<Square>)
        requires
            -8 <= files <= 8,
            -8 <= ranks <= 8,
        ensures
            r == (if on_board(self.col() + files, self.row() + ranks) {
                Some(Square::on(self.col() + files, self.row() + ranks))
            } else {
                None
            }),
    {
        let col: i8 = self.file().to_index() as i8 + files;
        let row: i8 = self.rank().to_index() as i8 + ranks;
        if 0 <= col && col < 8 && 0 <= row && row < 8 {
            Some(Square::new(col as usize + 8 * (row as usize)))
        } else {
            None
        }
    }

    /// The name of this square: the file's letter, then the rank's digit.
    pub fn to_string(&self) -> (s: String)
        ensures
            s@ == self.name(),
    {
        let mut chars: Vec<char> = Vec::new();
        chars.push(self.file().to_char());
        chars.push(self.rank().to_char());
        proof {
            assert(chars@ =~= self.name());
        }
        string_of(&chars)
    }

    /// Read a square from the characters of its name.
    pub fn from_chars(chars: &Vec<char>) -> (r: Option<Square>)
        ensures
            r == square_named(chars@),
    {
        if chars.len() < 2 {
            return None;
        }
        match (File::from_char(chars[0]), Rank::from_char(chars[1])) {
            (Some(file), Some(rank)) => Some(Square::make_square(file, rank)),
            _ => None,
        }
    }

    /// Read a square from its name: a file letter, in either case, followed
    /// by a rank digit. What follows these two characters is not read.
    ///
    /// # Errors
    ///
    /// - [`Error::InvalidSquare`]: the string does not start with the name of a square.
    pub fn from_str(s: &str) -> (r: Result<Square, Error>)
        ensures
            r == (match square_named(s@) {
                Some(square) => Ok::<Square, Error>(square),
                None => Err(Error::InvalidSquare),
            }),
    {
        let chars = chars_of(s);
        match Square::from_chars(&chars) {
            Some(square) => Ok(square),
            None => Err(Error::InvalidSquare),
        }
    }
}

/// Whether the board has a square on the file and rank with the given indices.
pub open spec fn on_board(col: int, row: int) -> bool {
    0 <= col < 8 && 0 <= row < 8
}

/// The square that a string names, if it starts with a file letter and a rank digit.
pub open spec fn square_named(s: Seq<char>) -> Option<Square> {
    if s.len() >= 2 && file_of_letter(s[0]) is Some && rank_of_digit(s[1]) is Some {
        Some(Square::on(file_of_letter(s[0])->0.index(), rank_of_digit(s[1])->0.index()))
    } else {
        None
    }
}

/// Every square has an index from 0 to 63 and is the square at that index.
pub proof fn lemma_square_index(square: Square)
    ensures
        0 <= square.index() < 64,
        Square::at(square.index()) == square,
        on_board(square.col(), square.row()),
        Square::on(square.col(), square.row()) == square,
{
}

/// The square at an index from 0 to 63 has that index.
pub proof fn lemma_square_at(i: int)
    requires
        0 <= i < 64,
    ensures
        Square::at(i).index() == i,
{
}

/// The square on a file and a rank of the board lies on that file and that rank.
pub proof fn lemma_square_on(col: int, row: int)
    requires
        on_board(col, row),
    ensures
        Square::on(col, row).index() == col + 8 * row,
        Square::on(col, row).col() == col,
        Square::on(col, row).row() == row,
{
    lemma_square_at(col + 8 * row);
}

/// Reading the name of a square gives the square back.
pub proof fn lemma_square_name_round_trip(square: Square)
    ensures
        square_named(square.name()) == Some(square),
        square.name().len() == 2,
        !square.name().contains(' '),
{
    lemma_square_index(square);
    let file = square.spec_file();
    let rank = square.spec_rank();
    let name = square.name();
    assert(name[0] == file.letter() && name[1] == rank.digit());
    assert(file_of_letter(file.letter()) == Some(file));
    assert(rank_of_digit(rank.digit()) == Some(rank));
    assert(file.index() == square.col());
    assert(rank.index() == square.row());
    assert(file.letter() != ' ' && rank.digit() != ' ');
}

} // verus!
