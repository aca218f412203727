//! The files (columns) of a chess board.

use crate::error::Error;
use vstd::prelude::*;
use vstd::string::StrSliceExecFns;

verus! {

/// Describe a file (column) on a chess board.
#[derive(Debug, Copy, Clone, Eq, PartialEq, Ord, PartialOrd, Structural)]
pub enum File {
    A,
    B,
    C,
    D,
    E,
    F,
    G,
    H,
}

/// Numbers of [`File`]
pub const NUM_FILES: usize = 8;

/// Enumerate all files.
pub const ALL_FILES: [File; NUM_FILES] = [
    File::A,
    File::B,
    File::C,
    File::D,
    File::E,
    File::F,
    File::G,
    File::H,
];

/// The file that a letter names, in upper or lower case.
pub open spec fn file_of_letter(c: char) -> Option<File> {
    if c == 'a' || c == 'A' {
        Some(File::A)
    } else if c == 'b' || c == 'B' {
        Some(File::B)
    } else if c == 'c' || c == 'C' {
        Some(File::C)
    } else if c == 'd' || c == 'D' {
        Some(File::D)
    } else if c == 'e' || c == 'E' {
        Some(File::E)
    } else if c == 'f' || c == 'F' {
        Some(File::F)
    } else if c == 'g' || c == 'G' {
        Some(File::G)
    } else if c == 'h' || c == 'H' {
        Some(File::H)
    } else {
        None
    }
}

impl File {
    /// The index of this file, from 0 for A to 7 for H.
    pub open spec fn index(self) -> int {
        match self {
            File::A => 0,
            File::B => 1,
            File::C => 2,
            File::D => 3,
            File::E => 4,
            File::F => 5,
            File::G => 6,
            File::H => 7,
        }
    }

    /// The file with the given index, wrapping around outside 0..=7.
    pub open spec fn at(i: int) -> File {
        let k = i % 8;
        if k == 0 {
            File::A
        } else if k == 1 {
            File::B
        } else if k == 2 {
            File::C
        } else if k == 3 {
            File::D
        } else if k == 4 {
            File::E
        } else if k == 5 {
            File::F
        } else if k == 6 {
            File::G
        } else {
            File::H
        }
    }

    /// The lower-case letter of this file.
    pub open spec fn letter(self) -> char {
        match self {
            File::A => 'a',
            File::B => 'b',
            File::C => 'c',
            File::D => 'd',
            File::E => 'e',
            File::F => 'f',
            File::G => 'g',
            File::H => 'h',
        }
    }

    /// Gets a [`File`] from an integer index.
    ///
    /// > **Note**: If index is not in the range 0..=7, wrap around.
    #[inline]
    pub fn new(index: usize) -> (file: File)
        ensures
            file == File::at(index as int),
            file.index() == index % 8,
    {
        ALL_FILES[index % NUM_FILES]
    }

    /// Convert this [`File`] into a [`usize`] between 0 and 7 inclusive.
    #[inline]
    pub fn to_index(&self) -> (i: usize)
        ensures
            i == self.index(),
            i < 8,
    {
        match self {
            File::A => 0,
            File::B => 1,
            File::C => 2,
            File::D => 3,
            File::E => 4,
            File::F => 5,
            File::G => 6,
            File::H => 7,
        }
    }

    /// Go one file to the left.
    ///
    /// > **Note**: If impossible, wrap around.
    #[inline]
    pub fn left(&self) -> (file: File)
        ensures
            file == File::at(self.index() - 1),
            file.index() == (if self.index() == 0 { 7 } else { self.index() - 1 }),
    {
        File::new(self.to_index() + NUM_FILES - 1)
    }

    /// Go one file to the right.
    ///
    /// > **Note**: If impossible, wrap around.
    #[inline]
    pub fn right(&self) -> (file: File)
        ensures
            file == File::at(self.index() + 1),
            file.index() == (if self.index() == 7 { 0 } else { self.index() + 1 }),
    {
        File::new(self.to_index() + 1)
    }

    /// The lower-case letter of this file.
    #[inline]
    pub fn to_char(&self) -> (c: char)
        ensures
            c == self.letter(),
    {
        match self {
            File::A => 'a',
            File::B => 'b',
            File::C => 'c',
            File::D => 'd',
            File::E => 'e',
            File::F => 'f',
            File::G => 'g',
            File::H => 'h',
        }
    }

    /// The file that a letter names, in upper or lower case.
    pub fn from_char(c: char) -> (file: Option<File>)
        ensures
            file == file_of_letter(c),
    {
        match c {
            'a' | 'A' => Some(File::A),
            'b' | 'B' => Some(File::B),
            'c' | 'C' => Some(File::C),
            'd' | 'D' => Some(File::D),
            'e' | 'E' => Some(File::E),
            'f' | 'F' => Some(File::F),
            'g' | 'G' => Some(File::G),
            'h' | 'H' => Some(File::H),
            _ => None,
        }
    }

    /// Read a file from the first character of a string.
    ///
    /// # Errors
    ///
    /// - [`Error::InvalidFile`]: the string is empty or does not start with a file letter.
    pub fn from_str(s: &str) -> (r: Result<File, Error>)
        ensures
            r == (if s@.len() >= 1 && file_of_letter(s@[0]) is Some {
                Ok::<File, Error>(file_of_letter(s@[0])->0)
            } else {
                Err(Error::InvalidFile)
            }),
    {
        if s.unicode_len() < 1 {
            return Err(Error::InvalidFile);
        }
        match File::from_char(s.get_char(0)) {
            Some(file) => Ok(file),
            None => Err(Error::InvalidFile),
        }
    }
}

} // verus!
