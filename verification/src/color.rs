//! The two sides of a chess game.

use std::ops::Not;
use vstd::prelude::*;
use vstd::std_specs::ops::NotSpecImpl;

verus! {

/// Represent a color.
#[derive(Debug, PartialEq, Eq, Clone, Copy, Structural)]
pub enum Color {
    White,
    Black,
}

/// How many colors are there?
pub const NUM_COLORS: usize = 2;

/// List all colors.
pub const ALL_COLORS: [Color; NUM_COLORS] = [Color::White, Color::Black];

impl Color {
    /// The index of this color in mathematical terms: 0 for White, 1 for Black.
    pub open spec fn index(self) -> int {
        match self {
            Color::White => 0,
            Color::Black => 1,
        }
    }

    /// The other color, in mathematical terms.
    pub open spec fn other(self) -> Color {
        match self {
            Color::White => Color::Black,
            Color::Black => Color::White,
        }
    }

    /// Convert the `Color` to a `usize` for table lookups.
    #[inline]
    pub fn to_index(&self) -> (i: usize)
        ensures
            i == self.index(),
    {
        match self {
            Color::White => 0,
            Color::Black => 1,
        }
    }
}

impl Not for Color {
    type Output = Color;

    /// Get the other color.
    #[inline]
    fn not(self) -> (r: Color) {
        match self {
            Color::White => Color::Black,
            Color::Black => Color::White,
        }
    }
}

impl NotSpecImpl for Color {
    open spec fn obeys_not_spec() -> bool {
        true
    }

    open spec fn not_req(self) -> bool {
        true
    }

    open spec fn not_spec(self) -> Color {
        self.other()
    }
}

} // verus!
