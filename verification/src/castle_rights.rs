//! The castling rights of one player.

use crate::color::Color;
use crate::text::string_of;
use vstd::prelude::*;

verus! {

/// What castle rights does a particular player have?
///
/// > rule: https://en.wikipedia.org/wiki/Castling
#[derive(Debug, Clone, Copy, PartialEq, Eq, Structural)]
pub enum CastleRights {
    NoRights,
    KingSide,  // little Castle
    QueenSide,  // Big Castle
    Both,
}

impl CastleRights {
    /// The index of these rights: bit 0 stands for the king side, bit 1 for the queen side.
    pub open spec fn index(self) -> int {
        match self {
            CastleRights::NoRights => 0,
            CastleRights::KingSide => 1,
            CastleRights::QueenSide => 2,
            CastleRights::Both => 3,
        }
    }

    /// Whether these rights include castling on the king side.
    pub open spec fn kingside(self) -> bool {
        self == CastleRights::KingSide || self == CastleRights::Both
    }

    /// Whether these rights include castling on the queen side.
    pub open spec fn queenside(self) -> bool {
        self == CastleRights::QueenSide || self == CastleRights::Both
    }

    /// The rights that allow exactly the given sides.
    pub open spec fn of(kingside: bool, queenside: bool) -> CastleRights {
        if kingside && queenside {
            CastleRights::Both
        } else if kingside {
            CastleRights::KingSide
        } else if queenside {
            CastleRights::QueenSide
        } else {
            CastleRights::NoRights
        }
    }

    /// What is left of these rights once the given ones are taken away.
    pub open spec fn without(self, remove: CastleRights) -> CastleRights {
        CastleRights::of(
            self.kingside() && !remove.kingside(),
            self.queenside() && !remove.queenside(),
        )
    }

    /// Whether every right in `self` is also in `other`.
    pub open spec fn within(self, other: CastleRights) -> bool {
        (self.kingside() ==> other.kingside()) && (self.queenside() ==> other.queenside())
    }

    /// The letters of these rights in the position notation: `K` then `Q` for
    /// White, `k` then `q` for Black, nothing where there is no right.
    pub open spec fn letters(self, color: Color) -> Seq<char> {
        let k = if color == Color::White { 'K' } else { 'k' };
        let q = if color == Color::White { 'Q' } else { 'q' };
        match self {
            CastleRights::NoRights => Seq::<char>::empty(),
            CastleRights::KingSide => seq![k],
            CastleRights::QueenSide => seq![q],
            CastleRights::Both => seq![k, q],
        }
    }

    /// Convert `CastleRights` to `usize` for table lookups
    pub fn to_index(&self) -> (i: usize)
        ensures
            i == self.index(),
            i < 4,
    {
        match self {
            CastleRights::NoRights => 0,
            CastleRights::KingSide => 1,
            CastleRights::QueenSide => 2,
            CastleRights::Both => 3,
        }
    }

    /// Convert `usize` to `CastleRights`.
    pub fn from_index(i: usize) -> (rights: CastleRights)
        requires
            i < 4,
        ensures
            rights.index() == i,
    {
        if i == 0 {
            CastleRights::NoRights
        } else if i == 1 {
            CastleRights::KingSide
        } else if i == 2 {
            CastleRights::QueenSide
        } else {
            CastleRights::Both
        }
    }

    /// Can I castle kingside?
    pub fn has_kingside(&self) -> (b: bool)
        ensures
            b == self.kingside(),
            b == (self.index() % 2 == 1),
    {
        self.to_index() % 2 == 1
    }

    /// Can I castle queenside?
    pub fn has_queenside(&self) -> (b: bool)
        ensures
            b == self.queenside(),
            b == (self.index() / 2 == 1),
    {
        self.to_index() / 2 == 1
    }

    /// The rights that allow exactly the given sides.
    pub fn from_sides(kingside: bool, queenside: bool) -> (rights: CastleRights)
        ensures
            rights == CastleRights::of(kingside, queenside),
            rights.kingside() == kingside,
            rights.queenside() == queenside,
    {
        if kingside && queenside {
            CastleRights::Both
        } else if kingside {
            CastleRights::KingSide
        } else if queenside {
            CastleRights::QueenSide
        } else {
            CastleRights::NoRights
        }
    }

    /// Take the given rights away from these.
    pub fn remove(&self, remove: CastleRights) -> (rights: CastleRights)
        ensures
            rights == self.without(remove),
            rights.within(*self),
    {
        CastleRights::from_sides(
            self.has_kingside() && !remove.has_kingside(),
            self.has_queenside() && !remove.has_queenside(),
        )
    }

    /// Convert the rights of a [`Color`] to a string of the position notation.
    pub fn to_string(&self, color: Color) -> (s: String)
        ensures
            s@ == self.letters(color),
    {
        let mut chars: Vec<char> = Vec::new();
        if self.has_kingside() {
            chars.push(match color {
                Color::White => 'K',
                Color::Black => 'k',
            });
        }
        if self.has_queenside() {
            chars.push(match color {
                Color::White => 'Q',
                Color::Black => 'q',
            });
        }
        proof {
            assert(chars@ =~= self.letters(color));
        }
        string_of(&chars)
    }
}

} // verus!
