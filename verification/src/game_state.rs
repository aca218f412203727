//! How a game stands, and what a player may do about it.

use crate::color::Color;
use std::ops::Not;
use vstd::prelude::*;

verus! {

/// Contains all actions supported within the game.
#[derive(Copy, Clone, Eq, PartialEq, Debug, Structural)]
pub enum GameAction {
    OfferDraw(Color),
    AcceptDraw,
    RefuseDraw,
    Resign(Color),
}

/// The Result of the game.
#[derive(Copy, Clone, Eq, PartialEq, Debug, Structural)]
pub enum GameState {
    /// The game is still ongoing.
    Ongoing,
    /// Checkmates for the given [`Color`] (ie. the looser).
    Checkmates(Color),
    /// Draw by Stalemate.
    Stalemate,
    /// Draw by request accepted (ie. Mutual Agreement).
    DrawAccepted,
    /// Draw declared by a player.
    DrawDeclared,
    /// The [`Color`] has resigns.
    Resigns(Color),
}

impl GameState {
    /// The color that has won, in mathematical terms: the other one than
    /// the color that was checkmated or has resigned.
    pub open spec fn victor(self) -> Option<Color> {
        match self {
            GameState::Checkmates(color) => Some(color.other()),
            GameState::Resigns(color) => Some(color.other()),
            _ => None,
        }
    }

    /// The [`Color`] that has won the game, if any has.
    pub fn winner(&self) -> (r: Option<Color>)
        ensures
            r == self.victor(),
    {
        match *self {
            GameState::Ongoing => None,
            GameState::Checkmates(color) => Some(color.not()),
            GameState::Stalemate => None,
            GameState::DrawAccepted => None,
            GameState::DrawDeclared => None,
            GameState::Resigns(color) => Some(color.not()),
        }
    }
}

impl Default for GameState {
    fn default() -> (state: GameState)
        ensures
            state == GameState::Ongoing,
    {
        GameState::Ongoing
    }
}

} // verus!
