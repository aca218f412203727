//! # Rust Chess Library
//!
//! A chess rules engine: it keeps the state of a board, knows how the pieces
//! move, tells legal moves from illegal ones, reads and writes positions in a
//! compact textual notation and follows a game to its end.
//!
//! The rules are stated once, over the mathematical [`Position`] that a
//! [`Board`] stands for (module [`position`]), and every function of
//! [`Board`] and of [`Chess`] is proved to compute what they say. The
//! notation is stated in module [`fen`], and what holds of every position,
//! move and game is proved in module [`laws`].

pub mod board;
pub mod castle_rights;
pub mod chess;
pub mod chess_move;
pub mod chess_position;
pub mod color;
pub mod decimal;
pub mod direction;
pub mod error;
pub mod fen;
pub mod file;
pub mod game_state;
pub mod laws;
pub mod piece;
pub mod position;
pub mod rank;
pub mod square;
pub mod text;

pub use crate::board::Board;
pub use crate::castle_rights::CastleRights;
pub use crate::chess::{Chess, Session};
pub use crate::chess_move::ChessMove;
pub use crate::chess_position::ChessPosition;
pub use crate::color::{Color, ALL_COLORS, NUM_COLORS};
pub use crate::direction::{
    Direction, ALL_DIAGONAL, ALL_DIRECTION, ALL_LINE, NUM_DIAGONAL, NUM_DIRECTION, NUM_LINES,
};
pub use crate::error::Error;
pub use crate::file::{File, ALL_FILES, NUM_FILES};
pub use crate::game_state::{GameAction, GameState};
pub use crate::piece::{Piece, ALL_PIECES, NUM_PIECES};
pub use crate::position::Position;
pub use crate::rank::{Rank, ALL_RANKS, NUM_RANKS};
pub use crate::square::{Square, ALL_SQUARES, NUM_SQUARES};
