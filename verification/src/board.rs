//! Describe the board and interaction with it.

use crate::castle_rights::CastleRights;
use crate::chess_move::ChessMove;
use crate::color::{Color, NUM_COLORS};
use crate::decimal::{digit_of, parse_number, push_decimal};
use crate::direction::Direction;
use crate::error::Error;
use crate::fen::{
    castling_text, fen, lemma_read_fails, parse_fen, placement, rank_text, ranks_text,
    read_placement, side_named, start, target_text, Cursor,
};
use crate::game_state::GameState;
use crate::piece::Piece;
use crate::rank::Rank;
use crate::position::{
    between, diagonal, king_arrival, lemma_king_from, lemma_same_pieces, lemma_squares_where,
    magnitude, pawn_arrival, sign, squares_where, straight, Position,
};
use crate::square::{
    lemma_square_at, lemma_square_index, lemma_square_on, on_board, Square, NUM_SQUARES,
};
use crate::text::{chars_of, split_fields, string_of};
use std::ops::Not;
use std::str::FromStr;
use vstd::prelude::*;

verus! {

/// A representation of a chess board.
///
/// A board holds what stands on each square, the side to move, the castling
/// rights of both sides, the en-passant target and the two move counters.
/// Its view is the [`Position`] that the rules speak of.
#[derive(Copy, Clone, PartialEq, Eq, Debug)]
pub struct Board {
    squares: [Option<(Piece, Color)>; NUM_SQUARES],
    side_to_move: Color,
    castle_rights: [CastleRights; NUM_COLORS],
    en_passant: Option<Square>,
    halfmoves: u64,
    fullmoves: u64,
}

impl View for Board {
    type V = Position;

    closed spec fn view(&self) -> Position {
        Position {
            squares: self.squares@,
            side_to_move: self.side_to_move,
            white_rights: self.castle_rights[0],
            black_rights: self.castle_rights[1],
            en_passant: self.en_passant,
            halfmoves: self.halfmoves as nat,
            fullmoves: self.fullmoves as nat,
        }
    }
}

impl Board {
    /// The position of an empty board: White to move, no castling rights, no
    /// en-passant target, no half-move counted and the first full move.
    pub open spec fn empty() -> Position {
        Position {
            squares: Seq::new(64, |i: int| None),
            side_to_move: Color::White,
            white_rights: CastleRights::NoRights,
            black_rights: CastleRights::NoRights,
            en_passant: None,
            halfmoves: 0,
            fullmoves: 1,
        }
    }

    /// The view of a board has 64 squares, and its counters fit in 64 bits.
    pub proof fn lemma_view_wf(&self)
        ensures
            self@.wf(),
    {
    }

    /// Two boards with the same view are the same board.
    pub proof fn lemma_view_is_the_board(a: Board, b: Board)
        requires
            a@ == b@,
        ensures
            a == b,
    {
        assert(a.squares =~= b.squares);
        assert(a.castle_rights =~= b.castle_rights);
    }

    /// Create a new empty board.
    ///
    /// Consider using the [`Default`] trait to initialize the board.
    pub fn new() -> (board: Board)
        ensures
            board@ == Board::empty(),
    {
        let board = Board {
            squares: [None;NUM_SQUARES],
            side_to_move: Color::White,
            castle_rights: [CastleRights::NoRights;NUM_COLORS],
            en_passant: None,
            halfmoves: 0,
            fullmoves: 1,
        };
        proof {
            assert(board@.squares =~= Board::empty().squares);
        }
        board
    }

    /// Get the [`Color`] of the player who has to play.
    pub fn side_to_move(&self) -> (color: Color)
        ensures
            color == self@.side_to_move,
    {
        self.side_to_move
    }

    /// Get the [`CastleRights`] for a given side.
    pub fn castle_rights(&self, color: Color) -> (rights: CastleRights)
        ensures
            rights == self@.rights(color),
    {
        self.castle_rights[color.to_index()]
    }

    /// Get the [`Square`] (if exist) of the En Passant.
    pub fn en_passant(&self) -> (square: Option<Square>)
        ensures
            square == self@.en_passant,
    {
        self.en_passant
    }

    /// Get the halfmoves number.
    pub fn halfmoves(&self) -> (n: u64)
        ensures
            n == self@.halfmoves,
    {
        self.halfmoves
    }

    /// Get the fullmoves number.
    pub fn fullmoves(&self) -> (n: u64)
        ensures
            n == self@.fullmoves,
    {
        self.fullmoves
    }

    /// Remove [castle rights][CastleRights] for a particular side.
    pub fn remove_castle_rights(&mut self, color: Color, remove: CastleRights)
        ensures
            final(self)@ == (match color {
                Color::White => (Position {
                    white_rights: old(self)@.white_rights.without(remove),
                    ..old(self)@
                }),
                Color::Black => (Position {
                    black_rights: old(self)@.black_rights.without(remove),
                    ..old(self)@
                }),
            }),
    {
        let rights = self.castle_rights[color.to_index()].remove(remove);
        self.castle_rights[color.to_index()] = rights;
    }

    /// Get the [`Piece`] at a given [`Square`].
    pub fn piece_on(&self, square: Square) -> (piece: Option<Piece>)
        ensures
            piece == self@.piece_on(square),
    {
        match self.squares[square.to_index()] {
            Some((piece, _)) => Some(piece),
            None => None,
        }
    }

    /// Verify if the [`Square`] is occupied by the given [`Piece`].
    pub fn piece_on_is(&self, square: Square, piece: Piece) -> (b: bool)
        ensures
            b == (self@.piece_on(square) == Some(piece)),
    {
        match self.piece_on(square) {
            Some(real_piece) => real_piece == piece,
            None => false,
        }
    }

    /// Get the [`Color`] at a given [`Square`].
    pub fn color_on(&self, square: Square) -> (color: Option<Color>)
        ensures
            color == self@.color_on(square),
    {
        match self.squares[square.to_index()] {
            Some((_, color)) => Some(color),
            None => None,
        }
    }

    /// Verify if the [`Square`] is occupied by the given [`Color`].
    pub fn color_on_is(&self, square: Square, color: Color) -> (b: bool)
        ensures
            b == (self@.color_on(square) == Some(color)),
    {
        match self.color_on(square) {
            Some(real_color) => real_color == color,
            None => false,
        }
    }

    /// Get the [`Piece`] and the [`Color`] at a given [`Square`].
    pub fn on(&self, square: Square) -> (occupant: Option<(Piece, Color)>)
        ensures
            occupant == self@.on(square),
    {
        self.squares[square.to_index()]
    }

    /// Verify if the [`Square`] is empty (i.e. not occupied).
    pub fn is_empty(&self, square: Square) -> (b: bool)
        ensures
            b == (self@.on(square) is None),
    {
        self.squares[square.to_index()].is_none()
    }

    /// Verify if the [`Square`] is occupied.
    pub fn is_occupied(&self, square: Square) -> (b: bool)
        ensures
            b == (self@.on(square) is Some),
    {
        self.squares[square.to_index()].is_some()
    }

    /// What stands on the square with the given file and rank indices.
    fn cell(&self, col: i8, row: i8) -> (occupant: Option<(Piece, Color)>)
        requires
            on_board(col as int, row as int),
        ensures
            occupant == self@.at(col as int, row as int),
    {
        self.squares[col as usize + 8 * (row as usize)]
    }

    /// Verify if every square strictly between two squares of one rank, file
    /// or diagonal is empty.
    fn is_open_line(&self, from: Square, to: Square) -> (b: bool)
        requires
            straight(to.col() - from.col(), to.row() - from.row()) || diagonal(
                to.col() - from.col(),
                to.row() - from.row(),
            ),
        ensures
            b == self@.open_line(from, to),
    {
        let from_col: i8 = from.file().to_index() as i8;
        let from_row: i8 = from.rank().to_index() as i8;
        let to_col: i8 = to.file().to_index() as i8;
        let to_row: i8 = to.rank().to_index() as i8;
        let col_step: i8 = step_towards(from_col, to_col);
        let row_step: i8 = step_towards(from_row, to_row);
        let mut col: i8 = from_col + col_step;
        let mut row: i8 = from_row + row_step;
        while col != to_col || row != to_row
            invariant
                on_board(from_col as int, from_row as int),
                on_board(to_col as int, to_row as int),
                straight(to_col - from_col, to_row - from_row) || diagonal(
                    to_col - from_col,
                    to_row - from_row,
                ),
                col_step == sign(to_col - from_col),
                row_step == sign(to_row - from_row),
                (col == to_col && row == to_row) || between(
                    from_col as int,
                    from_row as int,
                    col as int,
                    row as int,
                    to_col as int,
                    to_row as int,
                ),
                forall|c: int, r: int|
                    between(from_col as int, from_row as int, c, r, col as int, row as int) ==> (
                    #[trigger] self@.at(c, r)) is None,
                from_col == from.col(),
                from_row == from.row(),
                to_col == to.col(),
                to_row == to.row(),
            decreases magnitude(to_col - col) + magnitude(to_row - row),
        {
            if self.cell(col, row).is_some() {
                return false;
            }
            proof {
                assert forall|c: int, r: int|
                    between(
                        from_col as int,
                        from_row as int,
                        c,
                        r,
                        col + col_step,
                        row + row_step,
                    ) implies (#[trigger] self@.at(c, r)) is None by {
                    if c == col && r == row {
                    } else {
                        assert(between(
                            from_col as int,
                            from_row as int,
                            c,
                            r,
                            col as int,
                            row as int,
                        ));
                    }
                }
            }
            col = col + col_step;
            row = row + row_step;
        }
        true
    }

    /// Verify if the piece on `from` (if any) reaches `to` under the rules of
    /// movement of its kind.
    fn reaches(&self, from: Square, to: Square) -> (b: bool)
        ensures
            b == self@.pseudo_legal(from, to),
    {
        match self.on(from) {
            None => false,
            Some((piece, side)) => {
                let from_col: i8 = from.file().to_index() as i8;
                let from_row: i8 = from.rank().to_index() as i8;
                let to_col: i8 = to.file().to_index() as i8;
                let to_row: i8 = to.rank().to_index() as i8;
                let dc: i8 = to_col - from_col;
                let dr: i8 = to_row - from_row;
                let is_straight = (dc == 0) != (dr == 0);
                let is_diagonal = dc != 0 && (dc == dr || dc == -dr);
                match piece {
                    Piece::Pawn => {
                        let ahead: i8 = match side {
                            Color::White => 1,
                            Color::Black => -1,
                        };
                        let home: i8 = match side {
                            Color::White => 1,
                            Color::Black => 6,
                        };
                        if dc == 0 && dr == ahead {
                            self.is_empty(to)
                        } else if dc == 0 && dr == 2 * ahead {
                            from_row == home && self.cell(from_col, from_row + ahead).is_none()
                                && self.is_empty(to)
                        } else if (dc == 1 || dc == -1) && dr == ahead {
                            self.color_on_is(to, side.not()) || self.en_passant == Some(to)
                        } else {
                            false
                        }
                    },
                    Piece::Knight => {
                        let is_jump = ((dc == 1 || dc == -1) && (dr == 2 || dr == -2)) || ((dc == 2
                            || dc == -2) && (dr == 1 || dr == -1));
                        is_jump && !self.color_on_is(to, side)
                    },
                    Piece::Bishop => {
                        is_diagonal && self.is_open_line(from, to) && !self.color_on_is(to, side)
                    },
                    Piece::Rook => {
                        is_straight && self.is_open_line(from, to) && !self.color_on_is(to, side)
                    },
                    Piece::Queen => {
                        (is_straight || is_diagonal) && self.is_open_line(from, to)
                            && !self.color_on_is(to, side)
                    },
                    Piece::King => {
                        let is_step = -1 <= dc && dc <= 1 && -1 <= dr && dr <= 1 && (dc != 0 || dr
                            != 0);
                        is_step && !self.color_on_is(to, side)
                    },
                }
            },
        }
    }

    /// Compute and return all the valid moves for a [`Piece`] (if exist) at a given [`Square`].
    ///
    /// If no [`Piece`] exist on the [`Square`] then return an empty [`Vec`].
    ///
    /// > **Note**: The legality is not verify, if you want to: use [`get_legal_moves`][Board::get_legal_moves].
    pub fn get_valid_moves(&self, from: Square) -> (moves: Vec<Square>)
        ensures
            moves@ == self@.valid_moves(from),
            forall|to: Square| #[trigger] moves@.contains(to) <==> self@.pseudo_legal(from, to),
            moves@.no_duplicates(),
    {
        let mut moves: Vec<Square> = Vec::new();
        let mut i: usize = 0;
        while i < NUM_SQUARES
            invariant
                i <= 64,
                moves@ == squares_where(self@.reach_test(from), i as int),
            decreases 64 - i,
        {
            let to = Square::new(i);
            if self.reaches(from, to) {
                moves.push(to);
            }
            i += 1;
        }
        proof {
            lemma_squares_where(self@.reach_test(from), 64);
            assert forall|to: Square| #[trigger]
                moves@.contains(to) <==> self@.pseudo_legal(from, to) by {
                lemma_square_index(to);
            }
        }
        moves
    }

    /// Verify if the [`Piece`] on the [`Square`] has one or more valid moves.
    ///
    /// If no [`Piece`] exist on the [`Square`] then return false.
    ///
    /// > **Note**: The legality is not verify, if you want to: use [`has_legal_move`][Board::has_legal_move].
    pub fn has_valid_move(&self, square: Square) -> (b: bool)
        ensures
            b == self@.mobile(square),
    {
        let moves = self.get_valid_moves(square);
        proof {
            if moves@.len() > 0 {
                assert(moves@.contains(moves@[0]));
                assert(self@.pseudo_legal(square, moves@[0]));
            } else {
                assert forall|to: Square| !self@.pseudo_legal(square, to) by {
                    if self@.pseudo_legal(square, to) {
                        assert(moves@.contains(to));
                    }
                }
            }
        }
        moves.len() > 0
    }

    /// Verify if a [`Square`] can be taken by the given [`Color`] in the current [`Board`].
    pub fn is_targeted(&self, square: Square, color: Color) -> (b: bool)
        ensures
            b == self@.targeted(square, color),
    {
        let mut i: usize = 0;
        while i < NUM_SQUARES
            invariant
                i <= 64,
                forall|j: int|
                    0 <= j < i ==> !(self@.color_on(Square::at(j)) == Some(color)
                        && #[trigger] self@.pseudo_legal(Square::at(j), square)),
            decreases 64 - i,
        {
            let from = Square::new(i);
            if self.color_on_is(from, color) && self.reaches(from, square) {
                return true;
            }
            i += 1;
        }
        proof {
            assert forall|from: Square|
                !(self@.color_on(from) == Some(color) && #[trigger] self@.pseudo_legal(
                    from,
                    square,
                )) by {
                lemma_square_index(from);
                assert(Square::at(from.index()) == from);
            }
        }
        false
    }

    /// Get the [`Square`] of the [`King`][Piece::King] of the given [`Color`], if the board has one.
    pub fn find_king(&self, color: Color) -> (king: Option<Square>)
        ensures
            king == self@.king_of(color),
    {
        let mut i: usize = 0;
        while i < NUM_SQUARES
            invariant
                i <= 64,
                self@.king_of(color) == self@.king_from(color, i as int),
            decreases 64 - i,
        {
            let square = Square::new(i);
            proof {
                lemma_square_at(i as int);
            }
            match self.on(square) {
                Some((Piece::King, c)) => {
                    if c == color {
                        return Some(square);
                    }
                },
                _ => {},
            }
            i += 1;
        }
        None
    }

    /// Get the [`Square`] of the [`King`][Piece::King] of the given [`Color`].
    ///
    /// The board must hold such a king.
    pub fn king_of(&self, color: Color) -> (king: Square)
        requires
            self@.king_of(color) is Some,
        ensures
            Some(king) == self@.king_of(color),
            self@.on(king) == Some((Piece::King, color)),
    {
        proof {
            lemma_king_from(self@, color, 0);
        }
        match self.find_king(color) {
            Some(king) => king,
            None => Square::A1,
        }
    }

    /// Verify if the [`King`][Piece::King] of the given [`Color`] is in check.
    fn is_checked(&self, color: Color) -> (b: bool)
        ensures
            b == self@.in_check(color),
    {
        match self.find_king(color) {
            Some(king) => self.is_targeted(king, color.not()),
            None => false,
        }
    }

    /// Verify if the [`King`][Piece::King] of the side to move is in check.
    ///
    /// A side without a king is not in check.
    pub fn is_check(&self) -> (b: bool)
        ensures
            b == self@.in_check(self@.side_to_move),
    {
        self.is_checked(self.side_to_move)
    }

    /// The castling rights of `color` once the piece on `from` has gone to `to`.
    fn rights_after(&self, color: Color, from: Square, to: Square) -> (rights: CastleRights)
        requires
            self@.on(from) is Some,
        ensures
            rights == self@.rights_after(color, from, to),
    {
        let rights = self.castle_rights(color);
        let (king_corner, queen_corner) = match color {
            Color::White => (Square::H1, Square::A1),
            Color::Black => (Square::H8, Square::A8),
        };
        match self.on(from) {
            None => rights,
            Some((piece, side)) => {
                if color == side {
                    if piece == Piece::King {
                        CastleRights::NoRights
                    } else if piece == Piece::Rook && from == king_corner {
                        rights.remove(CastleRights::KingSide)
                    } else if piece == Piece::Rook && from == queen_corner {
                        rights.remove(CastleRights::QueenSide)
                    } else {
                        rights
                    }
                } else {
                    if holds_rook(&self.squares, to.to_index(), color) && to == king_corner {
                        rights.remove(CastleRights::KingSide)
                    } else if holds_rook(&self.squares, to.to_index(), color) && to == queen_corner {
                        rights.remove(CastleRights::QueenSide)
                    } else {
                        rights
                    }
                }
            },
        }
    }

    /// The en-passant target once the piece on `from` has gone to `to`.
    fn en_passant_after(&self, from: Square, to: Square) -> (target: Option<Square>)
        requires
            self@.on(from) is Some,
        ensures
            target == self@.en_passant_after(from, to),
    {
        match self.on(from) {
            Some((Piece::Pawn, side)) => {
                let ahead: i8 = match side {
                    Color::White => 1,
                    Color::Black => -1,
                };
                let from_row: i8 = from.rank().to_index() as i8;
                let to_row: i8 = to.rank().to_index() as i8;
                if from.file() == to.file() && to_row == from_row + 2 * ahead {
                    from.offset(0, ahead)
                } else {
                    None
                }
            },
            _ => None,
        }
    }

    /// What stands on the squares once the piece on `from` has gone to `to`.
    fn squares_after(&self, from: Square, to: Square) -> (squares: [Option<(Piece, Color)>;
        NUM_SQUARES])
        requires
            self@.on(from) is Some,
        ensures
            squares@ == self@.squares_after(from, to),
    {
        let mut squares = self.squares;
        match self.squares[from.to_index()] {
            None => {},
            Some((piece, side)) => {
                squares[from.to_index()] = None;
                squares[to.to_index()] = Some((piece, side));
                match piece {
                    Piece::Pawn => {
                        settle_pawn(&mut squares, side, to, self.en_passant == Some(to));
                    },
                    Piece::King => {
                        settle_king(&mut squares, side, to);
                    },
                    _ => {},
                }
            },
        }
        squares
    }

    /// Move the piece on the source of the move to its destination, with
    /// what follows for the other squares, the en-passant target and the
    /// castling rights. The turn does not pass and the counters stay.
    fn relocate(&mut self, m: ChessMove)
        requires
            old(self)@.on(m.source()) is Some,
        ensures
            final(self)@ == old(self)@.relocated(m.source(), m.dest()),
    {
        let from = m.get_source();
        let to = m.get_dest();
        let white = self.rights_after(Color::White, from, to);
        let black = self.rights_after(Color::Black, from, to);
        let target = self.en_passant_after(from, to);
        let squares = self.squares_after(from, to);
        self.squares = squares;
        self.en_passant = target;
        self.castle_rights[0] = white;
        self.castle_rights[1] = black;
    }

    /// Update the chessboard according to the chess rules.
    ///
    /// Assume that the move is legal: a piece must stand on the source of
    /// the move, and nothing else is asked of the move.
    pub fn update(&mut self, m: ChessMove)
        requires
            old(self)@.on(m.source()) is Some,
            old(self)@.halfmoves < u64::MAX,
            old(self)@.fullmoves < u64::MAX,
        ensures
            final(self)@ == old(self)@.after(m.source(), m.dest()),
    {
        self.relocate(m);
        self.side_to_move = self.side_to_move.not();
        self.halfmoves += 1;
        if self.side_to_move == Color::White {
            self.fullmoves += 1;
        }
    }

    /// Verify if a move expose the king (used for legality).
    fn is_exposing_move(&self, m: ChessMove) -> (b: bool)
        requires
            self@.on(m.source()) is Some,
        ensures
            b == self@.exposing(m.source(), m.dest()),
    {
        match self.color_on(m.get_source()) {
            None => false,
            Some(side) => {
                let mut next_board = *self;
                next_board.relocate(m);
                proof {
                    lemma_same_pieces(next_board@, self@.after(m.source(), m.dest()));
                }
                next_board.is_checked(side)
            },
        }
    }

    /// Verify if the move of the piece on `from` (if any) to `to` is legal.
    fn is_legal_step(&self, from: Square, to: Square) -> (b: bool)
        ensures
            b == self@.legal(from, to),
    {
        match self.on(from) {
            None => false,
            Some((piece, side)) => {
                if !self.reaches(from, to) {
                    false
                } else if self.is_exposing_move(ChessMove::new(from, to)) {
                    false
                } else if piece == Piece::King {
                    !self.is_targeted(to, side.not())
                } else {
                    true
                }
            },
        }
    }

    /// Compute and return all the legal moves for a [`Piece`] (if exist) at a given [`Square`].
    ///
    /// If no [`Piece`] exist on the [`Square`] then return an empty [`Vec`].
    pub fn get_legal_moves(&self, from: Square) -> (moves: Vec<Square>)
        ensures
            moves@ == self@.legal_moves(from),
            forall|to: Square| #[trigger] moves@.contains(to) <==> self@.legal(from, to),
            moves@.no_duplicates(),
    {
        let mut moves: Vec<Square> = Vec::new();
        let mut i: usize = 0;
        while i < NUM_SQUARES
            invariant
                i <= 64,
                moves@ == squares_where(self@.legal_test(from), i as int),
            decreases 64 - i,
        {
            let to = Square::new(i);
            if self.is_legal_step(from, to) {
                moves.push(to);
            }
            i += 1;
        }
        proof {
            lemma_squares_where(self@.legal_test(from), 64);
            assert forall|to: Square| #[trigger] moves@.contains(to) <==> self@.legal(from, to) by {
                lemma_square_index(to);
            }
        }
        moves
    }

    /// Verify if the [`Piece`] on the [`Square`] has one or more legal moves.
    ///
    /// If no [`Piece`] exist on the [`Square`] then return false.
    pub fn has_legal_move(&self, square: Square) -> (b: bool)
        ensures
            b == self@.free(square),
    {
        let mut i: usize = 0;
        while i < NUM_SQUARES
            invariant
                i <= 64,
                forall|j: int| 0 <= j < i ==> !#[trigger] self@.legal(square, Square::at(j)),
            decreases 64 - i,
        {
            if self.is_legal_step(square, Square::new(i)) {
                return true;
            }
            i += 1;
        }
        proof {
            assert forall|to: Square| !self@.legal(square, to) by {
                lemma_square_index(to);
                assert(Square::at(to.index()) == to);
            }
        }
        false
    }

    /// Check if the [`Move`][ChessMove] is valid. Legality is not verified.
    ///
    /// A move is valid if a piece of the side to move stands on its source
    /// and reaches its destination.
    pub fn is_valid(&self, m: ChessMove) -> (b: bool)
        ensures
            b == (self@.color_on(m.source()) == Some(self@.side_to_move) && self@.pseudo_legal(
                m.source(),
                m.dest(),
            )),
    {
        self.color_on_is(m.get_source(), self.side_to_move) && self.reaches(
            m.get_source(),
            m.get_dest(),
        )
    }

    /// Check if the [`Move`][ChessMove] is legal.
    ///
    /// A move is legal if a piece of the side to move stands on its source
    /// and may legally go to its destination.
    pub fn is_legal(&self, m: ChessMove) -> (b: bool)
        ensures
            b == (self@.color_on(m.source()) == Some(self@.side_to_move) && self@.legal(
                m.source(),
                m.dest(),
            )),
    {
        self.color_on_is(m.get_source(), self.side_to_move) && self.is_legal_step(
            m.get_source(),
            m.get_dest(),
        )
    }

    /// Verify if the given [`Square`] is pinned for the current side.
    ///
    /// A square is pinned if a piece of the side to move stands on it and
    /// has no legal move.
    pub fn is_pinned(&self, square: Square) -> (b: bool)
        ensures
            b == self@.pinned(square),
    {
        if self.color_on_is(square, self.side_to_move) {
            !self.has_legal_move(square)
        } else {
            false
        }
    }

    /// Get the piece pinned for the current side.
    pub fn pinned(&self) -> (pinned: Vec<Square>)
        ensures
            pinned@ == self@.pinned_squares(),
            forall|square: Square| #[trigger] pinned@.contains(square) <==> self@.pinned(square),
            pinned@.no_duplicates(),
    {
        let mut pinned: Vec<Square> = Vec::new();
        let mut i: usize = 0;
        while i < NUM_SQUARES
            invariant
                i <= 64,
                pinned@ == squares_where(self@.pin_test(), i as int),
            decreases 64 - i,
        {
            let square = Square::new(i);
            if self.is_pinned(square) {
                pinned.push(square);
            }
            i += 1;
        }
        proof {
            lemma_squares_where(self@.pin_test(), 64);
            assert forall|square: Square| #[trigger]
                pinned@.contains(square) <==> self@.pinned(square) by {
                lemma_square_index(square);
            }
        }
        pinned
    }

    /// Verify if some piece of the given [`Color`] has a legal move.
    fn has_any_legal_move(&self, side: Color) -> (b: bool)
        ensures
            b == self@.can_move(side),
    {
        let mut i: usize = 0;
        while i < NUM_SQUARES
            invariant
                i <= 64,
                forall|j: int|
                    0 <= j < i ==> !(self@.color_on(Square::at(j)) == Some(side)
                        && #[trigger] self@.free(Square::at(j))),
            decreases 64 - i,
        {
            let from = Square::new(i);
            if self.color_on_is(from, side) && self.has_legal_move(from) {
                return true;
            }
            i += 1;
        }
        proof {
            assert forall|from: Square|
                !(self@.color_on(from) == Some(side) && #[trigger] self@.free(from)) by {
                lemma_square_index(from);
                assert(Square::at(from.index()) == from);
            }
        }
        false
    }

    /// Get the [`State`][GameState] of the [`Board`].
    ///
    /// The side to move is checkmated if it is in check and has no legal
    /// move; the game is a stalemate if it is not in check and has no legal
    /// move; otherwise the game goes on.
    pub fn state(&self) -> (state: GameState)
        ensures
            state == self@.outcome(),
    {
        if self.has_any_legal_move(self.side_to_move) {
            GameState::Ongoing
        } else if self.is_check() {
            GameState::Checkmates(self.side_to_move)
        } else {
            GameState::Stalemate
        }
    }

    /// Construct a [`vector`][Vec] of [`Square`] from a [`Square`] (exclusive) to the first [`Piece`]
    /// (inclusive) with a given direction.
    ///
    /// Where no piece stands in that direction, the line ends at the edge of
    /// the board.
    pub fn get_line(&self, from: Square, direction: Direction) -> (line: Vec<Square>)
        ensures
            line@ == self@.line(from, direction),
    {
        let dc: i8 = direction.file_step();
        let dr: i8 = direction.rank_step();
        let mut line: Vec<Square> = Vec::new();
        let mut col: i8 = from.file().to_index() as i8;
        let mut row: i8 = from.rank().to_index() as i8;
        let mut steps: u8 = 7;
        while steps > 0 && 0 <= col + dc && col + dc < 8 && 0 <= row + dr && row + dr < 8
            invariant_except_break
                self@.line(from, direction) == line@ + self@.line_from(
                    col as int,
                    row as int,
                    dc as int,
                    dr as int,
                    steps as nat,
                ),
            invariant
                on_board(col as int, row as int),
                -1 <= dc <= 1,
                -1 <= dr <= 1,
                steps <= 7,
            ensures
                self@.line(from, direction) == line@,
            decreases steps,
        {
            let ghost before = line@;
            col = col + dc;
            row = row + dr;
            steps = steps - 1;
            line.push(Square::new(col as usize + 8 * (row as usize)));
            proof {
                let rest = self@.line_from(col as int, row as int, dc as int, dr as int, steps as nat);
                assert(before + (seq![Square::on(col as int, row as int)] + rest) =~= line@ + rest);
                assert(before + seq![Square::on(col as int, row as int)] =~= line@);
            }
            if self.cell(col, row).is_some() {
                break ;
            }
        }
        line
    }

    /// The position at the start of a game.
    pub open spec fn starting() -> Position {
        Position {
            squares: Seq::new(64, |i: int| starting_occupant(i % 8, i / 8)),
            side_to_move: Color::White,
            white_rights: CastleRights::Both,
            black_rights: CastleRights::Both,
            en_passant: None,
            halfmoves: 0,
            fullmoves: 1,
        }
    }

    /// The text of this board in the position notation.
    pub fn to_string(&self) -> (s: String)
        ensures
            s@ == fen(self@),
    {
        let mut out: Vec<char> = Vec::new();
        write_placement(&mut out, &self.squares);
        out.push(' ');
        out.push(
            match self.side_to_move {
                Color::White => 'w',
                Color::Black => 'b',
            },
        );
        out.push(' ');
        write_castling(&mut out, self.castle_rights[0], self.castle_rights[1]);
        out.push(' ');
        write_target(&mut out, self.en_passant);
        out.push(' ');
        push_decimal(&mut out, self.halfmoves);
        out.push(' ');
        push_decimal(&mut out, self.fullmoves);
        proof {
            assert(out@ =~= fen(self@));
        }
        string_of(&out)
    }

    /// Read a board from its text in the position notation.
    ///
    /// The text has six fields separated by single spaces: the piece
    /// placement, the side to move, the castling rights, the en-passant
    /// target, the half-move counter and the full-move number. An en-passant
    /// field that names no square gives no target; a counter that is no
    /// number gives 0 half-moves, or the full move 1.
    ///
    /// # Errors
    ///
    /// - [`Error::InvalidFen`]: the text has fewer than six fields, its
    ///   placement field holds an unrecognized character, or its side field
    ///   names no side.
    pub fn from_str(value: &str) -> (r: Result<Board, Error>)
        ensures
            match parse_fen(value@) {
                Some(position) => r is Ok && r->Ok_0@ == position,
                None => r is Err && r->Err_0 is InvalidFen && r->Err_0->fen@ == value@,
            },
    {
        let chars = chars_of(value);
        let parts = split_fields(&chars);
        if parts.len() < 6 {
            return Err(Error::InvalidFen { fen: value.to_owned() });
        }
        let squares = match read_squares(&parts[0]) {
            Some(squares) => squares,
            None => {
                return Err(Error::InvalidFen { fen: value.to_owned() });
            },
        };
        let side = match read_side(&parts[1]) {
            Some(side) => side,
            None => {
                return Err(Error::InvalidFen { fen: value.to_owned() });
            },
        };
        let white = CastleRights::from_sides(holds(&parts[2], 'K'), holds(&parts[2], 'Q'));
        let black = CastleRights::from_sides(holds(&parts[2], 'k'), holds(&parts[2], 'q'));
        let halfmoves = match parse_number(&parts[4]) {
            Some(n) => n,
            None => 0,
        };
        let fullmoves = match parse_number(&parts[5]) {
            Some(n) => n,
            None => 1,
        };
        Ok(
            Board {
                squares,
                side_to_move: side,
                castle_rights: [white, black],
                en_passant: Square::from_chars(&parts[3]),
                halfmoves,
                fullmoves,
            },
        )
    }
}

/// Let a pawn of `side` that has arrived on `to` capture en passant and promote.
fn settle_pawn(
    squares: &mut [Option<(Piece, Color)>; NUM_SQUARES],
    side: Color,
    to: Square,
    on_target: bool,
)
    ensures
        final(squares)@ == pawn_arrival(old(squares)@, side, to, on_target),
{
    let ahead: i8 = match side {
        Color::White => 1,
        Color::Black => -1,
    };
    proof {
        lemma_square_index(to);
        if on_board(to.col(), to.row() - ahead) {
            lemma_square_on(to.col(), to.row() - ahead);
        }
    }
    if on_target {
        match to.offset(0, -ahead) {
            Some(behind) => {
                squares[behind.to_index()] = None;
            },
            None => {},
        }
    }
    if to.rank() == Rank::First || to.rank() == Rank::Eighth {
        squares[to.to_index()] = Some((Piece::Queen, side));
    }
}

/// Let the rook that a king of `side`, arrived on `to`, finds two files
/// beside it go to the other side of the king.
fn settle_king(squares: &mut [Option<(Piece, Color)>; NUM_SQUARES], side: Color, to: Square)
    ensures
        final(squares)@ == king_arrival(old(squares)@, side, to),
{
    let col = to.file().to_index();
    let index = to.to_index();
    if 1 <= col && col <= 5 && holds_rook(squares, index + 2, side) {
        squares[index + 2] = None;
        squares[index - 1] = Some((Piece::Rook, side));
    } else if 2 <= col && col <= 6 && holds_rook(squares, index - 2, side) {
        squares[index - 2] = None;
        squares[index + 1] = Some((Piece::Rook, side));
    }
}

/// Verify if a rook of the given side stands on the square with the given index.
fn holds_rook(squares: &[Option<(Piece, Color)>; NUM_SQUARES], index: usize, side: Color) -> (b:
    bool)
    requires
        index < 64,
    ensures
        b == (squares@[index as int] == Some((Piece::Rook, side))),
{
    match squares[index] {
        Some((Piece::Rook, color)) => color == side,
        _ => false,
    }
}

impl Default for Board {
    /// The board at the start of a game.
    fn default() -> (board: Board)
        ensures
            board@ == Board::starting(),
    {
        Board {
            squares: starting_squares(),
            side_to_move: Color::White,
            castle_rights: [CastleRights::Both, CastleRights::Both],
            en_passant: None,
            halfmoves: 0,
            fullmoves: 1,
        }
    }
}

/// What starts a game on each square.
fn starting_squares() -> (squares: [Option<(Piece, Color)>; NUM_SQUARES])
    ensures
        squares@ == Board::starting().squares,
{
    let mut squares: [Option<(Piece, Color)>; NUM_SQUARES] = [None;NUM_SQUARES];
    let mut i: usize = 0;
    while i < NUM_SQUARES
        invariant
            i <= 64,
            forall|j: int|
                0 <= j < i ==> (#[trigger] squares@[j]) == starting_occupant(j % 8, j / 8),
        decreases 64 - i,
    {
        let col = i % 8;
        let row = i / 8;
        let piece = if col == 0 || col == 7 {
            Piece::Rook
        } else if col == 1 || col == 6 {
            Piece::Knight
        } else if col == 2 || col == 5 {
            Piece::Bishop
        } else if col == 3 {
            Piece::Queen
        } else {
            Piece::King
        };
        squares[i] = if row == 0 {
            Some((piece, Color::White))
        } else if row == 1 {
            Some((Piece::Pawn, Color::White))
        } else if row == 6 {
            Some((Piece::Pawn, Color::Black))
        } else if row == 7 {
            Some((piece, Color::Black))
        } else {
            None
        };
        i += 1;
    }
    proof {
        assert(squares@ =~= Board::starting().squares);
    }
    squares
}

impl FromStr for Board {
    type Err = Error;

    /// Read a board from its text in the position notation, as
    /// [`Board::from_str`] does.
    fn from_str(value: &str) -> (r: Result<Board, Error>)
        ensures
            match parse_fen(value@) {
                Some(position) => r is Ok && r->Ok_0@ == position,
                None => r is Err && r->Err_0 is InvalidFen && r->Err_0->fen@ == value@,
            },
    {
        Board::from_str(value)
    }
}

/// The piece that starts a game on the given file of the first and eighth ranks.
pub open spec fn starting_piece(col: int) -> Piece {
    if col == 0 || col == 7 {
        Piece::Rook
    } else if col == 1 || col == 6 {
        Piece::Knight
    } else if col == 2 || col == 5 {
        Piece::Bishop
    } else if col == 3 {
        Piece::Queen
    } else {
        Piece::King
    }
}

/// What starts a game on the square with the given file and rank indices.
pub open spec fn starting_occupant(col: int, row: int) -> Option<(Piece, Color)> {
    if row == 0 {
        Some((starting_piece(col), Color::White))
    } else if row == 1 {
        Some((Piece::Pawn, Color::White))
    } else if row == 6 {
        Some((Piece::Pawn, Color::Black))
    } else if row == 7 {
        Some((starting_piece(col), Color::Black))
    } else {
        None
    }
}

/// Append the text of one rank to `out`.
fn write_rank(out: &mut Vec<char>, squares: &[Option<(Piece, Color)>; NUM_SQUARES], row: usize)
    requires
        row < 8,
    ensures
        final(out)@ == old(out)@ + rank_text(squares@, row as int, 0, 0),
{
    let mut run: u64 = 0;
    let mut col: usize = 0;
    while col < 8
        invariant
            row < 8,
            run <= col <= 8,
            old(out)@ + rank_text(squares@, row as int, 0, 0) == out@ + rank_text(
                squares@,
                row as int,
                col as int,
                run as int,
            ),
        decreases 8 - col,
    {
        let ghost before = out@;
        let ghost rest = rank_text(squares@, row as int, col + 1, 0);
        match squares[col + 8 * row] {
            Some((piece, color)) => {
                if run != 0 {
                    push_decimal(out, run);
                    run = 0;
                }
                out.push(piece.to_char(color));
                proof {
                    let gap = out@.subrange(before.len() as int, out@.len() - 1);
                    assert(out@ =~= before + gap + seq![piece.letter(color)]);
                    assert(out@ + rest =~= before + (gap + seq![piece.letter(color)] + rest));
                }
            },
            None => {
                run += 1;
            },
        }
        col += 1;
    }
    if run != 0 {
        push_decimal(out, run);
    }
}

/// Append the piece placement field to `out`.
fn write_placement(out: &mut Vec<char>, squares: &[Option<(Piece, Color)>; NUM_SQUARES])
    ensures
        final(out)@ == old(out)@ + placement(squares@),
{
    let mut row: usize = 7;
    while row > 0
        invariant
            row < 8,
            old(out)@ + placement(squares@) == out@ + ranks_text(squares@, row as int),
        decreases row,
    {
        let ghost before = out@;
        write_rank(out, squares, row);
        out.push('/');
        proof {
            assert(out@ + ranks_text(squares@, row - 1) =~= before + (rank_text(
                squares@,
                row as int,
                0,
                0,
            ) + seq!['/'] + ranks_text(squares@, row - 1)));
        }
        row -= 1;
    }
    write_rank(out, squares, 0);
}

/// Append the castling field of two sides to `out`.
fn write_castling(out: &mut Vec<char>, white: CastleRights, black: CastleRights)
    ensures
        final(out)@ == old(out)@ + castling_text(white, black),
{
    if white == CastleRights::NoRights && black == CastleRights::NoRights {
        out.push('-');
    } else {
        write_rights(out, white, Color::White);
        write_rights(out, black, Color::Black);
    }
    proof {
        assert(final(out)@ =~= old(out)@ + castling_text(white, black));
    }
}

/// Append the letters of the castling rights of one side to `out`.
fn write_rights(out: &mut Vec<char>, rights: CastleRights, side: Color)
    ensures
        final(out)@ == old(out)@ + rights.letters(side),
{
    if rights.has_kingside() {
        out.push(
            match side {
                Color::White => 'K',
                Color::Black => 'k',
            },
        );
    }
    if rights.has_queenside() {
        out.push(
            match side {
                Color::White => 'Q',
                Color::Black => 'q',
            },
        );
    }
    proof {
        assert(final(out)@ =~= old(out)@ + rights.letters(side));
    }
}

/// Append the en-passant field to `out`.
fn write_target(out: &mut Vec<char>, target: Option<Square>)
    ensures
        final(out)@ == old(out)@ + target_text(target),
{
    match target {
        Some(square) => {
            out.push(square.file().to_char());
            out.push(square.rank().to_char());
        },
        None => {
            out.push('-');
        },
    }
    proof {
        assert(final(out)@ =~= old(out)@ + target_text(target));
    }
}

/// Read the squares of a board from a piece placement field.
fn read_squares(chars: &Vec<char>) -> (r: Option<[Option<(Piece, Color)>; NUM_SQUARES]>)
    ensures
        match read_placement(start(), chars@) {
            Some(cursor) => r is Some && r->0@ == cursor.squares,
            None => r is None,
        },
{
    let mut squares: [Option<(Piece, Color)>; NUM_SQUARES] = [None;NUM_SQUARES];
    let mut col: usize = 0;
    let mut row: usize = 7;
    let mut i: usize = 0;
    proof {
        assert(squares@ =~= start().squares);
        assert(chars@.take(0) =~= Seq::<char>::empty());
    }
    while i < chars.len()
        invariant
            i <= chars.len(),
            col < 8,
            row < 8,
            read_placement(start(), chars@.take(i as int)) == Some(
                Cursor { squares: squares@, col: col as int, row: row as int },
            ),
        decreases chars.len() - i,
    {
        let c = chars[i];
        proof {
            assert(chars@.take(i + 1).drop_last() =~= chars@.take(i as int));
            assert(chars@.take(i + 1).last() == c);
        }
        if c == '/' {
            col = 0;
            row = if row == 0 {
                7
            } else {
                row - 1
            };
        } else {
            match Piece::from_char(c) {
                Some(occupant) => {
                    proof {
                        assert(digit_of(c) is None);
                    }
                    squares[col + 8 * row] = Some(occupant);
                    col = (col + 1) % 8;
                },
                None => {
                    let skip: usize = match c {
                        '1' => 1,
                        '2' => 2,
                        '3' => 3,
                        '4' => 4,
                        '5' => 5,
                        '6' => 6,
                        '7' => 7,
                        '8' => 8,
                        _ => {
                            proof {
                                lemma_read_fails(start(), chars@, i + 1);
                            }
                            return None;
                        },
                    };
                    col = (col + skip) % 8;
                },
            }
        }
        i += 1;
    }
    proof {
        assert(chars@.take(i as int) =~= chars@);
    }
    Some(squares)
}

/// Read the side to move from a side field.
fn read_side(chars: &Vec<char>) -> (side: Option<Color>)
    ensures
        side == side_named(chars@),
{
    if chars.len() != 1 {
        None
    } else if chars[0] == 'w' || chars[0] == 'W' {
        Some(Color::White)
    } else if chars[0] == 'b' || chars[0] == 'B' {
        Some(Color::Black)
    } else {
        None
    }
}

/// Verify if a text holds a character.
fn holds(chars: &Vec<char>, c: char) -> (b: bool)
    ensures
        b == chars@.contains(c),
{
    let mut i: usize = 0;
    while i < chars.len()
        invariant
            i <= chars.len(),
            forall|j: int| 0 <= j < i ==> chars@[j] != c,
        decreases chars.len() - i,
    {
        if chars[i] == c {
            return true;
        }
        i += 1;
    }
    false
}

/// One step from `from` towards `to`: -1, 0 or 1.
fn step_towards(from: i8, to: i8) -> (step: i8)
    ensures
        step == sign(to - from),
{
    if to > from {
        1
    } else if to < from {
        -1
    } else {
        0
    }
}

} // verus!
