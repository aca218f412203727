//! The mathematical model of a chess position and of the rules of movement.
//!
//! A [`Position`] is what a board holds, as plain mathematical values. All
//! the rules are stated here as specification functions over it: which
//! squares a piece reaches, when a square is attacked, when a side is in
//! check, what a move leaves behind and when a move is legal.

use crate::castle_rights::CastleRights;
use crate::color::Color;
use crate::direction::Direction;
use crate::game_state::GameState;
use crate::piece::Piece;
use crate::square::{lemma_square_at, lemma_square_index, on_board, Square};
use vstd::prelude::*;

verus! {

/// What a board holds.
pub struct Position {
    /// What stands on each of the 64 squares, by the index of the square.
    pub squares: Seq<Option<(Piece, Color)>>,
    /// The side that has to play.
    pub side_to_move: Color,
    /// The castling rights of White.
    pub white_rights: CastleRights,
    /// The castling rights of Black.
    pub black_rights: CastleRights,
    /// The square that a pawn has just passed over with a two-square advance.
    pub en_passant: Option<Square>,
    /// The number of moves counted for the fifty-move rule.
    pub halfmoves: nat,
    /// The number of the current full move.
    pub fullmoves: nat,
}

/// -1, 0 or 1 as `x` is negative, zero or positive.
pub open spec fn sign(x: int) -> int {
    if x > 0 {
        1
    } else if x < 0 {
        -1
    } else {
        0
    }
}

/// The absolute value of `x`.
pub open spec fn magnitude(x: int) -> int {
    if x < 0 {
        -x
    } else {
        x
    }
}

/// The direction in which the pawns of a side advance: up for White, down for Black.
pub open spec fn forward(side: Color) -> int {
    match side {
        Color::White => 1,
        Color::Black => -1,
    }
}

/// The index of the rank on which the pawns of a side start.
pub open spec fn pawn_home(side: Color) -> int {
    match side {
        Color::White => 1,
        Color::Black => 6,
    }
}

/// The corner on which a rook of the given side starts.
pub open spec fn rook_home(side: Color, kingside: bool) -> Square {
    match side {
        Color::White => if kingside {
            Square::H1
        } else {
            Square::A1
        },
        Color::Black => if kingside {
            Square::H8
        } else {
            Square::A8
        },
    }
}

/// A step of `dc` files and `dr` ranks goes along a rank or a file.
pub open spec fn straight(dc: int, dr: int) -> bool {
    (dc == 0) != (dr == 0)
}

/// A step of `dc` files and `dr` ranks goes along a diagonal.
pub open spec fn diagonal(dc: int, dr: int) -> bool {
    dc != 0 && magnitude(dc) == magnitude(dr)
}

/// A step of `dc` files and `dr` ranks is a knight's jump.
pub open spec fn knight_jump(dc: int, dr: int) -> bool {
    (magnitude(dc) == 1 && magnitude(dr) == 2) || (magnitude(dc) == 2 && magnitude(dr) == 1)
}

/// A step of `dc` files and `dr` ranks leads to a neighbouring square.
pub open spec fn king_step(dc: int, dr: int) -> bool {
    magnitude(dc) <= 1 && magnitude(dr) <= 1 && (dc != 0 || dr != 0)
}

/// The square `(col, row)` lies strictly between `(from_col, from_row)` and
/// `(to_col, to_row)` on the rank, file or diagonal that joins them.
pub open spec fn between(
    from_col: int,
    from_row: int,
    col: int,
    row: int,
    to_col: int,
    to_row: int,
) -> bool {
    let dc = to_col - from_col;
    let dr = to_row - from_row;
    let ec = col - from_col;
    let er = row - from_row;
    &&& straight(dc, dr) || diagonal(dc, dr)
    &&& sign(ec) == sign(dc)
    &&& sign(er) == sign(dr)
    &&& magnitude(ec) < magnitude(dc) || magnitude(er) < magnitude(dr)
    &&& dc != 0 && dr != 0 ==> magnitude(ec) == magnitude(er)
}

/// The squares with an index below `n` that `pick` holds of, in the order of
/// their indices.
pub open spec fn squares_where(pick: spec_fn(Square) -> bool, n: int) -> Seq<Square>
    decreases n,
{
    if n <= 0 {
        Seq::empty()
    } else if pick(Square::at(n - 1)) {
        squares_where(pick, n - 1).push(Square::at(n - 1))
    } else {
        squares_where(pick, n - 1)
    }
}

/// `squares_where(pick, n)` holds exactly the squares with an index below `n`
/// that `pick` holds of, each once, by ascending index.
pub proof fn lemma_squares_where(pick: spec_fn(Square) -> bool, n: int)
    requires
        0 <= n <= 64,
    ensures
        forall|square: Square| #[trigger]
            squares_where(pick, n).contains(square) <==> square.index() < n && pick(square),
        forall|i: int, j: int|
            0 <= i < j < squares_where(pick, n).len() ==> (#[trigger] squares_where(
                pick,
                n,
            )[i]).index() < (#[trigger] squares_where(pick, n)[j]).index(),
        squares_where(pick, n).no_duplicates(),
        squares_where(pick, n).len() <= n,
    decreases n,
{
    let all = squares_where(pick, n);
    if n > 0 {
        lemma_squares_where(pick, n - 1);
        let before = squares_where(pick, n - 1);
        let last = Square::at(n - 1);
        lemma_square_at(n - 1);
        assert forall|square: Square| #[trigger]
            all.contains(square) <==> square.index() < n && pick(square) by {
            lemma_square_index(square);
            if pick(last) {
                assert(all == before.push(last));
                assert(all[before.len() as int] == last);
                if all.contains(square) {
                    let k = choose|k: int| 0 <= k < all.len() && all[k] == square;
                    if k < before.len() {
                        assert(before[k] == square);
                        assert(before.contains(square));
                    }
                }
                if square.index() < n && pick(square) {
                    if square.index() < n - 1 {
                        assert(before.contains(square));
                        let k = choose|k: int| 0 <= k < before.len() && before[k] == square;
                        assert(all[k] == square);
                    }
                }
            }
        }
        assert forall|i: int, j: int| 0 <= i < j < all.len() implies (#[trigger] all[i]).index() < (
        #[trigger] all[j]).index() by {
            if pick(last) {
                if j == before.len() {
                    assert(before.contains(before[i]));
                } else {
                    assert(all[i] == before[i] && all[j] == before[j]);
                }
            }
        }
    }
}

/// Where `king_from` finds a king, the king of that color stands, and no
/// square from `start` up to there holds one.
pub proof fn lemma_king_from(position: Position, color: Color, start: int)
    requires
        position.wf(),
        0 <= start,
    ensures
        match position.king_from(color, start) {
            Some(king) => start <= king.index() < 64 && position.on(king) == Some(
                (Piece::King, color),
            ) && forall|i: int|
                start <= i < king.index() ==> #[trigger] position.squares[i] != Some(
                    (Piece::King, color),
                ),
            None => forall|i: int|
                start <= i < 64 ==> #[trigger] position.squares[i] != Some((Piece::King, color)),
        },
    decreases 64 - start,
{
    if start < 64 {
        lemma_square_at(start);
        if position.squares[start] != Some((Piece::King, color)) {
            lemma_king_from(position, color, start + 1);
        }
    }
}

/// The squares once a pawn of `side` has arrived on `to`. If it has arrived
/// on the en-passant target, the square one rank behind it is emptied. If it
/// has arrived on the first or the eighth rank, it becomes a queen.
pub open spec fn pawn_arrival(
    base: Seq<Option<(Piece, Color)>>,
    side: Color,
    to: Square,
    on_target: bool,
) -> Seq<Option<(Piece, Color)>> {
    let back = to.row() - forward(side);
    let taken = if on_target && 0 <= back < 8 {
        base.update(to.col() + 8 * back, None)
    } else {
        base
    };
    if to.row() == 0 || to.row() == 7 {
        taken.update(to.index(), Some((Piece::Queen, side)))
    } else {
        taken
    }
}

/// The squares once a king of `side` has arrived on `to`. A rook of its side
/// that stands two files to the right of it goes to the square on the left of
/// the king; failing that, one that stands two files to the left of it goes to
/// the square on the right of the king.
pub open spec fn king_arrival(base: Seq<Option<(Piece, Color)>>, side: Color, to: Square) -> Seq<
    Option<(Piece, Color)>,
> {
    if 1 <= to.col() <= 5 && base[to.index() + 2] == Some((Piece::Rook, side)) {
        base.update(to.index() + 2, None).update(to.index() - 1, Some((Piece::Rook, side)))
    } else if 2 <= to.col() <= 6 && base[to.index() - 2] == Some((Piece::Rook, side)) {
        base.update(to.index() - 2, None).update(to.index() + 1, Some((Piece::Rook, side)))
    } else {
        base
    }
}

/// Two positions with the same squares and the same en-passant target agree
/// on where the pieces reach, on which squares are targeted and on who is in
/// check: the turn, the castling rights and the counters play no part in it.
pub proof fn lemma_same_pieces(a: Position, b: Position)
    requires
        a.squares == b.squares,
        a.en_passant == b.en_passant,
    ensures
        forall|from: Square, to: Square| #[trigger]
            a.pseudo_legal(from, to) == b.pseudo_legal(from, to),
        forall|square: Square, by: Color| #[trigger]
            a.targeted(square, by) == b.targeted(square, by),
        forall|color: Color| #[trigger] a.in_check(color) == b.in_check(color),
{
    assert forall|from: Square, to: Square| #[trigger]
        a.pseudo_legal(from, to) == b.pseudo_legal(from, to) by {
        assert(a.on(from) == b.on(from));
        assert(a.on(to) == b.on(to));
        assert(a.open_line(from, to) == b.open_line(from, to)) by {
            if a.open_line(from, to) {
                assert forall|col: int, row: int|
                    between(from.col(), from.row(), col, row, to.col(), to.row()) implies (
                #[trigger] b.at(col, row)) is None by {
                    assert(a.at(col, row) is None);
                }
            }
            if b.open_line(from, to) {
                assert forall|col: int, row: int|
                    between(from.col(), from.row(), col, row, to.col(), to.row()) implies (
                #[trigger] a.at(col, row)) is None by {
                    assert(b.at(col, row) is None);
                }
            }
        }
    }
    assert forall|square: Square, by: Color| #[trigger]
        a.targeted(square, by) == b.targeted(square, by) by {
        if a.targeted(square, by) {
            let from = choose|from: Square|
                a.color_on(from) == Some(by) && #[trigger] a.pseudo_legal(from, square);
            assert(b.color_on(from) == Some(by) && b.pseudo_legal(from, square));
        }
        if b.targeted(square, by) {
            let from = choose|from: Square|
                b.color_on(from) == Some(by) && #[trigger] b.pseudo_legal(from, square);
            assert(a.color_on(from) == Some(by) && a.pseudo_legal(from, square));
        }
    }
    assert forall|color: Color| #[trigger] a.in_check(color) == b.in_check(color) by {
        lemma_same_king(a, b, color, 0);
    }
}

/// Two positions with the same squares have their kings on the same squares.
pub proof fn lemma_same_king(a: Position, b: Position, color: Color, start: int)
    requires
        a.squares == b.squares,
    ensures
        a.king_from(color, start) == b.king_from(color, start),
    decreases 64 - start,
{
    if 0 <= start < 64 {
        lemma_same_king(a, b, color, start + 1);
    }
}

impl Position {
    /// A position has 64 squares, and its counters fit in 64 bits.
    pub open spec fn wf(self) -> bool {
        self.squares.len() == 64 && self.halfmoves <= u64::MAX && self.fullmoves <= u64::MAX
    }

    /// What stands on the square with the given file and rank indices;
    /// nothing outside the board.
    pub open spec fn at(self, col: int, row: int) -> Option<(Piece, Color)> {
        if on_board(col, row) {
            self.squares[col + 8 * row]
        } else {
            None
        }
    }

    /// What stands on a square.
    pub open spec fn on(self, square: Square) -> Option<(Piece, Color)> {
        self.squares[square.index()]
    }

    /// The piece on a square.
    pub open spec fn piece_on(self, square: Square) -> Option<Piece> {
        match self.on(square) {
            Some((piece, _)) => Some(piece),
            None => None,
        }
    }

    /// The color of the piece on a square.
    pub open spec fn color_on(self, square: Square) -> Option<Color> {
        match self.on(square) {
            Some((_, color)) => Some(color),
            None => None,
        }
    }

    /// The castling rights of a side.
    pub open spec fn rights(self, color: Color) -> CastleRights {
        match color {
            Color::White => self.white_rights,
            Color::Black => self.black_rights,
        }
    }

    /// Every square strictly between `from` and `to`, on the line that joins
    /// them, is empty.
    pub open spec fn open_line(self, from: Square, to: Square) -> bool {
        forall|col: int, row: int|
            between(from.col(), from.row(), col, row, to.col(), to.row()) ==> (#[trigger] self.at(
                col,
                row,
            )) is None
    }

    /// A pawn of `side` on `from` reaches `to`: one square forward onto an
    /// empty square; two squares forward from its starting rank over an empty
    /// square onto an empty square; or one square diagonally forward onto a
    /// piece of the other side or onto the en-passant target.
    pub open spec fn pawn_reaches(self, side: Color, from: Square, to: Square) -> bool {
        let dc = to.col() - from.col();
        let dr = to.row() - from.row();
        ||| dc == 0 && dr == forward(side) && self.on(to) is None
        ||| dc == 0 && dr == 2 * forward(side) && from.row() == pawn_home(side) && self.at(
            from.col(),
            from.row() + forward(side),
        ) is None && self.on(to) is None
        ||| magnitude(dc) == 1 && dr == forward(side) && (self.color_on(to) == Some(side.other())
            || self.en_passant == Some(to))
    }

    /// The piece on `from` reaches `to` under the rules of movement of its
    /// kind. Whether the move would leave its own king in check is not asked.
    pub open spec fn pseudo_legal(self, from: Square, to: Square) -> bool {
        match self.on(from) {
            None => false,
            Some((piece, side)) => {
                let dc = to.col() - from.col();
                let dr = to.row() - from.row();
                match piece {
                    Piece::Pawn => self.pawn_reaches(side, from, to),
                    Piece::Knight => knight_jump(dc, dr) && self.color_on(to) != Some(side),
                    Piece::Bishop => diagonal(dc, dr) && self.open_line(from, to) && self.color_on(
                        to,
                    ) != Some(side),
                    Piece::Rook => straight(dc, dr) && self.open_line(from, to) && self.color_on(
                        to,
                    ) != Some(side),
                    Piece::Queen => (straight(dc, dr) || diagonal(dc, dr)) && self.open_line(
                        from,
                        to,
                    ) && self.color_on(to) != Some(side),
                    Piece::King => king_step(dc, dr) && self.color_on(to) != Some(side),
                }
            },
        }
    }

    /// Some piece of color `by` reaches `square`.
    pub open spec fn targeted(self, square: Square, by: Color) -> bool {
        exists|from: Square|
            self.color_on(from) == Some(by) && #[trigger] self.pseudo_legal(from, square)
    }

    /// The first square, by index, from `start` on that holds the king of `color`.
    pub open spec fn king_from(self, color: Color, start: int) -> Option<Square>
        decreases 64 - start,
    {
        if start < 0 || start >= 64 {
            None
        } else if self.squares[start] == Some((Piece::King, color)) {
            Some(Square::at(start))
        } else {
            self.king_from(color, start + 1)
        }
    }

    /// The square of the king of `color`: the first one by index, if the
    /// position holds several; none if it holds no such king.
    pub open spec fn king_of(self, color: Color) -> Option<Square> {
        self.king_from(color, 0)
    }

    /// The king of `color` stands on a square that the other side targets.
    /// A side without a king is not in check.
    pub open spec fn in_check(self, color: Color) -> bool {
        match self.king_of(color) {
            Some(king) => self.targeted(king, color.other()),
            None => false,
        }
    }

    /// What stands on the squares once the piece on `from` has gone to `to`.
    ///
    /// The piece leaves `from` and stands on `to`; then what [`pawn_arrival`]
    /// says of a pawn and [`king_arrival`] of a king.
    pub open spec fn squares_after(self, from: Square, to: Square) -> Seq<Option<(Piece, Color)>>
        recommends
            self.on(from) is Some,
    {
        let (piece, side) = self.on(from)->0;
        let base = self.squares.update(from.index(), None).update(
            to.index(),
            Some((piece, side)),
        );
        match piece {
            Piece::Pawn => pawn_arrival(base, side, to, self.en_passant == Some(to)),
            Piece::King => king_arrival(base, side, to),
            _ => base,
        }
    }

    /// The en-passant target once the piece on `from` has gone to `to`: the
    /// square passed over, if a pawn has advanced two squares along its file;
    /// none otherwise.
    pub open spec fn en_passant_after(self, from: Square, to: Square) -> Option<Square>
        recommends
            self.on(from) is Some,
    {
        let (piece, side) = self.on(from)->0;
        if piece == Piece::Pawn && to.col() == from.col() && to.row() == from.row() + 2 * forward(
            side,
        ) {
            Some(Square::on(from.col(), from.row() + forward(side)))
        } else {
            None
        }
    }

    /// The castling rights of `color` once the piece on `from` has gone to `to`.
    ///
    /// A side loses all its rights when its king moves, the rights of one
    /// wing when its rook leaves the corner of that wing, and likewise when
    /// its rook is captured on that corner.
    pub open spec fn rights_after(self, color: Color, from: Square, to: Square) -> CastleRights
        recommends
            self.on(from) is Some,
    {
        let (piece, side) = self.on(from)->0;
        let rights = self.rights(color);
        if color == side {
            if piece == Piece::King {
                CastleRights::NoRights
            } else if piece == Piece::Rook && from == rook_home(side, true) {
                rights.without(CastleRights::KingSide)
            } else if piece == Piece::Rook && from == rook_home(side, false) {
                rights.without(CastleRights::QueenSide)
            } else {
                rights
            }
        } else {
            if self.on(to) == Some((Piece::Rook, color)) && to == rook_home(color, true) {
                rights.without(CastleRights::KingSide)
            } else if self.on(to) == Some((Piece::Rook, color)) && to == rook_home(color, false) {
                rights.without(CastleRights::QueenSide)
            } else {
                rights
            }
        }
    }

    /// The position once the piece on `from` has gone to `to`, before the
    /// turn passes: the squares, the en-passant target and the castling
    /// rights are those after the move.
    pub open spec fn relocated(self, from: Square, to: Square) -> Position
        recommends
            self.on(from) is Some,
    {
        Position {
            squares: self.squares_after(from, to),
            white_rights: self.rights_after(Color::White, from, to),
            black_rights: self.rights_after(Color::Black, from, to),
            en_passant: self.en_passant_after(from, to),
            ..self
        }
    }

    /// The position after the move from `from` to `to`: the pieces have
    /// moved, the turn has passed to the other side, the half-move counter
    /// has gone up by one, and the full-move counter has gone up by one if
    /// White is to play again.
    pub open spec fn after(self, from: Square, to: Square) -> Position
        recommends
            self.on(from) is Some,
    {
        let next = self.side_to_move.other();
        Position {
            side_to_move: next,
            halfmoves: self.halfmoves + 1,
            fullmoves: if next == Color::White {
                self.fullmoves + 1
            } else {
                self.fullmoves
            },
            ..self.relocated(from, to)
        }
    }

    /// The move from `from` to `to` leaves the king of the side that moved in check.
    pub open spec fn exposing(self, from: Square, to: Square) -> bool
        recommends
            self.on(from) is Some,
    {
        self.after(from, to).in_check(self.color_on(from)->0)
    }

    /// The move from `from` to `to` is legal: the piece reaches `to`, the
    /// move does not leave its own king in check, and a king does not go to a
    /// square that the other side targets.
    pub open spec fn legal(self, from: Square, to: Square) -> bool {
        &&& self.pseudo_legal(from, to)
        &&& !self.exposing(from, to)
        &&& self.piece_on(from) == Some(Piece::King) ==> !self.targeted(
            to,
            self.color_on(from)->0.other(),
        )
    }

    /// The test of a square: the piece on `from` reaches it.
    pub open spec fn reach_test(self, from: Square) -> spec_fn(Square) -> bool {
        |to: Square| self.pseudo_legal(from, to)
    }

    /// The test of a square: the move from `from` to it is legal.
    pub open spec fn legal_test(self, from: Square) -> spec_fn(Square) -> bool {
        |to: Square| self.legal(from, to)
    }

    /// The test of a square: it is pinned.
    pub open spec fn pin_test(self) -> spec_fn(Square) -> bool {
        |square: Square| self.pinned(square)
    }

    /// The squares that the piece on `from` reaches, by ascending index.
    pub open spec fn valid_moves(self, from: Square) -> Seq<Square> {
        squares_where(self.reach_test(from), 64)
    }

    /// The squares to which the piece on `from` may legally go, by ascending index.
    pub open spec fn legal_moves(self, from: Square) -> Seq<Square> {
        squares_where(self.legal_test(from), 64)
    }

    /// The pinned squares, by ascending index.
    pub open spec fn pinned_squares(self) -> Seq<Square> {
        squares_where(self.pin_test(), 64)
    }

    /// The squares met on the way from the square `(col, row)`, itself left
    /// out, by steps of `dc` files and `dr` ranks: every empty square up to the
    /// edge of the board, or up to the first piece, whose square is the last
    /// of the line. No more than `steps` squares are looked at.
    pub open spec fn line_from(self, col: int, row: int, dc: int, dr: int, steps: nat) -> Seq<
        Square,
    >
        decreases steps,
    {
        if steps == 0 || !on_board(col + dc, row + dr) {
            Seq::empty()
        } else if self.at(col + dc, row + dr) is Some {
            seq![Square::on(col + dc, row + dr)]
        } else {
            seq![Square::on(col + dc, row + dr)] + self.line_from(
                col + dc,
                row + dr,
                dc,
                dr,
                (steps - 1) as nat,
            )
        }
    }

    /// The squares from `from`, itself left out, in the given direction:
    /// every empty square up to the edge of the board, or up to the first
    /// piece, whose square is the last of the line.
    pub open spec fn line(self, from: Square, direction: Direction) -> Seq<Square> {
        self.line_from(from.col(), from.row(), direction.files(), direction.ranks(), 7)
    }

    /// The piece on `from` reaches some square.
    pub open spec fn mobile(self, from: Square) -> bool {
        exists|to: Square| self.pseudo_legal(from, to)
    }

    /// The piece on `from` has some legal move.
    pub open spec fn free(self, from: Square) -> bool {
        exists|to: Square| self.legal(from, to)
    }

    /// A piece of the side to move stands on `square` and has no legal move.
    pub open spec fn pinned(self, square: Square) -> bool {
        self.color_on(square) == Some(self.side_to_move) && !self.free(square)
    }

    /// Some piece of `side` has a legal move.
    pub open spec fn can_move(self, side: Color) -> bool {
        exists|from: Square| self.color_on(from) == Some(side) && #[trigger] self.free(from)
    }

    /// How the game stands for the side to move: checkmated if it is in check
    /// and has no legal move, stalemate if it is not in check and has no legal
    /// move, ongoing otherwise.
    pub open spec fn outcome(self) -> GameState {
        if self.can_move(self.side_to_move) {
            GameState::Ongoing
        } else if self.in_check(self.side_to_move) {
            GameState::Checkmates(self.side_to_move)
        } else {
            GameState::Stalemate
        }
    }
}

} // verus!
