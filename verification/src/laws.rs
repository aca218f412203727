//! What holds of every position, of every move and of every game.

use crate::board::{starting_occupant, Board};
use crate::chess::Session;
use crate::color::Color;
use crate::decimal::decimal;
use crate::direction::Direction;
use crate::fen::{fen, lemma_fen_round_trip, parse_fen, placement, rank_text, ranks_text};
use crate::file::File;
use crate::piece::Piece;
use crate::position::{
    between, diagonal, forward, lemma_king_from, magnitude, sign, straight, Position,
};
use crate::rank::Rank;
use crate::square::{lemma_square_index, lemma_square_on, on_board, Square};
use vstd::prelude::*;

verus! {

/// Reading the text of a board gives a board with the same view: the same
/// squares, side to move, castling rights, en-passant target and counters.
pub proof fn lemma_board_text_round_trip(board: Board)
    ensures
        parse_fen(fen(board@)) == Some(board@),
{
    board.lemma_view_wf();
    lemma_fen_round_trip(board@);
}

/// The square made of a file and a rank lies on that file and on that rank.
pub proof fn lemma_make_square(file: File, rank: Rank)
    ensures
        Square::on(file.index(), rank.index()).spec_file() == file,
        Square::on(file.index(), rank.index()).spec_rank() == rank,
        Square::on(file.index(), rank.index()).index() == file.index() + 8 * rank.index(),
{
    lemma_square_on(file.index(), rank.index());
}

/// A pawn that arrives on the first or the eighth rank becomes a queen of its
/// own color, whatever the move was.
pub proof fn lemma_promotion(position: Position, from: Square, to: Square)
    requires
        position.wf(),
        position.piece_on(from) == Some(Piece::Pawn),
        to.row() == 0 || to.row() == 7,
    ensures
        position.after(from, to).on(to) == Some((Piece::Queen, position.color_on(from)->0)),
{
    lemma_square_index(from);
    lemma_square_index(to);
}

/// A pawn that arrives on the en-passant target empties the square one rank
/// behind the target, where the pawn that was passed stands, and stands on the
/// target itself (as a queen, should the target lie on the first or the
/// eighth rank).
pub proof fn lemma_en_passant_capture(position: Position, from: Square, to: Square)
    requires
        position.wf(),
        position.piece_on(from) == Some(Piece::Pawn),
        position.en_passant == Some(to),
        0 <= to.row() - forward(position.color_on(from)->0) < 8,
    ensures
        position.after(from, to).at(to.col(), to.row() - forward(position.color_on(from)->0))
            is None,
        position.after(from, to).on(to) == Some(
            (
                if to.row() == 0 || to.row() == 7 {
                    Piece::Queen
                } else {
                    Piece::Pawn
                },
                position.color_on(from)->0,
            ),
        ),
{
    lemma_square_index(from);
    lemma_square_index(to);
}

/// After a move there is an en-passant target only if a pawn has advanced
/// two squares along its file, and the target is the square that it passed
/// over: on the file of the pawn, one rank behind where it stands now.
pub proof fn lemma_en_passant_target(position: Position, from: Square, to: Square)
    requires
        position.wf(),
        position.on(from) is Some,
        position.after(from, to).en_passant is Some,
    ensures
        position.piece_on(from) == Some(Piece::Pawn),
        to.col() == from.col(),
        to.row() == from.row() + 2 * forward(position.color_on(from)->0),
        position.after(from, to).en_passant->0.col() == to.col(),
        position.after(from, to).en_passant->0.row() == to.row() - forward(
            position.color_on(from)->0,
        ),
{
    lemma_square_index(from);
    lemma_square_index(to);
    lemma_square_on(from.col(), from.row() + forward(position.color_on(from)->0));
}

/// A move never gives a side a castling right that it did not have.
pub proof fn lemma_rights_never_grow(position: Position, from: Square, to: Square, color: Color)
    requires
        position.on(from) is Some,
    ensures
        position.after(from, to).rights(color).within(position.rights(color)),
{
}

/// After a move the turn has passed to the other side, one more half-move
/// is counted, and the number of the full move has gone up if and only if
/// White is to play.
pub proof fn lemma_turn_passes(position: Position, from: Square, to: Square)
    ensures
        position.after(from, to).side_to_move == position.side_to_move.other(),
        position.after(from, to).halfmoves == position.halfmoves + 1,
        position.after(from, to).fullmoves == position.fullmoves + (if position.side_to_move
            == Color::Black {
            1nat
        } else {
            0nat
        }),
{
}

/// A side is in check when a rook of the other side stands on the rank or
/// the file of its king with nothing between them.
pub proof fn lemma_rook_gives_check(position: Position, color: Color, rook: Square)
    requires
        position.wf(),
        position.king_of(color) is Some,
        position.on(rook) == Some((Piece::Rook, color.other())),
        straight(
            position.king_of(color)->0.col() - rook.col(),
            position.king_of(color)->0.row() - rook.row(),
        ),
        position.open_line(rook, position.king_of(color)->0),
    ensures
        position.in_check(color),
{
    lemma_king_from(position, color, 0);
    let king = position.king_of(color)->0;
    assert(position.color_on(rook) == Some(color.other()) && position.pseudo_legal(rook, king));
}

/// A side whose only enemy is one rook is not in check once something
/// stands between that rook and its king, nor when the rook stands on
/// another rank and another file than the king.
pub proof fn lemma_blocked_rook_gives_no_check(position: Position, color: Color, rook: Square)
    requires
        position.wf(),
        position.king_of(color) is Some,
        position.on(rook) == Some((Piece::Rook, color.other())),
        forall|square: Square|
            square != rook ==> #[trigger] position.color_on(square) != Some(color.other()),
        !straight(
            position.king_of(color)->0.col() - rook.col(),
            position.king_of(color)->0.row() - rook.row(),
        ) || !position.open_line(rook, position.king_of(color)->0),
    ensures
        !position.in_check(color),
{
    let king = position.king_of(color)->0;
    assert forall|from: Square|
        !(position.color_on(from) == Some(color.other()) && #[trigger] position.pseudo_legal(
            from,
            king,
        )) by {
        if from != rook {
            assert(position.color_on(from) != Some(color.other()));
        }
    }
}

/// Playing a move and then going one step back restores the position, and
/// with it its text, character for character.
///
/// This holds when the move is played. It also holds when the move is
/// refused and the step back has nothing to restore, or restores the
/// position that the board already shows. (When a move is refused and the
/// history holds an older position, the step back goes to that one.)
pub proof fn lemma_undo_restores(game: Session, from: Square, to: Square)
    requires
        game.board.wf(),
        game.playable(from, to) || game.history.len() == 0 || parse_fen(game.history.last())
            is None || parse_fen(game.history.last()) == Some(game.board),
    ensures
        game.played(from, to).undone().board == game.board,
        fen(game.played(from, to).undone().board) == fen(game.board),
        game.playable(from, to) ==> game.played(from, to).undone().history == game.history,
{
    lemma_fen_round_trip(game.board);
    if game.playable(from, to) {
        let next = game.played(from, to);
        assert(next.history.last() == fen(game.board));
        assert(next.history.drop_last() =~= game.history);
    }
}

/// A draw can be declared whenever a hundred half-moves have been counted,
/// whatever the history holds.
pub proof fn lemma_hundred_halfmoves_allow_draw(game: Session)
    requires
        game.board.halfmoves >= 100,
    ensures
        game.drawable(),
{
}

/// A move that can be played changes a well-formed game into a well-formed
/// game, and so does a step back.
pub proof fn lemma_game_stays_readable(game: Session, from: Square, to: Square)
    requires
        game.wf(),
        game.board.wf(),
    ensures
        game.played(from, to).wf(),
        game.undone().wf(),
{
    lemma_fen_round_trip(game.board);
    let next = game.played(from, to);
    assert forall|i: int| 0 <= i < next.history.len() implies parse_fen(
        #[trigger] next.history[i],
    ) is Some by {
        if i < game.history.len() {
            assert(next.history[i] == game.history[i]);
        }
    }
    let back = game.undone();
    assert forall|i: int| 0 <= i < back.history.len() implies parse_fen(
        #[trigger] back.history[i],
    ) is Some by {
        assert(back.history[i] == game.history[i]);
    }
}

/// The text of the rank of pieces with which a side starts a game.
proof fn lemma_starting_pieces_text(row: int, side: Color)
    requires
        row == 0 && side == Color::White || row == 7 && side == Color::Black,
    ensures
        rank_text(Board::starting().squares, row, 0, 0) == seq![
            Piece::Rook.letter(side),
            Piece::Knight.letter(side),
            Piece::Bishop.letter(side),
            Piece::Queen.letter(side),
            Piece::King.letter(side),
            Piece::Bishop.letter(side),
            Piece::Knight.letter(side),
            Piece::Rook.letter(side),
        ],
{
    let squares = Board::starting().squares;
    reveal_with_fuel(rank_text, 10);
    assert forall|col: int| 0 <= col < 8 implies #[trigger] squares[col + 8 * row]
        == starting_occupant(col, row) by {}
    assert(rank_text(squares, row, 0, 0) =~= seq![
        Piece::Rook.letter(side),
        Piece::Knight.letter(side),
        Piece::Bishop.letter(side),
        Piece::Queen.letter(side),
        Piece::King.letter(side),
        Piece::Bishop.letter(side),
        Piece::Knight.letter(side),
        Piece::Rook.letter(side),
    ]);
}

/// The text of the rank of pawns with which a side starts a game.
proof fn lemma_starting_pawns_text(row: int, side: Color)
    requires
        row == 1 && side == Color::White || row == 6 && side == Color::Black,
    ensures
        rank_text(Board::starting().squares, row, 0, 0) == Seq::new(
            8,
            |i: int| Piece::Pawn.letter(side),
        ),
{
    let squares = Board::starting().squares;
    reveal_with_fuel(rank_text, 10);
    assert forall|col: int| 0 <= col < 8 implies #[trigger] squares[col + 8 * row]
        == starting_occupant(col, row) by {}
    assert(rank_text(squares, row, 0, 0) =~= Seq::new(8, |i: int| Piece::Pawn.letter(side)));
}

/// The text of a rank that is empty when a game starts.
proof fn lemma_starting_gap_text(row: int)
    requires
        2 <= row <= 5,
    ensures
        rank_text(Board::starting().squares, row, 0, 0) == seq!['8'],
{
    let squares = Board::starting().squares;
    reveal_with_fuel(rank_text, 10);
    assert forall|col: int| 0 <= col < 8 implies #[trigger] squares[col + 8 * row]
        == starting_occupant(col, row) by {}
    assert(rank_text(squares, row, 0, 0) =~= seq!['8']);
}

/// The position at the start of a game is written
/// `rnbqkbnr/pppppppp/8/8/8/8/PPPPPPPP/RNBQKBNR w KQkq - 0 1`, and reading
/// that text gives the position at the start of a game.
pub proof fn lemma_starting_text()
    ensures
        fen(Board::starting()) == "rnbqkbnr/pppppppp/8/8/8/8/PPPPPPPP/RNBQKBNR w KQkq - 0 1"@,
        parse_fen("rnbqkbnr/pppppppp/8/8/8/8/PPPPPPPP/RNBQKBNR w KQkq - 0 1"@) == Some(
            Board::starting(),
        ),
{
    lemma_fen_round_trip(Board::starting());
    let squares = Board::starting().squares;
    let text = "rnbqkbnr/pppppppp/8/8/8/8/PPPPPPPP/RNBQKBNR w KQkq - 0 1"@;
    reveal_strlit("rnbqkbnr/pppppppp/8/8/8/8/PPPPPPPP/RNBQKBNR w KQkq - 0 1");
    lemma_starting_pieces_text(7, Color::Black);
    lemma_starting_pawns_text(6, Color::Black);
    lemma_starting_gap_text(5);
    lemma_starting_gap_text(4);
    lemma_starting_gap_text(3);
    lemma_starting_gap_text(2);
    lemma_starting_pawns_text(1, Color::White);
    lemma_starting_pieces_text(0, Color::White);
    reveal_with_fuel(ranks_text, 9);
    assert(placement(squares) =~= text.take(43));
    assert(decimal(0) =~= seq!['0']);
    assert(decimal(1) =~= seq!['1']);
    assert(fen(Board::starting()) =~= text);
}

/// From the position at the start of a game the pawn on e2 reaches e4, and
/// may legally go there; it does not reach e5.
pub proof fn lemma_opening_move()
    ensures
        Board::starting().pseudo_legal(Square::E2, Square::E4),
        Board::starting().legal(Square::E2, Square::E4),
        !Board::starting().pseudo_legal(Square::E2, Square::E5),
        !Board::starting().legal(Square::E2, Square::E5),
{
    let next = Board::starting().after(Square::E2, Square::E4);
    assert forall|i: int| 0 <= i < 64 implies #[trigger] next.squares[i] == (if i == 12 {
        None
    } else if i == 28 {
        Some((Piece::Pawn, Color::White))
    } else {
        starting_occupant(i % 8, i / 8)
    }) by {}
    reveal_with_fuel(Position::king_from, 6);
    assert(next.king_of(Color::White) == Some(Square::E1));
    assert forall|from: Square|
        !(next.color_on(from) == Some(Color::Black) && #[trigger] next.pseudo_legal(
            from,
            Square::E1,
        )) by {
        lemma_square_index(from);
    }
}

/// The piece goes along the direction: a rook along the ranks and the
/// files, a bishop along the diagonals, a queen along all of them.
pub open spec fn slides_along(piece: Piece, direction: Direction) -> bool {
    match piece {
        Piece::Rook => direction.files() == 0 || direction.ranks() == 0,
        Piece::Bishop => direction.files() != 0 && direction.ranks() != 0,
        Piece::Queen => true,
        _ => false,
    }
}

/// The direction with the given steps, if they are those of a direction.
pub open spec fn direction_of(files: int, ranks: int) -> Direction {
    if files == 0 && ranks == 1 {
        Direction::Up
    } else if files == 1 && ranks == 1 {
        Direction::UpRight
    } else if files == 1 && ranks == 0 {
        Direction::Right
    } else if files == 1 && ranks == -1 {
        Direction::DownRight
    } else if files == 0 && ranks == -1 {
        Direction::Down
    } else if files == -1 && ranks == -1 {
        Direction::DownLeft
    } else if files == -1 && ranks == 0 {
        Direction::Left
    } else {
        Direction::UpLeft
    }
}

/// The square `(to_col, to_row)` lies in the direction `(dc, dr)` from the
/// square `(col, row)`, on its rank, its file or one of its diagonals, at most
/// `steps` squares away.
pub open spec fn ahead(
    col: int,
    row: int,
    dc: int,
    dr: int,
    steps: nat,
    to_col: int,
    to_row: int,
) -> bool {
    &&& sign(to_col - col) == dc
    &&& sign(to_row - row) == dr
    &&& straight(to_col - col, to_row - row) || diagonal(to_col - col, to_row - row)
    &&& magnitude(to_col - col) <= steps
    &&& magnitude(to_row - row) <= steps
}

/// One step towards a square that lies ahead leaves the square ahead, one
/// step nearer, unless the step arrives on it; and what lies between the
/// start and the square is the square of the first step and what lies between
/// that one and the square.
proof fn lemma_step_ahead(
    col: int,
    row: int,
    dc: int,
    dr: int,
    steps: nat,
    to_col: int,
    to_row: int,
)
    requires
        -1 <= dc <= 1,
        -1 <= dr <= 1,
        dc != 0 || dr != 0,
        steps > 0,
        to_col != col + dc || to_row != row + dr,
    ensures
        ahead(col, row, dc, dr, steps, to_col, to_row) <==> ahead(
            col + dc,
            row + dr,
            dc,
            dr,
            (steps - 1) as nat,
            to_col,
            to_row,
        ),
        ahead(col, row, dc, dr, steps, to_col, to_row) ==> forall|x: int, y: int| #[trigger]
            between(col, row, x, y, to_col, to_row) <==> (x == col + dc && y == row + dr)
                || between(col + dc, row + dr, x, y, to_col, to_row),
{
}

/// A line holds a square exactly if the square lies ahead in the direction
/// of the line, no further than the line is followed, and nothing stands
/// between the start of the line and the square.
#[verifier::spinoff_prover]
#[verifier::rlimit(50)]
pub proof fn lemma_line_from(
    position: Position,
    col: int,
    row: int,
    dc: int,
    dr: int,
    steps: nat,
    to: Square,
)
    requires
        position.wf(),
        on_board(col, row),
        -1 <= dc <= 1,
        -1 <= dr <= 1,
        dc != 0 || dr != 0,
    ensures
        position.line_from(col, row, dc, dr, steps).contains(to) <==> ahead(
            col,
            row,
            dc,
            dr,
            steps,
            to.col(),
            to.row(),
        ) && forall|x: int, y: int|
            between(col, row, x, y, to.col(), to.row()) ==> (#[trigger] position.at(x, y))
                is None,
    decreases steps,
{
    lemma_square_index(to);
    let line = position.line_from(col, row, dc, dr, steps);
    let c1 = col + dc;
    let r1 = row + dr;
    if steps == 0 || !on_board(c1, r1) {
        assert(line =~= Seq::<Square>::empty());
    } else {
        let first = Square::on(c1, r1);
        lemma_square_on(c1, r1);
        if to == first {
            assert(line[0] == to);
            assert(ahead(col, row, dc, dr, steps, to.col(), to.row()));
            assert forall|x: int, y: int|
                between(col, row, x, y, to.col(), to.row()) implies (#[trigger] position.at(
                x,
                y,
            )) is None by {}
        } else {
            lemma_step_ahead(col, row, dc, dr, steps, to.col(), to.row());
            let rest = position.line_from(c1, r1, dc, dr, (steps - 1) as nat);
            if position.at(c1, r1) is Some {
                assert(line =~= seq![first]);
                if ahead(col, row, dc, dr, steps, to.col(), to.row()) {
                    assert(between(col, row, c1, r1, to.col(), to.row()));
                }
            } else {
                lemma_line_from(position, c1, r1, dc, dr, (steps - 1) as nat, to);
                assert(line =~= seq![first] + rest);
                assert(line.contains(to) <==> rest.contains(to)) by {
                    if rest.contains(to) {
                        let k = choose|k: int| 0 <= k < rest.len() && rest[k] == to;
                        assert(line[k + 1] == to);
                    }
                    if line.contains(to) {
                        let k = choose|k: int| 0 <= k < line.len() && line[k] == to;
                        assert(rest[k - 1] == to);
                    }
                }
                if ahead(col, row, dc, dr, steps, to.col(), to.row()) {
                    if rest.contains(to) {
                        assert forall|x: int, y: int|
                            between(
                                col,
                                row,
                                x,
                                y,
                                to.col(),
                                to.row(),
                            ) implies (#[trigger] position.at(x, y)) is None by {
                            if !(x == c1 && y == r1) {
                                assert(between(c1, r1, x, y, to.col(), to.row()));
                            }
                        }
                    } else if forall|x: int, y: int|
                        between(col, row, x, y, to.col(), to.row()) ==> (#[trigger] position.at(
                            x,
                            y,
                        )) is None {
                        assert forall|x: int, y: int|
                            between(c1, r1, x, y, to.col(), to.row()) implies (
                        #[trigger] position.at(x, y)) is None by {
                            assert(between(col, row, x, y, to.col(), to.row()));
                        }
                    }
                }
            }
        }
    }
}

/// A rook, a bishop or a queen reaches exactly the squares that lie on one
/// of its lines and hold no piece of its own side: in each of its directions
/// the empty squares up to the edge of the board or up to the first piece,
/// and the square of that piece if it is an enemy.
pub proof fn lemma_slider_reaches_its_lines(position: Position, from: Square, to: Square)
    requires
        position.wf(),
        position.piece_on(from) == Some(Piece::Rook) || position.piece_on(from) == Some(
            Piece::Bishop,
        ) || position.piece_on(from) == Some(Piece::Queen),
    ensures
        position.pseudo_legal(from, to) <==> position.color_on(to) != position.color_on(from)
            && exists|direction: Direction|
            slides_along(position.piece_on(from)->0, direction) && #[trigger] position.line(
                from,
                direction,
            ).contains(to),
{
    lemma_square_index(from);
    lemma_square_index(to);
    let piece = position.piece_on(from)->0;
    let dc = sign(to.col() - from.col());
    let dr = sign(to.row() - from.row());
    assert forall|direction: Direction| #[trigger]
        position.line(from, direction).contains(to) <==> ahead(
            from.col(),
            from.row(),
            direction.files(),
            direction.ranks(),
            7,
            to.col(),
            to.row(),
        ) && position.open_line(from, to) by {
        lemma_line_from(
            position,
            from.col(),
            from.row(),
            direction.files(),
            direction.ranks(),
            7,
            to,
        );
    }
    if position.pseudo_legal(from, to) {
        let direction = direction_of(dc, dr);
        assert(slides_along(piece, direction) && position.line(from, direction).contains(to));
    }
}

} // verus!
