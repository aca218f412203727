//! The position notation: six fields separated by single spaces.
//!
//! The fields are the piece placement, the side to move, the castling
//! rights, the en-passant target, the half-move counter and the full-move
//! number. The placement lists the ranks from the eighth down to the first,
//! separated by `/`, each from file A to file H, with a letter for a piece
//! (upper case for White) and a digit from 1 to 8 for a run of empty squares.
//!
//! This module states what the text of a position is ([`fen`]) and which
//! position a text denotes ([`parse_fen`]), and proves that reading the text
//! of a position gives the position back.

use crate::castle_rights::CastleRights;
use crate::color::Color;
use crate::decimal::{decimal, digit_char, digit_of, lemma_decimal, number};
use crate::piece::{piece_of_letter, Piece};
use crate::position::Position;
use crate::square::{lemma_square_name_round_trip, square_named, Square};
use crate::text::{fields, lemma_fields_add, lemma_fields_one};
use vstd::prelude::*;

verus! {

/// The text of the squares of one rank from file `col` on, after a run of
/// `run` empty squares: a letter for each piece, and before it, or at the end
/// of the rank, the length of the run of empty squares if there is one.
pub open spec fn rank_text(squares: Seq<Option<(Piece, Color)>>, row: int, col: int, run: int) -> Seq<
    char,
>
    decreases 8 - col,
{
    let gap = if run > 0 {
        seq![digit_char(run)]
    } else {
        Seq::<char>::empty()
    };
    if col >= 8 {
        gap
    } else {
        match squares[col + 8 * row] {
            None => rank_text(squares, row, col + 1, run + 1),
            Some((piece, color)) => gap + seq![piece.letter(color)] + rank_text(
                squares,
                row,
                col + 1,
                0,
            ),
        }
    }
}

/// The text of the ranks from `row` down to the first, separated by `/`.
pub open spec fn ranks_text(squares: Seq<Option<(Piece, Color)>>, row: int) -> Seq<char>
    decreases row,
{
    if row <= 0 {
        rank_text(squares, 0, 0, 0)
    } else {
        rank_text(squares, row, 0, 0) + seq!['/'] + ranks_text(squares, row - 1)
    }
}

/// The piece placement field: the ranks from the eighth down to the first.
pub open spec fn placement(squares: Seq<Option<(Piece, Color)>>) -> Seq<char> {
    ranks_text(squares, 7)
}

/// The side field: `w` for White, `b` for Black.
pub open spec fn side_text(side: Color) -> Seq<char> {
    match side {
        Color::White => seq!['w'],
        Color::Black => seq!['b'],
    }
}

/// The castling field: the letters of White's rights, then those of Black's;
/// `-` if neither side has any.
pub open spec fn castling_text(white: CastleRights, black: CastleRights) -> Seq<char> {
    if white == CastleRights::NoRights && black == CastleRights::NoRights {
        seq!['-']
    } else {
        white.letters(Color::White) + black.letters(Color::Black)
    }
}

/// The en-passant field: the name of the target square, or `-` if there is none.
pub open spec fn target_text(target: Option<Square>) -> Seq<char> {
    match target {
        Some(square) => square.name(),
        None => seq!['-'],
    }
}

/// The text of a position: its six fields, separated by single spaces.
pub open spec fn fen(position: Position) -> Seq<char> {
    placement(position.squares) + seq![' '] + side_text(position.side_to_move) + seq![' ']
        + castling_text(position.white_rights, position.black_rights) + seq![' '] + target_text(
        position.en_passant,
    ) + seq![' '] + decimal(position.halfmoves) + seq![' '] + decimal(position.fullmoves)
}

/// Where the reading of a placement field stands: what has been put on the
/// squares, and the file and the rank of the square that comes next.
pub struct Cursor {
    pub squares: Seq<Option<(Piece, Color)>>,
    pub col: int,
    pub row: int,
}

/// The cursor before anything is read: an empty board, and file A of the
/// eighth rank.
pub open spec fn start() -> Cursor {
    Cursor { squares: Seq::new(64, |i: int| None), col: 0, row: 7 }
}

/// The cursor after one more character of a placement field, if the
/// character is recognized.
///
/// `/` goes to file A of the rank below, from the first rank to the eighth. A
/// digit from 1 to 8 skips that many files, and the letter of a piece puts
/// the piece on the square and goes one file on; both start again at file A
/// after file H.
pub open spec fn read_char(cursor: Cursor, c: char) -> Option<Cursor> {
    if c == '/' {
        Some(
            Cursor {
                col: 0,
                row: if cursor.row == 0 {
                    7
                } else {
                    cursor.row - 1
                },
                ..cursor
            },
        )
    } else if digit_of(c) is Some && 1 <= digit_of(c)->0 <= 8 {
        Some(Cursor { col: (cursor.col + digit_of(c)->0) % 8, ..cursor })
    } else if piece_of_letter(c) is Some {
        Some(
            Cursor {
                squares: cursor.squares.update(cursor.col + 8 * cursor.row, piece_of_letter(c)),
                col: (cursor.col + 1) % 8,
                ..cursor
            },
        )
    } else {
        None
    }
}

/// The cursor after all the characters of `s`, if every one is recognized.
pub open spec fn read_placement(cursor: Cursor, s: Seq<char>) -> Option<Cursor>
    decreases s.len(),
{
    if s.len() == 0 {
        Some(cursor)
    } else {
        match read_placement(cursor, s.drop_last()) {
            Some(before) => read_char(before, s.last()),
            None => None,
        }
    }
}

/// The side that a side field names: `w` or `W` for White, `b` or `B` for Black.
pub open spec fn side_named(s: Seq<char>) -> Option<Color> {
    if s.len() == 1 && (s[0] == 'w' || s[0] == 'W') {
        Some(Color::White)
    } else if s.len() == 1 && (s[0] == 'b' || s[0] == 'B') {
        Some(Color::Black)
    } else {
        None
    }
}

/// The rights of a side in a castling field: the king side if the field
/// holds `kingside`, the queen side if it holds `queenside`.
pub open spec fn rights_named(s: Seq<char>, kingside: char, queenside: char) -> CastleRights {
    CastleRights::of(s.contains(kingside), s.contains(queenside))
}

/// The number in a counter field, or `otherwise` if the field holds no number.
pub open spec fn counter_named(s: Seq<char>, otherwise: nat) -> nat {
    match number(s) {
        Some(n) => n as nat,
        None => otherwise,
    }
}

/// The position that a text denotes, if it denotes one.
///
/// A text denotes a position if it has at least six fields, every character
/// of its placement field is recognized and its side field names a side. An
/// en-passant field that names no square gives no target; a counter field
/// that holds no number gives 0 half-moves, or the full move 1. Fields
/// after the sixth are not read.
pub open spec fn parse_fen(s: Seq<char>) -> Option<Position> {
    let parts = fields(s);
    if parts.len() < 6 {
        None
    } else {
        match (read_placement(start(), parts[0]), side_named(parts[1])) {
            (Some(cursor), Some(side)) => Some(
                Position {
                    squares: cursor.squares,
                    side_to_move: side,
                    white_rights: rights_named(parts[2], 'K', 'Q'),
                    black_rights: rights_named(parts[2], 'k', 'q'),
                    en_passant: square_named(parts[3]),
                    halfmoves: counter_named(parts[4], 0),
                    fullmoves: counter_named(parts[5], 1),
                },
            ),
            _ => None,
        }
    }
}

/// Reading a text is reading its beginning, then the rest from where that ended.
pub proof fn lemma_read_concat(cursor: Cursor, a: Seq<char>, b: Seq<char>)
    ensures
        read_placement(cursor, a + b) == (match read_placement(cursor, a) {
            Some(middle) => read_placement(middle, b),
            None => None,
        }),
    decreases b.len(),
{
    if b.len() == 0 {
        assert(a + b =~= a);
    } else {
        lemma_read_concat(cursor, a, b.drop_last());
        assert((a + b).drop_last() =~= a + b.drop_last());
        assert((a + b).last() == b.last());
    }
}

/// Reading a text of one character is reading that character.
pub proof fn lemma_read_one(cursor: Cursor, c: char)
    ensures
        read_placement(cursor, seq![c]) == read_char(cursor, c),
{
    assert(seq![c].drop_last() =~= Seq::<char>::empty());
    assert(read_placement(cursor, seq![c].drop_last()) == Some(cursor));
}

/// A text whose beginning cannot be read cannot be read.
pub proof fn lemma_read_fails(cursor: Cursor, s: Seq<char>, n: int)
    requires
        0 <= n <= s.len(),
        read_placement(cursor, s.take(n)) is None,
    ensures
        read_placement(cursor, s) is None,
{
    lemma_read_concat(cursor, s.take(n), s.skip(n));
    assert(s.take(n) + s.skip(n) =~= s);
}

impl Cursor {
    /// A cursor stands on a square of a board of 64 squares.
    pub open spec fn wf(self) -> bool {
        self.squares.len() == 64 && 0 <= self.col < 8 && 0 <= self.row < 8
    }
}

/// Reading leaves the cursor on a square of a board of 64 squares.
pub proof fn lemma_read_keeps_wf(cursor: Cursor, s: Seq<char>)
    requires
        cursor.wf(),
    ensures
        match read_placement(cursor, s) {
            Some(after) => after.wf(),
            None => true,
        },
    decreases s.len(),
{
    if s.len() > 0 {
        lemma_read_keeps_wf(cursor, s.drop_last());
    }
}

/// A position that a text denotes has 64 squares and counters that fit in 64 bits.
pub proof fn lemma_parse_gives_wf(s: Seq<char>)
    ensures
        match parse_fen(s) {
            Some(position) => position.wf(),
            None => true,
        },
{
    lemma_read_keeps_wf(start(), fields(s)[0]);
}

/// Reading the text of a rank from file `col` on fills the rest of the rank
/// as `target` has it and leaves the other ranks alone.
#[verifier::spinoff_prover]
#[verifier::rlimit(60)]
proof fn lemma_rank_round_trip(
    target: Seq<Option<(Piece, Color)>>,
    cursor: Cursor,
    row: int,
    col: int,
    run: int,
)
    requires
        target.len() == 64,
        cursor.squares.len() == 64,
        0 <= row < 8,
        0 <= run <= col <= 8,
        cursor.row == row,
        cursor.col == (col - run) % 8,
        forall|i: int|
            0 <= i < 64 && i / 8 == row && i % 8 < col ==> #[trigger] cursor.squares[i]
                == target[i],
        forall|i: int|
            0 <= i < 64 && i / 8 == row && i % 8 >= col ==> (#[trigger] cursor.squares[i]) is None,
    ensures
        read_placement(cursor, rank_text(target, row, col, run)) is Some,
        ({
            let after = read_placement(cursor, rank_text(target, row, col, run))->0;
            &&& after.row == row
            &&& after.col == 0
            &&& after.squares.len() == 64
            &&& forall|i: int|
                0 <= i < 64 && i / 8 == row ==> #[trigger] after.squares[i] == target[i]
            &&& forall|i: int|
                0 <= i < 64 && i / 8 != row ==> #[trigger] after.squares[i] == cursor.squares[i]
        }),
    decreases 8 - col,
{
    let text = rank_text(target, row, col, run);
    let gap = if run > 0 {
        seq![digit_char(run)]
    } else {
        Seq::<char>::empty()
    };
    let skipped = Cursor { col: col % 8, ..cursor };
    assert(read_placement(cursor, gap) == Some(skipped)) by {
        if run > 0 {
            lemma_read_one(cursor, digit_char(run));
            assert(digit_of(digit_char(run)) == Some(run));
            assert(((col - run) % 8 + run) % 8 == col % 8);
        }
    }
    if col >= 8 {
    } else {
        let index = col + 8 * row;
        assert(index / 8 == row && index % 8 == col);
        match target[index] {
            None => {
                lemma_rank_round_trip(target, cursor, row, col + 1, run + 1);
            },
            Some((piece, color)) => {
                let letter = piece.letter(color);
                let placed = Cursor {
                    squares: skipped.squares.update(index, Some((piece, color))),
                    col: (col + 1) % 8,
                    ..skipped
                };
                let rest = rank_text(target, row, col + 1, 0);
                assert(read_char(skipped, letter) == Some(placed)) by {
                    assert(piece_of_letter(letter) == Some((piece, color)));
                    assert(digit_of(letter) is None);
                }
                lemma_read_one(skipped, letter);
                lemma_read_concat(cursor, gap, seq![letter]);
                lemma_read_concat(cursor, gap + seq![letter], rest);
                assert(text == gap + seq![letter] + rest);
                assert forall|i: int|
                    0 <= i < 64 && i / 8 == row && i % 8 < col + 1 implies #[trigger] placed.squares[i]
                    == target[i] by {
                    if i != index {
                        assert(cursor.squares[i] == target[i]);
                    }
                }
                assert forall|i: int|
                    0 <= i < 64 && i / 8 == row && i % 8 >= col + 1 implies (
                #[trigger] placed.squares[i]) is None by {
                    assert(cursor.squares[i] is None);
                }
                lemma_rank_round_trip(target, placed, row, col + 1, 0);
                let after = read_placement(placed, rest)->0;
                assert forall|i: int| 0 <= i < 64 && i / 8 != row implies #[trigger] after.squares[i]
                    == cursor.squares[i] by {
                    assert(after.squares[i] == placed.squares[i]);
                }
            },
        }
    }
}

/// Reading the text of the ranks from `row` down to the first fills them as
/// `target` has them.
proof fn lemma_ranks_round_trip(target: Seq<Option<(Piece, Color)>>, cursor: Cursor, row: int)
    requires
        target.len() == 64,
        cursor.squares.len() == 64,
        0 <= row < 8,
        cursor.row == row,
        cursor.col == 0,
        forall|i: int| 0 <= i < 64 && i / 8 > row ==> #[trigger] cursor.squares[i] == target[i],
        forall|i: int| 0 <= i < 64 && i / 8 <= row ==> (#[trigger] cursor.squares[i]) is None,
    ensures
        read_placement(cursor, ranks_text(target, row)) is Some,
        read_placement(cursor, ranks_text(target, row))->0.squares == target,
    decreases row,
{
    lemma_rank_round_trip(target, cursor, row, 0, 0);
    let line = rank_text(target, row, 0, 0);
    let after = read_placement(cursor, line)->0;
    if row == 0 {
        assert(after.squares =~= target);
    } else {
        let below = Cursor { col: 0, row: row - 1, ..after };
        let rest = ranks_text(target, row - 1);
        lemma_read_one(after, '/');
        lemma_read_concat(cursor, line, seq!['/']);
        lemma_read_concat(cursor, line + seq!['/'], rest);
        assert forall|i: int| 0 <= i < 64 && i / 8 > row - 1 implies #[trigger] below.squares[i]
            == target[i] by {
            if i / 8 != row {
                assert(after.squares[i] == cursor.squares[i]);
            }
        }
        assert forall|i: int| 0 <= i < 64 && i / 8 <= row - 1 implies (
        #[trigger] below.squares[i]) is None by {
            assert(after.squares[i] == cursor.squares[i]);
        }
        lemma_ranks_round_trip(target, below, row - 1);
    }
}

/// Reading the placement field of a board gives its squares back.
pub proof fn lemma_placement_round_trip(squares: Seq<Option<(Piece, Color)>>)
    requires
        squares.len() == 64,
    ensures
        read_placement(start(), placement(squares)) is Some,
        read_placement(start(), placement(squares))->0.squares == squares,
{
    lemma_ranks_round_trip(squares, start(), 7);
}

/// Two texts without a space make a text without a space.
proof fn lemma_no_space_concat(a: Seq<char>, b: Seq<char>)
    requires
        !a.contains(' '),
        !b.contains(' '),
    ensures
        !(a + b).contains(' '),
{
    if (a + b).contains(' ') {
        let i = choose|i: int| 0 <= i < (a + b).len() && (a + b)[i] == ' ';
        if i < a.len() {
            assert(a[i] == ' ');
        } else {
            assert(b[i - a.len()] == ' ');
        }
    }
}

/// A text of one character other than a space holds no space.
proof fn lemma_no_space_one(c: char)
    requires
        c != ' ',
    ensures
        !seq![c].contains(' '),
{
}

/// The text of a rank holds no space.
proof fn lemma_rank_text_no_space(
    squares: Seq<Option<(Piece, Color)>>,
    row: int,
    col: int,
    run: int,
)
    requires
        0 <= run <= col <= 8,
    ensures
        !rank_text(squares, row, col, run).contains(' '),
    decreases 8 - col,
{
    let gap = if run > 0 {
        seq![digit_char(run)]
    } else {
        Seq::<char>::empty()
    };
    assert(!gap.contains(' ')) by {
        if run > 0 {
            lemma_no_space_one(digit_char(run));
        }
    }
    if col < 8 {
        match squares[col + 8 * row] {
            None => {
                lemma_rank_text_no_space(squares, row, col + 1, run + 1);
            },
            Some((piece, color)) => {
                lemma_rank_text_no_space(squares, row, col + 1, 0);
                lemma_no_space_one(piece.letter(color));
                lemma_no_space_concat(gap, seq![piece.letter(color)]);
                lemma_no_space_concat(
                    gap + seq![piece.letter(color)],
                    rank_text(squares, row, col + 1, 0),
                );
            },
        }
    }
}

/// The text of the ranks holds no space.
proof fn lemma_ranks_text_no_space(squares: Seq<Option<(Piece, Color)>>, row: int)
    ensures
        !ranks_text(squares, row).contains(' '),
    decreases row,
{
    if row <= 0 {
        lemma_rank_text_no_space(squares, 0, 0, 0);
    } else {
        lemma_rank_text_no_space(squares, row, 0, 0);
        lemma_ranks_text_no_space(squares, row - 1);
        lemma_no_space_one('/');
        lemma_no_space_concat(rank_text(squares, row, 0, 0), seq!['/']);
        lemma_no_space_concat(
            rank_text(squares, row, 0, 0) + seq!['/'],
            ranks_text(squares, row - 1),
        );
    }
}

/// Reading the castling field of two sides gives their rights back, and the
/// field holds no space.
pub proof fn lemma_castling_round_trip(white: CastleRights, black: CastleRights)
    ensures
        rights_named(castling_text(white, black), 'K', 'Q') == white,
        rights_named(castling_text(white, black), 'k', 'q') == black,
        !castling_text(white, black).contains(' '),
{
    let w = white.letters(Color::White);
    let b = black.letters(Color::Black);
    let text = castling_text(white, black);
    assert(w.contains('K') == white.kingside()) by {
        if white.kingside() {
            assert(w[0] == 'K');
        }
    }
    assert(w.contains('Q') == white.queenside()) by {
        if white.queenside() {
            assert(w[w.len() - 1] == 'Q');
        }
    }
    assert(b.contains('k') == black.kingside()) by {
        if black.kingside() {
            assert(b[0] == 'k');
        }
    }
    assert(b.contains('q') == black.queenside()) by {
        if black.queenside() {
            assert(b[b.len() - 1] == 'q');
        }
    }
    assert(!w.contains('k') && !w.contains('q') && !w.contains(' '));
    assert(!b.contains('K') && !b.contains('Q') && !b.contains(' '));
    if white == CastleRights::NoRights && black == CastleRights::NoRights {
        assert(text[0] == '-' && text.len() == 1);
    } else {
        assert(text == w + b);
        assert forall|c: char| #[trigger] text.contains(c) <==> w.contains(c) || b.contains(c) by {
            if text.contains(c) {
                let i = choose|i: int| 0 <= i < text.len() && text[i] == c;
                if i < w.len() {
                    assert(w[i] == c);
                } else {
                    assert(b[i - w.len()] == c);
                }
            }
            if w.contains(c) {
                let i = choose|i: int| 0 <= i < w.len() && w[i] == c;
                assert(text[i] == c);
            }
            if b.contains(c) {
                let i = choose|i: int| 0 <= i < b.len() && b[i] == c;
                assert(text[w.len() + i] == c);
            }
        }
    }
}

/// The fields of the text of a position are its six fields.
pub proof fn lemma_fen_fields(position: Position)
    ensures
        fields(fen(position)) == seq![
            placement(position.squares),
            side_text(position.side_to_move),
            castling_text(position.white_rights, position.black_rights),
            target_text(position.en_passant),
            decimal(position.halfmoves),
            decimal(position.fullmoves),
        ],
{
    let f0 = placement(position.squares);
    let f1 = side_text(position.side_to_move);
    let f2 = castling_text(position.white_rights, position.black_rights);
    let f3 = target_text(position.en_passant);
    let f4 = decimal(position.halfmoves);
    let f5 = decimal(position.fullmoves);
    lemma_ranks_text_no_space(position.squares, 7);
    assert(!f1.contains(' '));
    lemma_castling_round_trip(position.white_rights, position.black_rights);
    assert(!f3.contains(' ')) by {
        match position.en_passant {
            Some(square) => {
                lemma_square_name_round_trip(square);
            },
            None => {},
        }
    }
    lemma_decimal(position.halfmoves);
    lemma_decimal(position.fullmoves);
    lemma_fields_one(f0);
    lemma_fields_add(f0, f1);
    lemma_fields_add(f0 + seq![' '] + f1, f2);
    lemma_fields_add(f0 + seq![' '] + f1 + seq![' '] + f2, f3);
    lemma_fields_add(f0 + seq![' '] + f1 + seq![' '] + f2 + seq![' '] + f3, f4);
    lemma_fields_add(
        f0 + seq![' '] + f1 + seq![' '] + f2 + seq![' '] + f3 + seq![' '] + f4,
        f5,
    );
    assert(seq![f0].push(f1).push(f2).push(f3).push(f4).push(f5) =~= seq![f0, f1, f2, f3, f4, f5]);
}

/// Reading the text of a position gives the position back.
pub proof fn lemma_fen_round_trip(position: Position)
    requires
        position.wf(),
    ensures
        parse_fen(fen(position)) == Some(position),
{
    lemma_fen_fields(position);
    lemma_placement_round_trip(position.squares);
    lemma_castling_round_trip(position.white_rights, position.black_rights);
    match position.en_passant {
        Some(square) => {
            lemma_square_name_round_trip(square);
        },
        None => {},
    }
    lemma_decimal(position.halfmoves);
    lemma_decimal(position.fullmoves);
    let parts = fields(fen(position));
    assert(parts.len() == 6);
    assert(side_named(parts[1]) == Some(position.side_to_move));
    assert(square_named(parts[3]) == position.en_passant);
    assert(counter_named(parts[4], 0) == position.halfmoves);
    assert(counter_named(parts[5], 1) == position.fullmoves);
}

} // verus!
