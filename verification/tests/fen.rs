use chess::{Board, CastleRights, Color, Error, Piece, Square, ALL_SQUARES};

const START: &str = "rnbqkbnr/pppppppp/8/8/8/8/PPPPPPPP/RNBQKBNR w KQkq - 0 1";

fn read(text: &str) -> Board {
    match Board::from_str(text) {
        Ok(board) => board,
        Err(_) => panic!("a position was expected"),
    }
}

fn refused(text: &str) -> bool {
    match Board::from_str(text) {
        Ok(_) => false,
        Err(error) => {
            error
                == Error::InvalidFen {
                    fen: text.to_string(),
                }
        }
    }
}

#[test]
fn new_board_is_empty() {
    let board = Board::new();
    for square in ALL_SQUARES {
        assert_eq!(board.on(square), None);
        assert!(board.is_empty(square));
        assert!(!board.is_occupied(square));
    }
    assert_eq!(board.side_to_move(), Color::White);
    assert_eq!(board.castle_rights(Color::White), CastleRights::NoRights);
    assert_eq!(board.castle_rights(Color::Black), CastleRights::NoRights);
    assert_eq!(board.en_passant(), None);
    assert_eq!(board.halfmoves(), 0);
    assert_eq!(board.fullmoves(), 1);
    assert_eq!(board.to_string(), "8/8/8/8/8/8/8/8 w - - 0 1");
}

#[test]
fn default_board_is_the_starting_position() {
    let board = Board::default();
    assert_eq!(board.to_string(), START);
    assert_eq!(board.side_to_move(), Color::White);
    assert_eq!(board.castle_rights(Color::White), CastleRights::Both);
    assert_eq!(board.castle_rights(Color::Black), CastleRights::Both);
    assert_eq!(board.en_passant(), None);
    assert_eq!(board.halfmoves(), 0);
    assert_eq!(board.fullmoves(), 1);
    assert_eq!(board.on(Square::E1), Some((Piece::King, Color::White)));
    assert_eq!(board.on(Square::D1), Some((Piece::Queen, Color::White)));
    assert_eq!(board.on(Square::E8), Some((Piece::King, Color::Black)));
    assert_eq!(board.on(Square::D8), Some((Piece::Queen, Color::Black)));
    assert_eq!(board.on(Square::A1), Some((Piece::Rook, Color::White)));
    assert_eq!(board.on(Square::B1), Some((Piece::Knight, Color::White)));
    assert_eq!(board.on(Square::C1), Some((Piece::Bishop, Color::White)));
    assert_eq!(board.on(Square::H8), Some((Piece::Rook, Color::Black)));
    assert_eq!(board.on(Square::C2), Some((Piece::Pawn, Color::White)));
    assert_eq!(board.on(Square::C7), Some((Piece::Pawn, Color::Black)));
    assert_eq!(board.on(Square::C4), None);
}

#[test]
fn default_board_is_read_from_the_starting_text() {
    assert_eq!(read(START), Board::default());
    assert_eq!(START.parse::<Board>(), Ok(Board::default()));
}

#[test]
fn queries_on_the_starting_position() {
    let board = Board::default();
    assert_eq!(board.piece_on(Square::G1), Some(Piece::Knight));
    assert_eq!(board.color_on(Square::G1), Some(Color::White));
    assert_eq!(board.piece_on(Square::G4), None);
    assert_eq!(board.color_on(Square::G4), None);
    assert!(board.piece_on_is(Square::G8, Piece::Knight));
    assert!(!board.piece_on_is(Square::G8, Piece::Bishop));
    assert!(!board.piece_on_is(Square::G5, Piece::Knight));
    assert!(board.color_on_is(Square::G8, Color::Black));
    assert!(!board.color_on_is(Square::G8, Color::White));
    assert!(!board.color_on_is(Square::G5, Color::Black));
    assert!(board.is_occupied(Square::A2));
    assert!(board.is_empty(Square::A3));
    assert_eq!(board.king_of(Color::White), Square::E1);
    assert_eq!(board.king_of(Color::Black), Square::E8);
    assert_eq!(board.find_king(Color::White), Some(Square::E1));
    assert_eq!(Board::new().find_king(Color::White), None);
}

#[test]
fn text_round_trip() {
    let texts = [
        START,
        "rnbqkbnr/pppppppp/8/8/4P3/8/PPPP1PPP/RNBQKBNR b KQkq e3 0 1",
        "rnbqkbnr/pp1ppppp/8/2p5/4P3/8/PPPP1PPP/RNBQKBNR w KQkq c6 0 2",
        "r3k2r/8/8/8/8/8/8/R3K2R w Kq - 12 34",
        "r3k2r/8/8/8/8/8/8/R3K2R b Qk - 99 100",
        "8/8/8/8/8/8/8/8 w - - 0 1",
        "7k/5K2/6Q1/8/8/8/8/8 b - - 18446744073709551615 18446744073709551615",
        "p6P/1p4P1/2p2P2/3pP3/3Pp3/2P2p2/1P4p1/P6p b k h8 7 0",
    ];
    for text in texts {
        let board = read(text);
        assert_eq!(board.to_string(), text);
        assert_eq!(read(&board.to_string()), board);
    }
}

#[test]
fn read_fields() {
    let board = read("r3k2r/8/8/8/8/8/8/R3K2R b Qk d3 12 34");
    assert_eq!(board.side_to_move(), Color::Black);
    assert_eq!(board.castle_rights(Color::White), CastleRights::QueenSide);
    assert_eq!(board.castle_rights(Color::Black), CastleRights::KingSide);
    assert_eq!(board.en_passant(), Some(Square::D3));
    assert_eq!(board.halfmoves(), 12);
    assert_eq!(board.fullmoves(), 34);
    assert_eq!(board.on(Square::A8), Some((Piece::Rook, Color::Black)));
    assert_eq!(board.on(Square::E8), Some((Piece::King, Color::Black)));
    assert_eq!(board.on(Square::H8), Some((Piece::Rook, Color::Black)));
    assert_eq!(board.on(Square::A1), Some((Piece::Rook, Color::White)));
    assert_eq!(board.on(Square::E1), Some((Piece::King, Color::White)));
    assert_eq!(board.on(Square::B8), None);
}

#[test]
fn read_side_in_either_case() {
    assert_eq!(read("8/8/8/8/8/8/8/8 w - - 0 1").side_to_move(), Color::White);
    assert_eq!(read("8/8/8/8/8/8/8/8 W - - 0 1").side_to_move(), Color::White);
    assert_eq!(read("8/8/8/8/8/8/8/8 b - - 0 1").side_to_move(), Color::Black);
    assert_eq!(read("8/8/8/8/8/8/8/8 B - - 0 1").side_to_move(), Color::Black);
}

#[test]
fn read_castling_letters_in_any_order() {
    let board = read("8/8/8/8/8/8/8/8 w qQkK - 0 1");
    assert_eq!(board.castle_rights(Color::White), CastleRights::Both);
    assert_eq!(board.castle_rights(Color::Black), CastleRights::Both);
    let board = read("8/8/8/8/8/8/8/8 w xKy - 0 1");
    assert_eq!(board.castle_rights(Color::White), CastleRights::KingSide);
    assert_eq!(board.castle_rights(Color::Black), CastleRights::NoRights);
    let board = read("8/8/8/8/8/8/8/8 w  - 0 1");
    assert_eq!(board.castle_rights(Color::White), CastleRights::NoRights);
    assert_eq!(board.castle_rights(Color::Black), CastleRights::NoRights);
}

#[test]
fn refuse_fewer_than_six_fields() {
    assert!(refused(""));
    assert!(refused("8/8/8/8/8/8/8/8"));
    assert!(refused("8/8/8/8/8/8/8/8 w - - 0"));
    assert!(refused("rnbqkbnr/pppppppp/8/8/8/8/PPPPPPPP/RNBQKBNR w KQkq -"));
}

#[test]
fn refuse_unrecognized_placement_character() {
    assert!(refused("x7/8/8/8/8/8/8/8 w - - 0 1"));
    assert!(refused("rnbqkbnr/pppppppp/9/8/8/8/PPPPPPPP/RNBQKBNR w KQkq - 0 1"));
    assert!(refused("rnbqkbnr/pppppppp/0/8/8/8/PPPPPPPP/RNBQKBNR w KQkq - 0 1"));
    assert!(refused("rnbqkbnr/pppppppp/8/8/8/8/PPPPPPPP/RNBQKBN- w KQkq - 0 1"));
    assert!(refused("rnbqkbnr/pppppppp/8/8/8/8/PPPPPPPP/RNBQKBNR\tw KQkq - 0 1 x x"));
}

#[test]
fn refuse_unknown_side() {
    assert!(refused("8/8/8/8/8/8/8/8 x - - 0 1"));
    assert!(refused("8/8/8/8/8/8/8/8 white - - 0 1"));
    assert!(refused("8/8/8/8/8/8/8/8 - - - 0 1"));
}

#[test]
fn a_second_space_makes_an_empty_field() {
    assert!(refused("8/8/8/8/8/8/8/8  w - - 0 1"));
    assert!(refused(" 8/8/8/8/8/8/8/8 w - - 0"));
}

#[test]
fn fields_after_the_sixth_are_not_read() {
    let board = read("8/8/8/8/8/8/8/8 b - - 3 4 and more");
    assert_eq!(board.to_string(), "8/8/8/8/8/8/8/8 b - - 3 4");
}

#[test]
fn unreadable_en_passant_gives_no_target() {
    assert_eq!(read("8/8/8/8/8/8/8/8 w - - 0 1").en_passant(), None);
    assert_eq!(read("8/8/8/8/8/8/8/8 w - zz 0 1").en_passant(), None);
    assert_eq!(read("8/8/8/8/8/8/8/8 w - e 0 1").en_passant(), None);
    assert_eq!(read("8/8/8/8/8/8/8/8 w - e9 0 1").en_passant(), None);
    assert_eq!(read("8/8/8/8/8/8/8/8 w - E6 0 1").en_passant(), Some(Square::E6));
    assert_eq!(read("8/8/8/8/8/8/8/8 w - a3 0 1").en_passant(), Some(Square::A3));
}

#[test]
fn unreadable_counters_give_zero_and_one() {
    let board = read("8/8/8/8/8/8/8/8 w - - abc def");
    assert_eq!(board.halfmoves(), 0);
    assert_eq!(board.fullmoves(), 1);
    let board = read("8/8/8/8/8/8/8/8 w - - -1 -2");
    assert_eq!(board.halfmoves(), 0);
    assert_eq!(board.fullmoves(), 1);
    let board = read("8/8/8/8/8/8/8/8 w - -  ");
    assert_eq!(board.halfmoves(), 0);
    assert_eq!(board.fullmoves(), 1);
    let board = read("8/8/8/8/8/8/8/8 w - - 1x 2.5");
    assert_eq!(board.halfmoves(), 0);
    assert_eq!(board.fullmoves(), 1);
    let board = read("8/8/8/8/8/8/8/8 w - - + +");
    assert_eq!(board.halfmoves(), 0);
    assert_eq!(board.fullmoves(), 1);
}

#[test]
fn counters_are_decimal_numbers() {
    let board = read("8/8/8/8/8/8/8/8 w - - 007 +15");
    assert_eq!(board.halfmoves(), 7);
    assert_eq!(board.fullmoves(), 15);
    let board = read("8/8/8/8/8/8/8/8 w - - 1234567890 9876543210");
    assert_eq!(board.halfmoves(), 1234567890);
    assert_eq!(board.fullmoves(), 9876543210);
    assert_eq!(
        board.to_string(),
        "8/8/8/8/8/8/8/8 w - - 1234567890 9876543210"
    );
}

#[test]
fn counters_that_do_not_fit_give_zero_and_one() {
    let board = read("8/8/8/8/8/8/8/8 w - - 18446744073709551615 18446744073709551615");
    assert_eq!(board.halfmoves(), u64::MAX);
    assert_eq!(board.fullmoves(), u64::MAX);
    let board = read("8/8/8/8/8/8/8/8 w - - 18446744073709551616 18446744073709551616");
    assert_eq!(board.halfmoves(), 0);
    assert_eq!(board.fullmoves(), 1);
    let board = read("8/8/8/8/8/8/8/8 w - - 99999999999999999999999 184467440737095516150");
    assert_eq!(board.halfmoves(), 0);
    assert_eq!(board.fullmoves(), 1);
}

#[test]
fn placement_wraps_around() {
    // a ninth piece on a rank starts again at file A of the same rank
    let board = read("RNBQKBNRP w - - 0 1");
    assert_eq!(board.on(Square::A8), Some((Piece::Pawn, Color::White)));
    assert_eq!(board.on(Square::B8), Some((Piece::Knight, Color::White)));
    assert_eq!(board.to_string(), "PNBQKBNR/8/8/8/8/8/8/8 w - - 0 1");
    // digits skip files and wrap around as well
    let board = read("7pp w - - 0 1");
    assert_eq!(board.to_string(), "p6p/8/8/8/8/8/8/8 w - - 0 1");
    // a ninth rank is the eighth again
    let board = read("8/8/8/8/8/8/8/8/k7 w - - 0 1");
    assert_eq!(board.on(Square::A8), Some((Piece::King, Color::Black)));
}

#[test]
fn runs_of_empty_squares_are_counted() {
    let board = read("1p1p1p1p/p1p1p1p1/2P2P2/PP6/7P/3PP3/8/1P6 w - - 0 1");
    assert_eq!(
        board.to_string(),
        "1p1p1p1p/p1p1p1p1/2P2P2/PP6/7P/3PP3/8/1P6 w - - 0 1"
    );
    let board = read("11111111/1151/44/p7/8/8/8/8 w - - 0 1");
    assert_eq!(board.to_string(), "8/8/8/p7/8/8/8/8 w - - 0 1");
}

#[test]
fn remove_castle_rights() {
    let mut board = Board::default();

    assert_eq!(board.castle_rights(Color::White), CastleRights::Both);
    assert_eq!(board.castle_rights(Color::Black), CastleRights::Both);

    board.remove_castle_rights(Color::White, CastleRights::QueenSide);
    board.remove_castle_rights(Color::Black, CastleRights::Both);

    assert_eq!(board.castle_rights(Color::White), CastleRights::KingSide);
    assert_eq!(board.castle_rights(Color::Black), CastleRights::NoRights);
    assert_eq!(
        board.to_string(),
        "rnbqkbnr/pppppppp/8/8/8/8/PPPPPPPP/RNBQKBNR w K - 0 1"
    );
}
