use chess::{
    CastleRights, ChessMove, ChessPosition, Color, Direction, Error, GameAction, GameState, Piece,
    Square, ALL_COLORS, ALL_DIAGONAL, ALL_DIRECTION, ALL_LINE, ALL_PIECES, NUM_COLORS,
    NUM_DIAGONAL, NUM_DIRECTION, NUM_LINES, NUM_PIECES,
};

#[test]
fn color_index_and_opposite() {
    assert_eq!(Color::White.to_index(), 0);
    assert_eq!(Color::Black.to_index(), 1);
    assert_eq!(!Color::White, Color::Black);
    assert_eq!(!Color::Black, Color::White);
    assert_eq!(!!Color::White, Color::White);
    assert_eq!(NUM_COLORS, 2);
    assert_eq!(ALL_COLORS, [Color::White, Color::Black]);
}

#[test]
fn castle_rights_index_round_trip() {
    assert_eq!(CastleRights::NoRights.to_index(), 0);
    assert_eq!(CastleRights::KingSide.to_index(), 1);
    assert_eq!(CastleRights::QueenSide.to_index(), 2);
    assert_eq!(CastleRights::Both.to_index(), 3);
    for i in 0..4 {
        assert_eq!(CastleRights::from_index(i).to_index(), i);
    }
}

#[test]
fn castle_rights_sides() {
    assert!(!CastleRights::NoRights.has_kingside());
    assert!(!CastleRights::NoRights.has_queenside());
    assert!(CastleRights::KingSide.has_kingside());
    assert!(!CastleRights::KingSide.has_queenside());
    assert!(!CastleRights::QueenSide.has_kingside());
    assert!(CastleRights::QueenSide.has_queenside());
    assert!(CastleRights::Both.has_kingside());
    assert!(CastleRights::Both.has_queenside());
    assert_eq!(CastleRights::from_sides(true, false), CastleRights::KingSide);
    assert_eq!(CastleRights::from_sides(false, true), CastleRights::QueenSide);
    assert_eq!(CastleRights::from_sides(true, true), CastleRights::Both);
    assert_eq!(CastleRights::from_sides(false, false), CastleRights::NoRights);
}

#[test]
fn castle_rights_remove() {
    assert_eq!(
        CastleRights::Both.remove(CastleRights::QueenSide),
        CastleRights::KingSide
    );
    assert_eq!(
        CastleRights::Both.remove(CastleRights::KingSide),
        CastleRights::QueenSide
    );
    assert_eq!(CastleRights::Both.remove(CastleRights::Both), CastleRights::NoRights);
    assert_eq!(CastleRights::Both.remove(CastleRights::NoRights), CastleRights::Both);
    assert_eq!(
        CastleRights::KingSide.remove(CastleRights::QueenSide),
        CastleRights::KingSide
    );
    assert_eq!(
        CastleRights::NoRights.remove(CastleRights::Both),
        CastleRights::NoRights
    );
}

#[test]
fn castle_rights_letters() {
    assert_eq!(CastleRights::Both.to_string(Color::White), "KQ");
    assert_eq!(CastleRights::Both.to_string(Color::Black), "kq");
    assert_eq!(CastleRights::KingSide.to_string(Color::White), "K");
    assert_eq!(CastleRights::QueenSide.to_string(Color::Black), "q");
    assert_eq!(CastleRights::NoRights.to_string(Color::White), "");
}

#[test]
fn direction_has() {
    assert_eq!(Direction::Up.has(Direction::Up), true);
    assert_eq!(Direction::Up.has(Direction::Right), false);
    assert_eq!(Direction::UpRight.has(Direction::Up), true);
    assert_eq!(Direction::UpRight.has(Direction::Right), true);
    // but it's not symmetric
    assert_eq!(Direction::Up.has(Direction::UpRight), false);
    assert_eq!(Direction::DownLeft.has(Direction::Down), true);
    assert_eq!(Direction::DownLeft.has(Direction::Left), true);
    assert_eq!(Direction::DownLeft.has(Direction::Up), false);
    assert_eq!(Direction::DownLeft.has(Direction::DownLeft), false);
    assert_eq!(Direction::Left.has(Direction::Left), true);
    assert_eq!(Direction::Left.has(Direction::Right), false);
}

#[test]
fn direction_steps() {
    assert_eq!((Direction::Up.file_step(), Direction::Up.rank_step()), (0, 1));
    assert_eq!(
        (Direction::UpRight.file_step(), Direction::UpRight.rank_step()),
        (1, 1)
    );
    assert_eq!(
        (Direction::Right.file_step(), Direction::Right.rank_step()),
        (1, 0)
    );
    assert_eq!(
        (Direction::DownRight.file_step(), Direction::DownRight.rank_step()),
        (1, -1)
    );
    assert_eq!((Direction::Down.file_step(), Direction::Down.rank_step()), (0, -1));
    assert_eq!(
        (Direction::DownLeft.file_step(), Direction::DownLeft.rank_step()),
        (-1, -1)
    );
    assert_eq!((Direction::Left.file_step(), Direction::Left.rank_step()), (-1, 0));
    assert_eq!(
        (Direction::UpLeft.file_step(), Direction::UpLeft.rank_step()),
        (-1, 1)
    );
}

#[test]
fn direction_lists() {
    assert_eq!(NUM_LINES, 4);
    assert_eq!(NUM_DIAGONAL, 4);
    assert_eq!(NUM_DIRECTION, 8);
    assert_eq!(
        ALL_LINE,
        [Direction::Up, Direction::Right, Direction::Down, Direction::Left]
    );
    assert_eq!(
        ALL_DIAGONAL,
        [
            Direction::UpRight,
            Direction::DownRight,
            Direction::DownLeft,
            Direction::UpLeft
        ]
    );
    assert_eq!(ALL_DIRECTION.len(), 8);
}

#[test]
fn piece_index_and_letters() {
    assert_eq!(NUM_PIECES, 6);
    for (i, piece) in ALL_PIECES.iter().enumerate() {
        assert_eq!(piece.to_index(), i);
    }
    assert_eq!(Piece::Pawn.to_string(Color::White), "P");
    assert_eq!(Piece::Knight.to_string(Color::White), "N");
    assert_eq!(Piece::Bishop.to_string(Color::Black), "b");
    assert_eq!(Piece::Rook.to_string(Color::Black), "r");
    assert_eq!(Piece::Queen.to_string(Color::White), "Q");
    assert_eq!(Piece::King.to_string(Color::Black), "k");
    for piece in ALL_PIECES {
        for color in ALL_COLORS {
            assert_eq!(Piece::from_char(piece.to_char(color)), Some((piece, color)));
        }
    }
    assert_eq!(Piece::from_char('x'), None);
    assert_eq!(Piece::from_char('1'), None);
}

#[test]
fn chess_move_holds_its_squares() {
    let m = ChessMove::new(Square::E2, Square::E4);
    assert_eq!(m.get_source(), Square::E2);
    assert_eq!(m.get_dest(), Square::E4);
    assert_eq!(m.to_string(), "e2e4");
    assert_eq!(m, ChessMove::new(Square::E2, Square::E4));
    assert_ne!(m, ChessMove::new(Square::E4, Square::E2));
}

#[test]
fn game_state_winner() {
    assert_eq!(GameState::Ongoing.winner(), None);
    assert_eq!(GameState::Checkmates(Color::Black).winner(), Some(Color::White));
    assert_eq!(GameState::Checkmates(Color::White).winner(), Some(Color::Black));
    assert_eq!(GameState::Stalemate.winner(), None);
    assert_eq!(GameState::DrawAccepted.winner(), None);
    assert_eq!(GameState::DrawDeclared.winner(), None);
    assert_eq!(GameState::Resigns(Color::White).winner(), Some(Color::Black));
    assert_eq!(GameState::Resigns(Color::Black).winner(), Some(Color::White));
    assert_eq!(GameState::default(), GameState::Ongoing);
}

#[test]
fn game_actions_compare() {
    assert_eq!(GameAction::AcceptDraw, GameAction::AcceptDraw);
    assert_ne!(GameAction::AcceptDraw, GameAction::RefuseDraw);
    assert_ne!(
        GameAction::Resign(Color::White),
        GameAction::Resign(Color::Black)
    );
    assert_ne!(
        GameAction::OfferDraw(Color::White),
        GameAction::Resign(Color::White)
    );
}

#[test]
fn chess_position_coordinates() {
    let position = ChessPosition::new(3, 5);
    assert_eq!(position.get_file(), 3);
    assert_eq!(position.get_rank(), 5);
    assert_eq!(position.up(), Some(ChessPosition::new(3, 6)));
    assert_eq!(position.down(), Some(ChessPosition::new(3, 4)));
    assert_eq!(position.right(), Some(ChessPosition::new(4, 5)));
    assert_eq!(position.left(), Some(ChessPosition::new(2, 5)));
    assert_eq!(position.forward(Color::White), Some(ChessPosition::new(3, 6)));
    assert_eq!(position.forward(Color::Black), Some(ChessPosition::new(3, 4)));
    assert_eq!(position.backward(Color::White), Some(ChessPosition::new(3, 4)));
    assert_eq!(position.backward(Color::Black), Some(ChessPosition::new(3, 6)));
}

#[test]
fn chess_position_edges() {
    assert_eq!(ChessPosition::new(3, 8).up(), None);
    assert_eq!(ChessPosition::new(3, 0).down(), None);
    assert_eq!(ChessPosition::new(8, 3).right(), None);
    assert_eq!(ChessPosition::new(0, 3).left(), None);
    assert_eq!(ChessPosition::new(3, 8).forward(Color::White), None);
    assert_eq!(ChessPosition::new(3, 0).forward(Color::Black), None);
    assert_eq!(ChessPosition::new(3, 0).backward(Color::White), None);
    assert_eq!(ChessPosition::new(3, 8).backward(Color::Black), None);
}

#[test]
fn chess_position_from_str() {
    assert_eq!(ChessPosition::from_str("a1"), Ok(ChessPosition::new(1, 1)));
    assert_eq!(ChessPosition::from_str("h8"), Ok(ChessPosition::new(8, 8)));
    assert_eq!(ChessPosition::from_str("c7"), Ok(ChessPosition::new(3, 7)));
    assert_eq!(ChessPosition::from_str("c7!"), Ok(ChessPosition::new(3, 7)));
    assert_eq!(ChessPosition::from_str(""), Err(Error::InvalidGridPosition));
    assert_eq!(ChessPosition::from_str("c"), Err(Error::InvalidGridPosition));
    assert_eq!(ChessPosition::from_str("C7"), Err(Error::InvalidGridPosition));
    assert_eq!(ChessPosition::from_str("i7"), Err(Error::InvalidGridPosition));
    assert_eq!(ChessPosition::from_str("c9"), Err(Error::InvalidGridPosition));
    assert_eq!(ChessPosition::from_str("c0"), Err(Error::InvalidGridPosition));
}

#[test]
fn chess_position_to_string() {
    assert_eq!(ChessPosition::new(0, 0).to_string(), "a1");
    assert_eq!(ChessPosition::new(3, 7).to_string(), "h4");
    assert_eq!(ChessPosition::new(1, 1).to_string(), "b2");
}

#[test]
fn error_messages() {
    assert_eq!(
        Error::InvalidFen {
            fen: "8/8 w".to_string()
        }
        .to_string(),
        "Invalid FEN string: 8/8 w"
    );
    assert_eq!(
        Error::InvalidBoard.to_string(),
        "The board specified did not pass sanity checks.  Are you sure the kings exist and the side to move cannot capture the opposing king?"
    );
    assert_eq!(
        Error::InvalidGridPosition.to_string(),
        "The string specified does not contain a valid algebraic notation square"
    );
    assert_eq!(
        Error::InvalidSanMove.to_string(),
        "The string specified does not contain a valid SAN notation move"
    );
    assert_ne!(Error::InvalidFile.to_string(), Error::InvalidRank.to_string());
    assert_ne!(Error::InvalidMove.to_string(), "");
}
