use chess::{Board, Chess, Color, GameState, Square};

const START: &str = "rnbqkbnr/pppppppp/8/8/8/8/PPPPPPPP/RNBQKBNR w KQkq - 0 1";

fn read(text: &str) -> Board {
    match Board::from_str(text) {
        Ok(board) => board,
        Err(_) => panic!("a position was expected"),
    }
}

#[test]
fn a_new_game() {
    let mut chess = Chess::default();
    assert_eq!(chess.board(), Board::default());
    assert_eq!(chess.history(), Vec::<String>::new());
    assert_eq!(chess.state(), GameState::Ongoing);
    assert_eq!(chess.square_focused(), None);
    assert_eq!(chess, Chess::new(Board::default()));
}

#[test]
fn play_a_legal_move() {
    let mut chess = Chess::default();
    chess.play(Square::E2, Square::E4);
    assert_eq!(
        chess.board().to_string(),
        "rnbqkbnr/pppppppp/8/8/4P3/8/PPPP1PPP/RNBQKBNR b KQkq e3 1 1"
    );
    assert_eq!(chess.history(), vec![START.to_string()]);
    assert_eq!(chess.state(), GameState::Ongoing);
    chess.play(Square::E7, Square::E5);
    assert_eq!(
        chess.history(),
        vec![
            START.to_string(),
            "rnbqkbnr/pppppppp/8/8/4P3/8/PPPP1PPP/RNBQKBNR b KQkq e3 1 1".to_string()
        ]
    );
}

#[test]
fn an_illegal_move_changes_nothing() {
    let mut chess = Chess::default();
    chess.play(Square::E2, Square::E5);
    assert_eq!(chess, Chess::default());
    chess.play(Square::E7, Square::E5);
    assert_eq!(chess, Chess::default());
    chess.play(Square::E4, Square::E5);
    assert_eq!(chess, Chess::default());
    chess.play(Square::E2, Square::E4);
    let after = chess.clone();
    chess.play(Square::E4, Square::E5);
    assert_eq!(chess, after);
}

#[test]
fn undo_restores_the_position_before_the_move() {
    let mut chess = Chess::default();
    let expected = Chess::default();
    chess.play(Square::A2, Square::A4);
    chess.undo();
    assert_eq!(chess, expected);
    assert_eq!(chess.board().to_string(), START);
}

#[test]
fn undo_restores_the_text_of_every_position() {
    let moves = [
        (Square::E2, Square::E4),
        (Square::D7, Square::D5),
        (Square::E4, Square::D5),
        (Square::D8, Square::D5),
        (Square::B1, Square::C3),
        (Square::D5, Square::A5),
        (Square::E1, Square::E2),
        (Square::A5, Square::C3),
    ];
    let mut chess = Chess::default();
    let mut texts = Vec::new();
    for (from, to) in moves {
        let before = chess.board().to_string();
        chess.play(from, to);
        assert_ne!(chess.board().to_string(), before);
        texts.push(before);
    }
    assert_eq!(chess.history(), texts);
    while let Some(text) = texts.pop() {
        chess.undo();
        assert_eq!(chess.board().to_string(), text);
        assert_eq!(chess.history(), texts);
    }
    assert_eq!(chess.board(), Board::default());
}

#[test]
fn undo_with_an_empty_history_changes_nothing() {
    let mut chess = Chess::default();
    chess.undo();
    assert_eq!(chess, Chess::default());
    let board = read("4k3/8/8/8/8/8/8/4K3 b - - 41 7");
    let mut chess = Chess::new(board);
    chess.undo();
    assert_eq!(chess.board(), board);
}

#[test]
fn undo_keeps_the_state() {
    let mut chess = Chess::default();
    chess.play(Square::E2, Square::E4);
    chess.resign(Color::Black);
    chess.undo();
    assert_eq!(chess.state(), GameState::Resigns(Color::Black));
    assert_eq!(chess.board(), Board::default());
}

#[test]
fn reset_goes_back_to_the_start() {
    let mut chess = Chess::new(read("4k3/8/8/8/8/8/8/4K3 w - - 41 7"));
    chess.play(Square::E1, Square::E2);
    chess.declare_draw();
    chess.reset();
    assert_eq!(chess, Chess::default());
    assert_eq!(chess.history(), Vec::<String>::new());
    assert_eq!(chess.state(), GameState::Ongoing);
}

#[test]
fn fools_mate() {
    let mut chess = Chess::default();
    chess.play(Square::F2, Square::F3);
    assert_eq!(chess.state(), GameState::Ongoing);
    chess.play(Square::E7, Square::E5);
    assert_eq!(chess.state(), GameState::Ongoing);
    chess.play(Square::G2, Square::G4);
    assert_eq!(chess.state(), GameState::Ongoing);
    chess.play(Square::D8, Square::H4);
    assert_eq!(chess.state(), GameState::Checkmates(Color::White));
    assert_eq!(chess.state().winner(), Some(Color::Black));
    assert_eq!(chess.history().len(), 4);
}

#[test]
fn play_into_stalemate() {
    let mut chess = Chess::new(read("7k/5K2/8/6Q1/8/8/8/8 w - - 0 1"));
    chess.play(Square::G5, Square::G6);
    assert_eq!(chess.state(), GameState::Stalemate);
}

#[test]
fn state_transitions() {
    let mut chess = Chess::default();
    chess.accept_draw();
    assert_eq!(chess.state(), GameState::DrawAccepted);
    chess.declare_draw();
    assert_eq!(chess.state(), GameState::DrawDeclared);
    chess.resign(Color::White);
    assert_eq!(chess.state(), GameState::Resigns(Color::White));
    assert_eq!(chess.state().winner(), Some(Color::Black));
    assert_eq!(chess.board(), Board::default());
    assert_eq!(chess.history(), Vec::<String>::new());
}

#[test]
fn a_played_move_sets_the_state_from_the_board() {
    let mut chess = Chess::default();
    chess.resign(Color::White);
    chess.play(Square::E2, Square::E4);
    assert_eq!(chess.state(), GameState::Ongoing);
}

#[test]
fn draw_after_a_hundred_halfmoves() {
    let chess = Chess::new(read("4k3/8/8/8/8/8/8/4K3 w - - 100 60"));
    assert!(chess.can_declare_draw());
    let chess = Chess::new(read("4k3/8/8/8/8/8/8/4K3 w - - 250 130"));
    assert!(chess.can_declare_draw());
    let mut chess = Chess::new(read("4k3/8/8/8/8/8/8/4K3 w - - 99 60"));
    assert!(!chess.can_declare_draw());
    chess.play(Square::E1, Square::E2);
    assert!(chess.can_declare_draw());
}

#[test]
fn no_draw_without_history() {
    let mut chess = Chess::default();
    assert!(!chess.can_declare_draw());
    chess.play(Square::G1, Square::F3);
    assert!(!chess.can_declare_draw());
    chess.play(Square::G8, Square::F6);
    assert!(!chess.can_declare_draw());
    chess.play(Square::F3, Square::G1);
    assert!(!chess.can_declare_draw());
}

#[test]
fn no_draw_when_the_placement_differs_two_moves_ago() {
    let mut chess = Chess::default();
    chess.play(Square::G1, Square::F3);
    chess.play(Square::G8, Square::F6);
    chess.play(Square::F3, Square::G1);
    chess.play(Square::F6, Square::G8);
    assert_eq!(chess.history().len(), 4);
    assert_eq!(chess.board().on(Square::G1), Board::default().on(Square::G1));
    assert!(!chess.can_declare_draw());
}

#[test]
fn select_a_piece_then_its_destination() {
    let mut chess = Chess::default();
    chess.select(Square::E2);
    assert_eq!(chess.square_focused(), Some(Square::E2));
    assert_eq!(chess.board(), Board::default());
    chess.select(Square::E4);
    assert_eq!(chess.square_focused(), None);
    assert_eq!(
        chess.board().to_string(),
        "rnbqkbnr/pppppppp/8/8/4P3/8/PPPP1PPP/RNBQKBNR b KQkq e3 1 1"
    );
    assert_eq!(chess.history(), vec![START.to_string()]);
}

#[test]
fn select_only_a_piece_of_the_side_to_move() {
    let mut chess = Chess::default();
    chess.select(Square::E4);
    assert_eq!(chess.square_focused(), None);
    chess.select(Square::E7);
    assert_eq!(chess.square_focused(), None);
    assert_eq!(chess, Chess::default());
}

#[test]
fn select_an_illegal_destination_forgets_the_selection() {
    let mut chess = Chess::default();
    chess.select(Square::E2);
    chess.select(Square::E5);
    assert_eq!(chess.square_focused(), None);
    assert_eq!(chess, Chess::default());
}

#[test]
fn play_forgets_the_selection() {
    let mut chess = Chess::default();
    chess.select(Square::E2);
    chess.play(Square::D2, Square::D4);
    assert_eq!(chess.square_focused(), None);
    assert_eq!(chess.history().len(), 1);
}
