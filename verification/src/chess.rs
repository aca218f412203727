//! A game of chess: a board, the positions it went through, and how the game stands.

use crate::board::Board;
use crate::chess_move::ChessMove;
use crate::color::Color;
use crate::fen::{fen, lemma_fen_fields, lemma_fen_round_trip, parse_fen, placement};
use crate::game_state::GameState;
use crate::position::Position;
use crate::square::Square;
use crate::text::{chars_of, fields, lemma_fields_len, split_fields};
use vstd::prelude::*;

verus! {

/// What a game holds, as plain mathematical values.
pub struct Session {
    /// The current position.
    pub board: Position,
    /// The square that the player has selected, if any.
    pub square_focused: Option<Square>,
    /// The texts of the positions before each move played, oldest first.
    pub history: Seq<Seq<char>>,
    /// How the game stands.
    pub state: GameState,
}

impl Session {
    /// The move from `from` to `to` can be played: a piece of the side to
    /// move stands on `from` and may legally go to `to`.
    pub open spec fn playable(self, from: Square, to: Square) -> bool {
        self.board.color_on(from) == Some(self.board.side_to_move) && self.board.legal(from, to)
    }

    /// The game after an attempt to play from `from` to `to`.
    ///
    /// If the move can be played, the text of the position before it is
    /// added to the history, the board is the one after the move and the
    /// state is the outcome on that board. If not, the board, the history and
    /// the state stay. Either way no square is selected any more.
    pub open spec fn played(self, from: Square, to: Square) -> Session {
        if self.playable(from, to) {
            Session {
                board: self.board.after(from, to),
                square_focused: None,
                history: self.history.push(fen(self.board)),
                state: self.board.after(from, to).outcome(),
            }
        } else {
            Session { square_focused: None, ..self }
        }
    }

    /// Every entry of the history is the text of a position.
    pub open spec fn wf(self) -> bool {
        forall|i: int| 0 <= i < self.history.len() ==> parse_fen(#[trigger] self.history[i]) is Some
    }

    /// The game after the player has pointed at `square`.
    ///
    /// With a square selected before, this is an attempt to play from that
    /// square to `square`. With none, `square` becomes the selected square if
    /// a piece of the side to move stands on it, and nothing changes
    /// otherwise.
    pub open spec fn selected(self, square: Square) -> Session {
        match self.square_focused {
            Some(from) => self.played(from, square),
            None => if self.board.color_on(square) == Some(self.board.side_to_move) {
                Session { square_focused: Some(square), ..self }
            } else {
                self
            },
        }
    }

    /// The game one step back: the newest entry leaves the history and the
    /// board is the position that it denotes (the board stays if the entry
    /// denotes none, which no entry of a well-formed game does). With an
    /// empty history the game stays as it is.
    pub open spec fn undone(self) -> Session {
        if self.history.len() == 0 {
            self
        } else {
            Session {
                board: match parse_fen(self.history.last()) {
                    Some(board) => board,
                    None => self.board,
                },
                history: self.history.drop_last(),
                ..self
            }
        }
    }

    /// The placement of the current position stood on the board two and
    /// four moves ago as well.
    pub open spec fn repeated(self) -> bool {
        let n = self.history.len() as int;
        &&& n >= 4
        &&& fields(self.history[n - 2])[0] == placement(self.board.squares)
        &&& fields(self.history[n - 4])[0] == placement(self.board.squares)
    }

    /// A player may declare a draw: the position is repeated, or a hundred
    /// half-moves have been counted.
    pub open spec fn drawable(self) -> bool {
        self.repeated() || self.board.halfmoves >= 100
    }
}

/// A Standard Chess game.
#[derive(Clone, Eq, PartialEq, Debug)]
pub struct Chess {
    pub(crate) board: Board,
    pub(crate) square_focused: Option<Square>,
    pub(crate) history: Vec<String>,
    pub(crate) state: GameState,
}

impl View for Chess {
    type V = Session;

    closed spec fn view(&self) -> Session {
        Session {
            board: self.board@,
            square_focused: self.square_focused,
            history: Seq::new(self.history@.len(), |i: int| self.history@[i]@),
            state: self.state,
        }
    }
}

impl Chess {
    /// Create a new instance of Chess.
    pub fn new(board: Board) -> (chess: Chess)
        ensures
            chess@ == (Session {
                board: board@,
                square_focused: None,
                history: Seq::empty(),
                state: GameState::Ongoing,
            }),
    {
        let chess = Chess {
            board,
            square_focused: None,
            history: Vec::new(),
            state: GameState::Ongoing,
        };
        proof {
            assert(chess@.history =~= Seq::<Seq<char>>::empty());
        }
        chess
    }

    /// Get the board of the game.
    pub fn board(&self) -> (board: Board)
        ensures
            board@ == self@.board,
    {
        self.board
    }

    /// Get the square that the player has selected, if any.
    pub fn square_focused(&self) -> (square: Option<Square>)
        ensures
            square == self@.square_focused,
    {
        self.square_focused
    }

    /// Get the history of the game.
    ///
    /// The [`Vec`] contains a FEN-string for the position before each move
    /// played, oldest first.
    pub fn history(&self) -> (history: Vec<String>)
        ensures
            history@.len() == self@.history.len(),
            forall|i: int| 0 <= i < history@.len() ==> (#[trigger] history@[i])@ == self@.history[i],
    {
        let mut history: Vec<String> = Vec::new();
        let mut i: usize = 0;
        while i < self.history.len()
            invariant
                i <= self.history@.len(),
                history@.len() == i,
                forall|j: int| 0 <= j < i ==> (#[trigger] history@[j])@ == self.history@[j]@,
            decreases self.history@.len() - i,
        {
            history.push(self.history[i].clone());
            i += 1;
        }
        history
    }

    /// Go back one step in history.
    ///
    /// If the history is empty, the game stays as it is.
    pub fn undo(&mut self)
        ensures
            final(self)@ == old(self)@.undone(),
            old(self)@.wf() ==> final(self)@.wf(),
    {
        let ghost before = self@;
        match self.history.pop() {
            Some(text) => {
                proof {
                    assert(text@ == before.history.last());
                    assert(self@.history =~= before.history.drop_last());
                }
                match Board::from_str(text.as_str()) {
                    Ok(board) => {
                        self.board = board;
                    },
                    Err(_) => {},
                }
            },
            None => {
                proof {
                    assert(self@.history =~= before.history);
                }
            },
        }
    }

    /// Reset the Game (board and history).
    pub fn reset(&mut self)
        ensures
            final(self)@ == (Session {
                board: Board::starting(),
                square_focused: None,
                history: Seq::empty(),
                state: GameState::Ongoing,
            }),
    {
        self.board = Board::default();
        self.square_focused = None;
        self.history = Vec::new();
        self.state = GameState::Ongoing;
        proof {
            assert(self@.history =~= Seq::<Seq<char>>::empty());
        }
    }

    /// Return the [`State`][GameState] of the Game.
    pub fn state(&mut self) -> (state: GameState)
        ensures
            state == old(self)@.state,
            final(self)@ == old(self)@,
    {
        self.state
    }

    /// Play the move from `from` to `to`, if it is legal.
    ///
    /// A legal move is applied to the board after the text of the position
    /// before it has been added to the history, and the state becomes what
    /// the new board says: checkmate, stalemate, or a game that goes on. An
    /// illegal move changes nothing. Either way no square is selected any
    /// more.
    pub fn play(&mut self, from: Square, to: Square)
        requires
            old(self)@.board.halfmoves < u64::MAX,
            old(self)@.board.fullmoves < u64::MAX,
        ensures
            final(self)@ == old(self)@.played(from, to),
            old(self)@.wf() ==> final(self)@.wf(),
    {
        let ghost before = self@;
        let m = ChessMove::new(from, to);
        if self.board.is_legal(m) {
            let text = self.board.to_string();
            proof {
                self.board.lemma_view_wf();
                lemma_fen_round_trip(self.board@);
            }
            self.history.push(text);
            self.board.update(m);
            self.state = self.board.state();
            proof {
                assert(self@.history =~= before.history.push(fen(before.board)));
            }
        } else {
            proof {
                assert(self@.history =~= before.history);
            }
        }
        self.square_focused = None;
    }

    /// Take a square that the player has pointed at.
    ///
    /// With a square selected before, the move from that square to this one
    /// is played if it is legal, and no square is selected any more. With
    /// none, this square becomes the selected one if a piece of the side to
    /// move stands on it.
    pub fn select(&mut self, square: Square)
        requires
            old(self)@.board.halfmoves < u64::MAX,
            old(self)@.board.fullmoves < u64::MAX,
        ensures
            final(self)@ == old(self)@.selected(square),
            old(self)@.wf() ==> final(self)@.wf(),
    {
        match self.square_focused {
            Some(from) => {
                self.play(from, square);
            },
            None => {
                if self.board.color_on_is(square, self.board.side_to_move()) {
                    self.square_focused = Some(square);
                }
            },
        }
    }

    /// Verify if a player can legally declare a draw by 3-fold repetition or 50-move rule.
    ///
    /// The repetition is looked for in the history: the placement of the
    /// pieces must be the same now, two moves ago and four moves ago. With
    /// fewer than four entries in the history there is no repetition.
    pub fn can_declare_draw(&self) -> (b: bool)
        ensures
            b == self@.drawable(),
            self@.board.halfmoves >= 100 ==> b,
    {
        if self.board.halfmoves() >= 100 {
            return true;
        }
        let n = self.history.len();
        if n < 4 {
            return false;
        }
        let now = placement_of(self.board.to_string().as_str());
        proof {
            lemma_fen_fields(self.board@);
        }
        let two_ago = placement_of(self.history[n - 2].as_str());
        let four_ago = placement_of(self.history[n - 4].as_str());
        same_text(&two_ago, &now) && same_text(&four_ago, &now)
    }

    /// Accept the draw. Assumes that a draw is offered.
    pub fn accept_draw(&mut self)
        ensures
            final(self)@ == (Session { state: GameState::DrawAccepted, ..old(self)@ }),
    {
        self.state = GameState::DrawAccepted;
    }

    /// Declare a draw by 3-fold repetition or 50-move rule. Assumes that a draw can be declare.
    pub fn declare_draw(&mut self)
        ensures
            final(self)@ == (Session { state: GameState::DrawDeclared, ..old(self)@ }),
    {
        self.state = GameState::DrawDeclared;
    }

    /// [`Color`] resigns the game.
    pub fn resign(&mut self, color: Color)
        ensures
            final(self)@ == (Session { state: GameState::Resigns(color), ..old(self)@ }),
    {
        self.state = GameState::Resigns(color);
    }
}

impl Default for Chess {
    /// A game on the board at the start of a game.
    fn default() -> (chess: Chess)
        ensures
            chess@ == (Session {
                board: Board::starting(),
                square_focused: None,
                history: Seq::empty(),
                state: GameState::Ongoing,
            }),
    {
        Chess::new(Board::default())
    }
}

/// The first field of a text: the piece placement, if the text is that of a position.
fn placement_of(text: &str) -> (field: Vec<char>)
    ensures
        field@ == fields(text@)[0],
{
    let chars = chars_of(text);
    let mut parts = split_fields(&chars);
    proof {
        lemma_fields_len(chars@);
    }
    parts.swap_remove(0)
}

/// Verify if two texts are the same.
fn same_text(a: &Vec<char>, b: &Vec<char>) -> (same: bool)
    ensures
        same == (a@ == b@),
{
    if a.len() != b.len() {
        return false;
    }
    let mut i: usize = 0;
    while i < a.len()
        invariant
            i <= a.len(),
            a.len() == b.len(),
            a@.take(i as int) == b@.take(i as int),
        decreases a.len() - i,
    {
        if a[i] != b[i] {
            proof {
                if a@ == b@ {
                    assert(a@[i as int] == b@[i as int]);
                }
            }
            return false;
        }
        proof {
            assert(a@.take(i + 1) =~= a@.take(i as int).push(a@[i as int]));
            assert(b@.take(i + 1) =~= b@.take(i as int).push(b@[i as int]));
        }
        i += 1;
    }
    proof {
        assert(a@.take(i as int) =~= a@);
        assert(b@.take(i as int) =~= b@);
    }
    true
}

} // verus!
