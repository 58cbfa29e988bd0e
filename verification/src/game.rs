//! The course of a game at the board: what a click on a square does, when
//! the analysis engine is asked for a move and what becomes of its reply,
//! and when the game is lost.
//!
//! Nothing here draws, waits or talks to the engine. The caller hands in
//! what happened, a click or a reply, and is told what to do next.

use vstd::prelude::*;
use crate::board::{Board, BoardView, Grid, StateView};
use crate::check::{has_square, in_check};
use crate::fen::fen_text;
use crate::legality::{legal_captures, legal_quiets};
use crate::mate::checkmate;
use crate::piece::{ChessPiece, PieceColor, PieceType, Square};
use crate::uci::{parse_uci, parse_uci_move};

verus! {

/// How a game is played.
#[derive(Clone, Copy, Debug, PartialEq, Eq, Structural)]
pub enum GameMode {
    /// Both sides are moved by hand, in turn.
    Sandbox,
    /// The player moves one side, the analysis engine the other.
    PvE,
    /// No game is played and the board takes no input.
    Idle,
}

/// The state of a game beside the position.
#[derive(Clone, Debug)]
pub struct GameController {
    pub mode: GameMode,
    pub game_over: bool,
    pub player: PieceColor,
    pub enemey: PieceColor,
    /// Whether the engine has been asked for a move and has not replied.
    pub stockfish_move_pending: bool,
    /// The position, in notation, for which the engine was last asked.
    pub asked_position: String,
}

/// The mathematical value of a [`GameController`].
pub struct GameView {
    pub mode: GameMode,
    pub game_over: bool,
    pub player: PieceColor,
    pub enemey: PieceColor,
    pub stockfish_move_pending: bool,
    pub asked_position: Seq<char>,
}

impl View for GameController {
    type V = GameView;

    open spec fn view(&self) -> GameView {
        GameView {
            mode: self.mode,
            game_over: self.game_over,
            player: self.player,
            enemey: self.enemey,
            stockfish_move_pending: self.stockfish_move_pending,
            asked_position: self.asked_position@,
        }
    }
}

/// What the caller is to do after a square has been handled.
#[derive(Clone, Debug)]
pub enum Step {
    /// Nothing.
    Rest,
    /// Ask the engine for a move in the position given in notation.
    AskEngine(String),
    /// Look whether the engine has replied, and hand the reply, or its
    /// absence, to [`GameController::engine_replied`].
    PollEngine,
}

/// The first square at or after square number `from`, counting rank by
/// rank, on which a king of `color` stands.
pub open spec fn first_king(g: Grid, color: PieceColor, from: nat) -> Option<Square>
    decreases 64 - from,
{
    if from >= 64 {
        None
    } else if g[from as int / 8][from as int % 8] matches Some(k) && k.kind == PieceType::King && k.color
        == color {
        Some(((from / 8) as u8, (from % 8) as u8))
    } else {
        first_king(g, color, from + 1)
    }
}

impl BoardView {
    /// The position with nothing selected.
    pub open spec fn deselected(self) -> BoardView {
        BoardView { state: self.state.deselected(), ..self }
    }

    /// The position with `piece` selected and its legal moves cached.
    pub open spec fn with_selection(self, piece: ChessPiece) -> BoardView {
        BoardView {
            state: StateView {
                selected_piece: Some(piece),
                quiet_moves: Some(legal_quiets(self, piece)),
                capture_moves: Some(legal_captures(self, piece)),
                ..self.state
            },
            ..self
        }
    }

    /// The position after an attempt to move from `from` to `to`: the move
    /// is made if it is legal, and nothing is selected either way.
    pub open spec fn after_attempt(self, from: Square, to: Square) -> BoardView {
        match self.move_outcome(from, to) {
            Ok(after) => after.deselected(),
            Err(_) => self.deselected(),
        }
    }

    /// The position after the selected king `king` was sent to its own rook
    /// `rook`: where the rook's square is among the cached captures, the
    /// castling is made if it is allowed and nothing is selected; otherwise
    /// nothing happens.
    pub open spec fn after_castling_click(self, king: ChessPiece, rook: ChessPiece) -> BoardView {
        if self.state.capture_moves matches Some(moves) && moves.contains(rook.position) {
            self.castle_outcome(king.position, rook.position).deselected()
        } else {
            self
        }
    }

    /// The position after a click on square `pos`, on which `piece` stands.
    ///
    /// With a piece selected: a click on an enemy piece or on an empty
    /// square attempts the move there; a click on a rook of the selected
    /// king's side, the king not being in check, asks for castling; a click
    /// on another piece of the same side selects that piece. With nothing
    /// selected, a click on a piece selects it and a click on an empty
    /// square changes nothing.
    ///
    /// By hand, a piece of the side to move may be selected first, and any
    /// piece of the selected side after. Against the engine only the
    /// player's pieces may be selected, and pieces of the selected side
    /// answer only when that side is to move.
    pub open spec fn after_click(
        self,
        mode: GameMode,
        player: PieceColor,
        piece: Option<ChessPiece>,
        pos: Square,
    ) -> BoardView {
        let by_hand = mode == GameMode::Sandbox;
        match self.state.selected_piece {
            Some(selected) => match piece {
                Some(p) => if p.color != selected.color {
                    self.after_attempt(selected.position, p.position)
                } else if by_hand || p.color == self.turn {
                    if selected.kind == PieceType::King && p.kind == PieceType::Rook && !in_check(
                        self.grid,
                        p.color,
                    ) {
                        self.after_castling_click(selected, p)
                    } else if by_hand || player == p.color {
                        self.with_selection(p)
                    } else {
                        self
                    }
                } else {
                    self
                },
                None => self.after_attempt(selected.position, pos),
            },
            None => match piece {
                Some(p) => if (by_hand && p.color == self.turn) || (!by_hand && player == p.color) {
                    self.with_selection(p)
                } else {
                    self
                },
                None => self.deselected(),
            },
        }
    }

    /// The position after the pointer has acted on square `pos`: a
    /// secondary click drops the selection; a click is then handled as
    /// [`BoardView::after_click`] says, except that against the engine a
    /// click does nothing while a promotion is pending.
    pub open spec fn after_input(
        self,
        mode: GameMode,
        player: PieceColor,
        piece: Option<ChessPiece>,
        pos: Square,
        clicked: bool,
        secondary_clicked: bool,
    ) -> BoardView {
        let first = if secondary_clicked {
            self.deselected()
        } else {
            self
        };
        if clicked && (mode == GameMode::Sandbox || first.state.promtion_pending is None) {
            first.after_click(mode, player, piece, pos)
        } else {
            first
        }
    }

    /// The position after the engine's reply `reply` has been taken in: the
    /// reply is decoded, which makes a promotion or a castling, and any
    /// other move it writes is made if it is legal.
    pub open spec fn after_reply(self, reply: Seq<char>) -> BoardView {
        let decoded = self.after_uci(reply);
        match self.uci_reply(reply) {
            Ok(Some(squares)) => if parse_uci(reply)->Ok_0.promotion is None {
                match decoded.move_outcome(squares.0, squares.1) {
                    Ok(after) => after,
                    Err(_) => decoded,
                }
            } else {
                decoded
            },
            _ => decoded,
        }
    }

    /// The position with the square of the checkmated king marked, if the
    /// side to move is checkmated.
    pub open spec fn with_loss_marked(self) -> BoardView {
        if checkmate(self) {
            BoardView {
                state: StateView { checkmate_square: first_king(self.grid, self.turn, 0), ..self.state },
                ..self
            }
        } else {
            self
        }
    }
}

impl GameView {
    /// Whether it is for the engine to move.
    pub open spec fn engine_to_move(self, b: BoardView) -> bool {
        self.mode == GameMode::PvE && !self.game_over && self.player != b.turn
    }

    /// Whether a reply of the engine is awaited and would be for the
    /// position as it is now.
    pub open spec fn awaiting(self, b: BoardView) -> bool {
        self.engine_to_move(b) && self.stockfish_move_pending && self.asked_position == fen_text(b)
    }

    /// The game once the position has been looked at for a loss.
    pub open spec fn with_loss(self, b: BoardView) -> GameView {
        GameView { game_over: self.game_over || checkmate(b), ..self }
    }
}

/// What handling a square comes to: the game, the position, whether the
/// caller is to ask the engine, and if so for which position, or to poll
/// it, and whether the side to move was found checkmated.
pub struct Outcome {
    pub game: GameView,
    pub board: BoardView,
    pub ask: Option<Seq<char>>,
    pub poll: bool,
    pub lost: bool,
}

impl GameView {
    /// The outcome once the position has been looked at for a loss, as it
    /// is while a game against the engine is on.
    pub open spec fn settled(self, b: BoardView, ask: Option<Seq<char>>) -> Outcome {
        Outcome {
            game: self.with_loss(b),
            board: b.with_loss_marked(),
            ask,
            poll: false,
            lost: checkmate(b),
        }
    }

    /// What handling square `pos`, on which `piece` stands, comes to.
    ///
    /// By hand, the pointer's input is taken in. Against the engine, while
    /// the game is on: on the engine's turn the engine is asked for a move,
    /// once, and polled from then on; on the player's turn the pointer's
    /// input is taken in; and unless the engine is to be polled, the
    /// position is looked at for a loss. In any other case nothing
    /// happens.
    pub open spec fn square_outcome(
        self,
        b: BoardView,
        piece: Option<ChessPiece>,
        pos: Square,
        clicked: bool,
        secondary_clicked: bool,
    ) -> Outcome {
        let rest = Outcome { game: self, board: b, ask: None, poll: false, lost: false };
        match self.mode {
            GameMode::Sandbox => Outcome {
                board: b.after_input(self.mode, self.player, piece, pos, clicked, secondary_clicked),
                ..rest
            },
            GameMode::PvE => if self.game_over {
                rest
            } else if self.player != b.turn {
                if self.stockfish_move_pending {
                    Outcome { poll: true, ..rest }
                } else {
                    (GameView { stockfish_move_pending: true, asked_position: fen_text(b), ..self }).settled(
                        b,
                        Some(fen_text(b)),
                    )
                }
            } else {
                self.settled(
                    b.after_input(self.mode, self.player, piece, pos, clicked, secondary_clicked),
                    None,
                )
            },
            GameMode::Idle => rest,
        }
    }

    /// What the engine's reply, or its absence, comes to.
    ///
    /// A reply that is awaited is taken in if the position is still the one
    /// the engine was asked for, and dropped if the position has changed;
    /// either way the engine is no longer waited for. A reply that is not
    /// awaited is dropped. While a game against the engine is on, the
    /// position is then looked at for a loss.
    pub open spec fn reply_outcome(self, b: BoardView, reply: Option<Seq<char>>) -> Outcome {
        let awaited = reply is Some && self.engine_to_move(b) && self.stockfish_move_pending;
        let game = if awaited {
            GameView { stockfish_move_pending: false, ..self }
        } else {
            self
        };
        let board = if awaited && self.asked_position == fen_text(b) {
            b.after_reply(reply->0)
        } else {
            b
        };
        if self.mode == GameMode::PvE && !self.game_over {
            game.settled(board, None)
        } else {
            Outcome { game, board, ask: None, poll: false, lost: false }
        }
    }
}

/// The engine is asked for a move only when no request is outstanding,
/// and the request is for the position as it is. So at most one request
/// is outstanding at any time.
pub proof fn engine_is_asked_once(
    game: GameView,
    b: BoardView,
    piece: Option<ChessPiece>,
    pos: Square,
    clicked: bool,
    secondary_clicked: bool,
)
    ensures
        ({
            let outcome = game.square_outcome(b, piece, pos, clicked, secondary_clicked);
            &&& outcome.ask is Some ==> !game.stockfish_move_pending && game.engine_to_move(b)
                && outcome.game.stockfish_move_pending && outcome.ask == Some(fen_text(b))
                && outcome.game.asked_position == fen_text(b)
            &&& game.stockfish_move_pending ==> outcome.ask is None
            &&& outcome.poll ==> game.stockfish_move_pending && game.engine_to_move(b) && outcome.board == b
                && outcome.game == game
        }),
{
}

/// A reply that is not awaited, or that comes for a position that has
/// changed since the engine was asked, moves no piece.
pub proof fn late_reply_is_dropped(game: GameView, b: BoardView, reply: Seq<char>)
    requires
        !game.awaiting(b),
    ensures
        ({
            let outcome = game.reply_outcome(b, Some(reply));
            &&& outcome.board.grid == b.grid
            &&& outcome.board.turn == b.turn
            &&& game.engine_to_move(b) ==> !outcome.game.stockfish_move_pending
        }),
{
}

impl Default for GameController {
    /// No game is on: both sides are moved by hand, the player would take
    /// White, and the engine has not been asked for anything.
    fn default() -> (game: Self)
        ensures
            game@ == (GameView {
                mode: GameMode::Sandbox,
                game_over: true,
                player: PieceColor::White,
                enemey: PieceColor::Black,
                stockfish_move_pending: false,
                asked_position: Seq::empty(),
            }),
    {
        GameController {
            mode: GameMode::Sandbox,
            game_over: true,
            player: PieceColor::White,
            enemey: PieceColor::Black,
            stockfish_move_pending: false,
            asked_position: String::new(),
        }
    }
}

/// The first square on which a king of `color` stands, counting rank by
/// rank.
fn find_king(board: &Board, color: PieceColor) -> (found: Option<Square>)
    ensures
        found == first_king(board@.grid, color, 0),
{
    let ghost g = board@.grid;
    let mut k: u8 = 0;
    while k < 64
        invariant
            k <= 64,
            g == board@.grid,
            first_king(g, color, 0) == first_king(g, color, k as nat),
        decreases 64 - k,
    {
        let r = k / 8;
        let c = k % 8;
        match board.squares[r as usize][c as usize] {
            Some(p) => {
                if p.kind == PieceType::King && p.color == color {
                    return Some((r, c));
                }
            },
            None => {},
        }
        k += 1;
    }
    None
}

impl Board {
    /// Attempts the move from `from` to `to` and drops the selection.
    fn attempt(&mut self, from: Square, to: Square)
        requires
            old(self)@.has_room(),
        ensures
            final(self)@ == old(self)@.after_attempt(from, to),
            old(self).wf() ==> final(self).wf(),
    {
        let _ = self.move_piece(from, to);
        self.deselect_piece();
    }

    /// Handles a click on square `pos`, on which `piece` stands.
    fn click(&mut self, mode: GameMode, player: PieceColor, piece: Option<ChessPiece>, pos: Square)
        requires
            old(self)@.has_room(),
        ensures
            final(self)@ == old(self)@.after_click(mode, player, piece, pos),
            old(self).wf() ==> final(self).wf(),
    {
        let by_hand = mode == GameMode::Sandbox;
        match self.state.selected_piece {
            Some(selected) => match piece {
                Some(p) => {
                    if p.color != selected.color {
                        self.attempt(selected.position, p.position);
                    } else if by_hand || p.color == self.turn {
                        if selected.kind == PieceType::King && p.kind == PieceType::Rook && !self.is_in_check(
                            p.color,
                        ) {
                            let marked = match &self.state.capture_moves {
                                Some(moves) => has_square(moves, p.position),
                                None => false,
                            };
                            if marked {
                                self.execute_castle(selected.position, p.position);
                                self.deselect_piece();
                            }
                        } else if by_hand || player == p.color {
                            self.select_piece(p);
                        }
                    }
                },
                None => {
                    self.attempt(selected.position, pos);
                },
            },
            None => match piece {
                Some(p) => {
                    if (by_hand && p.color == self.turn) || (!by_hand && player == p.color) {
                        self.select_piece(p);
                    }
                },
                None => {
                    self.deselect_piece();
                },
            },
        }
    }

    /// Takes in what the pointer did on square `pos`, on which `piece`
    /// stands.
    fn input(
        &mut self,
        mode: GameMode,
        player: PieceColor,
        piece: Option<ChessPiece>,
        pos: Square,
        clicked: bool,
        secondary_clicked: bool,
    )
        requires
            old(self)@.has_room(),
        ensures
            final(self)@ == old(self)@.after_input(mode, player, piece, pos, clicked, secondary_clicked),
            old(self).wf() ==> final(self).wf(),
    {
        if secondary_clicked {
            self.deselect_piece();
        }
        if clicked && (mode == GameMode::Sandbox || self.state.promtion_pending.is_none()) {
            self.click(mode, player, piece, pos);
        }
    }

    /// Takes in the engine's reply.
    fn reply(&mut self, reply: String)
        requires
            old(self)@.has_room(),
        ensures
            final(self)@ == old(self)@.after_reply(reply@),
            old(self).wf() ==> final(self).wf(),
    {
        let promotes = match parse_uci_move(&reply) {
            Ok(m) => m.promotion.is_some(),
            Err(_) => false,
        };
        match self.decode_uci_move(reply) {
            Ok(Some(squares)) => {
                if !promotes {
                    let _ = self.move_piece(squares.0, squares.1);
                }
            },
            _ => {},
        }
    }
}

impl GameController {
    /// Looks at the position for a loss: if the side to move is
    /// checkmated, the game is over and the square of its king is marked.
    fn settle(&mut self, board: &mut Board) -> (lost: bool)
        ensures
            final(self)@ == old(self)@.with_loss(old(board)@),
            final(board)@ == old(board)@.with_loss_marked(),
            lost == checkmate(old(board)@),
            old(board).wf() ==> final(board).wf(),
    {
        if board.has_lost() {
            self.game_over = true;
            board.state.checkmate_square = find_king(board, board.turn);
            true
        } else {
            false
        }
    }

    /// Handles square `pos`, on which `piece` stands, for one frame: takes
    /// in what the pointer did there, or sees to the engine when it is the
    /// engine's turn. Hands back what the caller is to do next and whether
    /// the side to move was found checkmated.
    pub fn on_square(
        &mut self,
        board: &mut Board,
        piece: Option<ChessPiece>,
        pos: Square,
        clicked: bool,
        secondary_clicked: bool,
    ) -> (next: (Step, bool))
        requires
            old(board)@.has_room(),
        ensures
            ({
                let outcome = old(self)@.square_outcome(
                    old(board)@,
                    piece,
                    pos,
                    clicked,
                    secondary_clicked,
                );
                &&& final(self)@ == outcome.game
                &&& final(board)@ == outcome.board
                &&& next.1 == outcome.lost
                &&& match next.0 {
                    Step::Rest => outcome.ask is None && !outcome.poll,
                    Step::AskEngine(text) => outcome.ask == Some(text@) && !outcome.poll,
                    Step::PollEngine => outcome.ask is None && outcome.poll,
                }
            }),
            old(board).wf() ==> final(board).wf(),
    {
        match self.mode {
            GameMode::Sandbox => {
                board.input(self.mode, self.player, piece, pos, clicked, secondary_clicked);
                (Step::Rest, false)
            },
            GameMode::PvE => {
                if self.game_over {
                    (Step::Rest, false)
                } else if self.player != board.turn {
                    if self.stockfish_move_pending {
                        (Step::PollEngine, false)
                    } else {
                        let text = board.to_string();
                        self.stockfish_move_pending = true;
                        self.asked_position = text.clone();
                        let lost = self.settle(board);
                        (Step::AskEngine(text), lost)
                    }
                } else {
                    board.input(self.mode, self.player, piece, pos, clicked, secondary_clicked);
                    let lost = self.settle(board);
                    (Step::Rest, lost)
                }
            },
            GameMode::Idle => (Step::Rest, false),
        }
    }

    /// Takes in the engine's reply after a poll, `None` where the engine
    /// has not replied. Hands back whether the side to move was found
    /// checkmated.
    pub fn engine_replied(&mut self, board: &mut Board, reply: Option<String>) -> (lost: bool)
        requires
            old(board)@.has_room(),
        ensures
            ({
                let outcome = old(self)@.reply_outcome(
                    old(board)@,
                    match reply {
                        Some(text) => Some(text@),
                        None => None,
                    },
                );
                &&& final(self)@ == outcome.game
                &&& final(board)@ == outcome.board
                &&& lost == outcome.lost
            }),
            old(board).wf() ==> final(board).wf(),
    {
        let on = self.mode == GameMode::PvE && !self.game_over;
        match reply {
            Some(text) => {
                if on && self.player != board.turn && self.stockfish_move_pending {
                    self.stockfish_move_pending = false;
                    let now = board.to_string();
                    if now == self.asked_position {
                        board.reply(text);
                    }
                }
            },
            None => {},
        }
        if on {
            self.settle(board)
        } else {
            false
        }
    }
}

} // verus!
