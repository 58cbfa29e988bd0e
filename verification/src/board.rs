//! The position: the grid of squares, the side to move, castling rights, the
//! en-passant target, the move counters and the selection state kept for a
//! front end.

use vstd::prelude::*;
use crate::kings::{in_play, start_is_in_play};
use crate::piece::{on_board, ChessPiece, PieceColor, PieceType, Square};

verus! {

/// The point of view a fresh position is shown from.
pub const DEFAULT_STARTING: PieceColor = PieceColor::Black;

/// The executable grid: eight ranks of eight squares.
pub type Squares = [[Option<ChessPiece>; 8]; 8];

/// The mathematical grid: `g[r][c]` is what stands on rank `r`, file `c`.
pub type Grid = Seq<Seq<Option<ChessPiece>>>;

/// The grid that an array of squares stands for.
pub open spec fn grid_of(squares: Squares) -> Grid {
    Seq::new(8, |r: int| squares[r]@)
}

/// A grid has eight ranks of eight squares.
pub open spec fn grid_shape(g: Grid) -> bool {
    g.len() == 8 && forall|r: int| 0 <= r < 8 ==> (#[trigger] g[r]).len() == 8
}

/// Every piece on the grid records the square it stands on, and no move
/// count is negative.
pub open spec fn grid_valid(g: Grid) -> bool {
    &&& grid_shape(g)
    &&& forall|r: int, c: int|
        on_board(r, c) ==> (#[trigger] g[r][c] matches Some(p) ==> p.position == (r as u8, c as u8)
            && p.times_moved >= 0)
}

/// What stands on `(r, c)`; nothing stands off the board.
pub open spec fn piece_at(g: Grid, r: int, c: int) -> Option<ChessPiece> {
    if on_board(r, c) {
        g[r][c]
    } else {
        None
    }
}

/// The grid with square `sq` holding `v`.
pub open spec fn grid_put(g: Grid, sq: Square, v: Option<ChessPiece>) -> Grid {
    g.update(sq.0 as int, g[sq.0 as int].update(sq.1 as int, v))
}

/// Putting a piece that records its square onto a valid grid, or emptying a
/// square of it, leaves the grid valid.
pub proof fn grid_put_valid(g: Grid, sq: Square, v: Option<ChessPiece>)
    requires
        grid_valid(g),
        sq.0 < 8 && sq.1 < 8,
        v matches Some(p) ==> p.position == sq && p.times_moved >= 0,
    ensures
        grid_valid(grid_put(g, sq, v)),
{
    let h = grid_put(g, sq, v);
    assert forall|r: int, c: int| on_board(r, c) implies (#[trigger] h[r][c] matches Some(p)
        ==> p.position == (r as u8, c as u8) && p.times_moved >= 0) by {}
}

/// Writes `v` onto square `sq`.
pub(crate) fn put_square(squares: &mut Squares, sq: Square, v: Option<ChessPiece>)
    requires
        sq.0 < 8 && sq.1 < 8,
    ensures
        grid_of(*final(squares)) == grid_put(grid_of(*old(squares)), sq, v),
{
    squares[sq.0 as usize][sq.1 as usize] = v;
}

/// The empty grid.
pub open spec fn empty_grid() -> Grid {
    Seq::new(8, |r: int| Seq::new(8, |c: int| None::<ChessPiece>))
}

/// Which of the two castling moves.
#[derive(Clone, Copy, Debug, PartialEq, Eq, Structural)]
pub enum CastleType {
    QueenSide,
    KingSide,
}

/// Selection state kept for a front end. None of it decides what is legal.
#[derive(Clone, Debug)]
pub struct BoardState {
    pub selected_piece: Option<ChessPiece>,
    pub moved_from: Option<Square>,
    pub moved_to: Option<Square>,
    pub quiet_moves: Option<Vec<Square>>,
    pub capture_moves: Option<Vec<Square>>,
    pub pov: PieceColor,
    pub white_taken: Vec<ChessPiece>,
    pub black_taken: Vec<ChessPiece>,
    pub promtion_pending: Option<Square>,
    pub checkmate_square: Option<Square>,
}

/// The mathematical value of a [`BoardState`].
pub struct StateView {
    pub selected_piece: Option<ChessPiece>,
    pub moved_from: Option<Square>,
    pub moved_to: Option<Square>,
    pub quiet_moves: Option<Seq<Square>>,
    pub capture_moves: Option<Seq<Square>>,
    pub pov: PieceColor,
    pub white_taken: Seq<ChessPiece>,
    pub black_taken: Seq<ChessPiece>,
    pub promtion_pending: Option<Square>,
    pub checkmate_square: Option<Square>,
}

/// A chess position.
#[derive(Clone, Debug)]
pub struct Board {
    pub squares: Squares,
    pub turn: PieceColor,
    pub white_big_castle: bool,
    pub black_big_castle: bool,
    pub white_small_castle: bool,
    pub black_small_castle: bool,
    pub halfmove_clock: u32,
    pub fullmove_number: u32,
    pub en_passant_target: Option<Square>,
    pub state: BoardState,
}

/// The mathematical value of a [`Board`].
pub struct BoardView {
    pub grid: Grid,
    pub turn: PieceColor,
    pub white_big_castle: bool,
    pub black_big_castle: bool,
    pub white_small_castle: bool,
    pub black_small_castle: bool,
    pub halfmove_clock: nat,
    pub fullmove_number: nat,
    pub en_passant_target: Option<Square>,
    pub state: StateView,
}

/// The view of an optional list of squares.
pub open spec fn view_moves(moves: Option<Vec<Square>>) -> Option<Seq<Square>> {
    match moves {
        Some(list) => Some(list@),
        None => None,
    }
}

impl View for BoardState {
    type V = StateView;

    open spec fn view(&self) -> StateView {
        StateView {
            selected_piece: self.selected_piece,
            moved_from: self.moved_from,
            moved_to: self.moved_to,
            quiet_moves: view_moves(self.quiet_moves),
            capture_moves: view_moves(self.capture_moves),
            pov: self.pov,
            white_taken: self.white_taken@,
            black_taken: self.black_taken@,
            promtion_pending: self.promtion_pending,
            checkmate_square: self.checkmate_square,
        }
    }
}

impl View for Board {
    type V = BoardView;

    open spec fn view(&self) -> BoardView {
        BoardView {
            grid: grid_of(self.squares),
            turn: self.turn,
            white_big_castle: self.white_big_castle,
            black_big_castle: self.black_big_castle,
            white_small_castle: self.white_small_castle,
            black_small_castle: self.black_small_castle,
            halfmove_clock: self.halfmove_clock as nat,
            fullmove_number: self.fullmove_number as nat,
            en_passant_target: self.en_passant_target,
            state: self.state@,
        }
    }
}

impl StateView {
    /// The state of a fresh position: nothing selected, nothing taken.
    pub open spec fn fresh() -> StateView {
        StateView {
            selected_piece: None,
            moved_from: None,
            moved_to: None,
            quiet_moves: None,
            capture_moves: None,
            pov: DEFAULT_STARTING,
            white_taken: Seq::empty(),
            black_taken: Seq::empty(),
            promtion_pending: None,
            checkmate_square: None,
        }
    }

    /// The state with no piece selected and no cached moves.
    pub open spec fn deselected(self) -> StateView {
        StateView { selected_piece: None, quiet_moves: None, capture_moves: None, ..self }
    }
}

impl Default for BoardState {
    /// Nothing selected, nothing moved, nothing taken, seen from
    /// [`DEFAULT_STARTING`].
    fn default() -> (state: Self)
        ensures
            state@ == StateView::fresh(),
    {
        BoardState {
            selected_piece: None,
            quiet_moves: None,
            capture_moves: None,
            pov: DEFAULT_STARTING,
            moved_from: None,
            moved_to: None,
            white_taken: Vec::new(),
            black_taken: Vec::new(),
            promtion_pending: None,
            checkmate_square: None,
        }
    }
}

/// The kind of piece that starts on file `c` of a back rank.
pub open spec fn back_rank_kind(c: int) -> PieceType {
    if c == 0 || c == 7 {
        PieceType::Rook
    } else if c == 1 || c == 6 {
        PieceType::Knight
    } else if c == 2 || c == 5 {
        PieceType::Bishop
    } else if c == 3 {
        PieceType::Queen
    } else {
        PieceType::King
    }
}

/// What stands on `(r, c)` when a game starts.
pub open spec fn starting_piece(r: int, c: int) -> Option<ChessPiece> {
    if r == 0 || r == 7 {
        Some(
            ChessPiece {
                kind: back_rank_kind(c),
                color: if r == 0 { PieceColor::Black } else { PieceColor::White },
                position: (r as u8, c as u8),
                times_moved: 0,
            },
        )
    } else if r == 1 || r == 6 {
        Some(
            ChessPiece {
                kind: PieceType::Pawn,
                color: if r == 1 { PieceColor::Black } else { PieceColor::White },
                position: (r as u8, c as u8),
                times_moved: 0,
            },
        )
    } else {
        None
    }
}

/// The grid when a game starts.
pub open spec fn starting_grid() -> Grid {
    Seq::new(8, |r: int| Seq::new(8, |c: int| starting_piece(r, c)))
}

impl BoardView {
    /// The position at the start of a game: White to move, all castling
    /// rights, no en-passant target, clocks at 0 and 1.
    pub open spec fn start() -> BoardView {
        BoardView {
            grid: starting_grid(),
            turn: PieceColor::White,
            white_big_castle: true,
            black_big_castle: true,
            white_small_castle: true,
            black_small_castle: true,
            halfmove_clock: 0,
            fullmove_number: 1,
            en_passant_target: None,
            state: StateView::fresh(),
        }
    }

    /// What stands on `sq`; nothing stands off the board.
    pub open spec fn at(self, sq: Square) -> Option<ChessPiece> {
        piece_at(self.grid, sq.0 as int, sq.1 as int)
    }
}

fn starting_square(r: u8, c: u8) -> (cell: Option<ChessPiece>)
    requires
        r < 8,
        c < 8,
    ensures
        cell == starting_piece(r as int, c as int),
{
    let kind = if c == 0 || c == 7 {
        PieceType::Rook
    } else if c == 1 || c == 6 {
        PieceType::Knight
    } else if c == 2 || c == 5 {
        PieceType::Bishop
    } else if c == 3 {
        PieceType::Queen
    } else {
        PieceType::King
    };
    if r == 0 {
        Some(ChessPiece { kind, color: PieceColor::Black, position: (r, c), times_moved: 0 })
    } else if r == 7 {
        Some(ChessPiece { kind, color: PieceColor::White, position: (r, c), times_moved: 0 })
    } else if r == 1 {
        Some(ChessPiece { kind: PieceType::Pawn, color: PieceColor::Black, position: (r, c), times_moved: 0 })
    } else if r == 6 {
        Some(ChessPiece { kind: PieceType::Pawn, color: PieceColor::White, position: (r, c), times_moved: 0 })
    } else {
        None
    }
}

impl Default for Board {
    /// The position at the start of a game.
    fn default() -> (board: Self)
        ensures
            board@ == BoardView::start(),
            board.wf(),
            in_play(board@),
    {
        let mut squares: Squares = [[None; 8]; 8];
        let mut r: u8 = 0;
        while r < 8
            invariant
                r <= 8,
                forall|i: int, j: int| 0 <= i < r && 0 <= j < 8 ==> squares[i][j] == starting_piece(i, j),
            decreases 8 - r,
        {
            let mut c: u8 = 0;
            while c < 8
                invariant
                    r < 8,
                    c <= 8,
                    forall|i: int, j: int|
                        0 <= i < r && 0 <= j < 8 ==> squares[i][j] == starting_piece(i, j),
                    forall|j: int| 0 <= j < c ==> squares[r as int][j] == starting_piece(r as int, j),
                decreases 8 - c,
            {
                squares[r as usize][c as usize] = starting_square(r, c);
                c += 1;
            }
            r += 1;
        }
        let board = Board {
            squares,
            turn: PieceColor::White,
            white_big_castle: true,
            white_small_castle: true,
            black_big_castle: true,
            black_small_castle: true,
            halfmove_clock: 0,
            fullmove_number: 1,
            en_passant_target: None,
            state: BoardState::default(),
        };
        assert(board@.grid =~~= starting_grid());
        proof {
            start_is_in_play();
        }
        board
    }
}

impl Board {
    /// The board is well formed when every piece on it records the square it
    /// stands on and no move count is negative.
    pub open spec fn wf(&self) -> bool {
        grid_valid(self@.grid)
    }

    /// Whether the board is well formed.
    pub fn is_well_formed(&self) -> (well: bool)
        ensures
            well == self.wf(),
    {
        let ghost g = self@.grid;
        let mut r: u8 = 0;
        while r < 8
            invariant
                r <= 8,
                g == grid_of(self.squares),
                forall|i: int, j: int|
                    0 <= i < r && 0 <= j < 8 ==> (#[trigger] g[i][j] matches Some(p) ==> p.position == (
                        i as u8,
                        j as u8,
                    ) && p.times_moved >= 0),
            decreases 8 - r,
        {
            let mut c: u8 = 0;
            while c < 8
                invariant
                    r < 8,
                    c <= 8,
                    g == grid_of(self.squares),
                    forall|i: int, j: int|
                        0 <= i < r && 0 <= j < 8 ==> (#[trigger] g[i][j] matches Some(p) ==> p.position
                            == (i as u8, j as u8) && p.times_moved >= 0),
                    forall|j: int|
                        0 <= j < c ==> (#[trigger] g[r as int][j] matches Some(p) ==> p.position == (
                            r,
                            j as u8,
                        ) && p.times_moved >= 0),
                decreases 8 - c,
            {
                match self.squares[r as usize][c as usize] {
                    Some(p) => {
                        if p.position.0 != r || p.position.1 != c || p.times_moved < 0 {
                            return false;
                        }
                    },
                    None => {},
                }
                c += 1;
            }
            r += 1;
        }
        true
    }

    /// Hands the move to the other side.
    pub fn change_turn(&mut self)
        ensures
            final(self)@ == (BoardView { turn: old(self)@.turn.opposite(), ..old(self)@ }),
    {
        self.turn = match self.turn {
            PieceColor::Black => PieceColor::White,
            PieceColor::White => PieceColor::Black,
        };
    }

    /// Forgets the selected piece and its cached moves.
    pub fn deselect_piece(&mut self)
        ensures
            final(self)@ == (BoardView { state: old(self)@.state.deselected(), ..old(self)@ }),
    {
        self.state.capture_moves = None;
        self.state.selected_piece = None;
        self.state.quiet_moves = None;
    }

    /// What stands on `sq`; `None` for an empty square and for a square off
    /// the board.
    pub fn piece_on(&self, sq: Square) -> (found: Option<ChessPiece>)
        ensures
            found == self@.at(sq),
    {
        if sq.0 < 8 && sq.1 < 8 {
            self.squares[sq.0 as usize][sq.1 as usize]
        } else {
            None
        }
    }
}

} // verus!

