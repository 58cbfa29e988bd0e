//! The legality filter: a piece's candidate squares are split into quiet
//! moves and captures, and each list is cut down to the moves that the
//! rules allow.

use vstd::prelude::*;
use crate::board::{grid_of, Board, BoardView, CastleType, Grid, StateView};
use crate::castle::castle_ok;
use crate::check::{exposes_king, move_exposes_king};
use crate::move_gen::{candidates, pseudo_moves};
use crate::piece::{square_on_board, ChessPiece, PieceType, Square};

verus! {

/// The number of files between two squares.
pub open spec fn file_gap(a: Square, b: Square) -> int {
    if a.1 >= b.1 {
        a.1 - b.1
    } else {
        b.1 - a.1
    }
}

/// Whether candidate `sq` of `piece` is a quiet move: it is empty; for a
/// pawn it lies on the pawn's file; for a king it lies at most one file
/// away.
pub open spec fn quiet_candidate(g: Grid, piece: ChessPiece, sq: Square) -> bool {
    &&& square_on_board(sq)
    &&& g[sq.0 as int][sq.1 as int] is None
    &&& piece.kind == PieceType::Pawn ==> sq.1 == piece.position.1
    &&& piece.kind == PieceType::King ==> file_gap(piece.position, sq) <= 1
}

/// Whether candidate `sq` of `piece` goes to the captures.
///
/// On an occupied square: a pawn captures an enemy on another file; a king
/// captures an enemy at most one file away, and a friendly rook stays in as
/// a castling marker; any other piece captures an enemy. On an empty square
/// only a pawn's diagonal step stays in, as a possible en-passant capture.
pub open spec fn capture_candidate(g: Grid, piece: ChessPiece, sq: Square) -> bool {
    square_on_board(sq) && match g[sq.0 as int][sq.1 as int] {
        Some(target) => match piece.kind {
            PieceType::Pawn => sq.1 != piece.position.1 && target.color != piece.color,
            PieceType::King => if target.color == piece.color {
                target.kind == PieceType::Rook
            } else {
                file_gap(piece.position, sq) <= 1
            },
            _ => target.color != piece.color,
        },
        None => piece.kind == PieceType::Pawn && sq.1 != piece.position.1,
    }
}

/// Whether the pawn `piece` may capture en passant by stepping onto the
/// file of `sq`: beside it, on that file, stands an enemy pawn that has
/// moved exactly once and whose square is the en-passant target.
pub open spec fn en_passant_ok(b: BoardView, piece: ChessPiece, sq: Square) -> bool {
    let beside = (piece.position.0, sq.1);
    &&& b.at(beside) matches Some(victim) && victim.kind == PieceType::Pawn && victim.color
        != piece.color && victim.times_moved == 1
    &&& b.en_passant_target == Some(beside)
}

/// Whether `sq`, among the captures of the king `piece`, is a castling
/// marker: a friendly rook stands on it.
pub open spec fn castle_marker(g: Grid, piece: ChessPiece, sq: Square) -> bool {
    &&& piece.kind == PieceType::King
    &&& square_on_board(sq)
    &&& g[sq.0 as int][sq.1 as int] matches Some(p) && p.kind == PieceType::Rook && p.color
        == piece.color
}

/// Whether the castling that the marker `sq` stands for is allowed: the rook
/// is four files away and queen-side castling is allowed, or three files
/// away and king-side castling is allowed.
pub open spec fn marker_allowed(b: BoardView, piece: ChessPiece, sq: Square) -> bool {
    ||| file_gap(piece.position, sq) == 4 && castle_ok(b, CastleType::QueenSide, piece.color)
    ||| file_gap(piece.position, sq) == 3 && castle_ok(b, CastleType::KingSide, piece.color)
}

/// Whether capture `sq` of `piece` is legal.
///
/// A castling marker is legal when the castling is allowed. A pawn's step
/// onto an empty square is legal as an en-passant capture only. Every other
/// capture, and every such en-passant capture, is legal unless it leaves
/// the mover's own king in check.
pub open spec fn capture_legal(b: BoardView, piece: ChessPiece, sq: Square) -> bool {
    &&& square_on_board(sq)
    &&& if castle_marker(b.grid, piece, sq) {
        marker_allowed(b, piece, sq)
    } else if piece.kind == PieceType::Pawn && b.at(sq) is None {
        en_passant_ok(b, piece, sq) && !exposes_king(b.grid, piece, sq)
    } else {
        !exposes_king(b.grid, piece, sq)
    }
}

/// [`quiet_candidate`] as a predicate on squares.
pub open spec fn is_quiet_candidate(g: Grid, piece: ChessPiece) -> spec_fn(Square) -> bool {
    |sq: Square| quiet_candidate(g, piece, sq)
}

/// [`capture_candidate`] as a predicate on squares.
pub open spec fn is_capture_candidate(g: Grid, piece: ChessPiece) -> spec_fn(Square) -> bool {
    |sq: Square| capture_candidate(g, piece, sq)
}

/// The squares to which `piece` may go without leaving its own king in
/// check, as a predicate.
pub open spec fn keeps_king_safe(g: Grid, piece: ChessPiece) -> spec_fn(Square) -> bool {
    |sq: Square| !exposes_king(g, piece, sq)
}

/// [`capture_legal`] as a predicate on squares.
pub open spec fn is_capture_legal(b: BoardView, piece: ChessPiece) -> spec_fn(Square) -> bool {
    |sq: Square| capture_legal(b, piece, sq)
}

/// The legal quiet moves of `piece`, in the order of its candidates.
pub open spec fn legal_quiets(b: BoardView, piece: ChessPiece) -> Seq<Square> {
    pseudo_moves(b.grid, piece).filter(is_quiet_candidate(b.grid, piece)).filter(
        keeps_king_safe(b.grid, piece),
    )
}

/// The legal captures of `piece`, castling markers among them, in the order
/// of its candidates.
pub open spec fn legal_captures(b: BoardView, piece: ChessPiece) -> Seq<Square> {
    pseudo_moves(b.grid, piece).filter(is_capture_candidate(b.grid, piece)).filter(
        is_capture_legal(b, piece),
    )
}

/// What holds of every legal capture of `piece`.
pub proof fn legal_capture_facts(b: BoardView, piece: ChessPiece, sq: Square)
    requires
        legal_captures(b, piece).contains(sq),
    ensures
        pseudo_moves(b.grid, piece).contains(sq),
        capture_candidate(b.grid, piece, sq),
        capture_legal(b, piece, sq),
{
    let candidates = pseudo_moves(b.grid, piece).filter(is_capture_candidate(b.grid, piece));
    candidates.lemma_filter_contains_rev(is_capture_legal(b, piece), sq);
    pseudo_moves(b.grid, piece).lemma_filter_contains_rev(is_capture_candidate(b.grid, piece), sq);
}

/// What holds of every legal quiet move of `piece`.
pub proof fn legal_quiet_facts(b: BoardView, piece: ChessPiece, sq: Square)
    requires
        legal_quiets(b, piece).contains(sq),
    ensures
        pseudo_moves(b.grid, piece).contains(sq),
        quiet_candidate(b.grid, piece, sq),
        !exposes_king(b.grid, piece, sq),
{
    let candidates = pseudo_moves(b.grid, piece).filter(is_quiet_candidate(b.grid, piece));
    candidates.lemma_filter_contains_rev(keeps_king_safe(b.grid, piece), sq);
    pseudo_moves(b.grid, piece).lemma_filter_contains_rev(is_quiet_candidate(b.grid, piece), sq);
}

proof fn filter_next(s: Seq<Square>, i: int, pred: spec_fn(Square) -> bool)
    requires
        0 <= i < s.len(),
    ensures
        s.take(i + 1).filter(pred) == if pred(s[i]) {
            s.take(i).filter(pred).push(s[i])
        } else {
            s.take(i).filter(pred)
        },
{
    assert(s.take(i + 1) =~= s.take(i).push(s[i]));
    s.take(i).lemma_filter_push(s[i], pred);
}

fn file_distance(a: Square, b: Square) -> (gap: u8)
    ensures
        gap == file_gap(a, b),
{
    if a.1 >= b.1 {
        a.1 - b.1
    } else {
        b.1 - a.1
    }
}

fn quiet_candidate_test(squares: &[[Option<ChessPiece>; 8]; 8], piece: &ChessPiece, sq: Square) -> (keep: bool)
    ensures
        keep == quiet_candidate(grid_of(*squares), *piece, sq),
{
    if sq.0 >= 8 || sq.1 >= 8 {
        return false;
    }
    if squares[sq.0 as usize][sq.1 as usize].is_some() {
        return false;
    }
    match piece.kind {
        PieceType::Pawn => sq.1 == piece.position.1,
        PieceType::King => file_distance(piece.position, sq) <= 1,
        _ => true,
    }
}

fn capture_candidate_test(squares: &[[Option<ChessPiece>; 8]; 8], piece: &ChessPiece, sq: Square) -> (keep: bool)
    ensures
        keep == capture_candidate(grid_of(*squares), *piece, sq),
{
    if sq.0 >= 8 || sq.1 >= 8 {
        return false;
    }
    match squares[sq.0 as usize][sq.1 as usize] {
        Some(target) => match piece.kind {
            PieceType::Pawn => sq.1 != piece.position.1 && target.color != piece.color,
            PieceType::King => {
                if target.color == piece.color {
                    target.kind == PieceType::Rook
                } else {
                    file_distance(piece.position, sq) <= 1
                }
            },
            _ => target.color != piece.color,
        },
        None => piece.kind == PieceType::Pawn && sq.1 != piece.position.1,
    }
}

impl Board {
    fn en_passant_test(&self, piece: &ChessPiece, sq: Square) -> (ok: bool)
        ensures
            ok == en_passant_ok(self@, *piece, sq),
    {
        let beside: Square = (piece.position.0, sq.1);
        match self.piece_on(beside) {
            Some(victim) => {
                if victim.kind == PieceType::Pawn && victim.color != piece.color && victim.times_moved == 1 {
                    match self.en_passant_target {
                        Some(target) => target.0 == beside.0 && target.1 == beside.1,
                        None => false,
                    }
                } else {
                    false
                }
            },
            None => false,
        }
    }

    fn capture_legal_test(&self, piece: &ChessPiece, sq: Square) -> (keep: bool)
        ensures
            keep == capture_legal(self@, *piece, sq),
    {
        if sq.0 >= 8 || sq.1 >= 8 {
            return false;
        }
        let target = self.squares[sq.0 as usize][sq.1 as usize];
        match piece.kind {
            PieceType::King => {
                match target {
                    Some(p) => {
                        if p.kind == PieceType::Rook && p.color == piece.color {
                            let gap = file_distance(piece.position, sq);
                            return (gap == 4 && self.can_castle(CastleType::QueenSide, piece.color)) || (gap
                                == 3 && self.can_castle(CastleType::KingSide, piece.color));
                        }
                    },
                    None => {},
                }
                !move_exposes_king(&self.squares, piece, sq)
            },
            PieceType::Pawn => {
                if target.is_none() {
                    self.en_passant_test(piece, sq) && !move_exposes_king(&self.squares, piece, sq)
                } else {
                    !move_exposes_king(&self.squares, piece, sq)
                }
            },
            _ => !move_exposes_king(&self.squares, piece, sq),
        }
    }

    /// The quiet moves among `moves`: see [`quiet_candidate`].
    pub fn filter_quiet_moves(&self, piece: &ChessPiece, moves: &Vec<Square>) -> (quiet: Vec<Square>)
        ensures
            quiet@ == moves@.filter(is_quiet_candidate(self@.grid, *piece)),
    {
        let ghost pred = is_quiet_candidate(self@.grid, *piece);
        let mut quiet: Vec<Square> = Vec::new();
        let mut i: usize = 0;
        assert(moves@.take(0).filter(pred) =~= Seq::<Square>::empty()) by {
            reveal(Seq::filter);
        }
        while i < moves.len()
            invariant
                i <= moves.len(),
                pred == is_quiet_candidate(self@.grid, *piece),
                quiet@ == moves@.take(i as int).filter(pred),
            decreases moves.len() - i,
        {
            proof {
                filter_next(moves@, i as int, pred);
            }
            let sq = moves[i];
            if quiet_candidate_test(&self.squares, piece, sq) {
                quiet.push(sq);
            }
            i += 1;
        }
        assert(moves@.take(moves.len() as int) =~= moves@);
        quiet
    }

    /// The moves among `quiet` that do not leave the mover's own king in
    /// check.
    pub fn legalize_quiet_moves(&self, piece: &ChessPiece, quiet: Vec<Square>) -> (legal: Vec<Square>)
        ensures
            legal@ == quiet@.filter(keeps_king_safe(self@.grid, *piece)),
    {
        let ghost pred = keeps_king_safe(self@.grid, *piece);
        let mut legal: Vec<Square> = Vec::new();
        let mut i: usize = 0;
        assert(quiet@.take(0).filter(pred) =~= Seq::<Square>::empty()) by {
            reveal(Seq::filter);
        }
        while i < quiet.len()
            invariant
                i <= quiet.len(),
                pred == keeps_king_safe(self@.grid, *piece),
                legal@ == quiet@.take(i as int).filter(pred),
            decreases quiet.len() - i,
        {
            proof {
                filter_next(quiet@, i as int, pred);
            }
            let sq = quiet[i];
            if !move_exposes_king(&self.squares, piece, sq) {
                legal.push(sq);
            }
            i += 1;
        }
        assert(quiet@.take(quiet.len() as int) =~= quiet@);
        legal
    }

    /// The captures among `moves`: see [`capture_candidate`].
    pub fn filter_capture_moves(&self, piece: &ChessPiece, moves: &Vec<Square>) -> (captures: Vec<Square>)
        ensures
            captures@ == moves@.filter(is_capture_candidate(self@.grid, *piece)),
    {
        let ghost pred = is_capture_candidate(self@.grid, *piece);
        let mut captures: Vec<Square> = Vec::new();
        let mut i: usize = 0;
        assert(moves@.take(0).filter(pred) =~= Seq::<Square>::empty()) by {
            reveal(Seq::filter);
        }
        while i < moves.len()
            invariant
                i <= moves.len(),
                pred == is_capture_candidate(self@.grid, *piece),
                captures@ == moves@.take(i as int).filter(pred),
            decreases moves.len() - i,
        {
            proof {
                filter_next(moves@, i as int, pred);
            }
            let sq = moves[i];
            if capture_candidate_test(&self.squares, piece, sq) {
                captures.push(sq);
            }
            i += 1;
        }
        assert(moves@.take(moves.len() as int) =~= moves@);
        captures
    }

    /// The legal moves among `capture_moves`: see [`capture_legal`].
    pub fn legalize_capture_moves(&self, piece: &ChessPiece, capture_moves: Vec<Square>) -> (legal: Vec<
        Square,
    >)
        ensures
            legal@ == capture_moves@.filter(is_capture_legal(self@, *piece)),
    {
        let ghost pred = is_capture_legal(self@, *piece);
        let mut legal: Vec<Square> = Vec::new();
        let mut i: usize = 0;
        assert(capture_moves@.take(0).filter(pred) =~= Seq::<Square>::empty()) by {
            reveal(Seq::filter);
        }
        while i < capture_moves.len()
            invariant
                i <= capture_moves.len(),
                pred == is_capture_legal(self@, *piece),
                legal@ == capture_moves@.take(i as int).filter(pred),
            decreases capture_moves.len() - i,
        {
            proof {
                filter_next(capture_moves@, i as int, pred);
            }
            let sq = capture_moves[i];
            if self.capture_legal_test(piece, sq) {
                legal.push(sq);
            }
            i += 1;
        }
        assert(capture_moves@.take(capture_moves.len() as int) =~= capture_moves@);
        legal
    }

    /// The legal quiet moves of `piece`.
    pub fn get_quiet_moves(&self, piece: &ChessPiece) -> (quiet: Vec<Square>)
        ensures
            quiet@ == legal_quiets(self@, *piece),
    {
        let moves = candidates(&self.squares, piece);
        let quiet = self.filter_quiet_moves(piece, &moves);
        self.legalize_quiet_moves(piece, quiet)
    }

    /// The legal captures of `piece`, castling markers among them.
    pub fn get_capture_moves(&self, piece: &ChessPiece) -> (captures: Vec<Square>)
        ensures
            captures@ == legal_captures(self@, *piece),
    {
        let moves = candidates(&self.squares, piece);
        let captures = self.filter_capture_moves(piece, &moves);
        self.legalize_capture_moves(piece, captures)
    }

    /// The legal captures of `piece`, castling markers among them.
    pub fn lega_capture_moves(&self, piece: &ChessPiece) -> (captures: Vec<Square>)
        ensures
            captures@ == legal_captures(self@, *piece),
    {
        self.get_capture_moves(piece)
    }

    /// The legal moves of `piece`: its quiet moves, then its captures.
    pub fn get_legal_moves(&self, piece: &ChessPiece) -> (moves: (Vec<Square>, Vec<Square>))
        ensures
            moves.0@ == legal_quiets(self@, *piece),
            moves.1@ == legal_captures(self@, *piece),
    {
        let all = candidates(&self.squares, piece);
        let quiet = self.filter_quiet_moves(piece, &all);
        let quiet = self.legalize_quiet_moves(piece, quiet);
        let captures = self.filter_capture_moves(piece, &all);
        let captures = self.legalize_capture_moves(piece, captures);
        (quiet, captures)
    }

    /// Caches the legal moves of `piece` in the selection state.
    pub fn set_legal_moves(&mut self, piece: &ChessPiece)
        ensures
            final(self)@ == (BoardView {
                state: StateView {
                    quiet_moves: Some(legal_quiets(old(self)@, *piece)),
                    capture_moves: Some(legal_captures(old(self)@, *piece)),
                    ..old(self)@.state
                },
                ..old(self)@
            }),
    {
        let (quiet, captures) = self.get_legal_moves(piece);
        self.state.quiet_moves = Some(quiet);
        self.state.capture_moves = Some(captures);
    }

    /// Selects `piece` and caches its legal moves.
    pub fn select_piece(&mut self, piece: ChessPiece)
        ensures
            final(self)@ == (BoardView {
                state: StateView {
                    selected_piece: Some(piece),
                    quiet_moves: Some(legal_quiets(old(self)@, piece)),
                    capture_moves: Some(legal_captures(old(self)@, piece)),
                    ..old(self)@.state
                },
                ..old(self)@
            }),
    {
        self.set_legal_moves(&piece);
        self.state.selected_piece = Some(piece);
    }
}

} // verus!
