//! Stalemate and checkmate: whether the side to move has any legal move
//! left, and whether it is in check.

use vstd::prelude::*;
use crate::board::{Board, BoardView};
use crate::check::in_check;
use crate::legality::{legal_captures, legal_quiets};
use crate::piece::{on_board, PieceColor};

verus! {

/// Whether a piece of `color` stands on `(r, c)` and has a legal move.
pub open spec fn can_move_from(b: BoardView, color: PieceColor, r: int, c: int) -> bool {
    b.grid[r][c] matches Some(p) && p.color == color && (legal_quiets(b, p).len() > 0 || legal_captures(
        b,
        p,
    ).len() > 0)
}

/// Whether some piece of `color` has a legal move.
pub open spec fn has_legal_move(b: BoardView, color: PieceColor) -> bool {
    exists|r: int, c: int| on_board(r, c) && #[trigger] can_move_from(b, color, r, c)
}

/// The side to move is not in check and has no legal move.
pub open spec fn stalemate(b: BoardView) -> bool {
    !in_check(b.grid, b.turn) && !has_legal_move(b, b.turn)
}

/// The side to move is in check and has no legal move.
pub open spec fn checkmate(b: BoardView) -> bool {
    in_check(b.grid, b.turn) && !has_legal_move(b, b.turn)
}

/// A position is not both a checkmate and a stalemate, and in either the
/// side to move has no legal move.
pub proof fn mate_and_stalemate_part(b: BoardView)
    ensures
        !(checkmate(b) && stalemate(b)),
        checkmate(b) || stalemate(b) <==> !has_legal_move(b, b.turn),
{
}

impl Board {
    /// Whether some piece of `color` has a legal move.
    pub fn side_can_move(&self, color: PieceColor) -> (able: bool)
        ensures
            able == has_legal_move(self@, color),
    {
        let ghost b = self@;
        let mut r: usize = 0;
        while r < 8
            invariant
                r <= 8,
                b == self@,
                forall|i: int, j: int| 0 <= i < r && 0 <= j < 8 ==> !can_move_from(b, color, i, j),
            decreases 8 - r,
        {
            let mut c: usize = 0;
            while c < 8
                invariant
                    r < 8,
                    c <= 8,
                    b == self@,
                    forall|i: int, j: int| 0 <= i < r && 0 <= j < 8 ==> !can_move_from(b, color, i, j),
                    forall|j: int| 0 <= j < c ==> !can_move_from(b, color, r as int, j),
                decreases 8 - c,
            {
                match self.squares[r][c] {
                    Some(p) => {
                        if p.color == color {
                            let (quiet, captures) = self.get_legal_moves(&p);
                            if quiet.len() > 0 || captures.len() > 0 {
                                assert(can_move_from(b, color, r as int, c as int));
                                return true;
                            }
                        }
                    },
                    None => {},
                }
                c += 1;
            }
            r += 1;
        }
        false
    }

    /// Whether the side to move is stalemated.
    pub fn is_stalemate(&self) -> (stale: bool)
        ensures
            stale == stalemate(self@),
    {
        !self.is_in_check(self.turn) && !self.side_can_move(self.turn)
    }

    /// Whether the side to move is checkmated.
    pub fn is_checkmate(&self) -> (mate: bool)
        ensures
            mate == checkmate(self@),
    {
        self.is_in_check(self.turn) && !self.side_can_move(self.turn)
    }

    /// Whether the side to move has lost the game, which it has when it is
    /// checkmated.
    pub fn has_lost(&self) -> (lost: bool)
        ensures
            lost == checkmate(self@),
    {
        self.is_checkmate()
    }
}

} // verus!
