//! Castling: when it is allowed and what it does to the position.

use vstd::prelude::*;
use crate::board::{grid_of, Board, BoardView, CastleType, Grid};
use crate::check::{exposes_king, move_exposes_king};
use crate::piece::{ChessPiece, PieceColor, PieceType};

verus! {

/// The file on which the rook of a castling side starts.
pub open spec fn rook_home_file(side: CastleType) -> int {
    match side {
        CastleType::QueenSide => 0,
        CastleType::KingSide => 7,
    }
}

/// The file on which the king ends after castling.
pub open spec fn king_castled_file(side: CastleType) -> int {
    match side {
        CastleType::QueenSide => 2,
        CastleType::KingSide => 6,
    }
}

/// The file on which the rook ends after castling.
pub open spec fn rook_castled_file(side: CastleType) -> int {
    match side {
        CastleType::QueenSide => 3,
        CastleType::KingSide => 5,
    }
}

/// The files between the king and the rook that the king's path is held to:
/// two toward the king-side rook, three toward the queen-side rook.
pub open spec fn on_king_path(side: CastleType, file: int) -> bool {
    match side {
        CastleType::KingSide => 5 <= file <= 6,
        CastleType::QueenSide => 1 <= file <= 3,
    }
}

/// Whether a piece of the given kind and colour stands on `(r, c)` and has
/// never moved.
pub open spec fn unmoved(g: Grid, r: int, c: int, kind: PieceType, color: PieceColor) -> bool {
    g[r][c] matches Some(p) && p.kind == kind && p.color == color && p.times_moved == 0
}

/// Whether `(rank, file)` is empty and `king` would not be in check
/// standing there.
pub open spec fn path_square_free(g: Grid, king: ChessPiece, rank: int, file: int) -> bool {
    g[rank][file] is None && !exposes_king(g, king, (rank as u8, file as u8))
}

impl BoardView {
    /// The castling right of `color` on `side`.
    pub open spec fn castle_right(self, side: CastleType, color: PieceColor) -> bool {
        match (side, color) {
            (CastleType::KingSide, PieceColor::White) => self.white_small_castle,
            (CastleType::KingSide, PieceColor::Black) => self.black_small_castle,
            (CastleType::QueenSide, PieceColor::White) => self.white_big_castle,
            (CastleType::QueenSide, PieceColor::Black) => self.black_big_castle,
        }
    }
}

/// Whether `color` may castle on `side`: the right is still held, king and
/// rook stand unmoved on their starting squares, and every square of the
/// king's path is empty and safe for the king.
pub open spec fn castle_ok(b: BoardView, side: CastleType, color: PieceColor) -> bool {
    let rank = color.home_rank();
    &&& b.castle_right(side, color)
    &&& unmoved(b.grid, rank, 4, PieceType::King, color)
    &&& unmoved(b.grid, rank, rook_home_file(side), PieceType::Rook, color)
    &&& forall|file: int|
        on_king_path(side, file) ==> #[trigger] path_square_free(b.grid, b.grid[rank][4]->0, rank, file)
}

/// Castling on the king's side is allowed exactly when the right is held,
/// king and rook stand unmoved on their starting squares, and the two
/// squares between them are empty and safe for the king. So it is refused
/// once the king or the rook has moved, when a square of the path is
/// occupied, and when the king would be in check on one.
pub proof fn king_side_castling(b: BoardView, color: PieceColor)
    ensures
        castle_ok(b, CastleType::KingSide, color) <==> {
            let rank = color.home_rank();
            let king = b.grid[rank][4]->0;
            &&& b.castle_right(CastleType::KingSide, color)
            &&& unmoved(b.grid, rank, 4, PieceType::King, color)
            &&& unmoved(b.grid, rank, 7, PieceType::Rook, color)
            &&& b.grid[rank][5] is None && !exposes_king(b.grid, king, (rank as u8, 5u8))
            &&& b.grid[rank][6] is None && !exposes_king(b.grid, king, (rank as u8, 6u8))
        },
{
    let rank = color.home_rank();
    let king = b.grid[rank][4]->0;
    if castle_ok(b, CastleType::KingSide, color) {
        assert(path_square_free(b.grid, king, rank, 5));
        assert(path_square_free(b.grid, king, rank, 6));
    }
}

/// Castling on the queen's side is allowed exactly when the right is held,
/// king and rook stand unmoved on their starting squares, and the three
/// squares between them are empty and safe for the king.
pub proof fn queen_side_castling(b: BoardView, color: PieceColor)
    ensures
        castle_ok(b, CastleType::QueenSide, color) <==> {
            let rank = color.home_rank();
            let king = b.grid[rank][4]->0;
            &&& b.castle_right(CastleType::QueenSide, color)
            &&& unmoved(b.grid, rank, 4, PieceType::King, color)
            &&& unmoved(b.grid, rank, 0, PieceType::Rook, color)
            &&& b.grid[rank][3] is None && !exposes_king(b.grid, king, (rank as u8, 3u8))
            &&& b.grid[rank][2] is None && !exposes_king(b.grid, king, (rank as u8, 2u8))
            &&& b.grid[rank][1] is None && !exposes_king(b.grid, king, (rank as u8, 1u8))
        },
{
    let rank = color.home_rank();
    let king = b.grid[rank][4]->0;
    if castle_ok(b, CastleType::QueenSide, color) {
        assert(path_square_free(b.grid, king, rank, 3));
        assert(path_square_free(b.grid, king, rank, 2));
        assert(path_square_free(b.grid, king, rank, 1));
    }
}

impl Board {
    /// Whether `color` may castle on `castle_side`.
    pub fn can_castle(&self, castle_side: CastleType, color: PieceColor) -> (allowed: bool)
        ensures
            allowed == castle_ok(self@, castle_side, color),
    {
        let right = match (castle_side, color) {
            (CastleType::KingSide, PieceColor::White) => self.white_small_castle,
            (CastleType::KingSide, PieceColor::Black) => self.black_small_castle,
            (CastleType::QueenSide, PieceColor::White) => self.white_big_castle,
            (CastleType::QueenSide, PieceColor::Black) => self.black_big_castle,
        };
        if !right {
            return false;
        }
        let rank: u8 = match color {
            PieceColor::White => 7,
            PieceColor::Black => 0,
        };
        let rook_file: u8 = match castle_side {
            CastleType::QueenSide => 0,
            CastleType::KingSide => 7,
        };
        let king = match self.squares[rank as usize][4] {
            Some(p) => {
                if p.kind == PieceType::King && p.color == color && p.times_moved == 0 {
                    p
                } else {
                    return false;
                }
            },
            None => {
                return false;
            },
        };
        match self.squares[rank as usize][rook_file as usize] {
            Some(p) => {
                if !(p.kind == PieceType::Rook && p.color == color && p.times_moved == 0) {
                    return false;
                }
            },
            None => {
                return false;
            },
        }
        let (first, last): (u8, u8) = match castle_side {
            CastleType::KingSide => (5, 6),
            CastleType::QueenSide => (1, 3),
        };
        let ghost g = self@.grid;
        let mut file: u8 = first;
        while file <= last
            invariant
                g == grid_of(self.squares),
                g[rank as int][4] == Some(king),
                rank as int == color.home_rank(),
                1 <= first <= file <= last + 1 <= 7,
                forall|f: int| on_king_path(castle_side, f) <==> first <= f <= last,
                forall|f: int| first <= f < file ==> path_square_free(g, king, rank as int, f),
            decreases last + 1 - file,
        {
            if self.squares[rank as usize][file as usize].is_some() || move_exposes_king(
                &self.squares,
                &king,
                (rank, file),
            ) {
                assert(!path_square_free(g, king, rank as int, file as int));
                return false;
            }
            file += 1;
        }
        true
    }
}

} // verus!
