//! Attacks on a square, check, and the test of a move on a scratch copy of
//! the grid.

use vstd::prelude::*;
use crate::board::{grid_of, grid_put, Board, Grid, Squares};
use crate::move_gen::{
    candidates,
    diagonal_neighbours,
    diagonal_rays,
    file_rays,
    pseudo_moves,
    push_diagonal_neighbours,
    push_diagonal_rays,
    push_file_rays,
    push_rank_rays,
    rank_rays,
};
use crate::piece::{on_board, square_on_board, ChessPiece, PieceColor, PieceType, Square};

verus! {

/// The squares that `piece` attacks under the rules: a pawn its two forward
/// diagonal neighbours, whatever stands on them; a king the squares one step
/// around it; any other piece its candidate squares. The direction of a
/// pawn's attack follows its colour alone.
pub open spec fn threats(g: Grid, piece: ChessPiece) -> Seq<Square> {
    match piece.kind {
        PieceType::Pawn => diagonal_neighbours(
            piece.position.0 as int,
            piece.position.1 as int,
            piece.color.forward(),
        ),
        PieceType::King => diagonal_rays(g, piece, 1) + file_rays(g, piece, 1) + rank_rays(g, piece, 1),
        _ => pseudo_moves(g, piece),
    }
}

/// Whether the piece on `(r, c)`, if any, is of side `by` and attacks `sq`.
pub open spec fn attacks_from(g: Grid, by: PieceColor, sq: Square, r: int, c: int) -> bool {
    g[r][c] matches Some(p) && p.color == by && threats(g, p).contains(sq)
}

/// Whether some piece of side `by` attacks `sq`.
pub open spec fn attacked_by(g: Grid, by: PieceColor, sq: Square) -> bool {
    exists|r: int, c: int| on_board(r, c) && #[trigger] attacks_from(g, by, sq, r, c)
}

/// Whether a king of `color` stands on `(r, c)` and is attacked there.
pub open spec fn king_attacked_on(g: Grid, color: PieceColor, r: int, c: int) -> bool {
    g[r][c] matches Some(k) && k.kind == PieceType::King && k.color == color && attacked_by(
        g,
        color.opposite(),
        (r as u8, c as u8),
    )
}

/// Whether side `color` is in check: a king of that colour stands on a
/// square that an enemy piece attacks.
pub open spec fn in_check(g: Grid, color: PieceColor) -> bool {
    exists|r: int, c: int| on_board(r, c) && #[trigger] king_attacked_on(g, color, r, c)
}

/// Whether moving `piece` to `to` is a pawn's diagonal step onto an empty
/// square, the shape of an en-passant capture.
pub open spec fn en_passant_shape(g: Grid, piece: ChessPiece, to: Square) -> bool {
    piece.kind == PieceType::Pawn && to.1 != piece.position.1 && g[to.0 as int][to.1 as int] is None
}

/// The grid after `piece` has gone from its square to `to`: the origin is
/// empty, the piece stands on `to` in place of whatever stood there, and
/// for a move of en-passant shape the square beside the origin, on the file
/// of `to`, is empty too.
pub open spec fn after_move(g: Grid, piece: ChessPiece, to: Square) -> Grid {
    let from = piece.position;
    let cleared = if en_passant_shape(g, piece, to) {
        grid_put(g, (from.0, to.1), None)
    } else {
        g
    };
    grid_put(grid_put(cleared, from, None), to, Some(piece.placed_at(to)))
}

/// Whether moving `piece` to `to` is ruled out because it would leave the
/// mover's own king in check. A move from or to a square off the board is
/// ruled out as well.
pub open spec fn exposes_king(g: Grid, piece: ChessPiece, to: Square) -> bool {
    !square_on_board(piece.position) || !square_on_board(to) || in_check(
        after_move(g, piece, to),
        piece.color,
    )
}

/// Whether `list` holds `sq`.
pub(crate) fn has_square(list: &Vec<Square>, sq: Square) -> (found: bool)
    ensures
        found == list@.contains(sq),
{
    let mut i: usize = 0;
    while i < list.len()
        invariant
            i <= list.len(),
            forall|k: int| 0 <= k < i ==> list@[k] != sq,
        decreases list.len() - i,
    {
        if list[i].0 == sq.0 && list[i].1 == sq.1 {
            return true;
        }
        i += 1;
    }
    false
}

/// The squares that `piece` attacks under the rules.
pub(crate) fn threat_list(squares: &Squares, piece: &ChessPiece) -> (list: Vec<Square>)
    ensures
        list@ == threats(grid_of(*squares), *piece),
{
    match piece.kind {
        PieceType::Pawn => {
            let mut list: Vec<Square> = Vec::new();
            let step: i16 = match piece.color {
                PieceColor::White => -1,
                PieceColor::Black => 1,
            };
            push_diagonal_neighbours(piece.position.0, piece.position.1, step, &mut list);
            list
        },
        PieceType::King => {
            let mut list: Vec<Square> = Vec::new();
            push_diagonal_rays(squares, piece, 1, &mut list);
            push_file_rays(squares, piece, 1, &mut list);
            push_rank_rays(squares, piece, 1, &mut list);
            list
        },
        _ => candidates(squares, piece),
    }
}

/// Whether some piece of side `by` attacks `sq`.
pub(crate) fn square_attacked(squares: &Squares, by: PieceColor, sq: Square) -> (attacked: bool)
    ensures
        attacked == attacked_by(grid_of(*squares), by, sq),
{
    let ghost g = grid_of(*squares);
    let mut r: usize = 0;
    while r < 8
        invariant
            r <= 8,
            g == grid_of(*squares),
            forall|i: int, j: int| 0 <= i < r && 0 <= j < 8 ==> !attacks_from(g, by, sq, i, j),
        decreases 8 - r,
    {
        let mut c: usize = 0;
        while c < 8
            invariant
                r < 8,
                c <= 8,
                g == grid_of(*squares),
                forall|i: int, j: int| 0 <= i < r && 0 <= j < 8 ==> !attacks_from(g, by, sq, i, j),
                forall|j: int| 0 <= j < c ==> !attacks_from(g, by, sq, r as int, j),
            decreases 8 - c,
        {
            match squares[r][c] {
                Some(p) => {
                    if p.color == by {
                        let list = threat_list(squares, &p);
                        if has_square(&list, sq) {
                            assert(attacks_from(g, by, sq, r as int, c as int));
                            return true;
                        }
                    }
                },
                None => {},
            }
            c += 1;
        }
        r += 1;
    }
    false
}

/// Whether side `color` is in check on `squares`.
pub(crate) fn king_in_check(squares: &Squares, color: PieceColor) -> (check: bool)
    ensures
        check == in_check(grid_of(*squares), color),
{
    let ghost g = grid_of(*squares);
    let enemy = color.opposite();
    let mut r: u8 = 0;
    while r < 8
        invariant
            r <= 8,
            g == grid_of(*squares),
            enemy == color.opposite(),
            forall|i: int, j: int| 0 <= i < r && 0 <= j < 8 ==> !king_attacked_on(g, color, i, j),
        decreases 8 - r,
    {
        let mut c: u8 = 0;
        while c < 8
            invariant
                r < 8,
                c <= 8,
                g == grid_of(*squares),
                enemy == color.opposite(),
                forall|i: int, j: int| 0 <= i < r && 0 <= j < 8 ==> !king_attacked_on(g, color, i, j),
                forall|j: int| 0 <= j < c ==> !king_attacked_on(g, color, r as int, j),
            decreases 8 - c,
        {
            match squares[r as usize][c as usize] {
                Some(k) => {
                    if k.kind == PieceType::King && k.color == color {
                        if square_attacked(squares, enemy, (r, c)) {
                            assert(king_attacked_on(g, color, r as int, c as int));
                            return true;
                        }
                    }
                },
                None => {},
            }
            c += 1;
        }
        r += 1;
    }
    false
}

/// Whether moving `piece` to `to` on `squares` would leave the mover's own
/// king in check. The move is tried on a copy; `squares` is read only.
pub(crate) fn move_exposes_king(squares: &Squares, piece: &ChessPiece, to: Square) -> (exposed: bool)
    ensures
        exposed == exposes_king(grid_of(*squares), *piece, to),
{
    let from = piece.position;
    if from.0 >= 8 || from.1 >= 8 || to.0 >= 8 || to.1 >= 8 {
        return true;
    }
    let ghost g = grid_of(*squares);
    let mut scratch: Squares = *squares;
    if piece.kind == PieceType::Pawn && to.1 != from.1 && scratch[to.0 as usize][to.1 as usize].is_none() {
        scratch[from.0 as usize][to.1 as usize] = None;
    }
    scratch[from.0 as usize][from.1 as usize] = None;
    scratch[to.0 as usize][to.1 as usize] = Some(
        ChessPiece { kind: piece.kind, color: piece.color, position: to, times_moved: piece.times_moved },
    );
    assert(grid_of(scratch) =~~= after_move(g, *piece, to));
    king_in_check(&scratch, piece.color)
}

impl Board {
    /// The squares that `piece` attacks under the rules, whatever the
    /// point of view.
    pub fn get_threat_squares(&self, piece: &ChessPiece) -> (attacks: Vec<Square>)
        ensures
            attacks@ == threats(self@.grid, *piece),
    {
        threat_list(&self.squares, piece)
    }

    /// Whether side `color` is in check.
    pub fn is_in_check(&self, color: PieceColor) -> (check: bool)
        ensures
            check == in_check(self@.grid, color),
    {
        king_in_check(&self.squares, color)
    }

    /// Whether moving `piece` to `destination` is ruled out because it
    /// would leave the mover's own king in check: `true` means the move is
    /// illegal. The move is tried on a copy of the grid, so the board is
    /// the same after the call as before it.
    pub fn simulate_move(&self, piece: &ChessPiece, destination: &Square) -> (exposed: bool)
        ensures
            exposed == exposes_king(self@.grid, *piece, *destination),
    {
        move_exposes_king(&self.squares, piece, *destination)
    }
}

} // verus!
