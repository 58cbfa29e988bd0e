//! Committing a move: the board, the lists of taken pieces, the counters,
//! the castling rights and the en-passant target after it.

use vstd::prelude::*;
use crate::board::{
    grid_of,
    grid_put,
    grid_put_valid,
    grid_shape,
    put_square,
    Board,
    BoardView,
    CastleType,
    Grid,
    StateView,
};
use crate::castle::{castle_ok, king_castled_file, rook_castled_file, rook_home_file};
use crate::check::has_square;
use crate::legality::{
    capture_candidate,
    capture_legal,
    castle_marker,
    legal_capture_facts,
    legal_quiet_facts,
    legal_captures,
    legal_quiets,
};
use crate::move_gen::MoveError;
use crate::piece::{on_board, ChessPiece, PieceColor, PieceType, Square};

verus! {

/// Whether a move of `piece` from `from` to `to` is a pawn's advance of two
/// ranks.
pub open spec fn is_double_step(piece: ChessPiece, from: Square, to: Square) -> bool {
    piece.kind == PieceType::Pawn && (from.0 - to.0 == 2 || to.0 - from.0 == 2)
}

/// Whether `piece` is a pawn that arrives on its last rank by going to `to`.
pub open spec fn reaches_last_rank(piece: ChessPiece, to: Square) -> bool {
    piece.kind == PieceType::Pawn && to.0 == piece.color.last_rank()
}

/// Whether a move of `piece` from `from` to `to` leaves `color` its
/// castling right on `side`: the piece is not that colour's king, and the
/// move neither leaves nor reaches the corner where that rook starts.
pub open spec fn move_keeps_right(
    side: CastleType,
    color: PieceColor,
    piece: ChessPiece,
    from: Square,
    to: Square,
) -> bool {
    let corner = (color.home_rank() as u8, rook_home_file(side) as u8);
    !(piece.kind == PieceType::King && piece.color == color) && from != corner && to != corner
}

/// The king's and the rook's squares that ask for a castling, and the
/// castling they ask for.
pub open spec fn castle_request(king_pos: Square, rook_pos: Square) -> Option<(CastleType, PieceColor)> {
    if king_pos.1 == 4 && (king_pos.0 == 0 || king_pos.0 == 7) && rook_pos.0 == king_pos.0 && (rook_pos.1
        == 0 || rook_pos.1 == 7) {
        Some(
            (
                if rook_pos.1 == 0 {
                    CastleType::QueenSide
                } else {
                    CastleType::KingSide
                },
                if king_pos.0 == 7 {
                    PieceColor::White
                } else {
                    PieceColor::Black
                },
            ),
        )
    } else {
        None
    }
}

impl BoardView {
    /// The position after `piece` has gone from `from` to `to`, given the
    /// grid after the move and the piece it took, if any.
    ///
    /// The other side is to move. The halfmove clock restarts on a capture
    /// or a pawn's move and counts on otherwise; the fullmove number counts
    /// Black's moves. The en-passant target is the pawn's new square after a
    /// double step and nothing after any other move. Castling rights can
    /// only be lost. The taken piece joins the list of the side that took
    /// it, a pawn on its last rank is marked for promotion, and the
    /// selection is dropped.
    pub open spec fn moved(
        self,
        piece: ChessPiece,
        from: Square,
        to: Square,
        grid: Grid,
        taken: Option<ChessPiece>,
    ) -> BoardView {
        BoardView {
            grid,
            turn: self.turn.opposite(),
            white_big_castle: self.white_big_castle && move_keeps_right(
                CastleType::QueenSide,
                PieceColor::White,
                piece,
                from,
                to,
            ),
            black_big_castle: self.black_big_castle && move_keeps_right(
                CastleType::QueenSide,
                PieceColor::Black,
                piece,
                from,
                to,
            ),
            white_small_castle: self.white_small_castle && move_keeps_right(
                CastleType::KingSide,
                PieceColor::White,
                piece,
                from,
                to,
            ),
            black_small_castle: self.black_small_castle && move_keeps_right(
                CastleType::KingSide,
                PieceColor::Black,
                piece,
                from,
                to,
            ),
            halfmove_clock: if taken is Some || piece.kind == PieceType::Pawn {
                0
            } else {
                self.halfmove_clock + 1
            },
            fullmove_number: if piece.color == PieceColor::Black {
                self.fullmove_number + 1
            } else {
                self.fullmove_number
            },
            en_passant_target: if taken is None && is_double_step(piece, from, to) {
                Some(to)
            } else {
                None
            },
            state: StateView {
                selected_piece: None,
                quiet_moves: None,
                capture_moves: None,
                moved_from: Some(from),
                moved_to: Some(to),
                white_taken: match taken {
                    Some(victim) if victim.color == PieceColor::Black => self.state.white_taken.push(victim),
                    _ => self.state.white_taken,
                },
                black_taken: match taken {
                    Some(victim) if victim.color == PieceColor::White => self.state.black_taken.push(victim),
                    _ => self.state.black_taken,
                },
                promtion_pending: if reaches_last_rank(piece, to) {
                    Some(to)
                } else {
                    self.state.promtion_pending
                },
                ..self.state
            },
        }
    }

    /// The square of the piece that a capture on `to` takes: `to` itself if
    /// it is occupied, the en-passant target if it is empty.
    pub open spec fn victim_square(self, to: Square) -> Square {
        if self.at(to) is None {
            self.en_passant_target->0
        } else {
            to
        }
    }

    /// The position after `piece` has captured by going from `from` to
    /// `to`.
    pub open spec fn after_capture(self, piece: ChessPiece, from: Square, to: Square) -> BoardView {
        let lost = self.victim_square(to);
        let grid = grid_put(grid_put(grid_put(self.grid, lost, None), from, None), to, Some(piece.moved_to(to)));
        self.moved(piece, from, to, grid, self.at(lost))
    }

    /// The position after `piece` has gone from `from` to the empty square
    /// `to` without capturing.
    pub open spec fn after_quiet(self, piece: ChessPiece, from: Square, to: Square) -> BoardView {
        let grid = grid_put(grid_put(self.grid, from, None), to, Some(piece.moved_to(to)));
        self.moved(piece, from, to, grid, None)
    }

    /// What the request to move from `from` to `to` comes to.
    ///
    /// It is refused as illegal when no piece stands on `from`; for want of
    /// moves when that piece has no legal move at all; and as illegal when
    /// `to` is not among its legal moves or is a castling marker, castling
    /// being a request of its own. Otherwise the piece captures on `to`, or
    /// goes there quietly.
    pub open spec fn move_outcome(self, from: Square, to: Square) -> Result<BoardView, MoveError> {
        match self.at(from) {
            None => Err(MoveError::IllegalMove),
            Some(piece) => {
                let quiet = legal_quiets(self, piece);
                let captures = legal_captures(self, piece);
                if quiet.len() == 0 && captures.len() == 0 {
                    Err(MoveError::NoAvailableMoves)
                } else if captures.contains(to) {
                    if castle_marker(self.grid, piece, to) {
                        Err(MoveError::IllegalMove)
                    } else {
                        Ok(self.after_capture(piece, from, to))
                    }
                } else if quiet.contains(to) {
                    Ok(self.after_quiet(piece, from, to))
                } else {
                    Err(MoveError::IllegalMove)
                }
            },
        }
    }

    /// The position after `color` has castled on `side`: king and rook stand
    /// on their castled squares, each with one more move to its count; both
    /// castling rights of `color` are gone; the en-passant target is gone;
    /// the clocks count on; the other side is to move and the selection is
    /// dropped.
    pub open spec fn castled(self, side: CastleType, color: PieceColor) -> BoardView {
        let rank = color.home_rank() as u8;
        let king_from = (rank, 4u8);
        let rook_from = (rank, rook_home_file(side) as u8);
        let king_to = (rank, king_castled_file(side) as u8);
        let rook_to = (rank, rook_castled_file(side) as u8);
        let king = self.at(king_from)->0;
        let rook = self.at(rook_from)->0;
        BoardView {
            grid: grid_put(
                grid_put(grid_put(grid_put(self.grid, king_from, None), rook_from, None), king_to, Some(king.moved_to(king_to))),
                rook_to,
                Some(rook.moved_to(rook_to)),
            ),
            turn: self.turn.opposite(),
            white_big_castle: self.white_big_castle && color != PieceColor::White,
            white_small_castle: self.white_small_castle && color != PieceColor::White,
            black_big_castle: self.black_big_castle && color != PieceColor::Black,
            black_small_castle: self.black_small_castle && color != PieceColor::Black,
            halfmove_clock: self.halfmove_clock + 1,
            fullmove_number: if color == PieceColor::Black {
                self.fullmove_number + 1
            } else {
                self.fullmove_number
            },
            en_passant_target: None,
            state: StateView {
                selected_piece: None,
                quiet_moves: None,
                capture_moves: None,
                moved_from: Some(king_from),
                moved_to: Some(king_to),
                ..self.state
            },
        }
    }

    /// What the request to castle with the king on `king_pos` and the rook
    /// on `rook_pos` comes to: the castled position where the two squares
    /// ask for a castling that is allowed, the position as it was
    /// otherwise.
    pub open spec fn castle_outcome(self, king_pos: Square, rook_pos: Square) -> BoardView {
        match castle_request(king_pos, rook_pos) {
            Some((side, color)) => if castle_ok(self, side, color) {
                self.castled(side, color)
            } else {
                self
            },
            None => self,
        }
    }

    /// The position after the piece on `pos`, if there is one, has become
    /// a piece of kind `kind`.
    pub open spec fn promoted(self, pos: Square, kind: PieceType) -> BoardView {
        match self.at(pos) {
            Some(pawn) => BoardView { grid: grid_put(self.grid, pos, Some(ChessPiece { kind, ..pawn })), ..self },
            None => self,
        }
    }

    /// Whether the counters have room for one more move from `from`: the
    /// two clocks are below the largest `u32`, and the move count of the
    /// piece on `from`, if there is one, is below the largest `i32`.
    pub open spec fn has_room_at(self, from: Square) -> bool {
        &&& self.halfmove_clock < u32::MAX
        &&& self.fullmove_number < u32::MAX
        &&& self.at(from) matches Some(p) ==> p.times_moved < i32::MAX
    }

    /// Whether the counters have room for one more move, whichever piece
    /// makes it: the two clocks are below the largest `u32`, and the move
    /// count of every piece on the board is below the largest `i32`.
    pub open spec fn has_room(self) -> bool {
        &&& self.halfmove_clock < u32::MAX
        &&& self.fullmove_number < u32::MAX
        &&& forall|r: int, c: int|
            on_board(r, c) ==> (#[trigger] self.grid[r][c] matches Some(p) ==> p.times_moved < i32::MAX)
    }
}

/// Whether the move count of the piece on `(r, c)`, if any, has room for
/// one more move.
pub open spec fn count_has_room(g: Grid, r: int, c: int) -> bool {
    g[r][c] matches Some(p) ==> p.times_moved < i32::MAX
}

/// A castling that is made takes both castling rights from the side that
/// castled, leaves the other side's rights alone, and leaves no en-passant
/// target.
pub proof fn castling_spends_rights(b: BoardView, king_pos: Square, rook_pos: Square)
    requires
        castle_request(king_pos, rook_pos) matches Some((side, color)) && castle_ok(b, side, color),
    ensures
        ({
            let request = castle_request(king_pos, rook_pos)->0;
            let color = request.1;
            let after = b.castle_outcome(king_pos, rook_pos);
            &&& !after.castle_right(CastleType::KingSide, color)
            &&& !after.castle_right(CastleType::QueenSide, color)
            &&& after.castle_right(CastleType::KingSide, color.opposite()) == b.castle_right(
                CastleType::KingSide,
                color.opposite(),
            )
            &&& after.castle_right(CastleType::QueenSide, color.opposite()) == b.castle_right(
                CastleType::QueenSide,
                color.opposite(),
            )
            &&& after.en_passant_target is None
        }),
{
}

/// No move, castling or promotion gives a castling right back.
pub proof fn castling_rights_are_only_lost(
    b: BoardView,
    from: Square,
    to: Square,
    kind: PieceType,
    side: CastleType,
    color: PieceColor,
)
    ensures
        b.move_outcome(from, to) matches Ok(after) ==> (after.castle_right(side, color) ==> b.castle_right(
            side,
            color,
        )),
        b.castle_outcome(from, to).castle_right(side, color) ==> b.castle_right(side, color),
        b.promoted(from, kind).castle_right(side, color) == b.castle_right(side, color),
{
}

/// After a move the halfmove clock is 0 if the move took a piece or moved
/// a pawn, and one more than before otherwise; the fullmove number is one
/// more than before if Black moved, and as before otherwise; and the other
/// side is to move.
pub proof fn counters_after_move(b: BoardView, from: Square, to: Square)
    requires
        grid_shape(b.grid),
        b.move_outcome(from, to) is Ok,
    ensures
        ({
            let after = b.move_outcome(from, to)->Ok_0;
            let piece = b.at(from)->0;
            let takes = legal_captures(b, piece).contains(to);
            &&& after.halfmove_clock == if takes || piece.kind == PieceType::Pawn {
                0
            } else {
                b.halfmove_clock + 1
            }
            &&& after.fullmove_number == if piece.color == PieceColor::Black {
                b.fullmove_number + 1
            } else {
                b.fullmove_number
            }
            &&& after.turn == b.turn.opposite()
            &&& after.state.selected_piece is None && after.state.quiet_moves is None
                && after.state.capture_moves is None
        }),
{
    let piece = b.at(from)->0;
    if legal_captures(b, piece).contains(to) {
        legal_capture_facts(b, piece, to);
        if b.at(to) is None {
            en_passant_needs_target(b, piece, to);
        }
    }
}

/// A legal en-passant capture, a pawn's legal capture onto an empty square,
/// takes the pawn on the en-passant target, which stands beside the
/// capturing pawn.
pub proof fn en_passant_needs_target(b: BoardView, piece: ChessPiece, sq: Square)
    requires
        legal_captures(b, piece).contains(sq),
        piece.kind == PieceType::Pawn,
        b.at(sq) is None,
    ensures
        b.en_passant_target == Some((piece.position.0, sq.1)),
        b.victim_square(sq) == (piece.position.0, sq.1),
{
    legal_capture_facts(b, piece, sq);
}

/// After a move there is an en-passant target exactly when the move was a
/// pawn's quiet advance of two ranks, and the target is then the pawn's
/// new square.
pub proof fn en_passant_target_after_move(b: BoardView, from: Square, to: Square)
    requires
        b.move_outcome(from, to) is Ok,
    ensures
        ({
            let after = b.move_outcome(from, to)->Ok_0;
            let piece = b.at(from)->0;
            &&& after.en_passant_target is Some <==> is_double_step(piece, from, to) && legal_quiets(
                b,
                piece,
            ).contains(to) && !legal_captures(b, piece).contains(to)
            &&& after.en_passant_target is Some ==> after.en_passant_target == Some(to)
        }),
{
    let piece = b.at(from)->0;
    if legal_captures(b, piece).contains(to) {
        legal_capture_facts(b, piece, to);
        if b.at(to) is None {
            en_passant_needs_target(b, piece, to);
        }
    }
}

/// The en-passant target that a move leaves is gone after the next move:
/// an en-passant capture is open for one reply only.
pub proof fn en_passant_target_lasts_one_ply(
    b: BoardView,
    from: Square,
    to: Square,
    next_from: Square,
    next_to: Square,
)
    requires
        grid_shape(b.grid),
        b.move_outcome(from, to) is Ok,
        b.move_outcome(from, to)->Ok_0.en_passant_target is Some,
        b.move_outcome(from, to)->Ok_0.move_outcome(next_from, next_to) is Ok,
    ensures
        b.move_outcome(from, to)->Ok_0.en_passant_target == Some(to),
        b.move_outcome(from, to)->Ok_0.move_outcome(next_from, next_to)->Ok_0.en_passant_target != Some(to),
{
    let mid = b.move_outcome(from, to)->Ok_0;
    let last = mid.move_outcome(next_from, next_to)->Ok_0;
    let piece = b.at(from)->0;
    en_passant_target_after_move(b, from, to);
    legal_quiet_facts(b, piece, to);
    en_passant_target_after_move(mid, next_from, next_to);
    if last.en_passant_target is Some {
        legal_quiet_facts(mid, mid.at(next_from)->0, next_to);
    }
}

/// An en-passant capture answers a double step: where a pawn may capture
/// en passant after a move, that move was a pawn's advance of two ranks,
/// and the pawn that made it is the one to be taken.
pub proof fn en_passant_answers_a_double_step(
    b: BoardView,
    from: Square,
    to: Square,
    pawn: ChessPiece,
    sq: Square,
)
    requires
        b.move_outcome(from, to) is Ok,
        pawn.kind == PieceType::Pawn,
        legal_captures(b.move_outcome(from, to)->Ok_0, pawn).contains(sq),
        b.move_outcome(from, to)->Ok_0.at(sq) is None,
    ensures
        is_double_step(b.at(from)->0, from, to),
        to == (pawn.position.0, sq.1),
{
    let mid = b.move_outcome(from, to)->Ok_0;
    en_passant_needs_target(mid, pawn, sq);
    en_passant_target_after_move(b, from, to);
}

/// After a castling no pawn may capture en passant.
pub proof fn no_en_passant_after_castling(
    b: BoardView,
    king_pos: Square,
    rook_pos: Square,
    pawn: ChessPiece,
    sq: Square,
)
    requires
        castle_request(king_pos, rook_pos) matches Some((side, color)) && castle_ok(b, side, color),
        pawn.kind == PieceType::Pawn,
        b.castle_outcome(king_pos, rook_pos).at(sq) is None,
    ensures
        !legal_captures(b.castle_outcome(king_pos, rook_pos), pawn).contains(sq),
{
    let after = b.castle_outcome(king_pos, rook_pos);
    if legal_captures(after, pawn).contains(sq) {
        en_passant_needs_target(after, pawn, sq);
    }
}

/// A pawn that a move brings to its last rank is marked for promotion and
/// is still a pawn.
pub proof fn promotion_waits(b: BoardView, from: Square, to: Square)
    requires
        grid_shape(b.grid),
        b.move_outcome(from, to) is Ok,
        b.at(from) matches Some(p) && reaches_last_rank(p, to),
    ensures
        ({
            let after = b.move_outcome(from, to)->Ok_0;
            &&& after.state.promtion_pending == Some(to)
            &&& after.at(to) matches Some(q) && q.kind == PieceType::Pawn && q.color == b.at(from)->0.color
        }),
{
    let piece = b.at(from)->0;
    if legal_captures(b, piece).contains(to) {
        legal_capture_facts(b, piece, to);
    } else {
        legal_quiet_facts(b, piece, to);
    }
}

/// After a promotion the piece on the square is of the kind asked for, and
/// is otherwise the piece it was; no other square changes.
pub proof fn promotion_gives_kind(b: BoardView, pos: Square, kind: PieceType)
    requires
        grid_shape(b.grid),
        b.at(pos) is Some,
    ensures
        b.promoted(pos, kind).at(pos) == Some(ChessPiece { kind, ..b.at(pos)->0 }),
        forall|sq: Square| sq != pos ==> #[trigger] b.promoted(pos, kind).at(sq) == b.at(sq),
{
}

impl Board {
    /// Whether the counters have room for one more move from `from`.
    pub fn has_room_at(&self, from: Square) -> (room: bool)
        ensures
            room == self@.has_room_at(from),
    {
        if self.halfmove_clock == u32::MAX || self.fullmove_number == u32::MAX {
            return false;
        }
        match self.piece_on(from) {
            Some(p) => p.times_moved < i32::MAX,
            None => true,
        }
    }

    /// Whether the counters have room for one more move, whichever piece
    /// makes it.
    pub fn has_room(&self) -> (room: bool)
        ensures
            room == self@.has_room(),
    {
        if self.halfmove_clock == u32::MAX || self.fullmove_number == u32::MAX {
            return false;
        }
        let ghost g = self@.grid;
        let mut r: usize = 0;
        while r < 8
            invariant
                r <= 8,
                g == grid_of(self.squares),
                forall|i: int, j: int| 0 <= i < r && 0 <= j < 8 ==> count_has_room(g, i, j),
            decreases 8 - r,
        {
            let mut c: usize = 0;
            while c < 8
                invariant
                    r < 8,
                    c <= 8,
                    g == grid_of(self.squares),
                    forall|i: int, j: int| 0 <= i < r && 0 <= j < 8 ==> count_has_room(g, i, j),
                    forall|j: int| 0 <= j < c ==> count_has_room(g, r as int, j),
                decreases 8 - c,
            {
                match self.squares[r][c] {
                    Some(p) => {
                        if p.times_moved == i32::MAX {
                            assert(!count_has_room(g, r as int, c as int));
                            return false;
                        }
                    },
                    None => {},
                }
                c += 1;
            }
            r += 1;
        }
        assert forall|i: int, j: int| on_board(i, j) implies (#[trigger] g[i][j] matches Some(p)
            ==> p.times_moved < i32::MAX) by {
            assert(count_has_room(g, i, j));
        }
        true
    }

    /// Books a move that has been made on the squares: the side to move,
    /// the castling rights, the counters, the en-passant target, the taken
    /// piece and the selection state.
    fn book_move(&mut self, piece: ChessPiece, from: Square, to: Square, taken: Option<ChessPiece>)
        requires
            old(self)@.halfmove_clock < u32::MAX,
            old(self)@.fullmove_number < u32::MAX,
        ensures
            final(self)@ == old(self)@.moved(piece, from, to, old(self)@.grid, taken),
    {
        let king = piece.kind == PieceType::King;
        let white = piece.color == PieceColor::White;
        let touches_a8 = (from.0 == 0 && from.1 == 0) || (to.0 == 0 && to.1 == 0);
        let touches_h8 = (from.0 == 0 && from.1 == 7) || (to.0 == 0 && to.1 == 7);
        let touches_a1 = (from.0 == 7 && from.1 == 0) || (to.0 == 7 && to.1 == 0);
        let touches_h1 = (from.0 == 7 && from.1 == 7) || (to.0 == 7 && to.1 == 7);
        self.white_big_castle = self.white_big_castle && !(king && white) && !touches_a1;
        self.white_small_castle = self.white_small_castle && !(king && white) && !touches_h1;
        self.black_big_castle = self.black_big_castle && !(king && !white) && !touches_a8;
        self.black_small_castle = self.black_small_castle && !(king && !white) && !touches_h8;
        let pawn = piece.kind == PieceType::Pawn;
        if taken.is_some() || pawn {
            self.halfmove_clock = 0;
        } else {
            self.halfmove_clock = self.halfmove_clock + 1;
        }
        if !white {
            self.fullmove_number = self.fullmove_number + 1;
        }
        let double_step = pawn && ((from.0 >= 2 && from.0 - 2 == to.0) || (to.0 >= 2 && to.0 - 2 == from.0));
        self.en_passant_target = if taken.is_none() && double_step {
            Some(to)
        } else {
            None
        };
        match taken {
            Some(victim) => {
                match victim.color {
                    PieceColor::Black => {
                        self.state.white_taken.push(victim);
                    },
                    PieceColor::White => {
                        self.state.black_taken.push(victim);
                    },
                }
            },
            None => {},
        }
        let last_rank: u8 = if white { 0 } else { 7 };
        if pawn && to.0 == last_rank {
            self.state.promtion_pending = Some(to);
        }
        self.state.moved_from = Some(from);
        self.state.moved_to = Some(to);
        self.turn = self.turn.opposite();
        self.state.selected_piece = None;
        self.state.quiet_moves = None;
        self.state.capture_moves = None;
    }

    /// Makes the capture by `piece` from `from` on `to`, a legal capture
    /// that is no castling marker.
    fn capture_on(&mut self, piece: ChessPiece, from: Square, to: Square)
        requires
            old(self)@.at(from) == Some(piece),
            old(self)@.has_room_at(from),
            capture_legal(old(self)@, piece, to),
            capture_candidate(old(self)@.grid, piece, to),
            !castle_marker(old(self)@.grid, piece, to),
        ensures
            final(self)@ == old(self)@.after_capture(piece, from, to),
            old(self).wf() ==> final(self).wf(),
    {
        let ghost before = self@;
        let lost: Square = match self.squares[to.0 as usize][to.1 as usize] {
            Some(_) => to,
            None => self.en_passant_target.unwrap(),
        };
        let taken = self.squares[lost.0 as usize][lost.1 as usize];
        let moved = ChessPiece {
            kind: piece.kind,
            color: piece.color,
            position: to,
            times_moved: piece.times_moved + 1,
        };
        proof {
            if self.wf() {
                grid_put_valid(before.grid, lost, None);
                grid_put_valid(grid_put(before.grid, lost, None), from, None);
                grid_put_valid(grid_put(grid_put(before.grid, lost, None), from, None), to, Some(moved));
            }
        }
        put_square(&mut self.squares, lost, None);
        put_square(&mut self.squares, from, None);
        put_square(&mut self.squares, to, Some(moved));
        self.book_move(piece, from, to, taken);
    }

    /// Makes the quiet move of `piece` from `from` to `to`.
    fn step_to(&mut self, piece: ChessPiece, from: Square, to: Square)
        requires
            old(self)@.at(from) == Some(piece),
            old(self)@.has_room_at(from),
            to.0 < 8 && to.1 < 8,
        ensures
            final(self)@ == old(self)@.after_quiet(piece, from, to),
            old(self).wf() ==> final(self).wf(),
    {
        let ghost before = self@;
        let moved = ChessPiece {
            kind: piece.kind,
            color: piece.color,
            position: to,
            times_moved: piece.times_moved + 1,
        };
        proof {
            if self.wf() {
                grid_put_valid(before.grid, from, None);
                grid_put_valid(grid_put(before.grid, from, None), to, Some(moved));
            }
        }
        put_square(&mut self.squares, from, None);
        put_square(&mut self.squares, to, Some(moved));
        self.book_move(piece, from, to, None);
    }

    /// Moves the piece on `old_pos` to `new_pos` if that is one of its legal
    /// moves, a capture or a quiet move. A refused request leaves the
    /// position as it was. Castling is not made here, and a pawn that
    /// reaches its last rank stays a pawn, marked for promotion.
    pub fn move_piece(&mut self, old_pos: Square, new_pos: Square) -> (res: Result<(), MoveError>)
        requires
            old(self)@.has_room_at(old_pos),
        ensures
            match old(self)@.move_outcome(old_pos, new_pos) {
                Ok(after) => res is Ok && final(self)@ == after,
                Err(why) => res == Err::<(), MoveError>(why) && final(self)@ == old(self)@,
            },
            old(self).wf() ==> final(self).wf(),
    {
        let ghost before = self@;
        let piece = match self.piece_on(old_pos) {
            Some(p) => p,
            None => {
                return Err(MoveError::IllegalMove);
            },
        };
        let (quiets, captures) = self.get_legal_moves(&piece);
        if quiets.len() == 0 && captures.len() == 0 {
            return Err(MoveError::NoAvailableMoves);
        }
        if has_square(&captures, new_pos) {
            proof {
                legal_capture_facts(before, piece, new_pos);
            }
            if self.is_castle_marker(&piece, new_pos) {
                return Err(MoveError::IllegalMove);
            }
            self.capture_on(piece, old_pos, new_pos);
            Ok(())
        } else if has_square(&quiets, new_pos) {
            proof {
                legal_quiet_facts(before, piece, new_pos);
            }
            self.step_to(piece, old_pos, new_pos);
            Ok(())
        } else {
            Err(MoveError::IllegalMove)
        }
    }

    /// Whether `sq` holds a rook of the king `piece`'s own side.
    fn is_castle_marker(&self, piece: &ChessPiece, sq: Square) -> (marker: bool)
        ensures
            marker == castle_marker(self@.grid, *piece, sq),
    {
        if piece.kind != PieceType::King {
            return false;
        }
        match self.piece_on(sq) {
            Some(p) => p.kind == PieceType::Rook && p.color == piece.color,
            None => false,
        }
    }

    /// Puts king and rook of `color` on their castled squares.
    fn castle_pieces(&mut self, side: CastleType, color: PieceColor)
        requires
            castle_ok(old(self)@, side, color),
        ensures
            final(self)@ == (BoardView { grid: old(self)@.castled(side, color).grid, ..old(self)@ }),
            old(self).wf() ==> final(self).wf(),
    {
        let ghost before = self@;
        let rank: u8 = match color {
            PieceColor::White => 7,
            PieceColor::Black => 0,
        };
        let (rook_home, king_file, rook_file): (u8, u8, u8) = match side {
            CastleType::KingSide => (7, 6, 5),
            CastleType::QueenSide => (0, 2, 3),
        };
        let king = self.squares[rank as usize][4].unwrap();
        let rook = self.squares[rank as usize][rook_home as usize].unwrap();
        let king_after = ChessPiece { kind: king.kind, color: king.color, position: (rank, king_file), times_moved: 1 };
        let rook_after = ChessPiece { kind: rook.kind, color: rook.color, position: (rank, rook_file), times_moved: 1 };
        proof {
            if self.wf() {
                let g1 = grid_put(before.grid, (rank, 4u8), None);
                let g2 = grid_put(g1, (rank, rook_home), None);
                let g3 = grid_put(g2, (rank, king_file), Some(king_after));
                grid_put_valid(before.grid, (rank, 4u8), None);
                grid_put_valid(g1, (rank, rook_home), None);
                grid_put_valid(g2, (rank, king_file), Some(king_after));
                grid_put_valid(g3, (rank, rook_file), Some(rook_after));
            }
        }
        put_square(&mut self.squares, (rank, 4), None);
        put_square(&mut self.squares, (rank, rook_home), None);
        put_square(&mut self.squares, (rank, king_file), Some(king_after));
        put_square(&mut self.squares, (rank, rook_file), Some(rook_after));
    }

    /// Castles with the king on `king_pos` and the rook on `rook_pos`, if
    /// the two squares ask for a castling and that castling is allowed.
    /// Otherwise the position stays as it was.
    pub fn execute_castle(&mut self, king_pos: Square, rook_pos: Square)
        requires
            old(self)@.halfmove_clock < u32::MAX,
            old(self)@.fullmove_number < u32::MAX,
        ensures
            final(self)@ == old(self)@.castle_outcome(king_pos, rook_pos),
            old(self).wf() ==> final(self).wf(),
    {
        if !(king_pos.1 == 4 && (king_pos.0 == 0 || king_pos.0 == 7) && rook_pos.0 == king_pos.0 && (
        rook_pos.1 == 0 || rook_pos.1 == 7)) {
            return ;
        }
        let side = if rook_pos.1 == 0 {
            CastleType::QueenSide
        } else {
            CastleType::KingSide
        };
        let color = if king_pos.0 == 7 {
            PieceColor::White
        } else {
            PieceColor::Black
        };
        if !self.can_castle(side, color) {
            return ;
        }
        let king_file: u8 = match side {
            CastleType::KingSide => 6,
            CastleType::QueenSide => 2,
        };
        self.castle_pieces(side, color);
        match color {
            PieceColor::Black => {
                self.black_big_castle = false;
                self.black_small_castle = false;
                self.fullmove_number = self.fullmove_number + 1;
            },
            PieceColor::White => {
                self.white_big_castle = false;
                self.white_small_castle = false;
            },
        }
        self.halfmove_clock = self.halfmove_clock + 1;
        self.en_passant_target = None;
        self.state.moved_from = Some(king_pos);
        self.state.moved_to = Some((king_pos.0, king_file));
        self.turn = self.turn.opposite();
        self.state.selected_piece = None;
        self.state.quiet_moves = None;
        self.state.capture_moves = None;
    }

    /// Makes the piece on `pos` a piece of kind `kind`. Nothing happens
    /// where `pos` is empty or off the board.
    pub fn promote_pawn(&mut self, pos: Square, kind: PieceType)
        ensures
            final(self)@ == old(self)@.promoted(pos, kind),
            old(self).wf() ==> final(self).wf(),
    {
        match self.piece_on(pos) {
            Some(pawn) => {
                let after = ChessPiece { kind, color: pawn.color, position: pawn.position, times_moved: pawn.times_moved };
                proof {
                    if self.wf() {
                        grid_put_valid(self@.grid, pos, Some(after));
                    }
                }
                put_square(&mut self.squares, pos, Some(after));
            },
            None => {},
        }
    }
}

} // verus!
