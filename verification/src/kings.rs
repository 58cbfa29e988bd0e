//! While a game is played in turn, each side keeps exactly one king, and
//! the side that has just moved is never in check.

use vstd::prelude::*;
use crate::board::{grid_shape, grid_valid, starting_grid, starting_piece, Board, BoardView, Grid};
use crate::castle::{
    castle_ok,
    king_castled_file,
    path_square_free,
    rook_castled_file,
    rook_home_file,
};
use crate::check::{attacks_from, in_check, king_attacked_on, threats};
use crate::executor::castle_request;
use crate::legality::{castle_marker, legal_capture_facts, legal_captures, legal_quiet_facts};
use crate::move_gen::{
    diagonal_rays,
    file_rays,
    if_on_board,
    in_either,
    pawn_reach,
    rank_rays,
    ray,
    Line,
};
use crate::piece::{on_board, ChessPiece, PieceColor, PieceType, Square};
use crate::safety::{
    alike_on,
    alike_to_enemy,
    alike_to_enemy_on,
    castling_keeps_king_safe,
    check_is_blind_to_own_kinds,
    move_keeps_own_king_safe,
};

verus! {

/// Whether a king of `color` stands on `(r, c)`.
pub open spec fn king_on(g: Grid, color: PieceColor, r: int, c: int) -> bool {
    g[r][c] matches Some(k) && k.kind == PieceType::King && k.color == color
}

/// Whether the one king of `color` stands on `(r, c)`.
pub open spec fn sole_king_on(g: Grid, color: PieceColor, r: int, c: int) -> bool {
    &&& on_board(r, c)
    &&& king_on(g, color, r, c)
    &&& forall|i: int, j: int| on_board(i, j) && #[trigger] king_on(g, color, i, j) ==> i == r && j == c
}

/// Whether `color` has exactly one king on the grid.
pub open spec fn one_king(g: Grid, color: PieceColor) -> bool {
    exists|r: int, c: int| #[trigger] sole_king_on(g, color, r, c)
}

/// A position of a game in progress: every piece records its square, each
/// side has exactly one king, and the side that is not to move is not in
/// check.
pub open spec fn in_play(b: BoardView) -> bool {
    &&& grid_valid(b.grid)
    &&& one_king(b.grid, PieceColor::White)
    &&& one_king(b.grid, PieceColor::Black)
    &&& !in_check(b.grid, b.turn.opposite())
}

/// Every square of a ray along a file lies on the file it starts from.
proof fn file_ray_keeps_file(g: Grid, p: ChessPiece, r: int, c: int, dr: int, depth: nat, sq: Square)
    requires
        ray(g, p, Line::File, r, c, dr, 0, depth).contains(sq),
    ensures
        sq.1 == c,
    decreases depth,
{
    let next = ((r + dr) as u8, c as u8);
    match g[r + dr][c] {
        None => {
            let rest = ray(g, p, Line::File, r + dr, c, dr, 0, (depth - 1) as nat);
            in_either(seq![next], rest, sq);
            if rest.contains(sq) {
                file_ray_keeps_file(g, p, r + dr, c, dr, (depth - 1) as nat, sq);
            }
        },
        Some(_) => {},
    }
}

/// A square of a ray along a rank that lies at most one file from where
/// the ray starts is the ray's first square.
proof fn near_square_of_rank_ray(
    g: Grid,
    p: ChessPiece,
    r: int,
    c: int,
    dc: int,
    depth: nat,
    sq: Square,
)
    requires
        dc == 1 || dc == -1,
        ray(g, p, Line::Rank, r, c, 0, dc, depth).contains(sq),
    ensures
        sq.0 == r,
        dc == 1 ==> c < sq.1 <= c + depth,
        dc == -1 ==> c - depth <= sq.1 < c,
        sq.1 == c + dc ==> ray(g, p, Line::Rank, r, c, 0, dc, 1).contains(sq),
    decreases depth,
{
    let next = (r as u8, (c + dc) as u8);
    match g[r][c + dc] {
        None => {
            let rest = ray(g, p, Line::Rank, r, c + dc, 0, dc, (depth - 1) as nat);
            in_either(seq![next], rest, sq);
            if rest.contains(sq) {
                near_square_of_rank_ray(g, p, r, c + dc, dc, (depth - 1) as nat, sq);
            }
            assert(ray(g, p, Line::Rank, r, c + dc, 0, dc, 0) =~= Seq::<Square>::empty());
        },
        Some(_) => {},
    }
}

/// What a piece captures, it attacks: the square of a legal capture that
/// takes the piece standing on it is among the squares the capturing piece
/// attacks.
pub proof fn capture_is_an_attack(b: BoardView, piece: ChessPiece, to: Square)
    requires
        piece.position.0 < 8 && piece.position.1 < 8,
        legal_captures(b, piece).contains(to),
        !castle_marker(b.grid, piece, to),
        b.at(to) is Some,
    ensures
        threats(b.grid, piece).contains(to),
{
    legal_capture_facts(b, piece, to);
    let g = b.grid;
    let r = piece.position.0 as int;
    let c = piece.position.1 as int;
    let f = piece.color.forward();
    match piece.kind {
        PieceType::Pawn => {
            let ahead = ray(g, piece, Line::File, r, c, f, 0, pawn_reach(piece));
            let left = ray(g, piece, Line::Diagonal, r, c, f, -1, 1);
            let right = ray(g, piece, Line::Diagonal, r, c, f, 1, 1);
            in_either(ahead + left, right, to);
            in_either(ahead, left, to);
            if ahead.contains(to) {
                file_ray_keeps_file(g, piece, r, c, f, pawn_reach(piece), to);
            }
            let near_left = if_on_board(r + f, c - 1);
            let near_right = if_on_board(r + f, c + 1);
            in_either(near_left, near_right, to);
            if left.contains(to) {
                assert(ray(g, piece, Line::Diagonal, r + f, c - 1, f, -1, 0) =~= Seq::<Square>::empty());
            }
            if right.contains(to) {
                assert(ray(g, piece, Line::Diagonal, r + f, c + 1, f, 1, 0) =~= Seq::<Square>::empty());
            }
        },
        PieceType::King => {
            let far = rank_rays(g, piece, 8);
            let near = rank_rays(g, piece, 1);
            in_either(diagonal_rays(g, piece, 1) + file_rays(g, piece, 1), far, to);
            in_either(diagonal_rays(g, piece, 1) + file_rays(g, piece, 1), near, to);
            if far.contains(to) {
                let left = ray(g, piece, Line::Rank, r, c, 0, -1, 8);
                let right = ray(g, piece, Line::Rank, r, c, 0, 1, 8);
                in_either(left, right, to);
                in_either(
                    ray(g, piece, Line::Rank, r, c, 0, -1, 1),
                    ray(g, piece, Line::Rank, r, c, 0, 1, 1),
                    to,
                );
                if left.contains(to) {
                    near_square_of_rank_ray(g, piece, r, c, -1, 8, to);
                }
                if right.contains(to) {
                    near_square_of_rank_ray(g, piece, r, c, 1, 8, to);
                }
            }
        },
        _ => {},
    }
}

/// A side that is not in check loses no king to a capture: the piece that
/// a legal capture takes is no king of a side that is not in check.
pub proof fn capture_spares_the_king(b: BoardView, from: Square, to: Square)
    requires
        grid_valid(b.grid),
        b.at(from) matches Some(piece) && legal_captures(b, piece).contains(to) && !castle_marker(
            b.grid,
            piece,
            to,
        ) && !in_check(b.grid, piece.color.opposite()),
    ensures
        b.at(b.victim_square(to)) matches Some(victim) && victim.color != b.at(from)->0.color && victim.kind
            != PieceType::King,
{
    let piece = b.at(from)->0;
    let g = b.grid;
    legal_capture_facts(b, piece, to);
    if b.at(to) is Some {
        let victim = b.at(to)->0;
        capture_is_an_attack(b, piece, to);
        if victim.kind == PieceType::King {
            assert(attacks_from(g, piece.color, to, from.0 as int, from.1 as int));
            assert(king_attacked_on(g, piece.color.opposite(), to.0 as int, to.1 as int));
        }
    }
}

/// Whether a king of `color` stands on square number `a`, counting rank by
/// rank.
pub open spec fn king_numbered(g: Grid, color: PieceColor, a: int) -> bool {
    king_on(g, color, a / 8, a % 8)
}

/// How many kings of `color` stand on the first `n` squares, counting rank
/// by rank.
pub open spec fn kings_among(g: Grid, color: PieceColor, n: nat) -> nat
    decreases n,
{
    if n == 0 {
        0
    } else {
        kings_among(g, color, (n - 1) as nat) + if king_numbered(g, color, n - 1) {
            1nat
        } else {
            0nat
        }
    }
}

/// Where kings are counted up to square number `n`, no king has been
/// counted if the count is 0, and every king that has been counted stands
/// on one square if the count is 1.
proof fn count_tells_kings(g: Grid, color: PieceColor, n: nat, r: int, c: int)
    requires
        on_board(r, c),
        r * 8 + c < n <= 64,
        king_on(g, color, r, c),
    ensures
        kings_among(g, color, n) >= 1,
        kings_among(g, color, n) == 1 ==> forall|i: int, j: int|
            on_board(i, j) && i * 8 + j < n && #[trigger] king_on(g, color, i, j) ==> i == r && j == c,
    decreases n,
{
    let last = (n - 1) as int;
    if r * 8 + c < last {
        count_tells_kings(g, color, (n - 1) as nat, r, c);
        if kings_among(g, color, n) == 1 {
            assert forall|i: int, j: int|
                on_board(i, j) && i * 8 + j < n && #[trigger] king_on(g, color, i, j) implies i == r && j
                == c by {}
        }
    } else {
        if kings_among(g, color, n) == 1 {
            assert forall|i: int, j: int|
                on_board(i, j) && i * 8 + j < n && #[trigger] king_on(g, color, i, j) implies i == r && j
                == c by {
                if i * 8 + j < last {
                    count_tells_kings(g, color, (n - 1) as nat, i, j);
                }
            }
        }
    }
}

/// A side has exactly one king exactly when the count of its kings on
/// the whole board is 1.
pub proof fn one_king_is_a_count_of_one(g: Grid, color: PieceColor)
    ensures
        one_king(g, color) == (kings_among(g, color, 64) == 1),
{
    if one_king(g, color) {
        let (r, c) = choose|r: int, c: int| #[trigger] sole_king_on(g, color, r, c);
        count_tells_kings(g, color, 64, r, c);
        if kings_among(g, color, 64) >= 2 {
            two_kings_among(g, color, 64);
            let (a, b) = choose|a: int, b: int|
                0 <= a < b < 64 && #[trigger] king_numbered(g, color, a) && #[trigger] king_numbered(g, color, b);
        }
    }
    if kings_among(g, color, 64) == 1 {
        some_king_among(g, color, 64);
        let a = choose|a: int| 0 <= a < 64 && #[trigger] king_numbered(g, color, a);
        count_tells_kings(g, color, 64, a / 8, a % 8);
        assert(sole_king_on(g, color, a / 8, a % 8));
    }
}

proof fn some_king_among(g: Grid, color: PieceColor, n: nat)
    requires
        n <= 64,
        kings_among(g, color, n) >= 1,
    ensures
        exists|a: int| 0 <= a < n && #[trigger] king_numbered(g, color, a),
    decreases n,
{
    if !king_numbered(g, color, n - 1) {
        some_king_among(g, color, (n - 1) as nat);
        let a = choose|a: int| 0 <= a < n - 1 && #[trigger] king_numbered(g, color, a);
    } else {
        let a = n - 1;
    }
}

proof fn two_kings_among(g: Grid, color: PieceColor, n: nat)
    requires
        n <= 64,
        kings_among(g, color, n) >= 2,
    ensures
        exists|a: int, b: int|
            0 <= a < b < n && #[trigger] king_numbered(g, color, a) && #[trigger] king_numbered(g, color, b),
    decreases n,
{
    if !king_numbered(g, color, n - 1) {
        two_kings_among(g, color, (n - 1) as nat);
        let (a, b) = choose|a: int, b: int|
            0 <= a < b < n - 1 && #[trigger] king_numbered(g, color, a) && #[trigger] king_numbered(
                g,
                color,
                b,
            );
    } else {
        some_king_among(g, color, (n - 1) as nat);
        let a = choose|a: int| 0 <= a < n - 1 && #[trigger] king_numbered(g, color, a);
        let b = n - 1;
    }
}

impl Board {
    /// How many kings of `color` stand on the board.
    pub fn count_kings(&self, color: PieceColor) -> (count: u8)
        ensures
            count == kings_among(self@.grid, color, 64),
    {
        let ghost g = self@.grid;
        let mut count: u8 = 0;
        let mut k: u8 = 0;
        while k < 64
            invariant
                k <= 64,
                count <= k,
                g == self@.grid,
                count == kings_among(g, color, k as nat),
            decreases 64 - k,
        {
            match self.squares[(k / 8) as usize][(k % 8) as usize] {
                Some(p) => {
                    if p.kind == PieceType::King && p.color == color {
                        count += 1;
                    }
                },
                None => {},
            }
            k += 1;
        }
        count
    }

    /// Whether the position is one of a game in progress: see [`in_play`].
    pub fn is_in_play(&self) -> (ok: bool)
        ensures
            ok == in_play(self@),
    {
        proof {
            one_king_is_a_count_of_one(self@.grid, PieceColor::White);
            one_king_is_a_count_of_one(self@.grid, PieceColor::Black);
        }
        self.is_well_formed() && self.count_kings(PieceColor::White) == 1 && self.count_kings(
            PieceColor::Black,
        ) == 1 && !self.is_in_check(self.turn.opposite())
    }
}

/// No piece attacks beyond the fifth rank from its own half at the start
/// of a game: the pieces behind the pawns are shut in, and pawns and
/// knights reach one or two ranks ahead.
proof fn start_threats_fall_short(r: int, c: int, sq: Square)
    requires
        on_board(r, c),
        6 <= r,
        starting_grid()[r][c] is Some,
        threats(starting_grid(), starting_grid()[r][c]->0).contains(sq),
    ensures
        sq.0 >= 5,
{
    let g = starting_grid();
    let p = g[r][c]->0;
    reveal_with_fuel(ray, 2);
    match p.kind {
        PieceType::Pawn => {
            in_either(if_on_board(r - 1, c - 1), if_on_board(r - 1, c + 1), sq);
        },
        PieceType::Knight => {
            let j1 = if_on_board(r + 2, c + 1);
            let j2 = if_on_board(r + 2, c - 1);
            let j3 = if_on_board(r + 1, c + 2);
            let j4 = if_on_board(r - 1, c + 2);
            let j5 = if_on_board(r - 2, c + 1);
            let j6 = if_on_board(r - 2, c - 1);
            let j7 = if_on_board(r + 1, c - 2);
            let j8 = if_on_board(r - 1, c - 2);
            in_either(j1 + j2 + j3 + j4 + j5 + j6 + j7, j8, sq);
            in_either(j1 + j2 + j3 + j4 + j5 + j6, j7, sq);
            in_either(j1 + j2 + j3 + j4 + j5, j6, sq);
            in_either(j1 + j2 + j3 + j4, j5, sq);
            in_either(j1 + j2 + j3, j4, sq);
            in_either(j1 + j2, j3, sq);
            in_either(j1, j2, sq);
        },
        _ => {},
    }
}

/// The position at the start of a game is a game in progress.
pub proof fn start_is_in_play()
    ensures
        in_play(BoardView::start()),
{
    let g = starting_grid();
    assert(sole_king_on(g, PieceColor::White, 7, 4)) by {}
    assert(sole_king_on(g, PieceColor::Black, 0, 4)) by {}
    if in_check(g, PieceColor::Black) {
        let (kr, kc) = choose|r: int, c: int|
            on_board(r, c) && #[trigger] king_attacked_on(g, PieceColor::Black, r, c);
        let sq = (kr as u8, kc as u8);
        let (r, c) = choose|r: int, c: int|
            on_board(r, c) && #[trigger] attacks_from(g, PieceColor::White, sq, r, c);
        start_threats_fall_short(r, c, sq);
    }
}

/// A side's one king stays its one king where it stays on its square and
/// no king of that side comes onto the grid.
proof fn king_stays(g: Grid, h: Grid, color: PieceColor, r: int, c: int)
    requires
        sole_king_on(g, color, r, c),
        h[r][c] == g[r][c],
        forall|i: int, j: int| on_board(i, j) && #[trigger] king_on(h, color, i, j) ==> king_on(g, color, i, j),
    ensures
        sole_king_on(h, color, r, c),
        one_king(h, color),
{
    assert(sole_king_on(h, color, r, c));
}

/// A side's one king that goes from one square to another is its one king
/// there, where no other king of that side comes onto the grid.
proof fn king_goes(g: Grid, h: Grid, color: PieceColor, fr: int, fc: int, tr: int, tc: int)
    requires
        on_board(fr, fc) && king_on(g, color, fr, fc),
        one_king(g, color),
        on_board(tr, tc) && king_on(h, color, tr, tc),
        !king_on(h, color, fr, fc) || (fr == tr && fc == tc),
        forall|i: int, j: int|
            on_board(i, j) && (i != tr || j != tc) && #[trigger] king_on(h, color, i, j) ==> king_on(
                g,
                color,
                i,
                j,
            ),
    ensures
        sole_king_on(h, color, tr, tc),
        one_king(h, color),
{
    let (r, c) = choose|r: int, c: int| #[trigger] sole_king_on(g, color, r, c);
    assert forall|i: int, j: int| on_board(i, j) && #[trigger] king_on(h, color, i, j) implies i == tr && j
        == tc by {}
    assert(sole_king_on(h, color, tr, tc));
}

/// The grid after a move, square by square: the moved piece stands on the
/// destination, the origin and the square of the taken piece are empty,
/// and every other square is as it was.
pub proof fn grid_after_move(b: BoardView, from: Square, to: Square)
    requires
        grid_valid(b.grid),
        b.move_outcome(from, to) is Ok,
    ensures
        ({
            let piece = b.at(from)->0;
            let h = b.move_outcome(from, to)->Ok_0.grid;
            let lost = if legal_captures(b, piece).contains(to) {
                b.victim_square(to)
            } else {
                to
            };
            &&& from.0 < 8 && from.1 < 8 && to.0 < 8 && to.1 < 8 && lost.0 < 8 && lost.1 < 8
            &&& piece.position == from
            &&& grid_shape(h)
            &&& forall|r: int, c: int|
                on_board(r, c) ==> #[trigger] h[r][c] == if r == to.0 && c == to.1 {
                    Some(piece.moved_to(to))
                } else if (r == from.0 && c == from.1) || (r == lost.0 && c == lost.1) {
                    None
                } else {
                    b.grid[r][c]
                }
        }),
{
    let piece = b.at(from)->0;
    if legal_captures(b, piece).contains(to) {
        legal_capture_facts(b, piece, to);
    } else {
        legal_quiet_facts(b, piece, to);
    }
}

/// A move made in turn in a game in progress leaves a game in progress:
/// each side still has its one king, and the side that moved is not in
/// check.
pub proof fn move_keeps_game_in_play(b: BoardView, from: Square, to: Square)
    requires
        in_play(b),
        b.has_room_at(from),
        b.at(from) matches Some(piece) && piece.color == b.turn,
        b.move_outcome(from, to) is Ok,
    ensures
        in_play(b.move_outcome(from, to)->Ok_0),
{
    let g = b.grid;
    let piece = b.at(from)->0;
    let after = b.move_outcome(from, to)->Ok_0;
    let h = after.grid;
    let mover = piece.color;
    let other = mover.opposite();
    move_keeps_own_king_safe(b, from, to);
    grid_after_move(b, from, to);
    let capture = legal_captures(b, piece).contains(to);
    if capture {
        legal_capture_facts(b, piece, to);
        capture_spares_the_king(b, from, to);
    } else {
        legal_quiet_facts(b, piece, to);
    }
    assert(grid_valid(h)) by {
        assert forall|r: int, c: int| on_board(r, c) implies (#[trigger] h[r][c] matches Some(p)
            ==> p.position == (r as u8, c as u8) && p.times_moved >= 0) by {}
    }
    let (mr, mc) = choose|r: int, c: int| #[trigger] sole_king_on(g, mover, r, c);
    let (er, ec) = choose|r: int, c: int| #[trigger] sole_king_on(g, other, r, c);
    king_stays(g, h, other, er, ec);
    if piece.kind == PieceType::King {
        king_goes(g, h, mover, from.0 as int, from.1 as int, to.0 as int, to.1 as int);
    } else {
        king_stays(g, h, mover, mr, mc);
    }
}

/// A castling made in turn in a game in progress leaves a game in
/// progress.
pub proof fn castling_keeps_game_in_play(b: BoardView, king_pos: Square, rook_pos: Square)
    requires
        in_play(b),
        castle_request(king_pos, rook_pos) matches Some((side, color)) && color == b.turn && castle_ok(
            b,
            side,
            color,
        ),
    ensures
        in_play(b.castle_outcome(king_pos, rook_pos)),
{
    let request = castle_request(king_pos, rook_pos)->0;
    let side = request.0;
    let color = request.1;
    let other = color.opposite();
    let g = b.grid;
    let after = b.castle_outcome(king_pos, rook_pos);
    let h = after.grid;
    let rank = color.home_rank();
    let king = g[rank][4]->0;
    let rook_home = rook_home_file(side);
    let rook = g[rank][rook_home]->0;
    let king_file = king_castled_file(side);
    let rook_file = rook_castled_file(side);
    castling_keeps_king_safe(b, side, color);
    assert(path_square_free(g, king, rank, king_file));
    assert(path_square_free(g, king, rank, rook_file));
    assert forall|r: int, c: int| on_board(r, c) implies #[trigger] h[r][c] == if r == rank && c
        == king_file {
        Some(king.moved_to((rank as u8, king_file as u8)))
    } else if r == rank && c == rook_file {
        Some(rook.moved_to((rank as u8, rook_file as u8)))
    } else if r == rank && (c == 4 || c == rook_home) {
        None
    } else {
        g[r][c]
    } by {}
    assert(grid_valid(h)) by {
        assert forall|r: int, c: int| on_board(r, c) implies (#[trigger] h[r][c] matches Some(p)
            ==> p.position == (r as u8, c as u8) && p.times_moved >= 0) by {}
    }
    let (er, ec) = choose|r: int, c: int| #[trigger] sole_king_on(g, other, r, c);
    king_stays(g, h, other, er, ec);
    king_goes(g, h, color, rank, 4, rank, king_file);
    if in_check(h, color) {
        let (r, c) = choose|r: int, c: int| on_board(r, c) && #[trigger] king_attacked_on(h, color, r, c);
        assert(king_on(h, color, r, c));
    }
}

/// A promotion of a pawn of the side that has just moved, to any kind but
/// a king, leaves a game in progress.
pub proof fn promotion_keeps_game_in_play(b: BoardView, pos: Square, kind: PieceType)
    requires
        in_play(b),
        b.at(pos) matches Some(pawn) && pawn.kind == PieceType::Pawn && pawn.color == b.turn.opposite(),
        kind != PieceType::King,
    ensures
        in_play(b.promoted(pos, kind)),
{
    let g = b.grid;
    let h = b.promoted(pos, kind).grid;
    let color = b.turn.opposite();
    let other = b.turn;
    let pawn = b.at(pos)->0;
    assert forall|r: int, c: int| on_board(r, c) implies #[trigger] h[r][c] == if r == pos.0 && c == pos.1 {
        Some(ChessPiece { kind, ..pawn })
    } else {
        g[r][c]
    } by {}
    assert(grid_valid(h)) by {
        assert forall|r: int, c: int| on_board(r, c) implies (#[trigger] h[r][c] matches Some(p)
            ==> p.position == (r as u8, c as u8) && p.times_moved >= 0) by {}
    }
    let (mr, mc) = choose|r: int, c: int| #[trigger] sole_king_on(g, color, r, c);
    let (er, ec) = choose|r: int, c: int| #[trigger] sole_king_on(g, other, r, c);
    king_stays(g, h, color, mr, mc);
    king_stays(g, h, other, er, ec);
    if in_check(h, color) {
        assert(alike_to_enemy(h, g, color)) by {
            assert forall|r: int, c: int| on_board(r, c) implies #[trigger] alike_to_enemy_on(
                h,
                g,
                color,
                r,
                c,
            ) by {}
        }
        check_is_blind_to_own_kinds(h, g, color);
    }
}

} // verus!
