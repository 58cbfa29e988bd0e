//! No move that is made leaves the mover's own king in check.
//!
//! A move is tried on a scratch grid before it is made. The grid after the
//! move differs from the scratch grid only in the move count of the piece
//! that moved, and check does not depend on move counts.

use vstd::prelude::*;
use crate::board::{grid_valid, BoardView, CastleType, Grid};
use crate::castle::{
    castle_ok,
    king_castled_file,
    path_square_free,
    rook_castled_file,
    rook_home_file,
};
use crate::check::{
    after_move,
    attacked_by,
    attacks_from,
    exposes_king,
    in_check,
    king_attacked_on,
    threats,
};
use crate::legality::{legal_capture_facts, legal_captures, legal_quiet_facts};
use crate::move_gen::{diagonal_rays, file_rays, in_either, rank_rays, ray, Line};
use crate::piece::{on_board, ChessPiece, PieceColor, PieceType, Square};

verus! {

/// Two pieces are alike when they are of one kind and colour and stand on
/// one square: they differ at most in how often they have moved.
pub open spec fn pieces_alike(a: ChessPiece, b: ChessPiece) -> bool {
    a.kind == b.kind && a.color == b.color && a.position == b.position
}

/// Two grids are alike on `(r, c)` when the square is empty on both or
/// holds like pieces.
pub open spec fn alike_on(g: Grid, h: Grid, r: int, c: int) -> bool {
    match (g[r][c], h[r][c]) {
        (None, None) => true,
        (Some(a), Some(b)) => pieces_alike(a, b),
        _ => false,
    }
}

/// Two grids are alike when they are alike on every square.
pub open spec fn grids_alike(g: Grid, h: Grid) -> bool {
    forall|r: int, c: int| on_board(r, c) ==> #[trigger] alike_on(g, h, r, c)
}

/// Like pieces cast the same rays on like grids.
pub proof fn rays_alike(
    g: Grid,
    h: Grid,
    p: ChessPiece,
    q: ChessPiece,
    line: Line,
    r: int,
    c: int,
    dr: int,
    dc: int,
    depth: nat,
)
    requires
        grids_alike(g, h),
        pieces_alike(p, q),
    ensures
        ray(g, p, line, r, c, dr, dc, depth) == ray(h, q, line, r, c, dr, dc, depth),
    decreases depth,
{
    if depth > 0 && on_board(r + dr, c + dc) {
        assert(alike_on(g, h, r + dr, c + dc));
        if g[r + dr][c + dc] is None {
            rays_alike(g, h, p, q, line, r + dr, c + dc, dr, dc, (depth - 1) as nat);
        }
    }
}

proof fn lines_alike(g: Grid, h: Grid, p: ChessPiece, q: ChessPiece, depth: nat)
    requires
        grids_alike(g, h),
        pieces_alike(p, q),
    ensures
        diagonal_rays(g, p, depth) == diagonal_rays(h, q, depth),
        file_rays(g, p, depth) == file_rays(h, q, depth),
        rank_rays(g, p, depth) == rank_rays(h, q, depth),
{
    let r = p.position.0 as int;
    let c = p.position.1 as int;
    let f = p.color.forward();
    rays_alike(g, h, p, q, Line::Diagonal, r, c, f, -1, depth);
    rays_alike(g, h, p, q, Line::Diagonal, r, c, f, 1, depth);
    rays_alike(g, h, p, q, Line::Diagonal, r, c, -f, -1, depth);
    rays_alike(g, h, p, q, Line::Diagonal, r, c, -f, 1, depth);
    rays_alike(g, h, p, q, Line::File, r, c, f, 0, depth);
    rays_alike(g, h, p, q, Line::File, r, c, -f, 0, depth);
    rays_alike(g, h, p, q, Line::Rank, r, c, 0, -1, depth);
    rays_alike(g, h, p, q, Line::Rank, r, c, 0, 1, depth);
}

/// Like pieces attack the same squares on like grids.
pub proof fn threats_alike(g: Grid, h: Grid, p: ChessPiece, q: ChessPiece)
    requires
        grids_alike(g, h),
        pieces_alike(p, q),
    ensures
        threats(g, p) == threats(h, q),
{
    lines_alike(g, h, p, q, 1);
    lines_alike(g, h, p, q, 8);
}

proof fn attacks_alike(g: Grid, h: Grid, by: PieceColor, sq: Square)
    requires
        grids_alike(g, h),
        attacked_by(g, by, sq),
    ensures
        attacked_by(h, by, sq),
{
    let (r, c) = choose|r: int, c: int| on_board(r, c) && #[trigger] attacks_from(g, by, sq, r, c);
    assert(alike_on(g, h, r, c));
    threats_alike(g, h, g[r][c]->0, h[r][c]->0);
    assert(attacks_from(h, by, sq, r, c));
}

proof fn check_carries_over(g: Grid, h: Grid, color: PieceColor)
    requires
        grids_alike(g, h),
        in_check(g, color),
    ensures
        in_check(h, color),
{
    let (r, c) = choose|r: int, c: int| on_board(r, c) && #[trigger] king_attacked_on(g, color, r, c);
    assert(alike_on(g, h, r, c));
    attacks_alike(g, h, color.opposite(), (r as u8, c as u8));
    assert(king_attacked_on(h, color, r, c));
}

/// Check does not depend on how often pieces have moved: on like grids the
/// same sides are in check.
pub proof fn check_alike(g: Grid, h: Grid, color: PieceColor)
    requires
        grids_alike(g, h),
    ensures
        in_check(g, color) == in_check(h, color),
{
    assert(grids_alike(h, g)) by {
        assert forall|r: int, c: int| on_board(r, c) implies #[trigger] alike_on(h, g, r, c) by {
            assert(alike_on(g, h, r, c));
        }
    }
    if in_check(g, color) {
        check_carries_over(g, h, color);
    }
    if in_check(h, color) {
        check_carries_over(h, g, color);
    }
}

/// Two grids are alike to the enemy of `color` on `(r, c)` when they are
/// alike there, or hold there pieces of `color` that differ in kind and
/// move count only.
pub open spec fn alike_to_enemy_on(g: Grid, h: Grid, color: PieceColor, r: int, c: int) -> bool {
    alike_on(g, h, r, c) || (g[r][c] matches Some(a) && h[r][c] matches Some(b) && a.color == color
        && b.color == color && a.position == b.position)
}

/// Two grids are alike to the enemy of `color` when they are so on every
/// square.
pub open spec fn alike_to_enemy(g: Grid, h: Grid, color: PieceColor) -> bool {
    forall|r: int, c: int| on_board(r, c) ==> #[trigger] alike_to_enemy_on(g, h, color, r, c)
}

/// What kind a piece is does not matter to the rays of its enemies.
proof fn enemy_rays_alike(
    g: Grid,
    h: Grid,
    color: PieceColor,
    p: ChessPiece,
    line: Line,
    r: int,
    c: int,
    dr: int,
    dc: int,
    depth: nat,
)
    requires
        alike_to_enemy(g, h, color),
        p.color != color,
    ensures
        ray(g, p, line, r, c, dr, dc, depth) == ray(h, p, line, r, c, dr, dc, depth),
    decreases depth,
{
    if depth > 0 && on_board(r + dr, c + dc) {
        assert(alike_to_enemy_on(g, h, color, r + dr, c + dc));
        if g[r + dr][c + dc] is None {
            enemy_rays_alike(g, h, color, p, line, r + dr, c + dc, dr, dc, (depth - 1) as nat);
        }
    }
}

proof fn enemy_threats_alike(g: Grid, h: Grid, color: PieceColor, p: ChessPiece)
    requires
        alike_to_enemy(g, h, color),
        p.color != color,
    ensures
        threats(g, p) == threats(h, p),
{
    let r = p.position.0 as int;
    let c = p.position.1 as int;
    let f = p.color.forward();
    enemy_rays_alike(g, h, color, p, Line::Diagonal, r, c, f, -1, 1);
    enemy_rays_alike(g, h, color, p, Line::Diagonal, r, c, f, 1, 1);
    enemy_rays_alike(g, h, color, p, Line::Diagonal, r, c, -f, -1, 1);
    enemy_rays_alike(g, h, color, p, Line::Diagonal, r, c, -f, 1, 1);
    enemy_rays_alike(g, h, color, p, Line::File, r, c, f, 0, 1);
    enemy_rays_alike(g, h, color, p, Line::File, r, c, -f, 0, 1);
    enemy_rays_alike(g, h, color, p, Line::Rank, r, c, 0, -1, 1);
    enemy_rays_alike(g, h, color, p, Line::Rank, r, c, 0, 1, 1);
    enemy_rays_alike(g, h, color, p, Line::Diagonal, r, c, f, -1, 8);
    enemy_rays_alike(g, h, color, p, Line::Diagonal, r, c, f, 1, 8);
    enemy_rays_alike(g, h, color, p, Line::Diagonal, r, c, -f, -1, 8);
    enemy_rays_alike(g, h, color, p, Line::Diagonal, r, c, -f, 1, 8);
    enemy_rays_alike(g, h, color, p, Line::File, r, c, f, 0, 8);
    enemy_rays_alike(g, h, color, p, Line::File, r, c, -f, 0, 8);
    enemy_rays_alike(g, h, color, p, Line::Rank, r, c, 0, -1, 8);
    enemy_rays_alike(g, h, color, p, Line::Rank, r, c, 0, 1, 8);
}

/// What kind a side's pieces are, its kings apart, does not matter to
/// whether it is in check: a side that is in check on a grid is in check on
/// every grid that is alike to its enemy and has its kings on the same
/// squares.
pub proof fn check_is_blind_to_own_kinds(g: Grid, h: Grid, color: PieceColor)
    requires
        alike_to_enemy(g, h, color),
        forall|r: int, c: int| on_board(r, c) && #[trigger] king_attacked_on(g, color, r, c) ==> (h[r][c]
            matches Some(k) && k.kind == PieceType::King),
        in_check(g, color),
    ensures
        in_check(h, color),
{
    let (kr, kc) = choose|r: int, c: int| on_board(r, c) && #[trigger] king_attacked_on(g, color, r, c);
    let sq = (kr as u8, kc as u8);
    let (r, c) = choose|r: int, c: int|
        on_board(r, c) && #[trigger] attacks_from(g, color.opposite(), sq, r, c);
    assert(alike_to_enemy_on(g, h, color, r, c));
    assert(alike_to_enemy_on(g, h, color, kr, kc));
    let p = g[r][c]->0;
    let q = h[r][c]->0;
    enemy_threats_alike(g, h, color, p);
    assert(grids_alike(h, h)) by {
        assert forall|i: int, j: int| on_board(i, j) implies #[trigger] alike_on(h, h, i, j) by {}
    }
    threats_alike(h, h, p, q);
    assert(attacks_from(h, color.opposite(), sq, r, c));
    assert(king_attacked_on(h, color, kr, kc));
}

/// A move that is made does not leave the mover's own king in check.
pub proof fn move_keeps_own_king_safe(b: BoardView, from: Square, to: Square)
    requires
        grid_valid(b.grid),
        b.move_outcome(from, to) is Ok,
    ensures
        !in_check(b.move_outcome(from, to)->Ok_0.grid, b.at(from)->0.color),
{
    let g = b.grid;
    let piece = b.at(from)->0;
    let after = b.move_outcome(from, to)->Ok_0;
    let tried = after_move(g, piece, to);
    if legal_captures(b, piece).contains(to) {
        legal_capture_facts(b, piece, to);
    } else {
        legal_quiet_facts(b, piece, to);
    }
    assert(grids_alike(after.grid, tried)) by {
        assert forall|r: int, c: int| on_board(r, c) implies #[trigger] alike_on(after.grid, tried, r, c) by {}
    }
    check_alike(after.grid, tried, piece.color);
}

/// Whether `h` is `g` but for two squares: a corner of the board, and a
/// square that is occupied on `g`.
pub open spec fn alike_but_for(g: Grid, h: Grid, corner: Square, blocked: Square) -> bool {
    &&& (corner.0 == 0 || corner.0 == 7) && (corner.1 == 0 || corner.1 == 7)
    &&& blocked.0 < 8 && blocked.1 < 8
    &&& g[blocked.0 as int][blocked.1 as int] is Some
    &&& forall|r: int, c: int|
        on_board(r, c) && (r != corner.0 || c != corner.1) && (r != blocked.0 || c != blocked.1)
            ==> #[trigger] alike_on(g, h, r, c)
}

/// A ray that reaches a square on `g` reaches it on `h` too, where `h` is
/// `g` but for a corner, which no ray passes through, and a square that
/// is occupied on `g`, which no ray of `g` passes through either.
proof fn ray_reaches_on_both(
    g: Grid,
    h: Grid,
    p: ChessPiece,
    line: Line,
    r: int,
    c: int,
    dr: int,
    dc: int,
    depth: nat,
    sq: Square,
    corner: Square,
    blocked: Square,
)
    requires
        alike_but_for(g, h, corner, blocked),
        on_board(r, c),
        -1 <= dr <= 1 && -1 <= dc <= 1 && (dr != 0 || dc != 0),
        sq != corner && sq != blocked,
        ray(g, p, line, r, c, dr, dc, depth).contains(sq),
    ensures
        ray(h, p, line, r, c, dr, dc, depth).contains(sq),
    decreases depth,
{
    let nr = r + dr;
    let nc = c + dc;
    let next = (nr as u8, nc as u8);
    if nr == blocked.0 && nc == blocked.1 {
        // The ray ends on the occupied square, which is not `sq`.
    } else if nr == corner.0 && nc == corner.1 {
        // The ray ends in the corner, which is not `sq` either.
        if g[nr][nc] is None {
            assert(ray(g, p, line, nr, nc, dr, dc, (depth - 1) as nat) =~= Seq::<Square>::empty());
        }
    } else {
        assert(alike_on(g, h, nr, nc));
        match g[nr][nc] {
            None => {
                let rest_g = ray(g, p, line, nr, nc, dr, dc, (depth - 1) as nat);
                let rest_h = ray(h, p, line, nr, nc, dr, dc, (depth - 1) as nat);
                in_either(seq![next], rest_g, sq);
                in_either(seq![next], rest_h, sq);
                if rest_g.contains(sq) {
                    ray_reaches_on_both(g, h, p, line, nr, nc, dr, dc, (depth - 1) as nat, sq, corner, blocked);
                }
            },
            Some(_) => {},
        }
    }
}

proof fn lines_reach_on_both(
    g: Grid,
    h: Grid,
    p: ChessPiece,
    depth: nat,
    sq: Square,
    corner: Square,
    blocked: Square,
)
    requires
        alike_but_for(g, h, corner, blocked),
        p.position.0 < 8 && p.position.1 < 8,
        sq != corner && sq != blocked,
    ensures
        diagonal_rays(g, p, depth).contains(sq) ==> diagonal_rays(h, p, depth).contains(sq),
        file_rays(g, p, depth).contains(sq) ==> file_rays(h, p, depth).contains(sq),
        rank_rays(g, p, depth).contains(sq) ==> rank_rays(h, p, depth).contains(sq),
{
    let r = p.position.0 as int;
    let c = p.position.1 as int;
    let f = p.color.forward();
    let d1 = ray(g, p, Line::Diagonal, r, c, f, -1, depth);
    let d2 = ray(g, p, Line::Diagonal, r, c, f, 1, depth);
    let d3 = ray(g, p, Line::Diagonal, r, c, -f, -1, depth);
    let d4 = ray(g, p, Line::Diagonal, r, c, -f, 1, depth);
    let e1 = ray(h, p, Line::Diagonal, r, c, f, -1, depth);
    let e2 = ray(h, p, Line::Diagonal, r, c, f, 1, depth);
    let e3 = ray(h, p, Line::Diagonal, r, c, -f, -1, depth);
    let e4 = ray(h, p, Line::Diagonal, r, c, -f, 1, depth);
    in_either(d1 + d2 + d3, d4, sq);
    in_either(d1 + d2, d3, sq);
    in_either(d1, d2, sq);
    in_either(e1 + e2 + e3, e4, sq);
    in_either(e1 + e2, e3, sq);
    in_either(e1, e2, sq);
    if d1.contains(sq) {
        ray_reaches_on_both(g, h, p, Line::Diagonal, r, c, f, -1, depth, sq, corner, blocked);
    }
    if d2.contains(sq) {
        ray_reaches_on_both(g, h, p, Line::Diagonal, r, c, f, 1, depth, sq, corner, blocked);
    }
    if d3.contains(sq) {
        ray_reaches_on_both(g, h, p, Line::Diagonal, r, c, -f, -1, depth, sq, corner, blocked);
    }
    if d4.contains(sq) {
        ray_reaches_on_both(g, h, p, Line::Diagonal, r, c, -f, 1, depth, sq, corner, blocked);
    }
    let f1 = ray(g, p, Line::File, r, c, -f, 0, depth);
    let f2 = ray(g, p, Line::File, r, c, f, 0, depth);
    in_either(f1, f2, sq);
    in_either(ray(h, p, Line::File, r, c, -f, 0, depth), ray(h, p, Line::File, r, c, f, 0, depth), sq);
    if f1.contains(sq) {
        ray_reaches_on_both(g, h, p, Line::File, r, c, -f, 0, depth, sq, corner, blocked);
    }
    if f2.contains(sq) {
        ray_reaches_on_both(g, h, p, Line::File, r, c, f, 0, depth, sq, corner, blocked);
    }
    let r1 = ray(g, p, Line::Rank, r, c, 0, -1, depth);
    let r2 = ray(g, p, Line::Rank, r, c, 0, 1, depth);
    in_either(r1, r2, sq);
    in_either(ray(h, p, Line::Rank, r, c, 0, -1, depth), ray(h, p, Line::Rank, r, c, 0, 1, depth), sq);
    if r1.contains(sq) {
        ray_reaches_on_both(g, h, p, Line::Rank, r, c, 0, -1, depth, sq, corner, blocked);
    }
    if r2.contains(sq) {
        ray_reaches_on_both(g, h, p, Line::Rank, r, c, 0, 1, depth, sq, corner, blocked);
    }
}

/// A piece that attacks a square on `g` attacks it on `h` too, where `h`
/// is `g` but for a corner and a square that is occupied on `g`.
proof fn threat_holds_on_both(g: Grid, h: Grid, p: ChessPiece, sq: Square, corner: Square, blocked: Square)
    requires
        alike_but_for(g, h, corner, blocked),
        p.position.0 < 8 && p.position.1 < 8,
        sq != corner && sq != blocked,
        threats(g, p).contains(sq),
    ensures
        threats(h, p).contains(sq),
{
    lines_reach_on_both(g, h, p, 1, sq, corner, blocked);
    lines_reach_on_both(g, h, p, 8, sq, corner, blocked);
    match p.kind {
        PieceType::King => {
            in_either(diagonal_rays(g, p, 1) + file_rays(g, p, 1), rank_rays(g, p, 1), sq);
            in_either(diagonal_rays(g, p, 1), file_rays(g, p, 1), sq);
            in_either(diagonal_rays(h, p, 1) + file_rays(h, p, 1), rank_rays(h, p, 1), sq);
            in_either(diagonal_rays(h, p, 1), file_rays(h, p, 1), sq);
        },
        PieceType::Queen => {
            in_either(diagonal_rays(g, p, 8) + file_rays(g, p, 8), rank_rays(g, p, 8), sq);
            in_either(diagonal_rays(g, p, 8), file_rays(g, p, 8), sq);
            in_either(diagonal_rays(h, p, 8) + file_rays(h, p, 8), rank_rays(h, p, 8), sq);
            in_either(diagonal_rays(h, p, 8), file_rays(h, p, 8), sq);
        },
        PieceType::Rook => {
            in_either(file_rays(g, p, 8), rank_rays(g, p, 8), sq);
            in_either(file_rays(h, p, 8), rank_rays(h, p, 8), sq);
        },
        _ => {},
    }
}

/// After castling the king is not attacked on the square it has gone to.
pub proof fn castling_keeps_king_safe(b: BoardView, side: CastleType, color: PieceColor)
    requires
        grid_valid(b.grid),
        castle_ok(b, side, color),
    ensures
        !attacked_by(
            b.castled(side, color).grid,
            color.opposite(),
            (color.home_rank() as u8, king_castled_file(side) as u8),
        ),
{
    let g = b.grid;
    let rank = color.home_rank();
    let king = g[rank][4]->0;
    let king_to = (rank as u8, king_castled_file(side) as u8);
    let corner = (rank as u8, rook_home_file(side) as u8);
    let rook_to = (rank as u8, rook_castled_file(side) as u8);
    let castled = b.castled(side, color).grid;
    let tried = after_move(g, king, king_to);
    assert(path_square_free(g, king, rank, king_castled_file(side)));
    assert(alike_but_for(castled, tried, corner, rook_to)) by {
        assert forall|r: int, c: int|
            on_board(r, c) && (r != corner.0 || c != corner.1) && (r != rook_to.0 || c != rook_to.1) implies #[trigger] alike_on(
            castled,
            tried,
            r,
            c,
        ) by {}
    }
    if attacked_by(castled, color.opposite(), king_to) {
        let (r, c) = choose|r: int, c: int|
            on_board(r, c) && #[trigger] attacks_from(castled, color.opposite(), king_to, r, c);
        let p = castled[r][c]->0;
        threat_holds_on_both(castled, tried, p, king_to, corner, rook_to);
        assert(attacks_from(tried, color.opposite(), king_to, r, c));
        assert(king_attacked_on(tried, color, rank, king_castled_file(side)));
    }
}

} // verus!
