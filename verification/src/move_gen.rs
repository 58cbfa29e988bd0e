//! Candidate squares for a piece, found from how its kind moves and from
//! what stands in the way. Whether a move would leave the mover's own king
//! attacked is decided elsewhere.

use vstd::prelude::*;
use crate::board::{grid_of, Board, Grid, Squares};
use crate::piece::{on_board, ChessPiece, PieceColor, PieceType, Square};

verus! {

/// Up is the way a piece's own side advances; down is the way back.
#[derive(Clone, Copy, Debug, PartialEq, Eq, Structural)]
pub enum VerticalDirection {
    Up,
    Down,
}

/// Left is toward file 0, right toward file 7, for both sides.
#[derive(Clone, Copy, Debug, PartialEq, Eq, Structural)]
pub enum HorizontalDirection {
    Left,
    Right,
}

/// Why a move was refused.
#[derive(Clone, Copy, Debug, PartialEq, Eq, Structural)]
pub enum MoveError {
    /// No piece stands on the origin, or the destination is not among the
    /// piece's legal moves.
    IllegalMove,
    /// The piece on the origin has no legal move at all.
    NoAvailableMoves,
}

/// The line a ray runs along.
#[derive(Clone, Copy, Debug, PartialEq, Eq, Structural)]
pub enum Line {
    Diagonal,
    Rank,
    File,
}

/// The rank step of a vertical direction for a piece of `color`.
pub open spec fn row_step(color: PieceColor, v: VerticalDirection) -> int {
    match v {
        VerticalDirection::Up => color.forward(),
        VerticalDirection::Down => -color.forward(),
    }
}

/// The file step of a horizontal direction.
pub open spec fn col_step(h: HorizontalDirection) -> int {
    match h {
        HorizontalDirection::Left => -1,
        HorizontalDirection::Right => 1,
    }
}

/// Whether the ray of `piece` takes in the square of the piece that stops
/// it. An enemy's square is taken in, except by a pawn moving along its
/// file. A friend's square is not, except that a king scanning its rank
/// takes in the square of a friendly rook.
pub open spec fn takes_blocker(piece: ChessPiece, blocker: ChessPiece, line: Line) -> bool {
    if blocker.color != piece.color {
        !(line == Line::File && piece.kind == PieceType::Pawn)
    } else {
        line == Line::Rank && piece.kind == PieceType::King && blocker.kind == PieceType::Rook
    }
}

/// The squares that `piece` reaches from `(r, c)` in steps of `(dr, dc)`, at
/// most `depth` of them: every empty square up to the board's edge or the
/// first occupied square, and that square too where [`takes_blocker`] says
/// so.
pub open spec fn ray(
    g: Grid,
    piece: ChessPiece,
    line: Line,
    r: int,
    c: int,
    dr: int,
    dc: int,
    depth: nat,
) -> Seq<Square>
    decreases depth,
{
    if depth == 0 || !on_board(r + dr, c + dc) {
        Seq::empty()
    } else {
        let sq = ((r + dr) as u8, (c + dc) as u8);
        match g[r + dr][c + dc] {
            None => seq![sq] + ray(g, piece, line, r + dr, c + dc, dr, dc, (depth - 1) as nat),
            Some(blocker) => if takes_blocker(piece, blocker, line) {
                seq![sq]
            } else {
                Seq::empty()
            },
        }
    }
}

/// The ray of `piece` along a diagonal.
pub open spec fn diagonal_ray(
    g: Grid,
    piece: ChessPiece,
    depth: nat,
    v: VerticalDirection,
    h: HorizontalDirection,
) -> Seq<Square> {
    ray(
        g,
        piece,
        Line::Diagonal,
        piece.position.0 as int,
        piece.position.1 as int,
        row_step(piece.color, v),
        col_step(h),
        depth,
    )
}

/// The ray of `piece` along its rank.
pub open spec fn rank_ray(g: Grid, piece: ChessPiece, depth: nat, h: HorizontalDirection) -> Seq<Square> {
    ray(g, piece, Line::Rank, piece.position.0 as int, piece.position.1 as int, 0, col_step(h), depth)
}

/// The ray of `piece` along its file.
pub open spec fn file_ray(g: Grid, piece: ChessPiece, depth: nat, v: VerticalDirection) -> Seq<Square> {
    ray(
        g,
        piece,
        Line::File,
        piece.position.0 as int,
        piece.position.1 as int,
        row_step(piece.color, v),
        0,
        depth,
    )
}

/// The square `(r, c)` alone if it is on the board, nothing otherwise.
pub open spec fn if_on_board(r: int, c: int) -> Seq<Square> {
    if on_board(r, c) {
        seq![(r as u8, c as u8)]
    } else {
        Seq::empty()
    }
}

/// The squares a knight's jump away from `(r, c)` that are on the board, in
/// a fixed order. What stands on them plays no part.
pub open spec fn knight_jumps(r: int, c: int) -> Seq<Square> {
    if_on_board(r + 2, c + 1) + if_on_board(r + 2, c - 1) + if_on_board(r + 1, c + 2) + if_on_board(
        r - 1,
        c + 2,
    ) + if_on_board(r - 2, c + 1) + if_on_board(r - 2, c - 1) + if_on_board(r + 1, c - 2)
        + if_on_board(r - 1, c - 2)
}

/// The four diagonal rays of `piece`, each of at most `depth` squares.
pub open spec fn diagonal_rays(g: Grid, piece: ChessPiece, depth: nat) -> Seq<Square> {
    diagonal_ray(g, piece, depth, VerticalDirection::Up, HorizontalDirection::Left) + diagonal_ray(
        g,
        piece,
        depth,
        VerticalDirection::Up,
        HorizontalDirection::Right,
    ) + diagonal_ray(g, piece, depth, VerticalDirection::Down, HorizontalDirection::Left)
        + diagonal_ray(g, piece, depth, VerticalDirection::Down, HorizontalDirection::Right)
}

/// The two file rays of `piece`, down first.
pub open spec fn file_rays(g: Grid, piece: ChessPiece, depth: nat) -> Seq<Square> {
    file_ray(g, piece, depth, VerticalDirection::Down) + file_ray(g, piece, depth, VerticalDirection::Up)
}

/// The two rank rays of `piece`, left first.
pub open spec fn rank_rays(g: Grid, piece: ChessPiece, depth: nat) -> Seq<Square> {
    rank_ray(g, piece, depth, HorizontalDirection::Left) + rank_ray(
        g,
        piece,
        depth,
        HorizontalDirection::Right,
    )
}

/// How far a pawn may advance: two squares on its first move, one after.
pub open spec fn pawn_reach(piece: ChessPiece) -> nat {
    if piece.times_moved == 0 {
        2
    } else {
        1
    }
}

/// The candidate squares of `piece`, in order, before any test of legality.
///
/// Bishop, rook and queen slide along their lines. The knight jumps. The
/// king steps once along diagonals and file, and scans its whole rank, which
/// brings up a friendly rook as a castling candidate. The pawn advances
/// along its file onto empty squares and looks one step along both forward
/// diagonals.
pub open spec fn pseudo_moves(g: Grid, piece: ChessPiece) -> Seq<Square> {
    match piece.kind {
        PieceType::Bishop => diagonal_rays(g, piece, 8),
        PieceType::King => diagonal_rays(g, piece, 1) + file_rays(g, piece, 1) + rank_rays(g, piece, 8),
        PieceType::Knight => knight_jumps(piece.position.0 as int, piece.position.1 as int),
        PieceType::Queen => diagonal_rays(g, piece, 8) + file_rays(g, piece, 8) + rank_rays(g, piece, 8),
        PieceType::Rook => file_rays(g, piece, 8) + rank_rays(g, piece, 8),
        PieceType::Pawn => file_ray(g, piece, pawn_reach(piece), VerticalDirection::Up) + diagonal_ray(
            g,
            piece,
            1,
            VerticalDirection::Up,
            HorizontalDirection::Left,
        ) + diagonal_ray(g, piece, 1, VerticalDirection::Up, HorizontalDirection::Right),
    }
}

/// The two squares diagonally next to `(r, c)` on rank `r + step`, those of
/// them that are on the board.
pub open spec fn diagonal_neighbours(r: int, c: int, step: int) -> Seq<Square> {
    if 0 <= r + step < 8 {
        if_on_board(r + step, c - 1) + if_on_board(r + step, c + 1)
    } else {
        Seq::empty()
    }
}

/// The rank step by which a pawn's attacks are shown to a viewer on side
/// `pov`. It follows the viewer, not the pawn's colour.
pub open spec fn shown_step(pov: PieceColor) -> int {
    match pov {
        PieceColor::White => 1,
        PieceColor::Black => -1,
    }
}

/// The squares that `piece` is shown to attack: for a pawn its two diagonal
/// neighbours toward [`shown_step`], for any other piece its candidate
/// squares.
pub open spec fn shown_attacks(g: Grid, pov: PieceColor, piece: ChessPiece) -> Seq<Square> {
    if piece.kind == PieceType::Pawn {
        diagonal_neighbours(piece.position.0 as int, piece.position.1 as int, shown_step(pov))
    } else {
        pseudo_moves(g, piece)
    }
}

/// The coordinate reached from `start` after `k` steps of `step`.
pub open spec fn along(start: int, step: int, k: int) -> int {
    start + k * step
}

/// Whether the first `k - 1` squares along the line from `(r, c)` in steps
/// of `(dr, dc)` are on the board and empty.
pub open spec fn clear_before(g: Grid, r: int, c: int, dr: int, dc: int, k: int) -> bool {
    forall|j: int|
        1 <= j < k ==> on_board(#[trigger] along(r, dr, j), along(c, dc, j)) && g[along(r, dr, j)][along(
            c,
            dc,
            j,
        )] is None
}

proof fn along_next(start: int, step: int, k: int)
    ensures
        along(start + step, step, k) == along(start, step, k + 1),
        along(start, step, 1) == start + step,
{
    assert(start + step + k * step == start + (k + 1) * step) by (nonlinear_arith);
}

/// What a ray is, said directly: its `i`-th square is the square `i + 1`
/// steps along the line; every square before it on the line is empty; the
/// square itself is empty, or holds a piece that the ray takes in and is
/// then the ray's last.
pub proof fn ray_is_the_clear_line(
    g: Grid,
    piece: ChessPiece,
    line: Line,
    r: int,
    c: int,
    dr: int,
    dc: int,
    depth: nat,
    i: int,
)
    requires
        0 <= i < ray(g, piece, line, r, c, dr, dc, depth).len(),
    ensures
        ({
            let cast = ray(g, piece, line, r, c, dr, dc, depth);
            let sr = along(r, dr, i + 1);
            let sc = along(c, dc, i + 1);
            &&& i < depth
            &&& on_board(sr, sc)
            &&& cast[i] == (sr as u8, sc as u8)
            &&& clear_before(g, r, c, dr, dc, i + 1)
            &&& g[sr][sc] matches Some(blocker) ==> takes_blocker(piece, blocker, line) && i == cast.len()
                - 1
        }),
    decreases depth,
{
    let nr = r + dr;
    let nc = c + dc;
    along_next(r, dr, 0);
    along_next(c, dc, 0);
    if i > 0 {
        ray_is_the_clear_line(g, piece, line, nr, nc, dr, dc, (depth - 1) as nat, i - 1);
        along_next(r, dr, i);
        along_next(c, dc, i);
        assert forall|j: int| 1 <= j < i + 1 implies on_board(#[trigger] along(r, dr, j), along(c, dc, j))
            && g[along(r, dr, j)][along(c, dc, j)] is None by {
            if j > 1 {
                along_next(r, dr, j - 1);
                along_next(c, dc, j - 1);
            }
        }
    }
}

/// Where a ray ends: at its full length, at the edge of the board, on a
/// piece that it takes in, or before a piece that it does not take in.
pub proof fn ray_ends_where_it_must(
    g: Grid,
    piece: ChessPiece,
    line: Line,
    r: int,
    c: int,
    dr: int,
    dc: int,
    depth: nat,
)
    ensures
        ({
            let n = ray(g, piece, line, r, c, dr, dc, depth).len() as int;
            let last_r = along(r, dr, n);
            let last_c = along(c, dc, n);
            let next_r = along(r, dr, n + 1);
            let next_c = along(c, dc, n + 1);
            &&& n <= depth
            &&& n < depth ==> {
                ||| n > 0 && g[last_r][last_c] is Some
                ||| !on_board(next_r, next_c)
                ||| g[next_r][next_c] matches Some(blocker) && !takes_blocker(piece, blocker, line)
            }
        }),
    decreases depth,
{
    let nr = r + dr;
    let nc = c + dc;
    along_next(r, dr, 0);
    along_next(c, dc, 0);
    if depth > 0 && on_board(nr, nc) && g[nr][nc] is None {
        let rest = ray(g, piece, line, nr, nc, dr, dc, (depth - 1) as nat);
        ray_ends_where_it_must(g, piece, line, nr, nc, dr, dc, (depth - 1) as nat);
        let n = rest.len() as int;
        along_next(r, dr, n);
        along_next(c, dc, n);
        along_next(r, dr, n + 1);
        along_next(c, dc, n + 1);
    }
}

/// A square is in two lists joined end to end exactly when it is in one
/// of them.
pub proof fn in_either(a: Seq<Square>, b: Seq<Square>, sq: Square)
    ensures
        (a + b).contains(sq) == (a.contains(sq) || b.contains(sq)),
{
    if (a + b).contains(sq) {
        let i = choose|i: int| 0 <= i < (a + b).len() && (a + b)[i] == sq;
    }
    if a.contains(sq) {
        let i = choose|i: int| 0 <= i < a.len() && a[i] == sq;
        assert((a + b)[i] == sq);
    }
    if b.contains(sq) {
        let i = choose|i: int| 0 <= i < b.len() && b[i] == sq;
        assert((a + b)[a.len() + i] == sq);
    }
}

fn vertical_step(color: PieceColor, v: VerticalDirection) -> (step: i16)
    ensures
        step == row_step(color, v),
{
    match (v, color) {
        (VerticalDirection::Up, PieceColor::White) => -1,
        (VerticalDirection::Up, PieceColor::Black) => 1,
        (VerticalDirection::Down, PieceColor::White) => 1,
        (VerticalDirection::Down, PieceColor::Black) => -1,
    }
}

fn horizontal_step(h: HorizontalDirection) -> (step: i16)
    ensures
        step == col_step(h),
{
    match h {
        HorizontalDirection::Left => -1,
        HorizontalDirection::Right => 1,
    }
}

fn blocker_taken(piece: &ChessPiece, blocker: &ChessPiece, line: Line) -> (taken: bool)
    ensures
        taken == takes_blocker(*piece, *blocker, line),
{
    if blocker.color != piece.color {
        !(line == Line::File && piece.kind == PieceType::Pawn)
    } else {
        line == Line::Rank && piece.kind == PieceType::King && blocker.kind == PieceType::Rook
    }
}

/// Appends to `out` the ray of `piece` from its own square.
pub(crate) fn push_ray(
    squares: &Squares,
    piece: &ChessPiece,
    line: Line,
    dr: i16,
    dc: i16,
    depth: u8,
    out: &mut Vec<Square>,
)
    requires
        -1 <= dr <= 1,
        -1 <= dc <= 1,
    ensures
        final(out)@ == old(out)@ + ray(
            grid_of(*squares),
            *piece,
            line,
            piece.position.0 as int,
            piece.position.1 as int,
            dr as int,
            dc as int,
            depth as nat,
        ),
{
    let ghost g = grid_of(*squares);
    let ghost whole = ray(
        g,
        *piece,
        line,
        piece.position.0 as int,
        piece.position.1 as int,
        dr as int,
        dc as int,
        depth as nat,
    );
    let mut r: i16 = piece.position.0 as i16;
    let mut c: i16 = piece.position.1 as i16;
    let mut left: u8 = depth;
    while left > 0
        invariant_except_break
            old(out)@ + whole == out@ + ray(g, *piece, line, r as int, c as int, dr as int, dc as int, left as nat),
        invariant
            g == grid_of(*squares),
            -1 <= dr <= 1,
            -1 <= dc <= 1,
            0 <= r < 256,
            0 <= c < 256,
        ensures
            out@ == old(out)@ + whole,
        decreases left,
    {
        let nr = r + dr;
        let nc = c + dc;
        if nr < 0 || nr >= 8 || nc < 0 || nc >= 8 {
            break;
        }
        let sq: Square = (nr as u8, nc as u8);
        match squares[nr as usize][nc as usize] {
            Some(blocker) => {
                if blocker_taken(piece, &blocker, line) {
                    out.push(sq);
                }
                break;
            },
            None => {
                out.push(sq);
            },
        }
        r = nr;
        c = nc;
        left -= 1;
    }
}

fn push_if_on_board(r: i16, c: i16, out: &mut Vec<Square>)
    requires
        -2 <= r < 258,
        -2 <= c < 258,
    ensures
        final(out)@ == old(out)@ + if_on_board(r as int, c as int),
{
    if 0 <= r && r < 8 && 0 <= c && c < 8 {
        out.push((r as u8, c as u8));
    }
}

/// Appends to `out` the knight's jumps from the square of `piece`.
pub(crate) fn push_knight_jumps(piece: &ChessPiece, out: &mut Vec<Square>)
    ensures
        final(out)@ == old(out)@ + knight_jumps(piece.position.0 as int, piece.position.1 as int),
{
    let r: i16 = piece.position.0 as i16;
    let c: i16 = piece.position.1 as i16;
    push_if_on_board(r + 2, c + 1, out);
    push_if_on_board(r + 2, c - 1, out);
    push_if_on_board(r + 1, c + 2, out);
    push_if_on_board(r - 1, c + 2, out);
    push_if_on_board(r - 2, c + 1, out);
    push_if_on_board(r - 2, c - 1, out);
    push_if_on_board(r + 1, c - 2, out);
    push_if_on_board(r - 1, c - 2, out);
}

pub(crate) fn push_diagonal_rays(squares: &Squares, piece: &ChessPiece, depth: u8, out: &mut Vec<Square>)
    ensures
        final(out)@ == old(out)@ + diagonal_rays(grid_of(*squares), *piece, depth as nat),
{
    let up = vertical_step(piece.color, VerticalDirection::Up);
    let down = vertical_step(piece.color, VerticalDirection::Down);
    push_ray(squares, piece, Line::Diagonal, up, -1, depth, out);
    push_ray(squares, piece, Line::Diagonal, up, 1, depth, out);
    push_ray(squares, piece, Line::Diagonal, down, -1, depth, out);
    push_ray(squares, piece, Line::Diagonal, down, 1, depth, out);
}

pub(crate) fn push_file_rays(squares: &Squares, piece: &ChessPiece, depth: u8, out: &mut Vec<Square>)
    ensures
        final(out)@ == old(out)@ + file_rays(grid_of(*squares), *piece, depth as nat),
{
    push_ray(squares, piece, Line::File, vertical_step(piece.color, VerticalDirection::Down), 0, depth, out);
    push_ray(squares, piece, Line::File, vertical_step(piece.color, VerticalDirection::Up), 0, depth, out);
}

pub(crate) fn push_rank_rays(squares: &Squares, piece: &ChessPiece, depth: u8, out: &mut Vec<Square>)
    ensures
        final(out)@ == old(out)@ + rank_rays(grid_of(*squares), *piece, depth as nat),
{
    push_ray(squares, piece, Line::Rank, 0, -1, depth, out);
    push_ray(squares, piece, Line::Rank, 0, 1, depth, out);
}

/// The candidate squares of `piece` on `squares`.
pub(crate) fn candidates(squares: &Squares, piece: &ChessPiece) -> (moves: Vec<Square>)
    ensures
        moves@ == pseudo_moves(grid_of(*squares), *piece),
{
    let mut moves: Vec<Square> = Vec::new();
    match piece.kind {
        PieceType::Bishop => {
            push_diagonal_rays(squares, piece, 8, &mut moves);
        },
        PieceType::King => {
            push_diagonal_rays(squares, piece, 1, &mut moves);
            push_file_rays(squares, piece, 1, &mut moves);
            push_rank_rays(squares, piece, 8, &mut moves);
        },
        PieceType::Knight => {
            push_knight_jumps(piece, &mut moves);
        },
        PieceType::Queen => {
            push_diagonal_rays(squares, piece, 8, &mut moves);
            push_file_rays(squares, piece, 8, &mut moves);
            push_rank_rays(squares, piece, 8, &mut moves);
        },
        PieceType::Rook => {
            push_file_rays(squares, piece, 8, &mut moves);
            push_rank_rays(squares, piece, 8, &mut moves);
        },
        PieceType::Pawn => {
            let reach: u8 = if piece.times_moved == 0 { 2 } else { 1 };
            let up = vertical_step(piece.color, VerticalDirection::Up);
            push_ray(squares, piece, Line::File, up, 0, reach, &mut moves);
            push_ray(squares, piece, Line::Diagonal, up, -1, 1, &mut moves);
            push_ray(squares, piece, Line::Diagonal, up, 1, 1, &mut moves);
        },
    }
    moves
}

/// Appends to `out` the diagonal neighbours of `(r, c)` on rank `r + step`.
pub(crate) fn push_diagonal_neighbours(r: u8, c: u8, step: i16, out: &mut Vec<Square>)
    requires
        -1 <= step <= 1,
    ensures
        final(out)@ == old(out)@ + diagonal_neighbours(r as int, c as int, step as int),
{
    let rank: i16 = r as i16 + step;
    if 0 <= rank && rank < 8 {
        push_if_on_board(rank, c as i16 - 1, out);
        push_if_on_board(rank, c as i16 + 1, out);
    }
}

impl Board {
    /// The ray of `piece` along the diagonal `dir`, at most `depth` squares
    /// long.
    pub fn get_diagonal_moves(
        &self,
        piece: &ChessPiece,
        depth: u8,
        dir: (VerticalDirection, HorizontalDirection),
    ) -> (moves: Vec<Square>)
        ensures
            moves@ == diagonal_ray(self@.grid, *piece, depth as nat, dir.0, dir.1),
    {
        let mut moves: Vec<Square> = Vec::new();
        push_ray(
            &self.squares,
            piece,
            Line::Diagonal,
            vertical_step(piece.color, dir.0),
            horizontal_step(dir.1),
            depth,
            &mut moves,
        );
        moves
    }

    /// The ray of `piece` along its rank toward `h`, at most `depth` squares
    /// long. A king's ray takes in a friendly rook that stops it.
    pub fn get_rank_moves(&self, piece: &ChessPiece, depth: u8, h: HorizontalDirection) -> (moves: Vec<
        Square,
    >)
        ensures
            moves@ == rank_ray(self@.grid, *piece, depth as nat, h),
    {
        let mut moves: Vec<Square> = Vec::new();
        push_ray(&self.squares, piece, Line::Rank, 0, horizontal_step(h), depth, &mut moves);
        moves
    }

    /// The ray of `piece` along its file toward `v`, at most `depth` squares
    /// long. A pawn's ray holds empty squares only.
    pub fn get_file_moves(&self, piece: &ChessPiece, depth: u8, v: VerticalDirection) -> (moves: Vec<
        Square,
    >)
        ensures
            moves@ == file_ray(self@.grid, *piece, depth as nat, v),
    {
        let mut moves: Vec<Square> = Vec::new();
        push_ray(&self.squares, piece, Line::File, vertical_step(piece.color, v), 0, depth, &mut moves);
        moves
    }

    /// The squares a knight's jump away from `piece` that are on the board.
    pub fn get_knight_moves(&self, piece: &ChessPiece) -> (moves: Vec<Square>)
        ensures
            moves@ == knight_jumps(piece.position.0 as int, piece.position.1 as int),
    {
        let mut moves: Vec<Square> = Vec::new();
        push_knight_jumps(piece, &mut moves);
        moves
    }

    /// The candidate squares of `piece`, before any test of legality.
    pub fn get_all_moves(&self, piece: &ChessPiece) -> (moves: Vec<Square>)
        ensures
            moves@ == pseudo_moves(self@.grid, *piece),
    {
        candidates(&self.squares, piece)
    }

    /// The squares that `piece` is shown to attack. For a pawn the direction
    /// follows the point of view; this list is for display and decides
    /// nothing about legality.
    pub fn get_attack_squares(&self, piece: &ChessPiece) -> (attacks: Vec<Square>)
        ensures
            attacks@ == shown_attacks(self@.grid, self@.state.pov, *piece),
    {
        match piece.kind {
            PieceType::Pawn => {
                let mut attacks: Vec<Square> = Vec::new();
                let step: i16 = match self.state.pov {
                    PieceColor::White => 1,
                    PieceColor::Black => -1,
                };
                push_diagonal_neighbours(piece.position.0, piece.position.1, step, &mut attacks);
                attacks
            },
            _ => candidates(&self.squares, piece),
        }
    }
}

} // verus!
