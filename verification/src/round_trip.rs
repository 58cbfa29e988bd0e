//! Writing a position and reading the text back gives the position again,
//! as far as the notation holds it; and so a text that was written by
//! [`Board::to_string`] is written again from what was read.

use vstd::prelude::*;
use crate::board::{empty_grid, grid_put, grid_shape, BoardView, Grid, StateView};
use crate::fen::{
    all_digits,
    castling_text,
    decimal,
    decimal_value,
    digit_char,
    en_passant_text,
    fen_text,
    fields,
    first_foreign,
    flushed,
    is_digit,
    is_space,
    letter_of_piece,
    parse_fen,
    piece_of_letter,
    placement_char,
    placement_scan,
    rank_scan,
    rank_text,
    ranks_text,
    read_placement,
    read_side,
    read_square,
    scan_push,
    side_text,
    words_scan,
    FenError,
    Placement,
    Words,
};
use crate::piece::{square_on_board, ChessPiece, PieceColor, Square};

verus! {

/// What the notation keeps of a square: the kind and colour of the piece
/// on it. A piece that is read back is unmoved and records its square.
pub open spec fn cell_as_read(cell: Option<ChessPiece>, r: int, c: int) -> Option<ChessPiece> {
    match cell {
        Some(p) => Some(
            ChessPiece { kind: p.kind, color: p.color, position: (r as u8, c as u8), times_moved: 0 },
        ),
        None => None,
    }
}

/// The grid as read back up to, and without, square `(r, n)`; the squares
/// from there on are empty.
pub open spec fn grid_as_read_to(g: Grid, r: int, n: int) -> Grid {
    Seq::new(
        8,
        |i: int|
            Seq::new(
                8,
                |j: int|
                    if i < r || (i == r && j < n) {
                        cell_as_read(g[i][j], i, j)
                    } else {
                        None
                    },
            ),
    )
}

/// The grid as read back from its notation.
pub open spec fn grid_as_read(g: Grid) -> Grid {
    Seq::new(8, |i: int| Seq::new(8, |j: int| cell_as_read(g[i][j], i, j)))
}

impl BoardView {
    /// What the notation keeps of a position: pieces by kind and colour,
    /// the side to move, the castling rights, an en-passant target that is
    /// on the board, and the two counters.
    pub open spec fn as_read(self) -> BoardView {
        BoardView {
            grid: grid_as_read(self.grid),
            en_passant_target: match self.en_passant_target {
                Some(sq) => if square_on_board(sq) {
                    Some(sq)
                } else {
                    None
                },
                None => None,
            },
            state: StateView::fresh(),
            ..self
        }
    }
}

/// Whether no character of `s` is white space.
pub open spec fn spaceless(s: Seq<char>) -> bool {
    forall|i: int| 0 <= i < s.len() ==> !is_space(#[trigger] s[i])
}

/// Whether every character of `s` may stand in a placement field.
pub open spec fn all_placement(s: Seq<char>) -> bool {
    forall|i: int| 0 <= i < s.len() ==> placement_char(#[trigger] s[i])
}

proof fn words_append(s: Seq<char>, w: Seq<char>)
    requires
        spaceless(w),
    ensures
        words_scan(s + w) == (Words { done: words_scan(s).done, word: words_scan(s).word + w }),
    decreases w.len(),
{
    if w.len() > 0 {
        let head = w.drop_last();
        assert(spaceless(head)) by {
            assert forall|i: int| 0 <= i < head.len() implies !is_space(#[trigger] head[i]) by {}
        }
        words_append(s, head);
        assert(s + w =~= (s + head).push(w.last()));
        scan_push(s + head, w.last());
        assert((words_scan(s).word + head).push(w.last()) =~= words_scan(s).word + w);
    }
}

/// A field and the space after it add one word to those read before.
proof fn words_field(s: Seq<char>, w: Seq<char>)
    requires
        spaceless(w),
        w.len() > 0,
        words_scan(s).word.len() == 0,
    ensures
        words_scan(s + w.push(' ')) == (Words { done: words_scan(s).done.push(w), word: Seq::empty() }),
{
    words_append(s, w);
    scan_push(s + w, ' ');
}

/// The fields of six words, one space between them, are the six words.
pub proof fn fields_of_six(
    a: Seq<char>,
    b: Seq<char>,
    c: Seq<char>,
    d: Seq<char>,
    e: Seq<char>,
    f: Seq<char>,
)
    requires
        spaceless(a) && a.len() > 0,
        spaceless(b) && b.len() > 0,
        spaceless(c) && c.len() > 0,
        spaceless(d) && d.len() > 0,
        spaceless(e) && e.len() > 0,
        spaceless(f) && f.len() > 0,
    ensures
        fields(a.push(' ') + b.push(' ') + c.push(' ') + d.push(' ') + e.push(' ') + f) == seq![
            a,
            b,
            c,
            d,
            e,
            f,
        ],
{
    let none = Seq::<char>::empty();
    let s1 = a.push(' ');
    let s2 = s1 + b.push(' ');
    let s3 = s2 + c.push(' ');
    let s4 = s3 + d.push(' ');
    let s5 = s4 + e.push(' ');
    words_field(none, a);
    words_field(s1, b);
    words_field(s2, c);
    words_field(s3, d);
    words_field(s4, e);
    words_append(s5, f);
}

/// The digits of a number are digits, and they write the number.
pub proof fn decimal_reads_back(n: nat)
    ensures
        decimal(n).len() > 0,
        all_digits(decimal(n)),
        spaceless(decimal(n)),
        decimal_value(decimal(n)) == n,
    decreases n,
{
    if n < 10 {
        let none = Seq::<char>::empty();
        scan_push(none, digit_char(n as int));
    } else {
        decimal_reads_back(n / 10);
        scan_push(decimal(n / 10), digit_char((n % 10) as int));
    }
    assert forall|i: int| 0 <= i < decimal(n).len() implies !is_space(#[trigger] decimal(n)[i]) by {}
}

/// The side-to-move field names the side it was written for.
pub proof fn side_reads_back(turn: PieceColor)
    ensures
        read_side(side_text(turn)) == turn,
        spaceless(side_text(turn)),
        side_text(turn).len() > 0,
{
    assert(seq!['b'][0] == 'b');
}

/// Each castling letter stands in the castling field exactly when its right
/// is held.
pub proof fn castling_reads_back(b: BoardView)
    ensures
        castling_text(b).contains('K') == b.white_small_castle,
        castling_text(b).contains('Q') == b.white_big_castle,
        castling_text(b).contains('k') == b.black_small_castle,
        castling_text(b).contains('q') == b.black_big_castle,
        spaceless(castling_text(b)),
        castling_text(b).len() > 0,
{
    let none = Seq::<char>::empty();
    let k1 = if b.white_small_castle { seq!['K'] } else { none };
    let q1 = if b.white_big_castle { seq!['Q'] } else { none };
    let k2 = if b.black_small_castle { seq!['k'] } else { none };
    let q2 = if b.black_big_castle { seq!['q'] } else { none };
    let held = k1 + q1 + k2 + q2;
    let text = castling_text(b);
    assert forall|i: int| 0 <= i < text.len() implies (#[trigger] text[i] == '-' && held.len() == 0) || (
    text[i] == 'K' && b.white_small_castle) || (text[i] == 'Q' && b.white_big_castle) || (text[i] == 'k'
        && b.black_small_castle) || (text[i] == 'q' && b.black_big_castle) by {}
    if b.white_small_castle {
        assert(text[0] == 'K');
    }
    if b.white_big_castle {
        assert(text[k1.len() as int] == 'Q');
    }
    if b.black_small_castle {
        assert(text[(k1.len() + q1.len()) as int] == 'k');
    }
    if b.black_big_castle {
        assert(text[(k1.len() + q1.len() + k2.len()) as int] == 'q');
    }
}

/// The en-passant field names its target, if the target is on the board.
pub proof fn en_passant_reads_back(target: Option<Square>)
    ensures
        read_square(en_passant_text(target)) == match target {
            Some(sq) => if square_on_board(sq) {
                Some(sq)
            } else {
                None
            },
            None => None,
        },
        spaceless(en_passant_text(target)),
        en_passant_text(target).len() > 0,
{
}

proof fn placement_has_no_foreign(s: Seq<char>)
    requires
        all_placement(s),
    ensures
        first_foreign(s) is None,
        spaceless(s),
    decreases s.len(),
{
    if s.len() > 0 {
        let head = s.drop_last();
        assert(all_placement(head)) by {
            assert forall|i: int| 0 <= i < head.len() implies placement_char(#[trigger] head[i]) by {}
        }
        placement_has_no_foreign(head);
    }
    assert forall|i: int| 0 <= i < s.len() implies !is_space(#[trigger] s[i]) by {}
}

proof fn all_placement_push(s: Seq<char>, c: char)
    requires
        all_placement(s),
        placement_char(c),
    ensures
        all_placement(s.push(c)),
{
}

proof fn all_placement_add(s: Seq<char>, t: Seq<char>)
    requires
        all_placement(s),
        all_placement(t),
    ensures
        all_placement(s + t),
{
}

/// Reading what was written of the first `n` squares of rank `r`, after a
/// text that was read up to the start of that rank.
proof fn rank_reads_back(g: Grid, r: int, prefix: Seq<char>, n: int)
    requires
        grid_shape(g),
        0 <= r < 8,
        0 <= n <= 8,
        placement_scan(prefix) == Some(Placement { grid: grid_as_read_to(g, r, 0), rank: r, file: 0 }),
    ensures
        ({
            let st = rank_scan(g[r].take(n));
            &&& 0 <= st.gap <= n
            &&& placement_scan(prefix + st.text) == Some(
                Placement { grid: grid_as_read_to(g, r, n), rank: r, file: n - st.gap },
            )
            &&& all_placement(st.text)
            &&& n > 0 && st.gap == 0 ==> st.text.len() > 0
        }),
    decreases n,
{
    if n > 0 {
        rank_reads_back(g, r, prefix, n - 1);
        let row = g[r].take(n);
        assert(row.drop_last() =~= g[r].take(n - 1));
        let st = rank_scan(g[r].take(n - 1));
        match g[r][n - 1] {
            None => {
                assert(grid_as_read_to(g, r, n) =~~= grid_as_read_to(g, r, n - 1));
            },
            Some(p) => {
                let letter = letter_of_piece(p.kind, p.color);
                let base = prefix + st.text;
                if st.gap > 0 {
                    scan_push(base, digit_char(st.gap));
                    all_placement_push(st.text, digit_char(st.gap));
                }
                scan_push(prefix + flushed(st), letter);
                all_placement_push(flushed(st), letter);
                let sq = (r as u8, (n - 1) as u8);
                assert(grid_put(grid_as_read_to(g, r, n - 1), sq, cell_as_read(Some(p), r, n - 1))
                    =~~= grid_as_read_to(g, r, n));
            },
        }
    }
}

/// Reading what was written of the whole of rank `r`.
proof fn whole_rank_reads_back(g: Grid, r: int, prefix: Seq<char>)
    requires
        grid_shape(g),
        0 <= r < 8,
        placement_scan(prefix) == Some(Placement { grid: grid_as_read_to(g, r, 0), rank: r, file: 0 }),
    ensures
        placement_scan(prefix + rank_text(g[r])) == Some(
            Placement { grid: grid_as_read_to(g, r, 8), rank: r, file: 8 },
        ),
        all_placement(rank_text(g[r])),
        rank_text(g[r]).len() > 0,
{
    rank_reads_back(g, r, prefix, 8);
    assert(g[r].take(8) =~= g[r]);
    let st = rank_scan(g[r]);
    if st.gap > 0 {
        scan_push(prefix + st.text, digit_char(st.gap));
        all_placement_push(st.text, digit_char(st.gap));
    }
}

/// Reading what was written of the first `n` ranks.
proof fn ranks_read_back(g: Grid, n: nat)
    requires
        grid_shape(g),
        1 <= n <= 8,
    ensures
        placement_scan(ranks_text(g, n)) == Some(
            Placement { grid: grid_as_read_to(g, n - 1, 8), rank: n - 1, file: 8 },
        ),
        all_placement(ranks_text(g, n)),
        ranks_text(g, n).len() > 0,
    decreases n,
{
    if n == 1 {
        let none = Seq::<char>::empty();
        assert(empty_grid() =~~= grid_as_read_to(g, 0, 0));
        whole_rank_reads_back(g, 0, none);
    } else {
        ranks_read_back(g, (n - 1) as nat);
        let before = ranks_text(g, (n - 1) as nat);
        scan_push(before, '/');
        assert(grid_as_read_to(g, n - 2, 8) =~~= grid_as_read_to(g, n - 1, 0));
        whole_rank_reads_back(g, n - 1, before.push('/'));
        all_placement_push(before, '/');
        all_placement_add(before.push('/'), rank_text(g[n - 1]));
    }
}

/// The placement field of a grid reads back as the grid, piece for piece.
pub proof fn placement_reads_back(g: Grid)
    requires
        grid_shape(g),
    ensures
        read_placement(ranks_text(g, 8)) == Some(grid_as_read(g)),
        first_foreign(ranks_text(g, 8)) is None,
        spaceless(ranks_text(g, 8)),
        ranks_text(g, 8).len() > 0,
{
    ranks_read_back(g, 8);
    placement_has_no_foreign(ranks_text(g, 8));
    assert(grid_as_read_to(g, 7, 8) =~~= grid_as_read(g));
}

proof fn rank_text_keeps(row: Seq<Option<ChessPiece>>, other: Seq<Option<ChessPiece>>, r: int)
    requires
        row.len() == other.len(),
        forall|j: int| 0 <= j < row.len() ==> #[trigger] other[j] == cell_as_read(row[j], r, j),
    ensures
        rank_scan(other) == rank_scan(row),
    decreases row.len(),
{
    if row.len() > 0 {
        let a = row.drop_last();
        let b = other.drop_last();
        assert forall|j: int| 0 <= j < a.len() implies #[trigger] b[j] == cell_as_read(a[j], r, j) by {}
        rank_text_keeps(a, b, r);
    }
}

proof fn ranks_text_keeps(g: Grid, n: nat)
    requires
        grid_shape(g),
        n <= 8,
    ensures
        ranks_text(grid_as_read(g), n) == ranks_text(g, n),
    decreases n,
{
    if n > 0 {
        ranks_text_keeps(g, (n - 1) as nat);
        rank_text_keeps(g[n - 1], grid_as_read(g)[n - 1], n - 1);
    }
}

/// A position that was written reads back as what the notation keeps of
/// it, and that is written as the position was.
pub proof fn written_position_reads_back(b: BoardView)
    requires
        grid_shape(b.grid),
        b.halfmove_clock <= u32::MAX,
        b.fullmove_number <= u32::MAX,
    ensures
        parse_fen(fen_text(b)) == Ok::<BoardView, FenError>(b.as_read()),
        fen_text(b.as_read()) == fen_text(b),
{
    let placement = ranks_text(b.grid, 8);
    let side = side_text(b.turn);
    let castling = castling_text(b);
    let target = en_passant_text(b.en_passant_target);
    let half = decimal(b.halfmove_clock);
    let full = decimal(b.fullmove_number);
    placement_reads_back(b.grid);
    side_reads_back(b.turn);
    castling_reads_back(b);
    en_passant_reads_back(b.en_passant_target);
    decimal_reads_back(b.halfmove_clock);
    decimal_reads_back(b.fullmove_number);
    fields_of_six(placement, side, castling, target, half, full);
    ranks_text_keeps(b.grid, 8);
    en_passant_reads_back(b.as_read().en_passant_target);
}

/// Reading a text that was written for a position, and writing what was
/// read, gives the text again.
pub proof fn fen_round_trip(text: Seq<char>, b: BoardView)
    requires
        grid_shape(b.grid),
        b.halfmove_clock <= u32::MAX,
        b.fullmove_number <= u32::MAX,
        text == fen_text(b),
    ensures
        parse_fen(text) matches Ok(read) && fen_text(read) == text,
{
    written_position_reads_back(b);
}

} // verus!
