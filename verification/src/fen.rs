//! Forsyth-Edwards Notation: reading a position from text and writing it
//! back.
//!
//! A position is written as six fields parted by white space: the
//! placement of the pieces, rank by rank from rank 0, the ranks parted by
//! `/`; the side to move, `w` or `b`; the castling rights, some of `KQkq` or
//! `-`; the en-passant target, a square or `-`; the halfmove clock; and the
//! fullmove number.

use vstd::prelude::*;
use crate::board::{
    empty_grid,
    grid_of,
    grid_put,
    grid_put_valid,
    grid_valid,
    put_square,
    Board,
    BoardState,
    BoardView,
    Grid,
    Squares,
    StateView,
};
use crate::piece::{square_on_board, ChessPiece, PieceColor, PieceType, Square};

verus! {

/// The position at the start of a game, in notation.
pub const DEFAULT_FEN: &'static str = "rnbqkbnr/pppppppp/8/8/8/8/PPPPPPPP/RNBQKBNR w KQkq - 0 1";

/// Why a text is not the notation of a position.
#[derive(Clone, Copy, Debug, PartialEq, Eq)]
pub enum FenError {
    /// The placement field holds a character that is no digit, no piece
    /// letter and no `/`: the first such character.
    InvalidChar(char),
    /// The text does not have exactly six fields.
    FieldCount,
    /// The placement field does not describe eight ranks of eight squares.
    InvalidBoard,
    /// The halfmove clock or the fullmove number is no decimal number that
    /// fits in 32 bits.
    InvalidNumber,
}

/// Whether `c` is white space, as Unicode defines it.
pub open spec fn is_space(c: char) -> bool {
    let n = c as int;
    ||| 0x09 <= n <= 0x0d
    ||| n == 0x20
    ||| n == 0x85
    ||| n == 0xa0
    ||| n == 0x1680
    ||| 0x2000 <= n <= 0x200a
    ||| n == 0x2028
    ||| n == 0x2029
    ||| n == 0x202f
    ||| n == 0x205f
    ||| n == 0x3000
}

/// The words read so far from a text, and the word being read.
pub struct Words {
    pub done: Seq<Seq<char>>,
    pub word: Seq<char>,
}

/// Reading one more character: white space ends the word being read, any
/// other character joins it.
pub open spec fn words_step(st: Words, c: char) -> Words {
    if is_space(c) {
        if st.word.len() > 0 {
            Words { done: st.done.push(st.word), word: Seq::empty() }
        } else {
            st
        }
    } else {
        Words { done: st.done, word: st.word.push(c) }
    }
}

/// The words read from the whole of `s`, character by character.
pub open spec fn words_scan(s: Seq<char>) -> Words
    decreases s.len(),
{
    if s.len() == 0 {
        Words { done: Seq::empty(), word: Seq::empty() }
    } else {
        words_step(words_scan(s.drop_last()), s.last())
    }
}

/// The fields of a text: its runs of characters other than white space, in
/// order.
pub open spec fn fields(s: Seq<char>) -> Seq<Seq<char>> {
    let st = words_scan(s);
    if st.word.len() > 0 {
        st.done.push(st.word)
    } else {
        st.done
    }
}

/// Whether `c` is a decimal digit.
pub open spec fn is_digit(c: char) -> bool {
    '0' <= c && c <= '9'
}

/// The number that the digit `c` stands for.
pub open spec fn digit_value(c: char) -> int {
    c as int - '0' as int
}

/// The digit that stands for `d`.
pub open spec fn digit_char(d: int) -> char {
    ('0' as int + d) as char
}

/// The kind and colour that a piece letter stands for: upper case is White,
/// lower case is Black.
pub open spec fn piece_of_letter(c: char) -> Option<(PieceType, PieceColor)> {
    if c == 'r' {
        Some((PieceType::Rook, PieceColor::Black))
    } else if c == 'n' {
        Some((PieceType::Knight, PieceColor::Black))
    } else if c == 'b' {
        Some((PieceType::Bishop, PieceColor::Black))
    } else if c == 'k' {
        Some((PieceType::King, PieceColor::Black))
    } else if c == 'q' {
        Some((PieceType::Queen, PieceColor::Black))
    } else if c == 'p' {
        Some((PieceType::Pawn, PieceColor::Black))
    } else if c == 'R' {
        Some((PieceType::Rook, PieceColor::White))
    } else if c == 'N' {
        Some((PieceType::Knight, PieceColor::White))
    } else if c == 'B' {
        Some((PieceType::Bishop, PieceColor::White))
    } else if c == 'K' {
        Some((PieceType::King, PieceColor::White))
    } else if c == 'Q' {
        Some((PieceType::Queen, PieceColor::White))
    } else if c == 'P' {
        Some((PieceType::Pawn, PieceColor::White))
    } else {
        None
    }
}

/// The letter of a piece of the given kind and colour.
pub open spec fn letter_of_piece(kind: PieceType, color: PieceColor) -> char {
    match (kind, color) {
        (PieceType::King, PieceColor::White) => 'K',
        (PieceType::Queen, PieceColor::White) => 'Q',
        (PieceType::Rook, PieceColor::White) => 'R',
        (PieceType::Knight, PieceColor::White) => 'N',
        (PieceType::Bishop, PieceColor::White) => 'B',
        (PieceType::Pawn, PieceColor::White) => 'P',
        (PieceType::King, PieceColor::Black) => 'k',
        (PieceType::Queen, PieceColor::Black) => 'q',
        (PieceType::Rook, PieceColor::Black) => 'r',
        (PieceType::Knight, PieceColor::Black) => 'n',
        (PieceType::Bishop, PieceColor::Black) => 'b',
        (PieceType::Pawn, PieceColor::Black) => 'p',
    }
}

/// Whether `c` may stand in a placement field.
pub open spec fn placement_char(c: char) -> bool {
    c == '/' || is_digit(c) || piece_of_letter(c) is Some
}

/// The first character of `s` that may not stand in a placement field.
pub open spec fn first_foreign(s: Seq<char>) -> Option<char>
    decreases s.len(),
{
    if s.len() == 0 {
        None
    } else {
        match first_foreign(s.drop_last()) {
            Some(c) => Some(c),
            None => if placement_char(s.last()) {
                None
            } else {
                Some(s.last())
            },
        }
    }
}

/// How far a placement field has been read: the grid filled so far and the
/// square that comes next.
pub struct Placement {
    pub grid: Grid,
    pub rank: int,
    pub file: int,
}

/// Reading one more character of a placement field. A `/` ends a full rank
/// that is not the last; a digit skips that many squares of the rank; a
/// piece letter puts an unmoved piece on the next square of the rank.
/// Anything else, or a rank of more than eight squares, fails.
pub open spec fn placement_step(st: Placement, c: char) -> Option<Placement> {
    if c == '/' {
        if st.file == 8 && st.rank < 7 {
            Some(Placement { grid: st.grid, rank: st.rank + 1, file: 0 })
        } else {
            None
        }
    } else if is_digit(c) {
        if st.file + digit_value(c) <= 8 {
            Some(Placement { file: st.file + digit_value(c), ..st })
        } else {
            None
        }
    } else {
        match piece_of_letter(c) {
            Some((kind, color)) => if st.file < 8 {
                let sq = (st.rank as u8, st.file as u8);
                Some(
                    Placement {
                        grid: grid_put(
                            st.grid,
                            sq,
                            Some(ChessPiece { kind, color, position: sq, times_moved: 0 }),
                        ),
                        file: st.file + 1,
                        ..st
                    },
                )
            } else {
                None
            },
            None => None,
        }
    }
}

/// Reading the whole of a placement field, character by character, from
/// the empty grid.
pub open spec fn placement_scan(s: Seq<char>) -> Option<Placement>
    decreases s.len(),
{
    if s.len() == 0 {
        Some(Placement { grid: empty_grid(), rank: 0, file: 0 })
    } else {
        match placement_scan(s.drop_last()) {
            Some(st) => placement_step(st, s.last()),
            None => None,
        }
    }
}

/// The grid that a placement field describes, if it describes eight ranks
/// of eight squares.
pub open spec fn read_placement(s: Seq<char>) -> Option<Grid> {
    match placement_scan(s) {
        Some(st) => if st.rank == 7 && st.file == 8 {
            Some(st.grid)
        } else {
            None
        },
        None => None,
    }
}

/// Whether every character of `s` is a decimal digit.
pub open spec fn all_digits(s: Seq<char>) -> bool {
    forall|i: int| 0 <= i < s.len() ==> is_digit(#[trigger] s[i])
}

/// The number that the digits `s` write in base ten.
pub open spec fn decimal_value(s: Seq<char>) -> nat
    decreases s.len(),
{
    if s.len() == 0 {
        0
    } else {
        (decimal_value(s.drop_last()) * 10 + digit_value(s.last())) as nat
    }
}

/// The number that `s` writes: `s` is one or more decimal digits and the
/// number fits in 32 bits.
pub open spec fn read_number(s: Seq<char>) -> Option<nat> {
    if s.len() > 0 && all_digits(s) && decimal_value(s) <= u32::MAX {
        Some(decimal_value(s))
    } else {
        None
    }
}

/// The side that a side-to-move field names: `w` is White, anything else
/// is Black.
pub open spec fn read_side(s: Seq<char>) -> PieceColor {
    if s == seq!['w'] {
        PieceColor::White
    } else {
        PieceColor::Black
    }
}

/// The square that `s` names: a file letter from `a` to `h`, then a rank
/// digit from `1` to `8`. The digit `8` is rank 0.
pub open spec fn read_square(s: Seq<char>) -> Option<Square> {
    if s.len() == 2 && 'a' <= s[0] && s[0] <= 'h' && '1' <= s[1] && s[1] <= '8' {
        Some(((8 - digit_value(s[1])) as u8, (s[0] as int - 'a' as int) as u8))
    } else {
        None
    }
}

/// The position that a text describes, or why it describes none.
///
/// The text must have six fields. The placement field must hold placement
/// characters only and describe eight ranks of eight squares. The side to
/// move is White for `w` and Black otherwise. Each castling right is held
/// if its letter occurs in the castling field. The en-passant target is the
/// square that its field names, if it names one. The two counters must be
/// decimal numbers. Every piece is unmoved and the selection state is
/// fresh.
pub open spec fn parse_fen(s: Seq<char>) -> Result<BoardView, FenError> {
    let f = fields(s);
    if f.len() != 6 {
        Err(FenError::FieldCount)
    } else if first_foreign(f[0]) is Some {
        Err(FenError::InvalidChar(first_foreign(f[0])->0))
    } else if read_placement(f[0]) is None {
        Err(FenError::InvalidBoard)
    } else if read_number(f[4]) is None || read_number(f[5]) is None {
        Err(FenError::InvalidNumber)
    } else {
        Ok(
            BoardView {
                grid: read_placement(f[0])->0,
                turn: read_side(f[1]),
                white_big_castle: f[2].contains('Q'),
                black_big_castle: f[2].contains('q'),
                white_small_castle: f[2].contains('K'),
                black_small_castle: f[2].contains('k'),
                halfmove_clock: read_number(f[4])->0,
                fullmove_number: read_number(f[5])->0,
                en_passant_target: read_square(f[3]),
                state: StateView::fresh(),
            },
        )
    }
}

/// How far a rank has been written: the text so far and the number of
/// empty squares not yet written.
pub struct RankText {
    pub text: Seq<char>,
    pub gap: int,
}

/// The text of a rank once its pending empty squares are written as one
/// digit.
pub open spec fn flushed(st: RankText) -> Seq<char> {
    if st.gap > 0 {
        st.text.push(digit_char(st.gap))
    } else {
        st.text
    }
}

/// Writing one more square of a rank: an empty square is counted, a piece
/// is written as its letter after the count of empty squares before it.
pub open spec fn rank_step(st: RankText, cell: Option<ChessPiece>) -> RankText {
    match cell {
        None => RankText { gap: st.gap + 1, ..st },
        Some(p) => RankText { text: flushed(st).push(letter_of_piece(p.kind, p.color)), gap: 0 },
    }
}

/// Writing the squares of `row`, square by square.
pub open spec fn rank_scan(row: Seq<Option<ChessPiece>>) -> RankText
    decreases row.len(),
{
    if row.len() == 0 {
        RankText { text: Seq::empty(), gap: 0 }
    } else {
        rank_step(rank_scan(row.drop_last()), row.last())
    }
}

/// The notation of a rank: piece letters, and digits for runs of empty
/// squares.
pub open spec fn rank_text(row: Seq<Option<ChessPiece>>) -> Seq<char> {
    flushed(rank_scan(row))
}

/// The notation of the first `n` ranks of `g`, parted by `/`.
pub open spec fn ranks_text(g: Grid, n: nat) -> Seq<char>
    decreases n,
{
    if n == 0 {
        Seq::empty()
    } else if n == 1 {
        rank_text(g[0])
    } else {
        ranks_text(g, (n - 1) as nat).push('/') + rank_text(g[n - 1])
    }
}

/// The castling field: the letters of the rights held, in the order
/// `KQkq`, or `-` where none is held.
pub open spec fn castling_text(b: BoardView) -> Seq<char> {
    let held = (if b.white_small_castle {
        seq!['K']
    } else {
        Seq::empty()
    }) + (if b.white_big_castle {
        seq!['Q']
    } else {
        Seq::empty()
    }) + (if b.black_small_castle {
        seq!['k']
    } else {
        Seq::empty()
    }) + (if b.black_big_castle {
        seq!['q']
    } else {
        Seq::empty()
    });
    if held.len() == 0 {
        seq!['-']
    } else {
        held
    }
}

/// The name of a square of the board: its file letter, then its rank
/// digit.
pub open spec fn square_text(sq: Square) -> Seq<char> {
    seq![('a' as int + sq.1) as char, digit_char(8 - sq.0)]
}

/// The en-passant field: the target's name, or `-` where there is none on
/// the board.
pub open spec fn en_passant_text(target: Option<Square>) -> Seq<char> {
    match target {
        Some(sq) => if square_on_board(sq) {
            square_text(sq)
        } else {
            seq!['-']
        },
        None => seq!['-'],
    }
}

/// The side-to-move field.
pub open spec fn side_text(turn: PieceColor) -> Seq<char> {
    match turn {
        PieceColor::White => seq!['w'],
        PieceColor::Black => seq!['b'],
    }
}

/// The digits of `n` in base ten, without leading zeros.
pub open spec fn decimal(n: nat) -> Seq<char>
    decreases n,
{
    if n < 10 {
        seq![digit_char(n as int)]
    } else {
        decimal(n / 10).push(digit_char((n % 10) as int))
    }
}

/// The notation of a position: its six fields, one space between them.
pub open spec fn fen_text(b: BoardView) -> Seq<char> {
    ranks_text(b.grid, 8).push(' ') + side_text(b.turn).push(' ') + castling_text(b).push(' ')
        + en_passant_text(b.en_passant_target).push(' ') + decimal(b.halfmove_clock).push(' ') + decimal(
        b.fullmove_number,
    )
}

/// Each reading of a text goes character by character: what is read from
/// a text with one more character at its end is one step on from what is
/// read from the text.
pub proof fn scan_push(s: Seq<char>, c: char)
    ensures
        words_scan(s.push(c)) == words_step(words_scan(s), c),
        first_foreign(s.push(c)) == match first_foreign(s) {
            Some(bad) => Some(bad),
            None => if placement_char(c) {
                None
            } else {
                Some(c)
            },
        },
        placement_scan(s.push(c)) == match placement_scan(s) {
            Some(st) => placement_step(st, c),
            None => None,
        },
        decimal_value(s.push(c)) == (decimal_value(s) * 10 + digit_value(c)) as nat,
        all_digits(s.push(c)) == (all_digits(s) && is_digit(c)),
{
    assert(s.push(c).drop_last() =~= s);
    if all_digits(s.push(c)) {
        assert forall|i: int| 0 <= i < s.len() implies is_digit(#[trigger] s[i]) by {}
    }
}

proof fn subrange_push(s: Seq<char>, lo: int, hi: int)
    requires
        0 <= lo <= hi < s.len(),
    ensures
        s.subrange(lo, hi + 1) == s.subrange(lo, hi).push(s[hi]),
{
}

proof fn digits_grow(s: Seq<char>, n: int)
    requires
        all_digits(s),
        0 <= n <= s.len(),
    ensures
        decimal_value(s.take(n)) <= decimal_value(s),
    decreases s.len() - n,
{
    if n < s.len() {
        assert(s.take(n + 1) =~= s.take(n).push(s[n]));
        scan_push(s.take(n), s[n]);
        digits_grow(s, n + 1);
    } else {
        assert(s.take(n) =~= s);
    }
}

fn space(c: char) -> (yes: bool)
    ensures
        yes == is_space(c),
{
    let n = c as u32;
    (0x09 <= n && n <= 0x0d) || n == 0x20 || n == 0x85 || n == 0xa0 || n == 0x1680 || (0x2000 <= n && n
        <= 0x200a) || n == 0x2028 || n == 0x2029 || n == 0x202f || n == 0x205f || n == 0x3000
}

fn digit(c: char) -> (yes: bool)
    ensures
        yes == is_digit(c),
{
    c >= '0' && c <= '9'
}

fn value_of_digit(c: char) -> (d: u8)
    requires
        is_digit(c),
    ensures
        d == digit_value(c),
{
    (c as u32 - '0' as u32) as u8
}

fn piece_letter(c: char) -> (piece: Option<(PieceType, PieceColor)>)
    ensures
        piece == piece_of_letter(c),
{
    if c == 'r' {
        Some((PieceType::Rook, PieceColor::Black))
    } else if c == 'n' {
        Some((PieceType::Knight, PieceColor::Black))
    } else if c == 'b' {
        Some((PieceType::Bishop, PieceColor::Black))
    } else if c == 'k' {
        Some((PieceType::King, PieceColor::Black))
    } else if c == 'q' {
        Some((PieceType::Queen, PieceColor::Black))
    } else if c == 'p' {
        Some((PieceType::Pawn, PieceColor::Black))
    } else if c == 'R' {
        Some((PieceType::Rook, PieceColor::White))
    } else if c == 'N' {
        Some((PieceType::Knight, PieceColor::White))
    } else if c == 'B' {
        Some((PieceType::Bishop, PieceColor::White))
    } else if c == 'K' {
        Some((PieceType::King, PieceColor::White))
    } else if c == 'Q' {
        Some((PieceType::Queen, PieceColor::White))
    } else if c == 'P' {
        Some((PieceType::Pawn, PieceColor::White))
    } else {
        None
    }
}

/// The characters of `text`, in order.
pub(crate) fn chars_of(text: &str) -> (chars: Vec<char>)
    ensures
        chars@ == text@,
{
    let mut chars: Vec<char> = Vec::new();
    for ch in it: text.chars()
        invariant
            chars@ == it.seq().take(it.index() as int),
            it.seq() == text@,
    {
        chars.push(ch);
    }
    chars
}

/// Where each field of `chars` starts and ends.
pub(crate) fn split_fields(chars: &Vec<char>) -> (spans: Vec<(usize, usize)>)
    ensures
        spans@.len() == fields(chars@).len(),
        forall|k: int|
            0 <= k < spans@.len() ==> (#[trigger] spans@[k]).0 <= spans@[k].1 <= chars@.len()
                && chars@.subrange(spans@[k].0 as int, spans@[k].1 as int) == fields(chars@)[k],
{
    let ghost s = chars@;
    let mut spans: Vec<(usize, usize)> = Vec::new();
    let mut start: usize = 0;
    let mut i: usize = 0;
    while i < chars.len()
        invariant
            s == chars@,
            start <= i <= s.len(),
            spans@.len() == words_scan(s.take(i as int)).done.len(),
            forall|k: int|
                0 <= k < spans@.len() ==> (#[trigger] spans@[k]).0 <= spans@[k].1 <= i && s.subrange(
                    spans@[k].0 as int,
                    spans@[k].1 as int,
                ) == words_scan(s.take(i as int)).done[k],
            s.subrange(start as int, i as int) == words_scan(s.take(i as int)).word,
        decreases s.len() - i,
    {
        proof {
            assert(s.take(i + 1) =~= s.take(i as int).push(s[i as int]));
            scan_push(s.take(i as int), s[i as int]);
            subrange_push(s, start as int, i as int);
        }
        if space(chars[i]) {
            if start < i {
                spans.push((start, i));
            }
            start = i + 1;
        }
        i += 1;
    }
    assert(s.take(i as int) =~= s);
    if start < i {
        spans.push((start, i));
    }
    spans
}

/// The first character between `lo` and `hi` that may not stand in a
/// placement field.
fn find_foreign(chars: &Vec<char>, lo: usize, hi: usize) -> (bad: Option<char>)
    requires
        lo <= hi <= chars@.len(),
    ensures
        bad == first_foreign(chars@.subrange(lo as int, hi as int)),
{
    let ghost s = chars@;
    let mut i: usize = lo;
    while i < hi
        invariant
            s == chars@,
            lo <= i <= hi <= s.len(),
            first_foreign(s.subrange(lo as int, i as int)) is None,
        decreases hi - i,
    {
        proof {
            subrange_push(s, lo as int, i as int);
            scan_push(s.subrange(lo as int, i as int), s[i as int]);
        }
        let c = chars[i];
        if !(c == '/' || digit(c) || piece_letter(c).is_some()) {
            proof {
                foreign_stays(s.subrange(lo as int, hi as int), i + 1 - lo);
                assert(s.subrange(lo as int, hi as int).take(i + 1 - lo) =~= s.subrange(lo as int, i + 1));
            }
            return Some(c);
        }
        i += 1;
    }
    None
}

proof fn foreign_stays(s: Seq<char>, n: int)
    requires
        0 <= n <= s.len(),
        first_foreign(s.take(n)) is Some,
    ensures
        first_foreign(s) == first_foreign(s.take(n)),
    decreases s.len() - n,
{
    if n < s.len() {
        assert(s.take(n + 1) =~= s.take(n).push(s[n]));
        scan_push(s.take(n), s[n]);
        foreign_stays(s, n + 1);
    } else {
        assert(s.take(n) =~= s);
    }
}

proof fn placement_stays_failed(s: Seq<char>, n: int)
    requires
        0 <= n <= s.len(),
        placement_scan(s.take(n)) is None,
    ensures
        placement_scan(s) is None,
    decreases s.len() - n,
{
    if n < s.len() {
        assert(s.take(n + 1) =~= s.take(n).push(s[n]));
        scan_push(s.take(n), s[n]);
        placement_stays_failed(s, n + 1);
    } else {
        assert(s.take(n) =~= s);
    }
}

/// The squares that the placement field between `lo` and `hi` describes.
fn read_board(chars: &Vec<char>, lo: usize, hi: usize) -> (board: Option<Squares>)
    requires
        lo <= hi <= chars@.len(),
    ensures
        match read_placement(chars@.subrange(lo as int, hi as int)) {
            Some(grid) => board matches Some(squares) && grid_of(squares) == grid && grid_valid(grid),
            None => board is None,
        },
{
    let ghost s = chars@;
    let ghost field = s.subrange(lo as int, hi as int);
    let mut squares: Squares = [[None; 8]; 8];
    let mut rank: u8 = 0;
    let mut file: u8 = 0;
    let mut i: usize = lo;
    assert(grid_of(squares) =~~= empty_grid());
    while i < hi
        invariant
            s == chars@,
            field == s.subrange(lo as int, hi as int),
            lo <= i <= hi <= s.len(),
            rank <= 7,
            file <= 8,
            grid_valid(grid_of(squares)),
            placement_scan(s.subrange(lo as int, i as int)) == Some(
                Placement { grid: grid_of(squares), rank: rank as int, file: file as int },
            ),
        decreases hi - i,
    {
        proof {
            subrange_push(s, lo as int, i as int);
            scan_push(s.subrange(lo as int, i as int), s[i as int]);
            assert(field.take(i + 1 - lo) =~= s.subrange(lo as int, i + 1));
        }
        let c = chars[i];
        if c == '/' {
            if file == 8 && rank < 7 {
                rank += 1;
                file = 0;
            } else {
                proof {
                    placement_stays_failed(field, i + 1 - lo);
                }
                return None;
            }
        } else if digit(c) {
            let d = value_of_digit(c);
            if file + d <= 8 {
                file += d;
            } else {
                proof {
                    placement_stays_failed(field, i + 1 - lo);
                }
                return None;
            }
        } else {
            match piece_letter(c) {
                Some((kind, color)) => {
                    if file < 8 {
                        let piece = ChessPiece { kind, color, position: (rank, file), times_moved: 0 };
                        proof {
                            grid_put_valid(grid_of(squares), (rank, file), Some(piece));
                        }
                        put_square(&mut squares, (rank, file), Some(piece));
                        file += 1;
                    } else {
                        proof {
                            placement_stays_failed(field, i + 1 - lo);
                        }
                        return None;
                    }
                },
                None => {
                    proof {
                        placement_stays_failed(field, i + 1 - lo);
                    }
                    return None;
                },
            }
        }
        i += 1;
    }
    if rank == 7 && file == 8 {
        Some(squares)
    } else {
        None
    }
}

/// The number that the field between `lo` and `hi` writes.
fn read_u32(chars: &Vec<char>, lo: usize, hi: usize) -> (number: Option<u32>)
    requires
        lo <= hi <= chars@.len(),
    ensures
        match read_number(chars@.subrange(lo as int, hi as int)) {
            Some(n) => number == Some(n as u32),
            None => number is None,
        },
{
    let ghost s = chars@;
    let ghost field = s.subrange(lo as int, hi as int);
    if lo == hi {
        return None;
    }
    let mut value: u64 = 0;
    let mut i: usize = lo;
    while i < hi
        invariant
            s == chars@,
            field == s.subrange(lo as int, hi as int),
            lo <= i <= hi <= s.len(),
            all_digits(s.subrange(lo as int, i as int)),
            value == decimal_value(s.subrange(lo as int, i as int)),
            value <= u32::MAX,
        decreases hi - i,
    {
        proof {
            subrange_push(s, lo as int, i as int);
            scan_push(s.subrange(lo as int, i as int), s[i as int]);
            assert(field.take(i + 1 - lo) =~= s.subrange(lo as int, i + 1));
        }
        let c = chars[i];
        if !digit(c) {
            return None;
        }
        value = value * 10 + value_of_digit(c) as u64;
        if value > u32::MAX as u64 {
            proof {
                if all_digits(field) {
                    digits_grow(field, i + 1 - lo);
                }
            }
            return None;
        }
        i += 1;
    }
    Some(value as u32)
}

/// The characters between `lo` and `hi` as text.
pub(crate) fn text_between(chars: &Vec<char>, lo: usize, hi: usize) -> (text: String)
    requires
        lo <= hi <= chars@.len(),
    ensures
        text@ == chars@.subrange(lo as int, hi as int),
{
    let mut text = String::new();
    let mut i: usize = lo;
    while i < hi
        invariant
            lo <= i <= hi <= chars@.len(),
            text@ == chars@.subrange(lo as int, i as int),
        decreases hi - i,
    {
        proof {
            subrange_push(chars@, lo as int, i as int);
        }
        text.push(chars[i]);
        i += 1;
    }
    text
}

/// Whether `c` occurs between `lo` and `hi`.
fn field_has(chars: &Vec<char>, lo: usize, hi: usize, c: char) -> (found: bool)
    requires
        lo <= hi <= chars@.len(),
    ensures
        found == chars@.subrange(lo as int, hi as int).contains(c),
{
    let mut i: usize = lo;
    while i < hi
        invariant
            lo <= i <= hi <= chars@.len(),
            forall|k: int| lo <= k < i ==> chars@[k] != c,
        decreases hi - i,
    {
        if chars[i] == c {
            assert(chars@.subrange(lo as int, hi as int)[i - lo] == c);
            return true;
        }
        i += 1;
    }
    false
}

/// The square that the field between `lo` and `hi` names.
pub(crate) fn read_square_at(chars: &Vec<char>, lo: usize, hi: usize) -> (square: Option<Square>)
    requires
        lo <= hi <= chars@.len(),
    ensures
        square == read_square(chars@.subrange(lo as int, hi as int)),
{
    if hi - lo != 2 {
        return None;
    }
    let file = chars[lo];
    let rank = chars[lo + 1];
    if 'a' <= file && file <= 'h' && '1' <= rank && rank <= '8' {
        Some((8 - value_of_digit(rank), (file as u32 - 'a' as u32) as u8))
    } else {
        None
    }
}

/// Reads a position from its notation.
pub fn fen_parser(fen: &String) -> (parsed: Result<Board, FenError>)
    ensures
        match parse_fen(fen@) {
            Ok(position) => parsed matches Ok(board) && board@ == position && board.wf(),
            Err(why) => parsed matches Err(e) && e == why,
        },
{
    let chars = chars_of(fen.as_str());
    let spans = split_fields(&chars);
    if spans.len() != 6 {
        return Err(FenError::FieldCount);
    }
    let ghost f = fields(chars@);
    match find_foreign(&chars, spans[0].0, spans[0].1) {
        Some(c) => {
            return Err(FenError::InvalidChar(c));
        },
        None => {},
    }
    let squares = match read_board(&chars, spans[0].0, spans[0].1) {
        Some(squares) => squares,
        None => {
            return Err(FenError::InvalidBoard);
        },
    };
    let halfmove_clock = match read_u32(&chars, spans[4].0, spans[4].1) {
        Some(n) => n,
        None => {
            return Err(FenError::InvalidNumber);
        },
    };
    let fullmove_number = match read_u32(&chars, spans[5].0, spans[5].1) {
        Some(n) => n,
        None => {
            return Err(FenError::InvalidNumber);
        },
    };
    let white = spans[1].1 - spans[1].0 == 1 && chars[spans[1].0] == 'w';
    assert(white == (f[1] == seq!['w'])) by {
        if white {
            assert(f[1] =~= seq!['w']);
        } else if f[1] == seq!['w'] {
            assert(f[1].len() == 1);
            assert(f[1][0] == 'w');
        }
    }
    Ok(
        Board {
            squares,
            turn: if white {
                PieceColor::White
            } else {
                PieceColor::Black
            },
            white_big_castle: field_has(&chars, spans[2].0, spans[2].1, 'Q'),
            black_big_castle: field_has(&chars, spans[2].0, spans[2].1, 'q'),
            white_small_castle: field_has(&chars, spans[2].0, spans[2].1, 'K'),
            black_small_castle: field_has(&chars, spans[2].0, spans[2].1, 'k'),
            halfmove_clock,
            fullmove_number,
            en_passant_target: read_square_at(&chars, spans[3].0, spans[3].1),
            state: BoardState::default(),
        },
    )
}

/// `String::push` of the standard library, taken on trust: the text
/// afterwards is the text before with `ch` as one more character at its
/// end.
pub assume_specification[ String::push ](text: &mut String, ch: char)
    ensures
        final(text)@ == old(text)@.push(ch),
;

fn letter(kind: PieceType, color: PieceColor) -> (c: char)
    ensures
        c == letter_of_piece(kind, color),
{
    match (kind, color) {
        (PieceType::King, PieceColor::White) => 'K',
        (PieceType::Queen, PieceColor::White) => 'Q',
        (PieceType::Rook, PieceColor::White) => 'R',
        (PieceType::Knight, PieceColor::White) => 'N',
        (PieceType::Bishop, PieceColor::White) => 'B',
        (PieceType::Pawn, PieceColor::White) => 'P',
        (PieceType::King, PieceColor::Black) => 'k',
        (PieceType::Queen, PieceColor::Black) => 'q',
        (PieceType::Rook, PieceColor::Black) => 'r',
        (PieceType::Knight, PieceColor::Black) => 'n',
        (PieceType::Bishop, PieceColor::Black) => 'b',
        (PieceType::Pawn, PieceColor::Black) => 'p',
    }
}

fn digit_for(d: u8) -> (c: char)
    requires
        d < 10,
    ensures
        c == digit_char(d as int),
{
    (('0' as u8) + d) as char
}

/// Appends the notation of `row` to `out`.
fn write_rank(row: &[Option<ChessPiece>; 8], out: &mut String)
    ensures
        final(out)@ == old(out)@ + rank_text(row@),
{
    let ghost cells = row@;
    let mut gap: u8 = 0;
    let mut c: usize = 0;
    while c < 8
        invariant
            cells == row@,
            c <= 8,
            gap <= c,
            gap == rank_scan(cells.take(c as int)).gap,
            out@ == old(out)@ + rank_scan(cells.take(c as int)).text,
        decreases 8 - c,
    {
        proof {
            let before = cells.take(c as int);
            assert(cells.take(c + 1).drop_last() =~= before);
        }
        match row[c] {
            Some(p) => {
                if gap > 0 {
                    out.push(digit_for(gap));
                }
                out.push(letter(p.kind, p.color));
                gap = 0;
            },
            None => {
                gap += 1;
            },
        }
        c += 1;
    }
    assert(cells.take(8) =~= cells);
    if gap > 0 {
        out.push(digit_for(gap));
    }
}

/// Appends the digits of `n` to `out`.
fn write_decimal(n: u32, out: &mut String)
    ensures
        final(out)@ == old(out)@ + decimal(n as nat),
    decreases n,
{
    if n >= 10 {
        write_decimal(n / 10, out);
    }
    out.push(digit_for((n % 10) as u8));
}

/// Appends the placement field of `squares` to `out`.
fn write_placement(squares: &Squares, out: &mut String)
    ensures
        final(out)@ == old(out)@ + ranks_text(grid_of(*squares), 8),
{
    let ghost g = grid_of(*squares);
    let mut r: usize = 0;
    while r < 8
        invariant
            g == grid_of(*squares),
            r <= 8,
            out@ == old(out)@ + ranks_text(g, r as nat),
        decreases 8 - r,
    {
        if r > 0 {
            out.push('/');
        }
        write_rank(&squares[r], out);
        r += 1;
    }
}

/// Appends the castling field of `board` to `out`.
fn write_castling(board: &Board, out: &mut String)
    ensures
        final(out)@ == old(out)@ + castling_text(board@),
{
    if board.white_small_castle {
        out.push('K');
    }
    if board.white_big_castle {
        out.push('Q');
    }
    if board.black_small_castle {
        out.push('k');
    }
    if board.black_big_castle {
        out.push('q');
    }
    if !(board.white_small_castle || board.white_big_castle || board.black_small_castle
        || board.black_big_castle) {
        out.push('-');
    }
}

/// Appends the en-passant field for `target` to `out`.
fn write_en_passant(target: Option<Square>, out: &mut String)
    ensures
        final(out)@ == old(out)@ + en_passant_text(target),
{
    match target {
        Some(sq) => {
            if sq.0 < 8 && sq.1 < 8 {
                out.push((('a' as u8) + sq.1) as char);
                out.push(digit_for(8 - sq.0));
            } else {
                out.push('-');
            }
        },
        None => {
            out.push('-');
        },
    }
}

/// Appends the side-to-move field for `turn` to `out`.
fn write_side(turn: PieceColor, out: &mut String)
    ensures
        final(out)@ == old(out)@ + side_text(turn),
{
    match turn {
        PieceColor::White => {
            out.push('w');
        },
        PieceColor::Black => {
            out.push('b');
        },
    }
}

impl Board {
    /// The notation of the position.
    pub fn to_string(&self) -> (text: String)
        ensures
            text@ == fen_text(self@),
    {
        let mut text = String::new();
        write_placement(&self.squares, &mut text);
        text.push(' ');
        write_side(self.turn, &mut text);
        text.push(' ');
        write_castling(self, &mut text);
        text.push(' ');
        write_en_passant(self.en_passant_target, &mut text);
        text.push(' ');
        write_decimal(self.halfmove_clock, &mut text);
        text.push(' ');
        write_decimal(self.fullmove_number, &mut text);
        text
    }

    /// The position that `fen` describes, or the starting position where
    /// `fen` describes none.
    pub fn from(fen: &String) -> (board: Board)
        ensures
            board@ == match parse_fen(fen@) {
                Ok(position) => position,
                Err(_) => BoardView::start(),
            },
            board.wf(),
    {
        match fen_parser(fen) {
            Ok(board) => board,
            Err(_) => Board::default(),
        }
    }
}

} // verus!
