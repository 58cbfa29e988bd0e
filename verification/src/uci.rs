//! Moves in the notation of the Universal Chess Interface: the square a
//! piece leaves, the square it goes to, and for a promotion the letter of
//! the new kind.

use vstd::prelude::*;
use crate::board::{Board, BoardView, StateView};
use crate::fen::{chars_of, fields, read_square, read_square_at, split_fields, text_between};
use crate::piece::{PieceType, Square};

verus! {

/// Why a text is not a move in the notation.
#[derive(Clone, Copy, Debug, PartialEq, Eq)]
pub enum UciError {
    /// The text does not have four or five characters.
    InvalidLength,
    /// One of the two squares is not a file letter from `a` to `h` and a
    /// rank digit from `1` to `8`.
    InvalidSquare,
    /// The fifth character is none of `q`, `r`, `b`, `n` in either case:
    /// the character.
    InvalidPromotion(char),
}

/// A move as the notation gives it.
pub struct UciMove {
    pub from: Square,
    pub to: Square,
    pub promotion: Option<PieceType>,
}

/// The kind that a promotion letter stands for, in either case.
pub open spec fn promotion_of_letter(c: char) -> Option<PieceType> {
    if c == 'q' || c == 'Q' {
        Some(PieceType::Queen)
    } else if c == 'r' || c == 'R' {
        Some(PieceType::Rook)
    } else if c == 'b' || c == 'B' {
        Some(PieceType::Bishop)
    } else if c == 'n' || c == 'N' {
        Some(PieceType::Knight)
    } else {
        None
    }
}

/// The move that a text writes, or why it writes none.
pub open spec fn parse_uci(s: Seq<char>) -> Result<UciMove, UciError> {
    if s.len() != 4 && s.len() != 5 {
        Err(UciError::InvalidLength)
    } else if read_square(s.subrange(0, 2)) is None || read_square(s.subrange(2, 4)) is None {
        Err(UciError::InvalidSquare)
    } else {
        let from = read_square(s.subrange(0, 2))->0;
        let to = read_square(s.subrange(2, 4))->0;
        if s.len() == 5 {
            match promotion_of_letter(s[4]) {
                Some(kind) => Ok(UciMove { from, to, promotion: Some(kind) }),
                None => Err(UciError::InvalidPromotion(s[4])),
            }
        } else {
            Ok(UciMove { from, to, promotion: None })
        }
    }
}

/// The rook's square of the castling that a king's move from `from` to
/// `to` writes: the king leaves its starting square for the square two
/// files away on its rank. These are the moves `e1g1`, `e1c1`, `e8g8` and
/// `e8c8`.
pub open spec fn castling_rook(from: Square, to: Square) -> Option<Square> {
    if from.1 == 4 && (from.0 == 0 || from.0 == 7) && to.0 == from.0 && (to.1 == 6 || to.1 == 2) {
        Some((from.0, if to.1 == 6 { 7u8 } else { 0u8 }))
    } else {
        None
    }
}

impl BoardView {
    /// The position after a move in the notation has been taken in.
    ///
    /// A text that writes no move changes nothing. A move with a promotion
    /// letter is made, if it is legal, and the piece on the destination
    /// becomes the named kind, with no promotion left pending. One of the
    /// four castling moves castles, if that is allowed. Any other move is
    /// left to the caller and changes nothing.
    pub open spec fn after_uci(self, s: Seq<char>) -> BoardView {
        match parse_uci(s) {
            Err(_) => self,
            Ok(m) => match m.promotion {
                Some(kind) => match self.move_outcome(m.from, m.to) {
                    Ok(after) => {
                        let promoted = after.promoted(m.to, kind);
                        BoardView { state: StateView { promtion_pending: None, ..promoted.state }, ..promoted }
                    },
                    Err(_) => self,
                },
                None => match castling_rook(m.from, m.to) {
                    Some(rook) => self.castle_outcome(m.from, rook),
                    None => self,
                },
            },
        }
    }

    /// What taking in a move in the notation hands back: the error for a
    /// text that writes no move; the two squares for a promotion that was
    /// made and for any other move that is no castling, which the caller
    /// still has to make; nothing for a promotion that was refused and for
    /// a castling move.
    pub open spec fn uci_reply(self, s: Seq<char>) -> Result<Option<(Square, Square)>, UciError> {
        match parse_uci(s) {
            Err(why) => Err(why),
            Ok(m) => match m.promotion {
                Some(_) => match self.move_outcome(m.from, m.to) {
                    Ok(_) => Ok(Some((m.from, m.to))),
                    Err(_) => Ok(None),
                },
                None => match castling_rook(m.from, m.to) {
                    Some(_) => Ok(None),
                    None => Ok(Some((m.from, m.to))),
                },
            },
        }
    }
}

/// The word with which the engine announces the move it has found.
pub open spec fn bestmove_word() -> Seq<char> {
    seq!['b', 'e', 's', 't', 'm', 'o', 'v', 'e']
}

/// The move that a line of the engine's output announces: the line's
/// second word, where its first word is `bestmove`.
pub open spec fn best_move_in(line: Seq<char>) -> Option<Seq<char>> {
    let words = fields(line);
    if words.len() >= 2 && words[0] == bestmove_word() {
        Some(words[1])
    } else {
        None
    }
}

/// The move that a line of the engine's output announces, if it announces
/// one.
pub fn best_move_of_line(line: &String) -> (found: Option<String>)
    ensures
        match best_move_in(line@) {
            Some(text) => found matches Some(mv) && mv@ == text,
            None => found is None,
        },
{
    let chars = chars_of(line.as_str());
    let spans = split_fields(&chars);
    if spans.len() < 2 {
        return None;
    }
    let (lo, hi) = spans[0];
    let ghost word = chars@.subrange(lo as int, hi as int);
    let announces = hi - lo == 8 && chars[lo] == 'b' && chars[lo + 1] == 'e' && chars[lo + 2] == 's'
        && chars[lo + 3] == 't' && chars[lo + 4] == 'm' && chars[lo + 5] == 'o' && chars[lo + 6] == 'v'
        && chars[lo + 7] == 'e';
    assert(announces == (word == bestmove_word())) by {
        if announces {
            assert(word =~= bestmove_word());
        } else if word == bestmove_word() {
            assert(word.len() == 8);
        }
    }
    if announces {
        Some(text_between(&chars, spans[1].0, spans[1].1))
    } else {
        None
    }
}

fn promotion_letter(c: char) -> (kind: Option<PieceType>)
    ensures
        kind == promotion_of_letter(c),
{
    if c == 'q' || c == 'Q' {
        Some(PieceType::Queen)
    } else if c == 'r' || c == 'R' {
        Some(PieceType::Rook)
    } else if c == 'b' || c == 'B' {
        Some(PieceType::Bishop)
    } else if c == 'n' || c == 'N' {
        Some(PieceType::Knight)
    } else {
        None
    }
}

/// Reads a move in the notation.
pub fn parse_uci_move(uci_move: &String) -> (parsed: Result<UciMove, UciError>)
    ensures
        parsed == parse_uci(uci_move@),
{
    let chars = chars_of(uci_move.as_str());
    if chars.len() != 4 && chars.len() != 5 {
        return Err(UciError::InvalidLength);
    }
    let from = match read_square_at(&chars, 0, 2) {
        Some(sq) => sq,
        None => {
            return Err(UciError::InvalidSquare);
        },
    };
    let to = match read_square_at(&chars, 2, 4) {
        Some(sq) => sq,
        None => {
            return Err(UciError::InvalidSquare);
        },
    };
    if chars.len() == 5 {
        match promotion_letter(chars[4]) {
            Some(kind) => Ok(UciMove { from, to, promotion: Some(kind) }),
            None => Err(UciError::InvalidPromotion(chars[4])),
        }
    } else {
        Ok(UciMove { from, to, promotion: None })
    }
}

impl Board {
    /// Takes in a move in the notation: see [`BoardView::after_uci`] for
    /// what becomes of the position and [`BoardView::uci_reply`] for what
    /// is handed back.
    pub fn decode_uci_move(&mut self, uci_move: String) -> (reply: Result<
        Option<(Square, Square)>,
        UciError,
    >)
        requires
            parse_uci(uci_move@) matches Ok(m) ==> old(self)@.has_room_at(m.from),
        ensures
            reply == old(self)@.uci_reply(uci_move@),
            final(self)@ == old(self)@.after_uci(uci_move@),
            old(self).wf() ==> final(self).wf(),
    {
        let m = match parse_uci_move(&uci_move) {
            Ok(m) => m,
            Err(why) => {
                return Err(why);
            },
        };
        match m.promotion {
            Some(kind) => {
                match self.move_piece(m.from, m.to) {
                    Ok(_) => {
                        self.promote_pawn(m.to, kind);
                        self.state.promtion_pending = None;
                        Ok(Some((m.from, m.to)))
                    },
                    Err(_) => Ok(None),
                }
            },
            None => {
                if m.from.1 == 4 && (m.from.0 == 0 || m.from.0 == 7) && m.to.0 == m.from.0 && (m.to.1 == 6
                    || m.to.1 == 2) {
                    let rook: Square = (m.from.0, if m.to.1 == 6 { 7 } else { 0 });
                    self.execute_castle(m.from, rook);
                    Ok(None)
                } else {
                    Ok(Some((m.from, m.to)))
                }
            },
        }
    }
}

} // verus!
