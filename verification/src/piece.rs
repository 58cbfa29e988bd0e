//! Pieces: their kind, their colour and the square they stand on.

use vstd::prelude::*;

verus! {

/// A square of the board as `(rank, file)`. Rank 0 is Black's back rank,
/// rank 7 is White's; file 0 is the a-file.
pub type Square = (u8, u8);

/// The six kinds of chess piece.
#[derive(Debug, Clone, Copy, PartialEq, Eq, Structural, Hash)]
pub enum PieceType {
    Pawn,
    Rook,
    Queen,
    Bishop,
    Knight,
    King,
}

/// The two sides.
#[derive(Debug, Clone, Copy, PartialEq, Eq, Structural, Hash)]
pub enum PieceColor {
    White,
    Black,
}

/// A piece together with the square it stands on and the number of moves it
/// has made. `times_moved` alone tells whether a piece has ever moved.
#[derive(Clone, Copy, Debug)]
pub struct ChessPiece {
    pub kind: PieceType,
    pub color: PieceColor,
    pub position: Square,
    pub times_moved: i32,
}

/// Whether `(r, c)` lies on the 8x8 board.
pub open spec fn on_board(r: int, c: int) -> bool {
    0 <= r < 8 && 0 <= c < 8
}

/// Whether a square's coordinates lie on the board.
pub open spec fn square_on_board(sq: Square) -> bool {
    sq.0 < 8 && sq.1 < 8
}

impl PieceColor {
    /// The other side.
    pub open spec fn opposite_spec(self) -> PieceColor {
        match self {
            PieceColor::White => PieceColor::Black,
            PieceColor::Black => PieceColor::White,
        }
    }

    /// The other side.
    #[verifier::when_used_as_spec(opposite_spec)]
    pub fn opposite(self) -> (other: PieceColor)
        ensures
            other == self.opposite_spec(),
    {
        match self {
            PieceColor::White => PieceColor::Black,
            PieceColor::Black => PieceColor::White,
        }
    }

    /// The rank step of a move "up the board" for this side: White advances
    /// toward rank 0, Black toward rank 7.
    pub open spec fn forward(self) -> int {
        match self {
            PieceColor::White => -1,
            PieceColor::Black => 1,
        }
    }

    /// The rank on which a pawn of this side promotes.
    pub open spec fn last_rank(self) -> int {
        match self {
            PieceColor::White => 0,
            PieceColor::Black => 7,
        }
    }

    /// The rank on which this side's king and rooks start.
    pub open spec fn home_rank(self) -> int {
        match self {
            PieceColor::White => 7,
            PieceColor::Black => 0,
        }
    }

    /// The English name of the side.
    pub open spec fn name(self) -> Seq<char> {
        match self {
            PieceColor::White => "White"@,
            PieceColor::Black => "Black"@,
        }
    }

    /// The English name of the side, as text.
    pub fn to_string(&self) -> (text: String)
        ensures
            text@ == self.name(),
    {
        match self {
            PieceColor::White => "White".to_owned(),
            PieceColor::Black => "Black".to_owned(),
        }
    }
}

impl PieceType {
    /// The English name of the kind.
    pub open spec fn name(self) -> Seq<char> {
        match self {
            PieceType::King => "King"@,
            PieceType::Queen => "Queen"@,
            PieceType::Bishop => "Bishop"@,
            PieceType::Knight => "Knight"@,
            PieceType::Pawn => "Pawn"@,
            PieceType::Rook => "Rook"@,
        }
    }

    /// The English name of the kind, as text.
    pub fn to_string(&self) -> (text: String)
        ensures
            text@ == self.name(),
    {
        match self {
            PieceType::King => "King".to_owned(),
            PieceType::Queen => "Queen".to_owned(),
            PieceType::Bishop => "Bishop".to_owned(),
            PieceType::Knight => "Knight".to_owned(),
            PieceType::Pawn => "Pawn".to_owned(),
            PieceType::Rook => "Rook".to_owned(),
        }
    }
}

impl ChessPiece {
    /// The same piece standing on `sq`.
    pub open spec fn placed_at(self, sq: Square) -> ChessPiece {
        ChessPiece { position: sq, ..self }
    }

    /// The same piece after one more move, standing on `sq`.
    pub open spec fn moved_to(self, sq: Square) -> ChessPiece {
        ChessPiece { position: sq, times_moved: (self.times_moved + 1) as i32, ..self }
    }
}

impl Default for ChessPiece {
    /// A black pawn on square `(0, 0)` that has not moved.
    fn default() -> (piece: Self)
        ensures
            piece == (ChessPiece {
                kind: PieceType::Pawn,
                color: PieceColor::Black,
                position: (0u8, 0u8),
                times_moved: 0,
            }),
    {
        ChessPiece { kind: PieceType::Pawn, color: PieceColor::Black, position: (0, 0), times_moved: 0 }
    }
}

} // verus!
