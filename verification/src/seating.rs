//! Seating the player: which side the player takes, drawn by lot, and the
//! point of view that goes with it, from which the board is shown.

use vstd::prelude::*;
use crate::board::{Board, BoardView, StateView};
use crate::piece::{square_on_board, PieceColor, Square};

verus! {

/// The side that a drawn number gives the player: White for an even
/// number, Black for an odd one.
pub open spec fn side_of_draw(draw: i32) -> PieceColor {
    if draw % 2 == 0 {
        PieceColor::White
    } else {
        PieceColor::Black
    }
}

/// The square of the board that is shown at place `raw` of the screen,
/// places counted from the top left: seen from Black's side the board is
/// turned half round, seen from White's side it is not.
pub open spec fn square_shown_at(pov: PieceColor, raw: Square) -> Square {
    match pov {
        PieceColor::Black => ((7 - raw.0) as u8, (7 - raw.1) as u8),
        PieceColor::White => raw,
    }
}

/// Whether a square is a light one: rank and file add up to an even
/// number.
pub open spec fn light_square(sq: Square) -> bool {
    (sq.0 + sq.1) % 2 == 0
}

/// The place of the screen at which a square is shown is the one that
/// shows that square; and turning the board keeps light squares light.
pub proof fn shown_square_is_its_own_inverse(pov: PieceColor, raw: Square)
    requires
        square_on_board(raw),
    ensures
        square_on_board(square_shown_at(pov, raw)),
        square_shown_at(pov, square_shown_at(pov, raw)) == raw,
        light_square(square_shown_at(pov, raw)) == light_square(raw),
{
}

/// Whether a square is a light one.
pub fn is_light_square(sq: Square) -> (light: bool)
    ensures
        light == light_square(sq),
{
    (sq.0 % 2 == 0) == (sq.1 % 2 == 0)
}

/// `rand::random::<i32>()`, taken on trust: a number drawn by the thread's
/// generator. Nothing is claimed of the number.
#[verifier::external_body]
fn draw_number() -> (draw: i32) {
    rand::random::<i32>()
}

/// The side that a drawn number gives the player.
pub fn color_of_draw(draw: i32) -> (side: PieceColor)
    ensures
        side == side_of_draw(draw),
{
    if draw % 2 == 0 {
        PieceColor::White
    } else {
        PieceColor::Black
    }
}

/// Draws the player's side by lot.
pub fn random_color() -> PieceColor {
    color_of_draw(draw_number())
}

impl Board {
    /// The square of the board that is shown at place `raw` of the screen.
    pub fn square_on_screen(&self, raw: Square) -> (sq: Square)
        requires
            square_on_board(raw),
        ensures
            sq == square_shown_at(self@.state.pov, raw),
    {
        match self.state.pov {
            PieceColor::Black => (7 - raw.0, 7 - raw.1),
            PieceColor::White => raw,
        }
    }

    /// Turns the point of view to the other side. The squares stay where
    /// they are: the point of view decides nothing about the rules.
    pub fn flip_board(&mut self)
        ensures
            final(self)@ == (BoardView {
                state: StateView { pov: old(self)@.state.pov.opposite(), ..old(self)@.state },
                ..old(self)@
            }),
    {
        self.state.pov = self.state.pov.opposite();
    }

    /// Turns the point of view to the side of the player.
    pub fn seat_player(&mut self, player: PieceColor)
        ensures
            final(self)@ == (BoardView { state: StateView { pov: player, ..old(self)@.state }, ..old(self)@ }),
    {
        if self.state.pov != player {
            self.flip_board();
        }
    }
}

} // verus!
