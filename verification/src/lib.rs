//! A chess rules engine: the board, move generation, legality, check and
//! mate, castling, en passant and promotion, the FEN and UCI notations, and
//! the course of a game at the board against an analysis engine.
//!
//! Every function carries a contract over a mathematical model of the
//! position, [`board::BoardView`], and the rules are stated as functions of
//! that model:
//!
//! - [`piece`] and [`board`]: pieces, squares, the position and its model;
//! - [`move_gen`]: the candidate squares of a piece;
//! - [`check`]: attacks, check, and the trial of a move on a scratch grid;
//! - [`castle`]: when castling is allowed;
//! - [`legality`]: quiet moves and captures, cut down to the legal ones;
//! - [`executor`]: making a move, a castling or a promotion;
//! - [`mate`]: checkmate and stalemate;
//! - [`fen`] and [`uci`]: positions and moves in notation;
//! - [`seating`]: the player's side and the point of view;
//! - [`game`]: clicks, the engine's turn and the end of the game.
//!
//! What holds of the rules as a whole is proved in [`round_trip`],
//! [`safety`] and [`kings`], and beside the functions it concerns.

pub mod piece;
pub mod board;
pub mod move_gen;
pub mod check;
pub mod castle;
pub mod legality;
pub mod executor;
pub mod mate;
pub mod fen;
pub mod uci;
pub mod round_trip;
pub mod seating;
pub mod game;
pub mod safety;
pub mod kings;
