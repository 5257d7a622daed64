//! A two-player Quoridor engine on the standard 9x9 board.
//!
//! The board is bit-packed ([`bitpacked::BoardV2`]); every query and every
//! mutation is verified against a mathematical model of the game
//! ([`rules::BoardView`]).
//!
//! - [`moves`]: players, directions, moves and the order of all moves.
//! - [`rules`]: the model: passable steps, paths, distances, legal moves.
//! - [`bitpacked`]: the board, its shortest-path search and its flood.
//! - [`v1`]: the board as a grid of cells, for drawing.
//! - [`ai`]: the greedy player, and the games and states that the
//!   searching players work on.
//! - [`session`]: a game as a host program drives it, by numbers.
//! - [`display`]: what a drawing shows and what the keys do.
//! - [`laws`]: what holds of every game.
//! - [`paths`], [`search`], [`flood`], [`bits`]: the lemmas underneath.
//! - [`hashing`]: the Fx hash. [`text`]: decimal text. [`replay`]: a
//!   game on record.

pub mod ai;
pub mod bitpacked;
pub mod bits;
pub mod display;
pub mod flood;
pub mod hashing;
pub mod laws;
pub mod moves;
pub mod paths;
pub mod replay;
pub mod rules;
pub mod search;
pub mod session;
pub mod text;
pub mod v1;

pub use crate::moves::{Direction, Error, Move, Orientation, Player};
