//! A chess rules engine: coordinates, pieces, the position, move legality,
//! threat detection and the textual interchange format of a position.
//!
//! The contracts of the executable functions speak of [`position::Position`],
//! the mathematical model of a [`Board`]. The general facts about moves,
//! threats and the text form are proved in [`laws`] and [`fen_laws`].

pub mod constants;
pub mod text;
pub mod pieces;
pub mod position;
pub mod square;
pub mod board;
pub mod board_movements;
pub mod laws;
pub mod setup;
pub mod board_fen;
pub mod fen_laws;

pub use board::{Board, MoveError};
pub use pieces::{Color, Piece, PieceType};
pub use setup::board_with_setup;
pub use square::{Column, Coord, Row, Square};
