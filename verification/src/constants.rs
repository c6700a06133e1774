//! Dimensions of the board and the home rows of both sides.

use crate::square::Row;
use vstd::prelude::*;

verus! {

/// Number of columns, and of rows, of the board.
pub const BOARD_DIMENSION: usize = 8;

/// Row on which the white pawns start.
pub const WHITE_PAWN_ROW: Row = 1;

/// Row on which the black pawns start.
pub const BLACK_PAWN_ROW: Row = 6;

/// Row on which the white pieces start.
pub const WHITE_PIECES_ROW: Row = 0;

/// Row on which the black pieces start.
pub const BLACK_PIECES_ROW: Row = 7;

} // verus!
