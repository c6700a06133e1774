//! The rule of each kind of piece.

use crate::board::{Board, CastleState, MoveError};
use crate::constants::{BLACK_PAWN_ROW, WHITE_PAWN_ROW};
use crate::pieces::{Color, Piece, PieceType};
use crate::position::{along, distance, on_ray, step};
use crate::square::{column_index, Column, Square};
use vstd::prelude::*;

verus! {

/// Distance between two indices of the board.
fn gap(a: usize, b: usize) -> (d: usize)
    ensures
        d == crate::position::abs(a as int - b as int),
{
    if a >= b {
        a - b
    } else {
        b - a
    }
}

impl Board {
    /// Walks from `src` towards `dst` and asks that every square before
    /// `dst` be empty.
    pub(crate) fn validate_line_clear(
        &self,
        src: &Square,
        dst: &Square,
        col_delta: i32,
        row_delta: i32,
    ) -> (r: Result<(), MoveError>)
        requires
            src.wf(),
            dst.wf(),
            on_ray(src@, dst@, col_delta as int, row_delta as int),
        ensures
            r == self@.line_rule(src@, dst@),
    {
        let ghost dc = col_delta as int;
        let ghost dr = row_delta as int;
        let ghost total = distance(src@, dst@);
        let ghost mut n: int = 0;
        let mut s = *src;
        loop
            invariant
                src.wf(),
                dst.wf(),
                on_ray(src@, dst@, dc, dr),
                dc == col_delta as int,
                dr == row_delta as int,
                total == distance(src@, dst@),
                0 <= n < total,
                s.wf(),
                s@ == step(src@, dc, dr, n),
                forall|k: int| 0 < k <= n ==> self@.at(#[trigger] along(src@, dst@, k)) is None,
            decreases total - n,
        {
            assert(step(src@, dc, dr, n + 1) == along(src@, dst@, n + 1));
            let next = s.relative(col_delta, row_delta);
            s = next.unwrap();
            proof {
                n = n + 1;
            }
            if s == *dst {
                return Ok(());
            }
            if self.at(&s).is_some() {
                return Err(MoveError::PathObstructed);
            }
        }
    }

    /// Asks that `src` and every square before `dst` on the way there be
    /// free of attacks by `by_color`.
    pub(crate) fn validate_line_threat(
        &self,
        src: &Square,
        dst: &Square,
        col_delta: i32,
        row_delta: i32,
        by_color: Color,
    ) -> (r: Result<(), MoveError>)
        requires
            src.wf(),
            dst.wf(),
            on_ray(src@, dst@, col_delta as int, row_delta as int),
        ensures
            r == self@.crossing_rule(src@, dst@, by_color),
    {
        if self.validate_square_threatened(src, by_color) {
            return Err(MoveError::CannotCastle);
        }
        let ghost dc = col_delta as int;
        let ghost dr = row_delta as int;
        let ghost total = distance(src@, dst@);
        let ghost mut n: int = 0;
        let mut s = *src;
        loop
            invariant
                src.wf(),
                dst.wf(),
                on_ray(src@, dst@, dc, dr),
                dc == col_delta as int,
                dr == row_delta as int,
                total == distance(src@, dst@),
                0 <= n < total,
                s.wf(),
                s@ == step(src@, dc, dr, n),
                !self@.threatened(src@, by_color),
                forall|k: int|
                    0 < k <= n ==> !self@.threatened(#[trigger] along(src@, dst@, k), by_color),
            decreases total - n,
        {
            assert(step(src@, dc, dr, n + 1) == along(src@, dst@, n + 1));
            let next = s.relative(col_delta, row_delta);
            s = next.unwrap();
            proof {
                n = n + 1;
            }
            if s == *dst {
                return Ok(());
            }
            if self.validate_square_threatened(&s, by_color) {
                return Err(MoveError::CannotCastleThroughCheck);
            }
        }
    }

    pub(crate) fn validate_knight(&self, src: &Square, dst: &Square) -> (r: Result<(), MoveError>)
        requires
            src.wf(),
            dst.wf(),
        ensures
            r == self@.knight_rule(src@, dst@),
    {
        let coll_diff_abs = gap(column_index(src.col), column_index(dst.col));
        let row_diff_abs = gap(src.row, dst.row);
        if (coll_diff_abs == 1 && row_diff_abs == 2) || (coll_diff_abs == 2 && row_diff_abs == 1) {
            Ok(())
        } else {
            Err(MoveError::InvalidMove)
        }
    }

    pub(crate) fn validate_queen(&self, src: &Square, dst: &Square) -> (r: Result<(), MoveError>)
        requires
            src.wf(),
            dst.wf(),
        ensures
            r == self@.queen_rule(src@, dst@),
    {
        // Make sure the queen moved either like a bishop or like a rook.
        if self.validate_bishop(src, dst).is_ok() || self.validate_rook(src, dst).is_ok() {
            Ok(())
        } else {
            Err(MoveError::InvalidMove)
        }
    }

    pub(crate) fn validate_bishop(&self, src: &Square, dst: &Square) -> (r: Result<(), MoveError>)
        requires
            src.wf(),
            dst.wf(),
        ensures
            r == self@.bishop_rule(src@, dst@),
    {
        let col_diff: i32 = column_index(dst.col) as i32 - column_index(src.col) as i32;
        let row_diff: i32 = dst.row as i32 - src.row as i32;
        // Validate we're actually moving in a straight diagonal.
        if gap(column_index(src.col), column_index(dst.col)) != gap(src.row, dst.row) || col_diff
            == 0 {
            return Err(MoveError::InvalidMove);
        }
        // Validate the line is clear.
        let direction_col: i32 = if col_diff > 0 {
            1
        } else {
            -1
        };
        let direction_row: i32 = if row_diff > 0 {
            1
        } else {
            -1
        };
        self.validate_line_clear(src, dst, direction_col, direction_row)
    }

    pub(crate) fn validate_rook(&self, src: &Square, dst: &Square) -> (r: Result<(), MoveError>)
        requires
            src.wf(),
            dst.wf(),
        ensures
            r == self@.rook_rule(src@, dst@),
    {
        let col_diff: i32 = column_index(dst.col) as i32 - column_index(src.col) as i32;
        let row_diff: i32 = dst.row as i32 - src.row as i32;
        // Validate that movement is in a straight line.
        if (col_diff == 0) == (row_diff == 0) {
            return Err(MoveError::InvalidMove);
        }
        // Validate the line is clear.
        let direction_col: i32 = if col_diff == 0 {
            0
        } else if col_diff > 0 {
            1
        } else {
            -1
        };
        let direction_row: i32 = if row_diff == 0 {
            0
        } else if row_diff > 0 {
            1
        } else {
            -1
        };
        self.validate_line_clear(src, dst, direction_col, direction_row)
    }

    pub(crate) fn validate_king(&self, src: &Square, dst: &Square) -> (r: Result<(), MoveError>)
        requires
            src.wf(),
            dst.wf(),
            self@.at(src@) is Some,
        ensures
            r == self@.king_rule(src@, dst@, self@.at(src@)->0.color),
    {
        let coll_diff: i32 = column_index(dst.col) as i32 - column_index(src.col) as i32;
        let coll_diff_abs = gap(column_index(src.col), column_index(dst.col));
        let row_diff_abs = gap(src.row, dst.row);
        if coll_diff_abs == 2 {
            // Validate castling.
            if row_diff_abs != 0 {
                // Don't allow vertical movements when castling.
                return Err(MoveError::InvalidMove);
            }
            let color = self.at(src).unwrap().color;
            let castle_state = self.castle_rights(src, color);
            let attempted_castle = if coll_diff > 0 {
                CastleState::Kingside
            } else {
                CastleState::Queenside
            };
            if !(castle_state == CastleState::Both || castle_state == attempted_castle) {
                return Err(MoveError::CannotCastle);
            }
            // Get the square of the right rook.
            let rook_square = if coll_diff > 0 {
                Square::new(Column::H, src.row)
            } else {
                Square::new(Column::A, src.row)
            };
            let direction: i32 = if coll_diff > 0 {
                1
            } else {
                -1
            };
            if self.validate_line_clear(src, &rook_square, direction, 0).is_err() {
                return Err(MoveError::CannotCastle);
            }
            self.validate_line_threat(src, dst, direction, 0, color.opposite())
        } else if coll_diff_abs <= 1 && row_diff_abs <= 1 {
            // The king can move one space in any direction.
            Ok(())
        } else {
            Err(MoveError::InvalidMove)
        }
    }

    /// Tells whether a pawn of `color` that goes from `src` to the empty
    /// square `dst` captures in passing.
    fn captures_in_passing(&self, src: &Square, dst: &Square, color: Color) -> (r: bool)
        requires
            self.wf(),
            src.wf(),
            dst.wf(),
        ensures
            r == self@.captures_in_passing(src@, dst@, color),
    {
        let beside = Square::new(dst.col, src.row);
        match self.en_passant_square {
            Some(target) => target == beside && match self.at(&beside) {
                Some(q) => q.color != color && q.piece_type == PieceType::Pawn,
                None => false,
            },
            None => false,
        }
    }

    pub(crate) fn validate_pawn(&self, src: &Square, dst: &Square, piece: &Piece) -> (r: Result<
        (),
        MoveError,
    >)
        requires
            self.wf(),
            src.wf(),
            dst.wf(),
        ensures
            r == self@.pawn_rule(src@, dst@, *piece),
    {
        let may_double = !piece.moved_once && src.row == match piece.color {
            Color::Black => BLACK_PAWN_ROW,
            Color::White => WHITE_PAWN_ROW,
        };
        let diff: i32 = dst.row as i32 - src.row as i32;
        // Make sure pawns can only move in one direction.
        let backwards = match piece.color {
            Color::Black => diff > 0,
            Color::White => diff < 0,
        };
        if backwards {
            return Err(MoveError::InvalidMove);
        }
        let row_diff = gap(src.row, dst.row);
        let coll_diff_abs = gap(column_index(src.col), column_index(dst.col));
        let target_piece_maybe = self.at(dst);
        if coll_diff_abs > 0 {
            // Handle captures: the move must be a single diagonal.
            if !(coll_diff_abs == 1 && row_diff == 1) {
                return Err(MoveError::InvalidMove);
            }
            // There has to be a piece of the opposite color on the target
            // square, or beside the pawn after its double step.
            let captures = match target_piece_maybe {
                Some(q) => q.color != piece.color,
                None => self.captures_in_passing(src, dst, piece.color),
            };
            if captures {
                Ok(())
            } else {
                Err(MoveError::InvalidMove)
            }
        } else {
            // Handle regular movement, onto an empty square.
            if (row_diff == 1 || (row_diff == 2 && may_double)) && target_piece_maybe.is_none() {
                Ok(())
            } else {
                Err(MoveError::InvalidMove)
            }
        }
    }
}

} // verus!
