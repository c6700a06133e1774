//! The standard starting arrangement.

use crate::board::Board;
use crate::constants::{BLACK_PAWN_ROW, BLACK_PIECES_ROW, WHITE_PAWN_ROW, WHITE_PIECES_ROW};
use crate::pieces::{Color, Piece, PieceType};
use crate::position::{pawn_row, Position};
use crate::square::{Column, Coord, Square};
use vstd::prelude::*;

verus! {

/// The kind of piece that starts in a column of the first and last rows.
pub open spec fn back_row(col: int) -> PieceType {
    if col == 0 || col == 7 {
        PieceType::Rook
    } else if col == 1 || col == 6 {
        PieceType::Knight
    } else if col == 2 || col == 5 {
        PieceType::Bishop
    } else if col == 3 {
        PieceType::Queen
    } else {
        PieceType::King
    }
}

/// The row on which the pieces of a side other than its pawns start.
pub open spec fn pieces_row(color: Color) -> int {
    match color {
        Color::White => 0,
        Color::Black => 7,
    }
}

/// The piece that starts on a square, if any: pawns on the second row of
/// each side, the other pieces behind them, none of them moved.
pub open spec fn starting_piece(c: Coord) -> Option<Piece> {
    if c.row == 0 {
        Some(Piece { piece_type: back_row(c.col), color: Color::White, moved_once: false })
    } else if c.row == 1 {
        Some(Piece { piece_type: PieceType::Pawn, color: Color::White, moved_once: false })
    } else if c.row == 6 {
        Some(Piece { piece_type: PieceType::Pawn, color: Color::Black, moved_once: false })
    } else if c.row == 7 {
        Some(Piece { piece_type: back_row(c.col), color: Color::Black, moved_once: false })
    } else {
        None
    }
}

/// The pieces of the starting position.
pub open spec fn starting_grid() -> Map<Coord, Piece> {
    Map::new(|c: Coord| c.on_board() && starting_piece(c) is Some, |c: Coord| starting_piece(c)->0)
}

/// The starting position: all pieces on their squares, White to play the
/// first move.
pub open spec fn starting_position() -> Position {
    Position { grid: starting_grid(), ..Board::empty_position() }
}

/// `grid`, and on the first `upto` squares of `row` what starts there.
pub open spec fn with_row(grid: Map<Coord, Piece>, row: int, upto: int) -> Map<Coord, Piece> {
    Map::new(
        |c: Coord| grid.dom().contains(c) || (c.row == row && 0 <= c.col < upto),
        |c: Coord|
            if c.row == row && 0 <= c.col < upto {
                starting_piece(c)->0
            } else {
                grid[c]
            },
    )
}

/// The kind of piece that starts in a column of the first and last rows.
fn back_row_piece(col: Column) -> (piece_type: PieceType)
    ensures
        piece_type == back_row(col.index()),
{
    match col {
        Column::A | Column::H => PieceType::Rook,
        Column::B | Column::G => PieceType::Knight,
        Column::C | Column::F => PieceType::Bishop,
        Column::D => PieceType::Queen,
        Column::E => PieceType::King,
    }
}

pub fn board_with_setup() -> (board: Board)
    ensures
        board.wf(),
        board@ == starting_position(),
{
    let mut board = Board::default();
    setup_board(&mut board);
    board
}

/// Places on an empty row of the board the pieces that start there.
fn setup_row(board: &mut Board, row: usize)
    requires
        row == 0 || row == 1 || row == 6 || row == 7,
        forall|c: Coord| c.row == row ==> old(board)@.at(c) is None,
    ensures
        final(board)@ == (Position { grid: with_row(old(board)@.grid, row as int, 8), ..old(board)@ }),
        final(board).wf() == old(board).wf(),
{
    let mut square = Square::new(Column::A, row);
    assert(board@.grid =~= with_row(old(board)@.grid, row as int, 0));
    loop
        invariant_except_break
            board@ == (Position {
                grid: with_row(old(board)@.grid, row as int, square.col.index()),
                ..old(board)@
            }),
        invariant
            row == 0 || row == 1 || row == 6 || row == 7,
            square.wf(),
            square.row == row,
            forall|c: Coord| c.row == row ==> old(board)@.at(c) is None,
            board.wf() == old(board).wf(),
        ensures
            board@ == (Position { grid: with_row(old(board)@.grid, row as int, 8), ..old(board)@ }),
            board.wf() == old(board).wf(),
        decreases 8 - square.col.index(),
    {
        let color = if row == WHITE_PAWN_ROW || row == WHITE_PIECES_ROW {
            Color::White
        } else {
            Color::Black
        };
        let piece_type = if row == WHITE_PAWN_ROW || row == BLACK_PAWN_ROW {
            PieceType::Pawn
        } else {
            back_row_piece(square.col)
        };
        assert(old(board)@.at(square@) is None);
        board.place_piece(&square, Piece::new(piece_type, color));
        assert(board@.grid =~= with_row(old(board)@.grid, row as int, square.col.index() + 1));
        if let Some(new_sq) = square.next_col() {
            square = new_sq;
        } else {
            break ;
        }
    }
}

fn setup_pawn_row(board: &mut Board, color: Color)
    requires
        forall|c: Coord| c.row == pawn_row(color) ==> old(board)@.at(c) is None,
    ensures
        final(board)@ == (Position {
            grid: with_row(old(board)@.grid, pawn_row(color), 8),
            ..old(board)@
        }),
        final(board).wf() == old(board).wf(),
{
    let row = match color {
        Color::White => WHITE_PAWN_ROW,
        Color::Black => BLACK_PAWN_ROW,
    };
    setup_row(board, row);
}

fn setup_pieces_row(board: &mut Board, color: Color)
    requires
        forall|c: Coord| c.row == pieces_row(color) ==> old(board)@.at(c) is None,
    ensures
        final(board)@ == (Position {
            grid: with_row(old(board)@.grid, pieces_row(color), 8),
            ..old(board)@
        }),
        final(board).wf() == old(board).wf(),
{
    let row = match color {
        Color::White => WHITE_PIECES_ROW,
        Color::Black => BLACK_PIECES_ROW,
    };
    setup_row(board, row);
}

/// Removes all pieces and places those of the starting position; the side
/// to play, the counters and the recorded squares stay as they are.
pub fn setup_board(board: &mut Board)
    ensures
        final(board)@ == (Position { grid: starting_grid(), ..old(board)@ }),
        final(board).wf() == old(board).wf(),
{
    board.clear();
    setup_pawn_row(board, Color::White);
    setup_pieces_row(board, Color::White);
    setup_pawn_row(board, Color::Black);
    setup_pieces_row(board, Color::Black);
    assert(board@.grid =~= starting_grid());
}

} // verus!
