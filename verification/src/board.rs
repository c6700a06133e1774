//! The position as a value, and the operations on it.

use crate::pieces::{Color, Piece, PieceType};
use crate::position::{
    is_direction, lemma_first_piece_decides, lemma_open_ray, lemma_path_to_origin,
    lemma_threat_by_jumps_and_lines, step, Position,
};
use crate::square::{column_index, Column, Coord, Error, Square};
use vstd::prelude::*;

verus! {

/// The sides to which a king may still castle.
#[derive(Clone, Copy, Debug, PartialEq, Eq, Structural)]
pub enum CastleState {
    Kingside,
    Queenside,
    Both,
    Neither,
}

/// Why a move is refused.
#[derive(Clone, Copy, Debug, PartialEq, Eq, Structural)]
pub enum MoveError {
    /// There is no piece on the square to move from.
    NoPieceToMove,
    /// The piece does not move like that.
    InvalidMove,
    /// A piece of the mover's own side stands on the destination.
    DestinationObstructed,
    /// A piece stands in the way.
    PathObstructed,
    /// The move would leave the mover's own king attacked.
    PutSelfInCheck,
    /// A square was not written in notation.
    InvalidSquare { source: Error },
    /// The king or the rook has moved, the rook is missing, a piece stands
    /// between them, or the king is attacked where it stands.
    CannotCastle,
    /// The king would cross an attacked square.
    CannotCastleThroughCheck,
    /// The piece does not belong to the side to play.
    WrongPlayer,
}

impl MoveError {
    /// What to tell the player.
    pub open spec fn text(self) -> Seq<char> {
        match self {
            MoveError::NoPieceToMove => "There is no piece there!"@,
            MoveError::InvalidMove => "This piece doesn't move like that!"@,
            MoveError::DestinationObstructed => "You cannot take your own pieces."@,
            MoveError::PathObstructed => "The path is obstructed."@,
            MoveError::PutSelfInCheck => "You can't put yourself in check."@,
            MoveError::InvalidSquare { source } => "Invalid notation."@,
            MoveError::CannotCastle => "Invalid castling condition."@,
            MoveError::CannotCastleThroughCheck => "Cannot castle through check."@,
            MoveError::WrongPlayer => "Not your turn to play."@,
        }
    }

    /// What to tell the player.
    pub fn message(&self) -> (s: String)
        ensures
            s@ == self.text(),
    {
        let s = match self {
            MoveError::NoPieceToMove => "There is no piece there!",
            MoveError::InvalidMove => "This piece doesn't move like that!",
            MoveError::DestinationObstructed => "You cannot take your own pieces.",
            MoveError::PathObstructed => "The path is obstructed.",
            MoveError::PutSelfInCheck => "You can't put yourself in check.",
            MoveError::InvalidSquare { source } => "Invalid notation.",
            MoveError::CannotCastle => "Invalid castling condition.",
            MoveError::CannotCastleThroughCheck => "Cannot castle through check.",
            MoveError::WrongPlayer => "Not your turn to play.",
        };
        s.to_owned()
    }
}

/// A position: the pieces on the 64 squares, the side to play, the two move
/// counters, the recorded squares of the two kings and the square of the last
/// double step of a pawn.
#[derive(Clone, Copy, Debug)]
pub struct Board {
    pub board: [[Option<Piece>; 8]; 8],
    pub(crate) to_play: Color,
    pub(crate) full_move_clock: usize,
    pub(crate) half_move_clock: usize,
    pub(crate) black_king_position: Square,
    pub(crate) white_king_position: Square,
    pub(crate) en_passant_square: Option<Square>,
}

impl View for Board {
    type V = Position;

    open(crate) spec fn view(&self) -> Position {
        Position {
            grid: Map::new(
                |c: Coord| c.on_board() && self.cell(c.col, c.row) is Some,
                |c: Coord| self.cell(c.col, c.row)->0,
            ),
            to_play: self.to_play,
            full_move_clock: self.full_move_clock as nat,
            half_move_clock: self.half_move_clock as nat,
            black_king: self.black_king_position@,
            white_king: self.white_king_position@,
            en_passant: match self.en_passant_square {
                Some(sq) => Some(sq@),
                None => None,
            },
        }
    }
}

impl Board {
    /// The content of the square in column `col` and row `row`.
    pub open(crate) spec fn cell(&self, col: int, row: int) -> Option<Piece> {
        self.board[col][row]
    }

    /// All but the pieces is as in `other`.
    pub open(crate) spec fn same_state(&self, other: Board) -> bool {
        &&& self.to_play == other.to_play
        &&& self.full_move_clock == other.full_move_clock
        &&& self.half_move_clock == other.half_move_clock
        &&& self.black_king_position == other.black_king_position
        &&& self.white_king_position == other.white_king_position
        &&& self.en_passant_square == other.en_passant_square
    }

    /// The recorded squares lie on the board.
    pub open(crate) spec fn wf(&self) -> bool {
        &&& self.black_king_position.wf()
        &&& self.white_king_position.wf()
        &&& self.en_passant_square matches Some(sq) ==> sq.wf()
    }

    /// The piece on a square, if any.
    pub fn at(&self, square: &Square) -> (p: Option<Piece>)
        requires
            square.wf(),
        ensures
            p == self@.at(square@),
    {
        self.board[column_index(square.col)][square.row]
    }
}

impl Default for Board {
    /// The empty board, White to play, at the first move.
    fn default() -> (b: Board)
        ensures
            b.wf(),
            b@ == Board::empty_position(),
    {
        let black_king_position = Square::new(Column::E, 7);
        let white_king_position = Square::new(Column::E, 0);
        let b = Board {
            board: [[None; 8]; 8],
            to_play: Color::White,
            full_move_clock: 1,
            half_move_clock: 0,
            black_king_position,
            white_king_position,
            en_passant_square: None,
        };
        assert(b@.grid =~= Map::empty());
        b
    }
}

impl Board {
    /// The position in which no piece stands, White is to play the first
    /// move, and the kings are recorded on their starting squares.
    pub open spec fn empty_position() -> Position {
        Position {
            grid: Map::empty(),
            to_play: Color::White,
            full_move_clock: 1,
            half_move_clock: 0,
            black_king: Coord { col: 4, row: 7 },
            white_king: Coord { col: 4, row: 0 },
            en_passant: None,
        }
    }

    /// A handle on the content of a square.
    pub(crate) fn at_mut(&mut self, square: &Square) -> (slot: &mut Option<Piece>)
        requires
            square.wf(),
        ensures
            *slot == old(self)@.at(square@),
            final(self).cell(square@.col, square@.row) == *final(slot),
            forall|i: int, j: int|
                0 <= i < 8 && 0 <= j < 8 && !(i == square@.col && j == square@.row)
                    ==> final(self).cell(i, j) == old(self).cell(i, j),
            final(self).same_state(*old(self)),
    {
        &mut self.board[column_index(square.col)][square.row]
    }

    /// Clear all pieces from the board.
    pub fn clear(&mut self)
        ensures
            final(self)@ == old(self)@.cleared(),
            final(self).wf() == old(self).wf(),
    {
        self.board = [[None; 8]; 8];
        assert(self@.grid =~= Map::empty());
    }

    /// Place a piece on an empty square of the board.
    pub fn place_piece(&mut self, square: &Square, piece: Piece)
        requires
            square.wf(),
            old(self)@.at(square@) is None,
        ensures
            final(self)@ == old(self)@.with(square@, Some(piece)),
            final(self).wf() == old(self).wf(),
    {
        let slot = self.at_mut(square);
        *slot = Some(piece);
        assert(self@.grid =~= old(self)@.with(square@, Some(piece)).grid);
    }
}

impl Board {
    /// Replaces the content of a square.
    pub(crate) fn put(&mut self, square: &Square, content: Option<Piece>)
        requires
            square.wf(),
        ensures
            final(self)@ == old(self)@.with(square@, content),
            final(self).same_state(*old(self)),
            final(self).wf() == old(self).wf(),
    {
        let slot = self.at_mut(square);
        *slot = content;
        assert(self@.grid =~= old(self)@.with(square@, content).grid);
    }

    /// Tells whether a rook of `color` that has never moved stands on a square.
    fn rook_ready(&self, square: &Square, color: Color) -> (r: bool)
        requires
            square.wf(),
        ensures
            r == self@.rook_ready(square@, color),
    {
        match self.at(square) {
            Some(p) => p.piece_type == PieceType::Rook && p.color == color && !p.moved_once,
            None => false,
        }
    }

    /// The sides to which the king of `color` on `king` may still castle.
    pub(crate) fn castle_rights(&self, king: &Square, color: Color) -> (state: CastleState)
        requires
            king.wf(),
        ensures
            state == self@.castle_rights(king@, color),
    {
        let ready = match self.at(king) {
            Some(p) => p.piece_type == PieceType::King && p.color == color && !p.moved_once,
            None => false,
        };
        if !ready {
            return CastleState::Neither;
        }
        let kingside = self.rook_ready(&Square::new(Column::H, king.row), color);
        let queenside = self.rook_ready(&Square::new(Column::A, king.row), color);
        if kingside && queenside {
            CastleState::Both
        } else if kingside {
            CastleState::Kingside
        } else if queenside {
            CastleState::Queenside
        } else {
            CastleState::Neither
        }
    }

    /// The sides to which `color` may still castle.
    pub fn get_castle_state(&self, color: Color) -> (state: CastleState)
        requires
            self.wf(),
        ensures
            state == self@.castle_state(color),
    {
        let king_pos = match color {
            Color::Black => self.black_king_position,
            Color::White => self.white_king_position,
        };
        self.castle_rights(&king_pos, color)
    }

    /// Validates that a move is legal.
    pub fn validate_move(&self, src: &Square, dst: &Square) -> (r: Result<(), MoveError>)
        requires
            self.wf(),
            src.wf(),
            dst.wf(),
        ensures
            r == self@.validate(src@, dst@),
    {
        // Validate that we have a piece to move.
        let piece = match self.at(src) {
            Some(piece) => piece,
            None => { return Err(MoveError::NoPieceToMove); },
        };
        // Validate that the destination square is available.
        if let Some(dst_piece) = self.at(dst) {
            // If a capture, make sure we only capture the other side.
            if piece.color == dst_piece.color {
                return Err(MoveError::DestinationObstructed);
            }
        }
        // Piece-specific logic.
        match piece.piece_type {
            PieceType::Knight => self.validate_knight(src, dst),
            PieceType::Pawn => self.validate_pawn(src, dst, &piece),
            PieceType::Rook => self.validate_rook(src, dst),
            PieceType::King => self.validate_king(src, dst),
            PieceType::Bishop => self.validate_bishop(src, dst),
            PieceType::Queen => self.validate_queen(src, dst),
        }
    }

    /// Move a piece from one square to another, respecting the rules of the game.
    ///
    /// Returns the next position, or an error if the move was invalid.
    pub fn move_piece(&self, src: &Square, dst: &Square) -> (r: Result<Board, MoveError>)
        requires
            self.wf(),
            src.wf(),
            dst.wf(),
            self@.full_move_clock < usize::MAX,
            self@.half_move_clock < usize::MAX,
        ensures
            Board::agrees(r, self@.move_result(src@, dst@)),
    {
        self.validate_move(src, dst)?;
        let mut new_position = *self;
        new_position.to_play = self.to_play.opposite();
        let piece = self.at(src).unwrap();
        if piece.color != self.to_play {
            return Err(MoveError::WrongPlayer);
        }
        if piece.color == Color::Black {
            new_position.full_move_clock += 1;
        }
        let src_col = column_index(src.col);
        let dst_col = column_index(dst.col);
        let king_step = piece.piece_type == PieceType::King;
        let pawn_step = piece.piece_type == PieceType::Pawn;
        let en_passant = self.at(dst).is_none() && pawn_step && src_col != dst_col;
        let captured = self.at(dst).is_some() || en_passant;
        let castling = king_step && (src_col == dst_col + 2 || dst_col == src_col + 2);

        new_position.put(src, None);
        new_position.put(dst, Some(piece));
        if en_passant {
            let pawn_square = self.en_passant_square.unwrap();
            new_position.put(&pawn_square, None);
        }
        let ghost gate_grid = new_position@.grid;
        assert(gate_grid == self@.gate_position(src@, dst@).grid);
        if pawn_step || captured {
            new_position.half_move_clock = 0;
        } else {
            new_position.half_move_clock += 1;
        }
        // Reset en-passant.
        new_position.en_passant_square = None;
        if king_step {
            // Update the king position so we can make sure it's not in check.
            match piece.color {
                Color::Black => {
                    new_position.black_king_position = *dst;
                },
                Color::White => {
                    new_position.white_king_position = *dst;
                },
            }
        } else if pawn_step {
            if src.row == dst.row + 2 || dst.row == src.row + 2 {
                new_position.en_passant_square = Some(*dst);
            }
        }
        proof {
            assert(new_position@.grid =~= gate_grid);
        }
        if new_position.validate_check(piece.color) {
            return Err(MoveError::PutSelfInCheck);
        }
        // Mark this piece as moved (used for tracking castling.)
        new_position.put(
            dst,
            Some(Piece { piece_type: piece.piece_type, color: piece.color, moved_once: true }),
        );
        if castling {
            // If we reached here we just castled.
            // We need to move the corresponding rook as well.
            let (rook_src, rook_dst) = if dst_col > src_col {
                // Kingside castling.
                (Square::new(Column::H, src.row), Square::new(Column::F, src.row))
            } else {
                // Queenside castling.
                (Square::new(Column::A, src.row), Square::new(Column::D, src.row))
            };
            // Move the rook.
            let rook = self.at(&rook_src);
            new_position.put(&rook_src, None);
            new_position.put(&rook_dst, rook);
        }
        proof {
            assert(new_position@.grid =~= self@.grid_after(src@, dst@));
        }
        Ok(new_position)
    }

    pub fn move_notation(&self, src: &str, dst: &str) -> (r: Result<Board, MoveError>)
        requires
            self.wf(),
            self@.full_move_clock < usize::MAX,
            self@.half_move_clock < usize::MAX,
        ensures
            Board::agrees(r, self@.notation_move_result(src@, dst@)),
    {
        let src_square = match Square::from_notation(src) {
            Ok(square) => square,
            Err(source) => { return Err(MoveError::InvalidSquare { source }); },
        };
        let dst_square = match Square::from_notation(dst) {
            Ok(square) => square,
            Err(source) => { return Err(MoveError::InvalidSquare { source }); },
        };
        self.move_piece(&src_square, &dst_square)
    }

    /// The result is the board of the expected position, or the expected
    /// error.
    pub open spec fn agrees(r: Result<Board, MoveError>, expected: Result<Position, MoveError>) -> bool {
        match expected {
            Ok(pos) => r is Ok && r->Ok_0@ == pos && r->Ok_0.wf(),
            Err(e) => r == Err::<Board, MoveError>(e),
        }
    }

    /// The side that moves next.
    pub fn to_play(&self) -> (c: Color)
        ensures
            c == self@.to_play,
    {
        self.to_play
    }

    /// The number of the move being played.
    pub fn full_move_clock(&self) -> (n: usize)
        ensures
            n == self@.full_move_clock,
    {
        self.full_move_clock
    }

    /// The number of moves since the last pawn move or capture.
    pub fn half_move_clock(&self) -> (n: usize)
        ensures
            n == self@.half_move_clock,
    {
        self.half_move_clock
    }

    /// The square on which a pawn has just landed after a double step.
    pub fn en_passant_square(&self) -> (sq: Option<Square>)
        requires
            self.wf(),
        ensures
            sq is Some == self@.en_passant is Some,
            sq is Some ==> sq->0@ == self@.en_passant->0 && sq->0.wf(),
    {
        self.en_passant_square
    }

    /// The recorded square of the king of a side.
    pub fn king_position(&self, color: Color) -> (sq: Square)
        requires
            self.wf(),
        ensures
            sq@ == self@.king(color),
            sq.wf(),
    {
        match color {
            Color::Black => self.black_king_position,
            Color::White => self.white_king_position,
        }
    }

    /// Tells whether any piece of `by_color` attacks a square, whoever is to
    /// play: a knight from a jump away, or the first piece met on one of the
    /// eight rays that leave the square.
    pub fn validate_square_threatened(&self, square: &Square, by_color: Color) -> (threat: bool)
        requires
            square.wf(),
        ensures
            threat == self@.threatened(square@, by_color),
    {
        proof {
            lemma_threat_by_jumps_and_lines(self@, square@, by_color);
        }
        // Check for threats by knights.
        if self.knight_threat(square, 1, 2, by_color) || self.knight_threat(
            square,
            -1,
            2,
            by_color,
        ) || self.knight_threat(square, 1, -2, by_color) || self.knight_threat(
            square,
            -1,
            -2,
            by_color,
        ) || self.knight_threat(square, 2, 1, by_color) || self.knight_threat(
            square,
            2,
            -1,
            by_color,
        ) || self.knight_threat(square, -2, 1, by_color) || self.knight_threat(
            square,
            -2,
            -1,
            by_color,
        ) {
            return true;
        }
        // Check for lateral & diagonal threats.
        self.ray_threat(square, 0, 1, by_color) || self.ray_threat(square, 0, -1, by_color)
            || self.ray_threat(square, 1, 0, by_color) || self.ray_threat(square, 1, 1, by_color)
            || self.ray_threat(square, 1, -1, by_color) || self.ray_threat(
            square,
            -1,
            0,
            by_color,
        ) || self.ray_threat(square, -1, 1, by_color) || self.ray_threat(
            square,
            -1,
            -1,
            by_color,
        )
    }

    /// Tells whether the king of `color` stands attacked on its recorded
    /// square.
    pub fn validate_check(&self, color: Color) -> (check: bool)
        requires
            self.wf(),
        ensures
            check == self@.in_check(color),
    {
        match color {
            Color::Black => self.validate_square_threatened(
                &self.black_king_position,
                Color::White,
            ),
            Color::White => self.validate_square_threatened(
                &self.white_king_position,
                Color::Black,
            ),
        }
    }

    /// Tells whether a knight of `by_color` stands at the given offset from
    /// a square.
    fn knight_threat(&self, square: &Square, col_move: i32, row_move: i32, by_color: Color) -> (threat:
        bool)
        requires
            square.wf(),
        ensures
            threat == self@.knight_threat(square@, col_move as int, row_move as int, by_color),
    {
        match square.relative(col_move, row_move) {
            Some(attacker) => match self.at(&attacker) {
                Some(atk_piece) => atk_piece.piece_type == PieceType::Knight && atk_piece.color
                    == by_color,
                None => false,
            },
            None => false,
        }
    }

    /// Walks from a square in one direction up to the first piece, and tells
    /// whether that piece is of `by_color` and attacks the square: a rook or
    /// a queen along a row or column; a bishop or a queen along a diagonal, or
    /// a pawn one step away that captures towards the square.
    fn ray_threat(&self, square: &Square, col_delta: i32, row_delta: i32, by_color: Color) -> (threat:
        bool)
        requires
            square.wf(),
            -1 <= col_delta <= 1,
            -1 <= row_delta <= 1,
            col_delta != 0 || row_delta != 0,
        ensures
            threat == self@.ray_threat(square@, col_delta as int, row_delta as int, by_color),
    {
        let is_diagonal = col_delta != 0 && row_delta != 0;
        let ghost target = square@;
        let ghost dc = col_delta as int;
        let ghost dr = row_delta as int;
        let ghost pos = self@;
        let mut current = *square;
        let ghost mut n: int = 0;
        loop
            invariant
                square.wf(),
                target == square@,
                dc == col_delta as int,
                dr == row_delta as int,
                pos == self@,
                is_direction(dc, dr),
                is_diagonal == (dc != 0 && dr != 0),
                0 <= n <= 7,
                current.wf(),
                current@ == step(target, dc, dr, n),
                forall|k: int| 0 < k <= n ==> pos.at(#[trigger] step(target, dc, dr, k)) is None,
            decreases 8 - n,
        {
            let next = match current.relative(col_delta, row_delta) {
                Some(next) => next,
                None => {
                    proof {
                        lemma_open_ray(pos, target, dc, dr, n, by_color);
                    }
                    return false;
                },
            };
            match self.at(&next) {
                Some(atk_piece) => {
                    proof {
                        lemma_first_piece_decides(pos, target, dc, dr, n + 1, by_color);
                        lemma_path_to_origin(pos, target, dc, dr, n + 1);
                    }
                    if atk_piece.color != by_color {
                        return false;
                    }
                    let adjacent = current.col == square.col && current.row == square.row;
                    assert(adjacent == (n == 0));
                    return if is_diagonal {
                        atk_piece.piece_type == PieceType::Bishop || atk_piece.piece_type
                            == PieceType::Queen || (atk_piece.piece_type == PieceType::Pawn
                            && adjacent && match by_color {
                            Color::White => next.row + 1 == square.row,
                            Color::Black => square.row + 1 == next.row,
                        })
                    } else {
                        atk_piece.piece_type == PieceType::Rook || atk_piece.piece_type
                            == PieceType::Queen
                    };
                },
                None => {
                    current = next;
                    proof {
                        n = n + 1;
                    }
                },
            }
        }
    }
}

} // verus!
