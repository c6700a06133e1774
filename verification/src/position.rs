//! The mathematical model of a position: the geometry of the board, which
//! pieces attack which squares, which moves the rules accept, and the
//! position that an accepted move leads to.

use crate::board::{CastleState, MoveError};
use crate::pieces::{Color, Piece, PieceType};
use crate::square::{Coord, Square};
use vstd::prelude::*;

verus! {

/// Absolute value.
pub open spec fn abs(x: int) -> int {
    if x < 0 {
        -x
    } else {
        x
    }
}

/// Sign of a number: -1, 0 or 1.
pub open spec fn sign(x: int) -> int {
    if x < 0 {
        -1
    } else if x > 0 {
        1
    } else {
        0
    }
}

/// `k` steps in the direction of `direction`: `k`, `-k` or nothing.
pub open spec fn scaled(direction: int, k: int) -> int {
    if direction > 0 {
        k
    } else if direction < 0 {
        -k
    } else {
        0
    }
}

/// The coordinate reached from `origin` after `k` steps, each one column
/// towards `dc` and one row towards `dr`.
pub open spec fn step(origin: Coord, dc: int, dr: int, k: int) -> Coord {
    Coord { col: origin.col + scaled(dc, k), row: origin.row + scaled(dr, k) }
}

/// Number of king steps between two coordinates.
pub open spec fn distance(a: Coord, b: Coord) -> int {
    if abs(b.col - a.col) >= abs(b.row - a.row) {
        abs(b.col - a.col)
    } else {
        abs(b.row - a.row)
    }
}

/// The coordinate `k` steps from `a` on the line towards `b`.
pub open spec fn along(a: Coord, b: Coord, k: int) -> Coord {
    step(a, b.col - a.col, b.row - a.row, k)
}

/// The jump of a knight: one column and two rows, or two columns and one row.
pub open spec fn knight_shape(src: Coord, dst: Coord) -> bool {
    let dc = abs(dst.col - src.col);
    let dr = abs(dst.row - src.row);
    (dc == 1 && dr == 2) || (dc == 2 && dr == 1)
}

/// Two distinct coordinates on one diagonal.
pub open spec fn diagonal(src: Coord, dst: Coord) -> bool {
    abs(dst.col - src.col) == abs(dst.row - src.row) && dst.col != src.col
}

/// Two distinct coordinates on one column or one row.
pub open spec fn straight(src: Coord, dst: Coord) -> bool {
    (dst.col == src.col) != (dst.row == src.row)
}

/// The direction in which the pawns of a side advance: one row up for White,
/// one row down for Black.
pub open spec fn forward(color: Color) -> int {
    match color {
        Color::White => 1,
        Color::Black => -1,
    }
}

/// The row on which the pawns of a side start.
pub open spec fn pawn_row(color: Color) -> int {
    match color {
        Color::White => 1,
        Color::Black => 6,
    }
}

/// The step of a capturing pawn: one column aside, one row forward.
pub open spec fn pawn_capture_shape(color: Color, src: Coord, dst: Coord) -> bool {
    abs(dst.col - src.col) == 1 && dst.row - src.row == forward(color)
}

/// The corner of a row in which the rook of one side of the board starts.
pub open spec fn rook_corner(side: CastleState, row: int) -> Coord {
    Coord {
        col: if side == CastleState::Kingside {
            7
        } else {
            0
        },
        row,
    }
}

/// The square of a row on which the rook stands after castling.
pub open spec fn rook_landing(side: CastleState, row: int) -> Coord {
    Coord {
        col: if side == CastleState::Kingside {
            5
        } else {
            3
        },
        row,
    }
}

/// The side towards which a king that goes from `src` to `dst` castles.
pub open spec fn castle_side(src: Coord, dst: Coord) -> CastleState {
    if dst.col > src.col {
        CastleState::Kingside
    } else {
        CastleState::Queenside
    }
}

/// A position as mathematical data: what the contracts of the board speak of.
pub struct Position {
    /// The occupied squares and the piece on each.
    pub grid: Map<Coord, Piece>,
    /// The side that moves next.
    pub to_play: Color,
    /// Counts the moves of the game; grows after each move of Black.
    pub full_move_clock: nat,
    /// Counts the moves since the last pawn move or capture.
    pub half_move_clock: nat,
    /// Where the black king is recorded to stand.
    pub black_king: Coord,
    /// Where the white king is recorded to stand.
    pub white_king: Coord,
    /// The square on which a pawn has just landed after a double step.
    pub en_passant: Option<Coord>,
}

impl Position {
    /// All that the position names lies on the board.
    pub open spec fn wf(self) -> bool {
        &&& forall|c: Coord| self.grid.dom().contains(c) ==> c.on_board()
        &&& self.black_king.on_board()
        &&& self.white_king.on_board()
        &&& self.en_passant matches Some(c) ==> c.on_board()
    }

    /// The piece on a square, if any.
    pub open spec fn at(self, c: Coord) -> Option<Piece> {
        if self.grid.dom().contains(c) {
            Some(self.grid[c])
        } else {
            None
        }
    }

    /// The position with the content of one square replaced.
    pub open spec fn with(self, c: Coord, content: Option<Piece>) -> Position {
        Position {
            grid: match content {
                Some(p) => self.grid.insert(c, p),
                None => self.grid.remove(c),
            },
            ..self
        }
    }

    /// The position without any piece.
    pub open spec fn cleared(self) -> Position {
        Position { grid: Map::empty(), ..self }
    }

    /// Where the king of a side is recorded to stand.
    pub open spec fn king(self, color: Color) -> Coord {
        match color {
            Color::Black => self.black_king,
            Color::White => self.white_king,
        }
    }

    /// Every square strictly between `a` and `b`, on the line from one to
    /// the other, is empty.
    pub open spec fn path_clear(self, a: Coord, b: Coord) -> bool {
        forall|k: int| 0 < k < distance(a, b) ==> self.at(#[trigger] along(a, b, k)) is None
    }

    /// No square strictly between `a` and `b` is attacked by `by`.
    pub open spec fn crossing_safe(self, a: Coord, b: Coord, by: Color) -> bool {
        forall|k: int| 0 < k < distance(a, b) ==> !self.threatened(#[trigger] along(a, b, k), by)
    }

    /// What standing on `a` and crossing to `b` costs a king: `CannotCastle`
    /// if `a` is attacked by `by`, `CannotCastleThroughCheck` if a square
    /// strictly between `a` and `b` is.
    pub open spec fn crossing_rule(self, a: Coord, b: Coord, by: Color) -> Result<(), MoveError> {
        if self.threatened(a, by) {
            Err(MoveError::CannotCastle)
        } else if !self.crossing_safe(a, b, by) {
            Err(MoveError::CannotCastleThroughCheck)
        } else {
            Ok(())
        }
    }

    /// What the squares strictly between `a` and `b` allow: `PathObstructed`
    /// unless all are empty.
    pub open spec fn line_rule(self, a: Coord, b: Coord) -> Result<(), MoveError> {
        if self.path_clear(a, b) {
            Ok(())
        } else {
            Err(MoveError::PathObstructed)
        }
    }

    /// The piece on `src` belongs to `by` and could capture on `target`:
    /// a knight by its jump, a bishop, rook or queen along a clear line,
    /// a pawn by its capturing step. Kings attack nothing.
    pub open spec fn attacks(self, src: Coord, target: Coord, by: Color) -> bool {
        self.at(src) matches Some(p) && p.color == by && match p.piece_type {
            PieceType::Knight => knight_shape(src, target),
            PieceType::Bishop => diagonal(src, target) && self.path_clear(src, target),
            PieceType::Rook => straight(src, target) && self.path_clear(src, target),
            PieceType::Queen => (diagonal(src, target) || straight(src, target))
                && self.path_clear(src, target),
            PieceType::Pawn => pawn_capture_shape(by, src, target),
            PieceType::King => false,
        }
    }

    /// Some piece of `by` attacks `target` from the ray that leaves `target`
    /// by one column towards `dc` and one row towards `dr` at each step.
    pub open spec fn ray_threat(self, target: Coord, dc: int, dr: int, by: Color) -> bool {
        exists|n: int|
            n >= 1 && step(target, dc, dr, n).on_board() && #[trigger] self.attacks(
                step(target, dc, dr, n),
                target,
                by,
            )
    }

    /// A knight of `by` stands `dc` columns and `dr` rows from `target`.
    pub open spec fn knight_threat(self, target: Coord, dc: int, dr: int, by: Color) -> bool {
        target.shift(dc, dr).on_board() && (self.at(target.shift(dc, dr)) matches Some(p)
            && p.piece_type == PieceType::Knight && p.color == by)
    }

    /// A knight of `by` stands a knight's jump away from `target`.
    pub open spec fn jump_threat(self, target: Coord, by: Color) -> bool {
        ||| self.knight_threat(target, 1, 2, by)
        ||| self.knight_threat(target, -1, 2, by)
        ||| self.knight_threat(target, 1, -2, by)
        ||| self.knight_threat(target, -1, -2, by)
        ||| self.knight_threat(target, 2, 1, by)
        ||| self.knight_threat(target, 2, -1, by)
        ||| self.knight_threat(target, -2, 1, by)
        ||| self.knight_threat(target, -2, -1, by)
    }

    /// A piece of `by` attacks `target` along one of the eight rays.
    pub open spec fn line_threat(self, target: Coord, by: Color) -> bool {
        ||| self.ray_threat(target, 0, 1, by)
        ||| self.ray_threat(target, 0, -1, by)
        ||| self.ray_threat(target, 1, 0, by)
        ||| self.ray_threat(target, 1, 1, by)
        ||| self.ray_threat(target, 1, -1, by)
        ||| self.ray_threat(target, -1, 0, by)
        ||| self.ray_threat(target, -1, 1, by)
        ||| self.ray_threat(target, -1, -1, by)
    }

    /// Some piece of `by` attacks `target`.
    pub open spec fn threatened(self, target: Coord, by: Color) -> bool {
        exists|src: Coord| src.on_board() && #[trigger] self.attacks(src, target, by)
    }

    /// The recorded square of the king of `color` is attacked by the other
    /// side.
    pub open spec fn in_check(self, color: Color) -> bool {
        self.threatened(self.king(color), color.spec_opposite())
    }

    /// A rook of `color` that has not moved stands on `c`.
    pub open spec fn rook_ready(self, c: Coord, color: Color) -> bool {
        self.at(c) matches Some(p) && p.piece_type == PieceType::Rook && p.color == color
            && !p.moved_once
    }

    /// A king of `color` that has not moved stands on `c`.
    pub open spec fn king_ready(self, c: Coord, color: Color) -> bool {
        self.at(c) matches Some(p) && p.piece_type == PieceType::King && p.color == color
            && !p.moved_once
    }

    /// The sides to which the king of `color` on `king` may still castle:
    /// none unless that king has never moved, and then each side whose
    /// corner of the king's row holds a rook of `color` that has never moved.
    pub open spec fn castle_rights(self, king: Coord, color: Color) -> CastleState {
        let kingside = self.rook_ready(rook_corner(CastleState::Kingside, king.row), color);
        let queenside = self.rook_ready(rook_corner(CastleState::Queenside, king.row), color);
        if !self.king_ready(king, color) {
            CastleState::Neither
        } else if kingside && queenside {
            CastleState::Both
        } else if kingside {
            CastleState::Kingside
        } else if queenside {
            CastleState::Queenside
        } else {
            CastleState::Neither
        }
    }

    /// The castling rights of a side, read at the recorded square of its king.
    pub open spec fn castle_state(self, color: Color) -> CastleState {
        self.castle_rights(self.king(color), color)
    }

    /// The rule of the knight.
    pub open spec fn knight_rule(self, src: Coord, dst: Coord) -> Result<(), MoveError> {
        if knight_shape(src, dst) {
            Ok(())
        } else {
            Err(MoveError::InvalidMove)
        }
    }

    /// The rule of the bishop: along a diagonal, over empty squares.
    pub open spec fn bishop_rule(self, src: Coord, dst: Coord) -> Result<(), MoveError> {
        if !diagonal(src, dst) {
            Err(MoveError::InvalidMove)
        } else if !self.path_clear(src, dst) {
            Err(MoveError::PathObstructed)
        } else {
            Ok(())
        }
    }

    /// The rule of the rook: along a column or a row, over empty squares.
    pub open spec fn rook_rule(self, src: Coord, dst: Coord) -> Result<(), MoveError> {
        if !straight(src, dst) {
            Err(MoveError::InvalidMove)
        } else if !self.path_clear(src, dst) {
            Err(MoveError::PathObstructed)
        } else {
            Ok(())
        }
    }

    /// The rule of the queen: what the bishop or the rook may do.
    pub open spec fn queen_rule(self, src: Coord, dst: Coord) -> Result<(), MoveError> {
        if self.bishop_rule(src, dst) is Ok || self.rook_rule(src, dst) is Ok {
            Ok(())
        } else {
            Err(MoveError::InvalidMove)
        }
    }

    /// The rule of castling, for a king of `color` that goes two columns
    /// along its row.
    pub open spec fn castle_rule(self, src: Coord, dst: Coord, color: Color) -> Result<
        (),
        MoveError,
    > {
        let side = castle_side(src, dst);
        let rights = self.castle_rights(src, color);
        if !(rights == CastleState::Both || rights == side) {
            Err(MoveError::CannotCastle)
        } else if !self.path_clear(src, rook_corner(side, src.row)) {
            Err(MoveError::CannotCastle)
        } else {
            self.crossing_rule(src, dst, color.spec_opposite())
        }
    }

    /// The rule of the king: one step in any direction, or castling.
    pub open spec fn king_rule(self, src: Coord, dst: Coord, color: Color) -> Result<
        (),
        MoveError,
    > {
        if abs(dst.col - src.col) == 2 {
            if dst.row != src.row {
                Err(MoveError::InvalidMove)
            } else {
                self.castle_rule(src, dst, color)
            }
        } else if abs(dst.col - src.col) <= 1 && abs(dst.row - src.row) <= 1 {
            Ok(())
        } else {
            Err(MoveError::InvalidMove)
        }
    }

    /// The pawn that goes from `src` to the empty square `dst` captures in
    /// passing: the pawn of the other side that has just made its double step
    /// stands beside `src`, in the column of `dst`.
    pub open spec fn captures_in_passing(self, src: Coord, dst: Coord, color: Color) -> bool {
        let beside = Coord { col: dst.col, row: src.row };
        self.en_passant == Some(beside) && (self.at(beside) matches Some(q) && q.color != color
            && q.piece_type == PieceType::Pawn)
    }

    /// The rule of the pawn: never backwards; straight ahead onto an empty
    /// square, by one row, or by two from its starting row if it has never
    /// moved; one step diagonally ahead to capture, on the square itself or
    /// in passing.
    pub open spec fn pawn_rule(self, src: Coord, dst: Coord, piece: Piece) -> Result<
        (),
        MoveError,
    > {
        let advance = (dst.row - src.row) * forward(piece.color);
        let may_double = src.row == pawn_row(piece.color) && !piece.moved_once;
        if advance < 0 {
            Err(MoveError::InvalidMove)
        } else if dst.col != src.col {
            if pawn_capture_shape(piece.color, src, dst) && ((self.at(dst) matches Some(q)
                && q.color != piece.color) || (self.at(dst) is None && self.captures_in_passing(
                src,
                dst,
                piece.color,
            ))) {
                Ok(())
            } else {
                Err(MoveError::InvalidMove)
            }
        } else if (advance == 1 || (advance == 2 && may_double)) && self.at(dst) is None {
            Ok(())
        } else {
            Err(MoveError::InvalidMove)
        }
    }

    /// The rule of the kind of `piece`, which stands on `src`.
    pub open spec fn piece_rule(self, src: Coord, dst: Coord, piece: Piece) -> Result<
        (),
        MoveError,
    > {
        match piece.piece_type {
            PieceType::Knight => self.knight_rule(src, dst),
            PieceType::Pawn => self.pawn_rule(src, dst, piece),
            PieceType::Rook => self.rook_rule(src, dst),
            PieceType::King => self.king_rule(src, dst, piece.color),
            PieceType::Bishop => self.bishop_rule(src, dst),
            PieceType::Queen => self.queen_rule(src, dst),
        }
    }

    /// Whether the rules accept the move from `src` to `dst`, and the first
    /// rule that it breaks if they do not: there must be a piece on `src`,
    /// none of its own side on `dst`, and the rule of its kind must hold.
    pub open spec fn validate(self, src: Coord, dst: Coord) -> Result<(), MoveError> {
        match self.at(src) {
            None => Err(MoveError::NoPieceToMove),
            Some(piece) => if self.at(dst) matches Some(q) && q.color == piece.color {
                Err(MoveError::DestinationObstructed)
            } else {
                self.piece_rule(src, dst, piece)
            },
        }
    }

    /// The move from `src` to `dst` is a pawn's capture in passing.
    pub open spec fn is_passing_capture(self, src: Coord, dst: Coord) -> bool {
        self.at(dst) is None && (self.at(src) matches Some(p) && p.piece_type == PieceType::Pawn)
            && dst.col != src.col
    }

    /// The move from `src` to `dst` is a castling move.
    pub open spec fn is_castling(self, src: Coord, dst: Coord) -> bool {
        (self.at(src) matches Some(p) && p.piece_type == PieceType::King) && abs(
            dst.col - src.col,
        ) == 2
    }

    /// The squares and pieces after the move from `src` to `dst`: the piece
    /// of `src` stands on `dst`, marked as moved; what it captured is gone,
    /// be it on `dst` or, in passing, on the square of the double step; after
    /// castling the rook stands on the other side of the king.
    pub open spec fn grid_after(self, src: Coord, dst: Coord) -> Map<Coord, Piece> {
        let piece = self.grid[src];
        let moved = self.grid.remove(src).insert(dst, Piece { moved_once: true, ..piece });
        if self.is_passing_capture(src, dst) {
            moved.remove(self.en_passant->0)
        } else if self.is_castling(src, dst) {
            let side = castle_side(src, dst);
            moved.remove(rook_corner(side, src.row)).insert(
                rook_landing(side, src.row),
                self.grid[rook_corner(side, src.row)],
            )
        } else {
            moved
        }
    }

    /// The position after the move from `src` to `dst`, for a move that the
    /// rules accept.
    pub open spec fn successor(self, src: Coord, dst: Coord) -> Position {
        let piece = self.grid[src];
        let pawn = piece.piece_type == PieceType::Pawn;
        let king = piece.piece_type == PieceType::King;
        let capture = self.at(dst) is Some || self.is_passing_capture(src, dst);
        Position {
            grid: self.grid_after(src, dst),
            to_play: self.to_play.spec_opposite(),
            full_move_clock: if piece.color == Color::Black {
                self.full_move_clock + 1
            } else {
                self.full_move_clock
            },
            half_move_clock: if pawn || capture {
                0
            } else {
                self.half_move_clock + 1
            },
            black_king: if king && piece.color == Color::Black {
                dst
            } else {
                self.black_king
            },
            white_king: if king && piece.color == Color::White {
                dst
            } else {
                self.white_king
            },
            en_passant: if pawn && abs(dst.row - src.row) == 2 {
                Some(dst)
            } else {
                None
            },
        }
    }

    /// The position on which the move from `src` to `dst` may be judged
    /// before it is completed: the piece stands on `dst`, not yet marked as
    /// moved, what it captured is gone, and a castling rook is still in its
    /// corner.
    pub open spec fn gate_position(self, src: Coord, dst: Coord) -> Position {
        let piece = self.grid[src];
        let moved = self.grid.remove(src).insert(dst, piece);
        Position {
            grid: if self.is_passing_capture(src, dst) {
                moved.remove(self.en_passant->0)
            } else {
                moved
            },
            ..self.successor(src, dst)
        }
    }

    /// What a player's attempt to move from `src` to `dst` gives: the error
    /// of the first rule that the move breaks; else `WrongPlayer` if the piece
    /// is not of the side to play; else `PutSelfInCheck` if the mover's king
    /// stands attacked once the piece has moved; else the position after the
    /// move.
    pub open spec fn move_result(self, src: Coord, dst: Coord) -> Result<Position, MoveError> {
        match self.validate(src, dst) {
            Err(e) => Err(e),
            Ok(_) => if self.grid[src].color != self.to_play {
                Err(MoveError::WrongPlayer)
            } else if self.gate_position(src, dst).in_check(self.to_play) {
                Err(MoveError::PutSelfInCheck)
            } else {
                Ok(self.successor(src, dst))
            },
        }
    }
}

impl Position {
    /// What a player's attempt to move gives when the two squares are written
    /// in notation: `InvalidSquare` with the reason if one of them, the
    /// source first, names no square; else what the move of these squares
    /// gives.
    pub open spec fn notation_move_result(self, src: Seq<char>, dst: Seq<char>) -> Result<
        Position,
        MoveError,
    > {
        match (Square::parse_notation(src), Square::parse_notation(dst)) {
            (Err(source), _) => Err(MoveError::InvalidSquare { source }),
            (Ok(_), Err(source)) => Err(MoveError::InvalidSquare { source }),
            (Ok(from), Ok(to)) => self.move_result(from@, to@),
        }
    }
}

/// `b` lies on the ray that leaves `a` in the direction `dc`, `dr`.
pub open spec fn on_ray(a: Coord, b: Coord, dc: int, dr: int) -> bool {
    &&& is_direction(dc, dr)
    &&& dc == sign(b.col - a.col)
    &&& dr == sign(b.row - a.row)
    &&& (diagonal(a, b) || straight(a, b))
}

/// `dc` and `dr` name one of the eight directions of the board.
pub open spec fn is_direction(dc: int, dr: int) -> bool {
    -1 <= dc <= 1 && -1 <= dr <= 1 && (dc != 0 || dr != 0)
}

/// From the `n`-th square of a ray, the line back to its origin is the ray
/// itself: empty squares on the ray make a clear path.
pub proof fn lemma_path_to_origin(pos: Position, target: Coord, dc: int, dr: int, n: int)
    requires
        is_direction(dc, dr),
        n >= 1,
        forall|k: int| 0 < k < n ==> pos.at(#[trigger] step(target, dc, dr, k)) is None,
    ensures
        pos.path_clear(step(target, dc, dr, n), target),
        distance(step(target, dc, dr, n), target) == n,
        diagonal(step(target, dc, dr, n), target) == (dc != 0 && dr != 0),
        straight(step(target, dc, dr, n), target) == (dc == 0 || dr == 0),
{
    let src = step(target, dc, dr, n);
    assert forall|k: int| 0 < k < distance(src, target) implies pos.at(
        #[trigger] along(src, target, k),
    ) is None by {
        assert(along(src, target, k) == step(target, dc, dr, n - k));
    }
}

/// A piece on the `n`-th square of a ray blocks the path from every square
/// further out.
pub proof fn lemma_ray_blocked(pos: Position, target: Coord, dc: int, dr: int, n: int, m: int)
    requires
        is_direction(dc, dr),
        1 <= n < m,
        pos.at(step(target, dc, dr, n)) is Some,
    ensures
        !pos.path_clear(step(target, dc, dr, m), target),
        distance(step(target, dc, dr, m), target) == m,
{
    let src = step(target, dc, dr, m);
    assert(along(src, target, m - n) == step(target, dc, dr, n));
}

/// Only the first piece on a ray can attack the origin of the ray.
pub proof fn lemma_first_piece_decides(
    pos: Position,
    target: Coord,
    dc: int,
    dr: int,
    n: int,
    by: Color,
)
    requires
        is_direction(dc, dr),
        n >= 1,
        step(target, dc, dr, n).on_board(),
        forall|k: int| 0 < k < n ==> pos.at(#[trigger] step(target, dc, dr, k)) is None,
        pos.at(step(target, dc, dr, n)) is Some,
    ensures
        pos.ray_threat(target, dc, dr, by) == pos.attacks(step(target, dc, dr, n), target, by),
{
    if !pos.attacks(step(target, dc, dr, n), target, by) {
        assert forall|m: int| m >= 1 && step(target, dc, dr, m).on_board() implies !pos.attacks(
            #[trigger] step(target, dc, dr, m),
            target,
            by,
        ) by {
            if m > n {
                lemma_ray_blocked(pos, target, dc, dr, n, m);
            }
        }
    }
}

/// A ray without a piece holds no attacker.
pub proof fn lemma_open_ray(pos: Position, target: Coord, dc: int, dr: int, n: int, by: Color)
    requires
        is_direction(dc, dr),
        target.on_board(),
        n >= 0,
        forall|k: int| 0 < k <= n ==> pos.at(#[trigger] step(target, dc, dr, k)) is None,
        !step(target, dc, dr, n + 1).on_board(),
    ensures
        !pos.ray_threat(target, dc, dr, by),
{
    assert forall|m: int| m >= 1 && step(target, dc, dr, m).on_board() implies !pos.attacks(
        #[trigger] step(target, dc, dr, m),
        target,
        by,
    ) by {
        assert(m <= n);
    }
}

/// An attacker on a ray attacks its origin.
proof fn lemma_ray_threat_is_threat(pos: Position, target: Coord, dc: int, dr: int, by: Color)
    requires
        pos.ray_threat(target, dc, dr, by),
    ensures
        pos.threatened(target, by),
{
    let n = choose|n: int|
        n >= 1 && step(target, dc, dr, n).on_board() && #[trigger] pos.attacks(
            step(target, dc, dr, n),
            target,
            by,
        );
    assert(pos.attacks(step(target, dc, dr, n), target, by));
}

/// A knight a jump away attacks.
proof fn lemma_knight_threat_is_threat(pos: Position, target: Coord, dc: int, dr: int, by: Color)
    requires
        pos.knight_threat(target, dc, dr, by),
        (abs(dc) == 1 && abs(dr) == 2) || (abs(dc) == 2 && abs(dr) == 1),
    ensures
        pos.threatened(target, by),
{
    assert(pos.attacks(target.shift(dc, dr), target, by));
}

/// An attacker that is no knight stands on one of the eight rays.
proof fn lemma_attacker_on_ray(pos: Position, src: Coord, target: Coord, by: Color)
    requires
        src.on_board(),
        pos.attacks(src, target, by),
        pos.at(src)->0.piece_type != PieceType::Knight,
    ensures
        pos.line_threat(target, by),
{
    let dc = sign(src.col - target.col);
    let dr = sign(src.row - target.row);
    let n = distance(src, target);
    assert(src == step(target, dc, dr, n));
    assert(pos.attacks(step(target, dc, dr, n), target, by));
    assert(pos.ray_threat(target, dc, dr, by));
}

/// A square is attacked exactly if a knight stands a jump away or a piece
/// attacks along one of the eight rays.
pub proof fn lemma_threat_by_jumps_and_lines(pos: Position, target: Coord, by: Color)
    ensures
        pos.threatened(target, by) == (pos.jump_threat(target, by) || pos.line_threat(target, by)),
{
    if pos.threatened(target, by) {
        let src = choose|src: Coord| src.on_board() && #[trigger] pos.attacks(src, target, by);
        if pos.at(src)->0.piece_type == PieceType::Knight {
            assert(src == target.shift(src.col - target.col, src.row - target.row));
            assert(pos.jump_threat(target, by));
        } else {
            lemma_attacker_on_ray(pos, src, target, by);
        }
    }
    if pos.jump_threat(target, by) {
        if pos.knight_threat(target, 1, 2, by) {
            lemma_knight_threat_is_threat(pos, target, 1, 2, by);
        } else if pos.knight_threat(target, -1, 2, by) {
            lemma_knight_threat_is_threat(pos, target, -1, 2, by);
        } else if pos.knight_threat(target, 1, -2, by) {
            lemma_knight_threat_is_threat(pos, target, 1, -2, by);
        } else if pos.knight_threat(target, -1, -2, by) {
            lemma_knight_threat_is_threat(pos, target, -1, -2, by);
        } else if pos.knight_threat(target, 2, 1, by) {
            lemma_knight_threat_is_threat(pos, target, 2, 1, by);
        } else if pos.knight_threat(target, 2, -1, by) {
            lemma_knight_threat_is_threat(pos, target, 2, -1, by);
        } else if pos.knight_threat(target, -2, 1, by) {
            lemma_knight_threat_is_threat(pos, target, -2, 1, by);
        } else {
            lemma_knight_threat_is_threat(pos, target, -2, -1, by);
        }
    }
    if pos.line_threat(target, by) {
        if pos.ray_threat(target, 0, 1, by) {
            lemma_ray_threat_is_threat(pos, target, 0, 1, by);
        } else if pos.ray_threat(target, 0, -1, by) {
            lemma_ray_threat_is_threat(pos, target, 0, -1, by);
        } else if pos.ray_threat(target, 1, 0, by) {
            lemma_ray_threat_is_threat(pos, target, 1, 0, by);
        } else if pos.ray_threat(target, 1, 1, by) {
            lemma_ray_threat_is_threat(pos, target, 1, 1, by);
        } else if pos.ray_threat(target, 1, -1, by) {
            lemma_ray_threat_is_threat(pos, target, 1, -1, by);
        } else if pos.ray_threat(target, -1, 0, by) {
            lemma_ray_threat_is_threat(pos, target, -1, 0, by);
        } else if pos.ray_threat(target, -1, 1, by) {
            lemma_ray_threat_is_threat(pos, target, -1, 1, by);
        } else {
            lemma_ray_threat_is_threat(pos, target, -1, -1, by);
        }
    }
}

} // verus!
