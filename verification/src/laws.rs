//! General facts about moves and threats, each proved from the model of the
//! position.

use crate::pieces::{Color, PieceType};
use crate::position::{
    abs, along, castle_side, distance, pawn_capture_shape, rook_corner, rook_landing, straight,
    Position,
};
use crate::square::Coord;
use vstd::prelude::*;

verus! {

impl Position {
    /// The piece on `src` belongs to `by`, is no king, and the rules accept
    /// its move to `target`.
    pub open spec fn captures_on(self, src: Coord, target: Coord, by: Color) -> bool {
        (self.at(src) matches Some(p) && p.color == by && p.piece_type != PieceType::King)
            && self.validate(src, target) is Ok
    }

    /// The piece on `src` belongs to `by` and the rules accept its move to
    /// `target`.
    pub open spec fn moves_onto(self, src: Coord, target: Coord, by: Color) -> bool {
        (self.at(src) matches Some(p) && p.color == by) && self.validate(src, target) is Ok
    }

    /// A king of `by` stands on `src` and the rules accept its move to
    /// `target`.
    pub open spec fn king_moves_onto(self, src: Coord, target: Coord, by: Color) -> bool {
        (self.at(src) matches Some(p) && p.color == by && p.piece_type == PieceType::King)
            && self.validate(src, target) is Ok
    }
}

/// A move from a square to itself is refused, whatever stands there.
pub proof fn lemma_null_move_refused(pos: Position, c: Coord)
    ensures
        pos.validate(c, c) is Err,
        pos.move_result(c, c) is Err,
{
}

/// A move written with the same text for both squares is refused.
pub proof fn lemma_null_notation_move_refused(pos: Position, text: Seq<char>)
    ensures
        pos.notation_move_result(text, text) is Err,
{
}

/// A piece attacks the squares that the rule of its kind lets it reach as
/// a capture: a knight, bishop, rook or queen those to which its rule lets
/// it go, a pawn those one capturing step away, a king none.
pub proof fn lemma_attack_follows_rule(pos: Position, src: Coord, target: Coord, by: Color)
    ensures
        pos.attacks(src, target, by) == (pos.at(src) matches Some(p) && p.color == by
            && match p.piece_type {
            PieceType::Knight => pos.knight_rule(src, target) is Ok,
            PieceType::Bishop => pos.bishop_rule(src, target) is Ok,
            PieceType::Rook => pos.rook_rule(src, target) is Ok,
            PieceType::Queen => pos.queen_rule(src, target) is Ok,
            PieceType::Pawn => pawn_capture_shape(by, src, target),
            PieceType::King => false,
        }),
{
}

/// Whether a square is attacked depends on the pieces alone, not on the
/// side to play, the counters or the recorded squares.
pub proof fn lemma_threat_by_pieces_alone(a: Position, b: Position, target: Coord, by: Color)
    requires
        a.grid == b.grid,
    ensures
        a.threatened(target, by) == b.threatened(target, by),
{
    assert forall|src: Coord| a.attacks(src, target, by) == b.attacks(src, target, by) by {
        lemma_attacks_by_kind(a, b, src, target, by);
    }
    if a.threatened(target, by) {
        let src = choose|src: Coord| src.on_board() && #[trigger] a.attacks(src, target, by);
        assert(b.attacks(src, target, by));
    }
    if b.threatened(target, by) {
        let src = choose|src: Coord| src.on_board() && #[trigger] b.attacks(src, target, by);
        assert(a.attacks(src, target, by));
    }
}

/// On a square that holds a piece of the other side, a piece other than a
/// king attacks exactly if the rules accept its move there.
pub proof fn lemma_attack_is_accepted_capture(pos: Position, src: Coord, target: Coord, by: Color)
    requires
        pos.at(target) matches Some(q) && q.color != by,
    ensures
        pos.attacks(src, target, by) == pos.captures_on(src, target, by),
{
}

/// A square that holds a piece of the other side is attacked by `by` exactly
/// if some piece of `by` other than a king may capture there.
pub proof fn lemma_threat_is_capture(pos: Position, target: Coord, by: Color)
    requires
        pos.at(target) matches Some(q) && q.color != by,
    ensures
        pos.threatened(target, by) <==> exists|src: Coord|
            src.on_board() && #[trigger] pos.captures_on(src, target, by),
{
    if pos.threatened(target, by) {
        let src = choose|src: Coord| src.on_board() && #[trigger] pos.attacks(src, target, by);
        lemma_attack_is_accepted_capture(pos, src, target, by);
        assert(pos.captures_on(src, target, by));
    }
    if exists|src: Coord| src.on_board() && #[trigger] pos.captures_on(src, target, by) {
        let src = choose|src: Coord| src.on_board() && #[trigger] pos.captures_on(src, target, by);
        lemma_attack_is_accepted_capture(pos, src, target, by);
        assert(pos.attacks(src, target, by));
    }
}

/// Where no king of `by` may capture on a square that holds a piece of the
/// other side, the square is attacked by `by` exactly if some piece of `by`
/// may capture there.
pub proof fn lemma_threat_symmetry(pos: Position, target: Coord, by: Color)
    requires
        pos.at(target) matches Some(q) && q.color != by,
        forall|src: Coord| src.on_board() ==> !#[trigger] pos.king_moves_onto(src, target, by),
    ensures
        pos.threatened(target, by) <==> exists|src: Coord|
            src.on_board() && #[trigger] pos.moves_onto(src, target, by),
{
    lemma_threat_is_capture(pos, target, by);
    if pos.threatened(target, by) {
        let src = choose|src: Coord| src.on_board() && #[trigger] pos.captures_on(src, target, by);
        assert(pos.moves_onto(src, target, by));
    }
    if exists|src: Coord| src.on_board() && #[trigger] pos.moves_onto(src, target, by) {
        let src = choose|src: Coord| src.on_board() && #[trigger] pos.moves_onto(src, target, by);
        assert(!pos.king_moves_onto(src, target, by));
        assert(pos.captures_on(src, target, by));
    }
}

/// Two positions with the same pieces on the same squares, whether moved
/// or not, have the same attacks.
pub proof fn lemma_attacks_by_kind(a: Position, b: Position, src: Coord, target: Coord, by: Color)
    requires
        forall|c: Coord| (#[trigger] a.at(c) is None) == (b.at(c) is None),
        a.at(src) is Some ==> a.at(src)->0.piece_type == b.at(src)->0.piece_type && a.at(
            src,
        )->0.color == b.at(src)->0.color,
    ensures
        a.attacks(src, target, by) == b.attacks(src, target, by),
{
    assert(a.at(src) is None == b.at(src) is None);
    assert(a.path_clear(src, target) == b.path_clear(src, target)) by {
        if a.path_clear(src, target) {
            assert forall|k: int| 0 < k < distance(src, target) implies b.at(
                #[trigger] along(src, target, k),
            ) is None by {
                assert(a.at(along(src, target, k)) is None);
            }
        }
        if b.path_clear(src, target) {
            assert forall|k: int| 0 < k < distance(src, target) implies a.at(
                #[trigger] along(src, target, k),
            ) is None by {
                assert(b.at(along(src, target, k)) is None);
            }
        }
    }
}

/// Bringing the rook over after castling does not change whether a piece
/// attacks the king where it has landed.
proof fn lemma_rook_keeps_attack(pos: Position, src: Coord, dst: Coord, a: Coord)
    requires
        pos.wf(),
        src.on_board(),
        dst.on_board(),
        a.on_board(),
        pos.validate(src, dst) is Ok,
        pos.is_castling(src, dst),
    ensures
        pos.gate_position(src, dst).attacks(a, dst, pos.grid[src].color.spec_opposite())
            == pos.successor(src, dst).attacks(a, dst, pos.grid[src].color.spec_opposite()),
{
    let mid = pos.gate_position(src, dst);
    let fin = pos.successor(src, dst);
    let color = pos.grid[src].color;
    let by = color.spec_opposite();
    let side = castle_side(src, dst);
    let corner = rook_corner(side, src.row);
    let landing = rook_landing(side, src.row);
    assert(pos.at(src) == Some(pos.grid[src]));
    assert(pos.king_rule(src, dst, color) is Ok);
    assert(pos.castle_rule(src, dst, color) is Ok);
    assert(pos.rook_ready(corner, color));
    assert(pos.path_clear(src, corner));
    assert(!pos.threatened(src, by));
    assert(dst.row == src.row && abs(dst.col - src.col) == 2);
    assert(dst != corner);
    assert(pos.at(dst) is None) by {
        assert(along(src, corner, 2) == dst);
    }
    assert(landing != src ==> pos.at(landing) is None) by {
        assert(along(src, corner, abs(landing.col - src.col)) == landing);
    }
    assert(landing != corner && landing.row == src.row);
    assert(mid.at(corner) is Some && mid.at(corner)->0.color == color);
    assert(fin.at(landing) is Some && fin.at(landing)->0.color == color);
    assert(mid.at(dst) is Some && mid.at(dst)->0.color == color);
    assert(fin.at(dst) is Some && fin.at(dst)->0.color == color);
    assert(landing != dst ==> mid.at(landing) is None);
    assert(fin.at(corner) is None);
    assert(forall|c: Coord|
        c != corner && c != landing ==> (#[trigger] mid.at(c) is None) == (fin.at(c) is None));
    if mid.attacks(a, dst, by) || fin.attacks(a, dst, by) {
        assert(a != corner && a != landing && a != dst);
        assert(mid.at(a) is Some && fin.at(a) is Some);
        assert(a != src);
        assert(pos.at(a) == mid.at(a));
        assert(pos.at(a) == fin.at(a));
        let kind = pos.at(a)->0.piece_type;
        let sliding = kind == PieceType::Bishop || kind == PieceType::Rook || kind
            == PieceType::Queen;
        if sliding {
            if fin.path_clear(a, dst) {
                assert forall|k: int| 0 < k < distance(a, dst) implies mid.at(
                    #[trigger] along(a, dst, k),
                ) is None by {
                    let c = along(a, dst, k);
                    assert(fin.at(c) is None);
                    assert(c != corner);
                }
            }
            if mid.attacks(a, dst, by) && !fin.path_clear(a, dst) {
                let k = choose|k: int|
                    0 < k < distance(a, dst) && !(fin.at(#[trigger] along(a, dst, k)) is None);
                assert(mid.at(along(a, dst, k)) is None);
                assert(along(a, dst, k) == landing);
                assert(a.row == src.row);
                let reach = abs(a.col - src.col);
                if 0 < reach < distance(src, corner) && along(src, corner, reach) == a {
                    assert(pos.at(along(src, corner, reach)) is None);
                    assert(false);
                }
                assert(straight(a, src));
                assert(distance(a, src) == distance(a, dst) - 2);
                assert forall|j: int| 0 < j < distance(a, src) implies pos.at(
                    #[trigger] along(a, src, j),
                ) is None by {
                    assert(along(a, src, j) == along(a, dst, j));
                    assert(mid.at(along(a, dst, j)) is None);
                }
                assert(pos.attacks(a, src, by));
                assert(false);
            }
        }
    }
}

/// Whether the mover's king stands attacked can be judged before the move
/// is completed: marking the piece as moved and bringing the rook over
/// after castling change nothing to it.
pub proof fn lemma_gate_before_completion(pos: Position, src: Coord, dst: Coord)
    requires
        pos.wf(),
        src.on_board(),
        dst.on_board(),
        pos.validate(src, dst) is Ok,
    ensures
        pos.gate_position(src, dst).in_check(pos.grid[src].color) == pos.successor(
            src,
            dst,
        ).in_check(pos.grid[src].color),
{
    let mid = pos.gate_position(src, dst);
    let fin = pos.successor(src, dst);
    let color = pos.grid[src].color;
    let by = color.spec_opposite();
    let target = fin.king(color);
    assert(mid.king(color) == target);
    assert forall|a: Coord| a.on_board() implies mid.attacks(a, target, by) == fin.attacks(
        a,
        target,
        by,
    ) by {
        if pos.is_castling(src, dst) {
            assert(pos.at(src) == Some(pos.grid[src]));
            assert(target == dst);
            lemma_rook_keeps_attack(pos, src, dst, a);
        } else {
            lemma_attacks_by_kind(mid, fin, a, target, by);
        }
    }
    if mid.threatened(target, by) {
        let a = choose|a: Coord| a.on_board() && #[trigger] mid.attacks(a, target, by);
        assert(fin.attacks(a, target, by));
    }
    if fin.threatened(target, by) {
        let a = choose|a: Coord| a.on_board() && #[trigger] fin.attacks(a, target, by);
        assert(mid.attacks(a, target, by));
    }
}

/// After a move that is carried out, the king of the side that moved is not
/// attacked, and that side was the one to play.
pub proof fn lemma_no_self_check(pos: Position, src: Coord, dst: Coord)
    requires
        pos.wf(),
        src.on_board(),
        dst.on_board(),
    ensures
        pos.move_result(src, dst) matches Ok(next) ==> {
            &&& pos.validate(src, dst) is Ok
            &&& pos.at(src) matches Some(piece) && piece.color == pos.to_play
            &&& !next.in_check(pos.to_play)
            &&& !next.threatened(next.king(pos.to_play), pos.to_play.spec_opposite())
        },
{
    if pos.move_result(src, dst) is Ok {
        lemma_gate_before_completion(pos, src, dst);
    }
}

} // verus!
