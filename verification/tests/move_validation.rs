use game::{Board, MoveError};

const STARTING: &str = "rnbqkbnr/pppppppp/8/8/8/8/PPPPPPPP/RNBQKBNR w KQkq - 0 1\n";
const E3: &str = "rnbqkbnr/pppppppp/8/8/8/4P3/PPPP1PPP/RNBQKBNR w KQkq - 0 1\n";
const E6: &str = "rnbqkbnr/pppp1ppp/4p3/8/8/8/PPPPPPPP/RNBQKBNR b KQkq - 0 1\n";
const EMPTY_KNIGHT: &str = "4k3/8/8/8/4N3/8/8/4K3 w - - 0 1\n";
const KNIGHT_BOXED: &str = "4k3/8/8/3ppp2/3pNp2/3ppp2/8/4K3 w - - 0 1\n";
const PINNED_PAWN: &str = "4k3/8/8/8/8/2b5/3P4/4K3 w - - 0 1\n";
const CHECK_THROUGH_PIECE: &str = "4k3/8/8/8/8/8/5K2/r1B5 w - - 0 1\n";
const EN_PASSANT: &str = "4k3/8/8/8/4pP2/8/8/4K3 b - f4 0 1\n";
const EN_PASSANT_EXPIRED: &str = "4k3/8/8/8/4pP2/8/8/4K3 b - - 1 1\n";

fn valid(position: &str, src: &str, dst: &str) {
    let board = Board::from_fen(position).unwrap();
    board.move_notation(src, dst).unwrap();
}

fn invalid(position: &str, src: &str, dst: &str, exp_err: MoveError) {
    let board = Board::from_fen(position).unwrap();
    let pos = board.move_notation(src, dst);
    let err = pos.err().unwrap();
    assert_eq!(exp_err, err);
}

#[test]
fn cant_check_through_piece() {
    valid(CHECK_THROUGH_PIECE, "f2", "e1");
}

#[test]
fn cant_move_pinned_piece() {
    invalid(PINNED_PAWN, "d2", "d3", MoveError::PutSelfInCheck);
}

#[test]
fn can_take_when_pinned() {
    valid(PINNED_PAWN, "d2", "c3");
}

#[test]
fn pawn_first_move_one_square() {
    valid(STARTING, "d2", "d3");
}

#[test]
fn pawn_first_move_two_squares() {
    valid(STARTING, "d2", "d4");
}

#[test]
fn pawn_cant_go_backward_white() {
    invalid(E3, "e3", "e2", MoveError::InvalidMove);
}

#[test]
fn pawn_cant_go_backward_black() {
    invalid(E6, "e6", "e7", MoveError::InvalidMove);
}

#[test]
fn pawn_cant_move_two_after_first_move() {
    invalid(E3, "e3", "e5", MoveError::InvalidMove);
}

#[test]
fn pawn_en_passant() {
    valid(EN_PASSANT, "e4", "f3");
}

#[test]
fn pawn_en_passant_expires() {
    invalid(EN_PASSANT_EXPIRED, "e4", "f3", MoveError::InvalidMove);
}

#[test]
fn pawn_cant_move_side_to_side() {
    invalid(E3, "e3", "d3", MoveError::InvalidMove);
}

#[test]
fn knight_movement_1() {
    valid(EMPTY_KNIGHT, "e4", "d6");
}

#[test]
fn knight_movement_2() {
    valid(EMPTY_KNIGHT, "e4", "f6");
}

#[test]
fn knight_movement_3() {
    valid(EMPTY_KNIGHT, "e4", "c5");
}

#[test]
fn knight_movement_4() {
    valid(EMPTY_KNIGHT, "e4", "g5");
}

#[test]
fn knight_movement_5() {
    valid(EMPTY_KNIGHT, "e4", "c3");
}

#[test]
fn knight_movement_6() {
    valid(EMPTY_KNIGHT, "e4", "g3");
}

#[test]
fn knight_movement_7() {
    valid(EMPTY_KNIGHT, "e4", "d2");
}

#[test]
fn knight_movement_8() {
    valid(EMPTY_KNIGHT, "e4", "f2");
}

#[test]
fn knight_cant_move_straight() {
    invalid(EMPTY_KNIGHT, "e4", "e5", MoveError::InvalidMove);
}

#[test]
fn knight_cant_move_diagonally() {
    invalid(EMPTY_KNIGHT, "e4", "f5", MoveError::InvalidMove);
}

#[test]
fn knight_goes_over_pieces() {
    valid(KNIGHT_BOXED, "e4", "d6");
}
