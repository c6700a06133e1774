use game::board::CastleState;
use game::square::Error;
use game::{board_with_setup, Board, Color, Column, MoveError, Piece, PieceType, Square};

fn sq(text: &str) -> Square {
    Square::from_notation(text).unwrap()
}

fn play(board: Board, moves: &[(&str, &str)]) -> Board {
    let mut board = board;
    for (src, dst) in moves {
        board = board.move_notation(src, dst).unwrap();
    }
    board
}

#[test]
fn starting_position_pawn_push() {
    let next = board_with_setup().move_notation("e2", "e4").unwrap();
    assert_eq!(
        next.to_fen(),
        "rnbqkbnr/pppppppp/8/8/4P3/8/PPPP1PPP/RNBQKBNR b KQkq e4 0 1"
    );
    assert_eq!(next.to_play(), Color::Black);
    assert_eq!(next.half_move_clock(), 0);
    assert_eq!(next.at(&sq("e2")), None);
    assert_eq!(
        next.at(&sq("e4")),
        Some(Piece { piece_type: PieceType::Pawn, color: Color::White, moved_once: true })
    );
}

#[test]
fn blocked_bishop_is_obstructed_by_own_pawn() {
    let err = board_with_setup().move_notation("c1", "d2").unwrap_err();
    assert_eq!(err, MoveError::DestinationObstructed);
}

#[test]
fn bishop_path_obstructed() {
    let err = board_with_setup().move_notation("c1", "e3").unwrap_err();
    assert_eq!(err, MoveError::PathObstructed);
}

#[test]
fn queen_blocked_is_invalid_move() {
    let err = board_with_setup().move_notation("d1", "d3").unwrap_err();
    assert_eq!(err, MoveError::InvalidMove);
}

#[test]
fn illegal_knight_move() {
    let err = board_with_setup().move_notation("b1", "b3").unwrap_err();
    assert_eq!(err, MoveError::InvalidMove);
}

#[test]
fn empty_source_has_no_piece() {
    let err = board_with_setup().move_notation("e4", "e5").unwrap_err();
    assert_eq!(err, MoveError::NoPieceToMove);
}

#[test]
fn bad_notation_is_reported() {
    let board = board_with_setup();
    assert_eq!(
        board.move_notation("e22", "e4").unwrap_err(),
        MoveError::InvalidSquare { source: Error::ParseError }
    );
    assert_eq!(
        board.move_notation("e2", "z4").unwrap_err(),
        MoveError::InvalidSquare { source: Error::InvalidColumn }
    );
}

#[test]
fn wrong_player_is_refused() {
    let err = board_with_setup().move_notation("e7", "e5").unwrap_err();
    assert_eq!(err, MoveError::WrongPlayer);
}

#[test]
fn null_move_is_refused_for_every_kind() {
    let board = board_with_setup();
    for text in ["a1", "b1", "c1", "d1", "e1", "e2", "a8", "e8", "h7"] {
        let err = board.move_notation(text, text).unwrap_err();
        assert_eq!(err, MoveError::DestinationObstructed);
    }
    assert_eq!(board.move_notation("e4", "e4").unwrap_err(), MoveError::NoPieceToMove);
}

#[test]
fn castling_rights_removal() {
    let start = Board::from_fen("4k3/8/8/8/8/8/8/4K2R w K - 0 1").unwrap();
    assert_eq!(start.get_castle_state(Color::White), CastleState::Kingside);
    let board = play(start, &[("e1", "e2"), ("e8", "d8"), ("e2", "e1"), ("d8", "e8")]);
    assert_eq!(board.get_castle_state(Color::White), CastleState::Neither);
    assert_eq!(board.move_notation("e1", "g1").unwrap_err(), MoveError::CannotCastle);
}

#[test]
fn castling_moves_the_rook() {
    let start = Board::from_fen("4k3/8/8/8/8/8/8/R3K2R w KQ - 0 1").unwrap();
    assert_eq!(start.get_castle_state(Color::White), CastleState::Both);
    let short = start.move_notation("e1", "g1").unwrap();
    assert_eq!(short.to_fen(), "4k3/8/8/8/8/8/8/R4RK1 b - - 1 1");
    assert_eq!(short.king_position(Color::White), sq("g1"));
    let long = start.move_notation("e1", "c1").unwrap();
    assert_eq!(long.to_fen(), "4k3/8/8/8/8/8/8/2KR3R b - - 1 1");
}

#[test]
fn castling_needs_a_clear_path() {
    let start = Board::from_fen("4k3/8/8/8/8/8/8/RN2K2R w KQ - 0 1").unwrap();
    assert_eq!(start.move_notation("e1", "c1").unwrap_err(), MoveError::CannotCastle);
}

#[test]
fn castling_out_of_check_is_refused() {
    let start = Board::from_fen("4r1k1/8/8/8/8/8/8/4K2R w K - 0 1").unwrap();
    assert_eq!(start.move_notation("e1", "g1").unwrap_err(), MoveError::CannotCastle);
}

#[test]
fn castling_through_check_is_refused() {
    let start = Board::from_fen("5rk1/8/8/8/8/8/8/4K2R w K - 0 1").unwrap();
    assert_eq!(
        start.move_notation("e1", "g1").unwrap_err(),
        MoveError::CannotCastleThroughCheck
    );
}

#[test]
fn castling_into_check_is_refused() {
    let start = Board::from_fen("6r1/k7/8/8/8/8/8/4K2R w K - 0 1").unwrap();
    assert_eq!(start.move_notation("e1", "g1").unwrap_err(), MoveError::PutSelfInCheck);
}

#[test]
fn en_passant_window() {
    let board = play(
        board_with_setup(),
        &[("e2", "e4"), ("a7", "a6"), ("e4", "e5"), ("d7", "d5")],
    );
    assert_eq!(board.en_passant_square(), Some(sq("d5")));
    let taken = board.move_notation("e5", "d6").unwrap();
    assert_eq!(taken.at(&sq("d5")), None);
    assert_eq!(taken.at(&sq("e5")), None);
    assert_eq!(
        taken.at(&sq("d6")),
        Some(Piece { piece_type: PieceType::Pawn, color: Color::White, moved_once: true })
    );
    assert_eq!(taken.half_move_clock(), 0);
    assert_eq!(taken.en_passant_square(), None);

    let later = play(board, &[("h2", "h3"), ("h7", "h6")]);
    assert_eq!(later.en_passant_square(), None);
    assert_eq!(later.move_notation("e5", "d6").unwrap_err(), MoveError::InvalidMove);
}

#[test]
fn clocks_follow_the_moves() {
    let board = play(board_with_setup(), &[("g1", "f3")]);
    assert_eq!(board.half_move_clock(), 1);
    assert_eq!(board.full_move_clock(), 1);
    let board = play(board, &[("g8", "f6")]);
    assert_eq!(board.half_move_clock(), 2);
    assert_eq!(board.full_move_clock(), 2);
    let board = play(board, &[("e2", "e4"), ("f6", "e4")]);
    assert_eq!(board.half_move_clock(), 0);
    assert_eq!(board.full_move_clock(), 3);
    assert_eq!(board.to_play(), Color::White);
}

#[test]
fn rejected_move_leaves_the_board_as_it_was() {
    let board = board_with_setup();
    let before = board.to_fen();
    assert!(board.move_notation("a1", "a5").is_err());
    assert_eq!(board.to_fen(), before);
}

#[test]
fn no_accepted_move_leaves_the_mover_in_check() {
    let board = Board::from_fen("4k3/8/8/8/8/2b5/3P4/4K3 w - - 0 1").unwrap();
    let squares: Vec<Square> = (0..8usize)
        .flat_map(|r| {
            [
                Column::A,
                Column::B,
                Column::C,
                Column::D,
                Column::E,
                Column::F,
                Column::G,
                Column::H,
            ]
            .into_iter()
            .map(move |c| Square::new(c, r))
        })
        .collect();
    let mut accepted = 0;
    for src in &squares {
        for dst in &squares {
            if let Ok(next) = board.move_piece(src, dst) {
                accepted += 1;
                assert!(!next.validate_check(Color::White));
            }
        }
    }
    assert_eq!(accepted, 5);
}

#[test]
fn threats_in_the_starting_position() {
    let board = board_with_setup();
    assert!(board.validate_square_threatened(&sq("e3"), Color::White));
    assert!(board.validate_square_threatened(&sq("f3"), Color::White));
    assert!(board.validate_square_threatened(&sq("a6"), Color::Black));
    assert!(!board.validate_square_threatened(&sq("e4"), Color::White));
    assert!(!board.validate_square_threatened(&sq("e4"), Color::Black));
    assert!(!board.validate_square_threatened(&sq("e3"), Color::Black));
}

#[test]
fn pawns_threaten_forwards_only() {
    let board = Board::from_fen("4k3/8/8/8/3P4/8/8/4K3 w - - 0 1").unwrap();
    assert!(board.validate_square_threatened(&sq("c5"), Color::White));
    assert!(board.validate_square_threatened(&sq("e5"), Color::White));
    assert!(!board.validate_square_threatened(&sq("c3"), Color::White));
    assert!(!board.validate_square_threatened(&sq("e3"), Color::White));
    assert!(!board.validate_square_threatened(&sq("d5"), Color::White));
}

#[test]
fn kings_threaten_nothing() {
    let board = Board::from_fen("4k3/8/8/8/8/8/8/4K3 w - - 0 1").unwrap();
    assert!(!board.validate_square_threatened(&sq("e2"), Color::White));
    assert!(!board.validate_square_threatened(&sq("d8"), Color::Black));
}

#[test]
fn first_piece_on_a_ray_shields_the_rest() {
    let board = Board::from_fen("4k3/8/8/8/8/8/8/R1N1K3 w - - 0 1").unwrap();
    assert!(board.validate_square_threatened(&sq("b1"), Color::White));
    assert!(!board.validate_square_threatened(&sq("d1"), Color::White));
    assert!(board.validate_square_threatened(&sq("a8"), Color::White));
}

#[test]
fn threat_matches_an_accepted_capture() {
    let board = Board::from_fen("4k3/8/8/3p4/8/2N5/8/4K3 w - - 0 1").unwrap();
    assert!(board.validate_square_threatened(&sq("d5"), Color::White));
    assert!(board.validate_move(&sq("c3"), &sq("d5")).is_ok());
    let board = Board::from_fen("4k3/8/8/3p4/8/8/2N5/4K3 w - - 0 1").unwrap();
    assert!(!board.validate_square_threatened(&sq("d5"), Color::White));
    assert_eq!(board.validate_move(&sq("c2"), &sq("d5")), Err(MoveError::InvalidMove));
}

#[test]
fn pawn_double_step_needs_the_home_row() {
    let board = Board::from_fen("4k3/8/8/8/8/4P3/8/4K3 w - - 0 1").unwrap();
    assert_eq!(board.move_notation("e3", "e5").unwrap_err(), MoveError::InvalidMove);
    let board = Board::from_fen("4k3/8/8/8/8/8/4P3/4K3 w - - 0 1").unwrap();
    assert!(board.move_notation("e2", "e4").is_ok());
}

#[test]
fn pawn_cannot_capture_straight_ahead() {
    let board = Board::from_fen("4k3/8/8/8/8/4p3/4P3/4K3 w - - 0 1").unwrap();
    assert_eq!(board.move_notation("e2", "e3").unwrap_err(), MoveError::InvalidMove);
}

#[test]
fn setup_places_the_pieces() {
    let board = board_with_setup();
    assert_eq!(board.at(&sq("e1")), Some(Piece::new(PieceType::King, Color::White)));
    assert_eq!(board.at(&sq("d8")), Some(Piece::new(PieceType::Queen, Color::Black)));
    assert_eq!(board.at(&sq("a2")), Some(Piece::new(PieceType::Pawn, Color::White)));
    assert_eq!(board.at(&sq("h7")), Some(Piece::new(PieceType::Pawn, Color::Black)));
    assert_eq!(board.at(&sq("e4")), None);
    assert_eq!(board.get_castle_state(Color::White), CastleState::Both);
    assert_eq!(board.get_castle_state(Color::Black), CastleState::Both);
    assert_eq!(board.king_position(Color::Black), sq("e8"));
}

#[test]
fn place_and_clear() {
    let mut board = Board::default();
    assert_eq!(board.at(&sq("c3")), None);
    board.place_piece(&sq("c3"), Piece::new(PieceType::Knight, Color::Black));
    assert_eq!(board.at(&sq("c3")), Some(Piece::new(PieceType::Knight, Color::Black)));
    board.clear();
    assert_eq!(board.at(&sq("c3")), None);
    assert_eq!(board.to_play(), Color::White);
    assert_eq!(board.full_move_clock(), 1);
}

#[test]
fn opposite_colors() {
    assert_eq!(Color::White.opposite(), Color::Black);
    assert_eq!(Color::Black.opposite(), Color::White);
}

#[test]
fn messages_for_the_player() {
    assert_eq!(MoveError::NoPieceToMove.message(), "There is no piece there!");
    assert_eq!(MoveError::InvalidMove.message(), "This piece doesn't move like that!");
    assert_eq!(MoveError::DestinationObstructed.message(), "You cannot take your own pieces.");
    assert_eq!(MoveError::PathObstructed.message(), "The path is obstructed.");
    assert_eq!(MoveError::PutSelfInCheck.message(), "You can't put yourself in check.");
    assert_eq!(
        MoveError::InvalidSquare { source: Error::ParseError }.message(),
        "Invalid notation."
    );
    assert_eq!(MoveError::CannotCastle.message(), "Invalid castling condition.");
    assert_eq!(MoveError::CannotCastleThroughCheck.message(), "Cannot castle through check.");
    assert_eq!(MoveError::WrongPlayer.message(), "Not your turn to play.");
}

#[test]
fn setup_keeps_the_rest_of_the_board() {
    let mut board = play(board_with_setup(), &[("e2", "e4")]);
    game::setup::setup_board(&mut board);
    assert_eq!(
        board.to_fen(),
        "rnbqkbnr/pppppppp/8/8/8/8/PPPPPPPP/RNBQKBNR b KQkq e4 0 1"
    );
}

#[test]
fn validation_checks_source_then_destination_then_kind() {
    let board = board_with_setup();
    assert_eq!(board.validate_move(&sq("e3"), &sq("e2")), Err(MoveError::NoPieceToMove));
    assert_eq!(board.validate_move(&sq("a1"), &sq("a2")), Err(MoveError::DestinationObstructed));
    assert_eq!(board.validate_move(&sq("a1"), &sq("b3")), Err(MoveError::InvalidMove));
    assert_eq!(board.validate_move(&sq("a1"), &sq("a4")), Err(MoveError::PathObstructed));
    assert_eq!(board.validate_move(&sq("e7"), &sq("e5")), Ok(()));
    assert_eq!(board.validate_move(&sq("b1"), &sq("c3")), Ok(()));
    assert_eq!(board.validate_move(&sq("e1"), &sq("g1")), Err(MoveError::DestinationObstructed));
    assert_eq!(board.validate_move(&sq("e2"), &sq("e5")), Err(MoveError::InvalidMove));
}

#[test]
fn rook_and_bishop_and_queen_lines() {
    let board = Board::from_fen("4k3/8/8/8/4Q3/8/8/R3K2B w - - 0 1").unwrap();
    assert!(board.move_notation("a1", "a8").is_ok());
    assert!(board.move_notation("a1", "d1").is_ok());
    assert_eq!(board.move_notation("a1", "f1").unwrap_err(), MoveError::PathObstructed);
    assert_eq!(board.move_notation("a1", "b2").unwrap_err(), MoveError::InvalidMove);
    assert!(board.move_notation("h1", "f3").is_ok());
    assert_eq!(board.move_notation("h1", "e4").unwrap_err(), MoveError::DestinationObstructed);
    assert_eq!(board.move_notation("h1", "d5").unwrap_err(), MoveError::PathObstructed);
    assert_eq!(board.move_notation("h1", "h3").unwrap_err(), MoveError::InvalidMove);
    assert!(board.move_notation("e4", "e7").is_ok());
    assert!(board.move_notation("e4", "a8").is_ok());
    assert!(board.move_notation("e4", "h4").is_ok());
    assert!(board.move_notation("e4", "b1").is_ok());
    assert_eq!(board.move_notation("e4", "f6").unwrap_err(), MoveError::InvalidMove);
}

#[test]
fn king_steps_one_square() {
    let board = Board::from_fen("4k3/8/8/8/8/8/8/4K3 w - - 0 1").unwrap();
    for dst in ["d1", "f1", "d2", "e2", "f2"] {
        let next = board.move_notation("e1", dst).unwrap();
        assert_eq!(next.king_position(Color::White), sq(dst));
        assert_eq!(next.king_position(Color::Black), sq("e8"));
    }
    assert_eq!(board.move_notation("e1", "e3").unwrap_err(), MoveError::InvalidMove);
    assert_eq!(board.move_notation("e1", "g2").unwrap_err(), MoveError::InvalidMove);
    assert_eq!(board.move_notation("e1", "g1").unwrap_err(), MoveError::CannotCastle);
}

#[test]
fn capture_resets_the_half_move_clock() {
    let board = Board::from_fen("4k3/8/8/3p4/8/2N5/8/4K3 w - - 7 9").unwrap();
    let quiet = board.move_notation("c3", "e4").unwrap();
    assert_eq!(quiet.half_move_clock(), 8);
    assert_eq!(quiet.full_move_clock(), 9);
    let capture = board.move_notation("c3", "d5").unwrap();
    assert_eq!(capture.half_move_clock(), 0);
    assert_eq!(capture.to_fen(), "4k3/8/8/3N4/8/8/8/4K3 b - - 0 9");
}

#[test]
fn black_castles_too() {
    let board = Board::from_fen("r3k2r/8/8/8/8/8/8/4K3 b kq - 0 1").unwrap();
    assert_eq!(board.get_castle_state(Color::Black), CastleState::Both);
    assert_eq!(board.get_castle_state(Color::White), CastleState::Neither);
    let short = board.move_notation("e8", "g8").unwrap();
    assert_eq!(short.to_fen(), "r4rk1/8/8/8/8/8/8/4K3 w - - 1 2");
    let long = board.move_notation("e8", "c8").unwrap();
    assert_eq!(long.to_fen(), "2kr3r/8/8/8/8/8/8/4K3 w - - 1 2");
}
