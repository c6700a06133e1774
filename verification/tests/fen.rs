use game::board::CastleState;
use game::board_fen::FenError;
use game::pieces::PieceError;
use game::square::Error;
use game::text::NumberError;
use game::{board_with_setup, Board, Color, Piece, PieceType, Square};

const STARTING: &str = "rnbqkbnr/pppppppp/8/8/8/8/PPPPPPPP/RNBQKBNR w KQkq - 0 1";

fn sq(text: &str) -> Square {
    Square::from_notation(text).unwrap()
}

#[test]
fn starting_position_text() {
    assert_eq!(board_with_setup().to_fen(), STARTING);
}

#[test]
fn reading_the_starting_position() {
    let board = Board::from_fen(STARTING).unwrap();
    let setup = board_with_setup();
    for row in 0..8 {
        for col in 0..8 {
            assert_eq!(board.board[col][row], setup.board[col][row]);
        }
    }
    assert_eq!(board.to_play(), Color::White);
    assert_eq!(board.half_move_clock(), 0);
    assert_eq!(board.full_move_clock(), 1);
    assert_eq!(board.en_passant_square(), None);
    assert_eq!(board.king_position(Color::White), sq("e1"));
    assert_eq!(board.king_position(Color::Black), sq("e8"));
}

#[test]
fn text_round_trip() {
    for text in [
        STARTING,
        "rnbqkbnr/pppppppp/8/8/4P3/8/PPPP1PPP/RNBQKBNR b KQkq e4 0 1",
        "r3k2r/8/8/8/8/8/8/R3K2R w KQkq - 12 34",
        "r3k2r/8/8/8/8/8/8/R3K2R b Kq - 0 100",
        "4k3/8/8/8/8/8/8/4K3 w - - 99 1234567",
        "8/1k6/8/3pP3/8/8/6K1/8 w - d5 0 42",
    ] {
        let board = Board::from_fen(text).unwrap();
        assert_eq!(board.to_fen(), text);
    }
}

#[test]
fn round_trip_after_moves() {
    let mut board = board_with_setup();
    for (src, dst) in [("e2", "e4"), ("e7", "e5"), ("g1", "f3"), ("b8", "c6"), ("f1", "c4"), ("g8", "f6"), ("e1", "g1"), ("h8", "g8")] {
        board = board.move_notation(src, dst).unwrap();
        let text = board.to_fen();
        let read = Board::from_fen(&text).unwrap();
        assert_eq!(read.to_fen(), text);
        assert_eq!(read.to_play(), board.to_play());
        assert_eq!(read.half_move_clock(), board.half_move_clock());
        assert_eq!(read.full_move_clock(), board.full_move_clock());
        assert_eq!(read.en_passant_square(), board.en_passant_square());
        assert_eq!(read.get_castle_state(Color::White), board.get_castle_state(Color::White));
        assert_eq!(read.get_castle_state(Color::Black), board.get_castle_state(Color::Black));
        assert_eq!(read.king_position(Color::White), board.king_position(Color::White));
        assert_eq!(read.king_position(Color::Black), board.king_position(Color::Black));
    }
    assert_eq!(board.to_fen(), "r1bqkbr1/pppp1ppp/2n2n2/4p3/2B1P3/5N2/PPPP1PPP/RNBQ1RK1 w q - 6 5");
}

#[test]
fn surrounding_white_space_is_ignored() {
    let board = Board::from_fen("  \n4k3/8/8/8/8/8/8/4K3 w - - 0 1\t\n").unwrap();
    assert_eq!(board.to_fen(), "4k3/8/8/8/8/8/8/4K3 w - - 0 1");
}

#[test]
fn castling_field_marks_the_pieces() {
    let board = Board::from_fen("r3k2r/8/8/8/8/8/8/R3K2R w Kq - 0 1").unwrap();
    assert!(!board.at(&sq("e1")).unwrap().moved_once);
    assert!(!board.at(&sq("h1")).unwrap().moved_once);
    assert!(board.at(&sq("a1")).unwrap().moved_once);
    assert!(!board.at(&sq("e8")).unwrap().moved_once);
    assert!(board.at(&sq("h8")).unwrap().moved_once);
    assert!(!board.at(&sq("a8")).unwrap().moved_once);
    let board = Board::from_fen("r3k2r/8/8/8/8/8/8/R3K2R w - - 0 1").unwrap();
    assert!(board.at(&sq("e1")).unwrap().moved_once);
    assert!(board.at(&sq("e8")).unwrap().moved_once);
}

#[test]
fn rooks_away_from_home_count_as_moved() {
    let board = Board::from_fen("4k3/8/8/8/3R4/8/8/4K2R w K - 0 1").unwrap();
    assert!(board.at(&sq("d4")).unwrap().moved_once);
    assert!(!board.at(&sq("h1")).unwrap().moved_once);
    assert_eq!(
        board.at(&sq("d4")).unwrap().piece_type,
        PieceType::Rook
    );
}

#[test]
fn a_board_without_kings_is_read() {
    let board = Board::from_fen("8/8/8/8/4N3/8/8/8 w - - 0 1").unwrap();
    assert_eq!(board.at(&sq("e4")), Some(Piece::new(PieceType::Knight, Color::White)));
    assert_eq!(board.to_fen(), "8/8/8/8/4N3/8/8/8 w - - 0 1");
}

#[test]
fn field_count_is_checked() {
    assert_eq!(Board::from_fen("").unwrap_err(), FenError::InvalidFEN);
    assert_eq!(
        Board::from_fen("4k3/8/8/8/8/8/8/4K3 w - - 0").unwrap_err(),
        FenError::InvalidFEN
    );
    assert_eq!(
        Board::from_fen("4k3/8/8/8/8/8/8/4K3 w - - 0 1 x").unwrap_err(),
        FenError::InvalidFEN
    );
    assert_eq!(
        Board::from_fen("4k3/8/8/8/8/8/8/4K3 w  - - 0 1").unwrap_err(),
        FenError::InvalidFEN
    );
}

#[test]
fn rows_and_columns_are_counted() {
    assert_eq!(
        Board::from_fen("4k3/8/8/8/8/8/4K3 w - - 0 1").unwrap_err(),
        FenError::InvalidRowCount
    );
    assert_eq!(
        Board::from_fen("4k3/8/8/8/8/8/8/4K3/8 w - - 0 1").unwrap_err(),
        FenError::InvalidRowCount
    );
    assert_eq!(
        Board::from_fen("4k3/8/8/8/8/8/8/4K3/4P3 w - - 0 1").unwrap_err(),
        FenError::TooManyRows
    );
    assert_eq!(
        Board::from_fen("4k2/8/8/8/8/8/8/4K3 w - - 0 1").unwrap_err(),
        FenError::InvalidColCount
    );
    assert_eq!(
        Board::from_fen("4k4/8/8/8/8/8/8/4K3 w - - 0 1").unwrap_err(),
        FenError::InvalidColCount
    );
    assert_eq!(
        Board::from_fen("8k/8/8/8/8/8/8/4K3 w - - 0 1").unwrap_err(),
        FenError::TooManyCols
    );
}

#[test]
fn pieces_and_side_are_checked() {
    assert_eq!(
        Board::from_fen("4x3/8/8/8/8/8/8/4K3 w - - 0 1").unwrap_err(),
        FenError::InvalidPiece { source: PieceError::InvalidNotation }
    );
    assert_eq!(
        Board::from_fen("4k3/8/8/8/8/8/8/4K3 x - - 0 1").unwrap_err(),
        FenError::InvalidColorToPlay { source: PieceError::InvalidNotation }
    );
    assert_eq!(Board::from_fen("4k3/8/8/8/8/8/8/4K3 B - - 0 1").unwrap().to_play(), Color::Black);
}

#[test]
fn en_passant_and_clocks_are_checked() {
    assert_eq!(
        Board::from_fen("4k3/8/8/8/8/8/8/4K3 w - e9 0 1").unwrap_err(),
        FenError::InvalidEnPassant { source: Error::RowTooBig }
    );
    assert_eq!(
        Board::from_fen("4k3/8/8/8/8/8/8/4K3 w - -- 0 1").unwrap_err(),
        FenError::InvalidEnPassant { source: Error::InvalidColumn }
    );
    assert_eq!(
        Board::from_fen("4k3/8/8/8/8/8/8/4K3 w - - x 1").unwrap_err(),
        FenError::InvalidHalfMoveClock { source: NumberError::InvalidDigit }
    );
    assert_eq!(
        Board::from_fen("4k3/8/8/8/8/8/8/4K3 w - - 0 -1").unwrap_err(),
        FenError::InvalidFullMoveClock { source: NumberError::InvalidDigit }
    );
    assert_eq!(
        Board::from_fen("4k3/8/8/8/8/8/8/4K3 w - - 0 99999999999999999999999999").unwrap_err(),
        FenError::InvalidFullMoveClock { source: NumberError::PosOverflow }
    );
    let board = Board::from_fen("4k3/8/8/8/8/8/8/4K3 w - - +7 0012").unwrap();
    assert_eq!(board.half_move_clock(), 7);
    assert_eq!(board.full_move_clock(), 12);
}

#[test]
fn first_error_wins() {
    assert_eq!(
        Board::from_fen("4k2/8/8/8/8/8/8/4K3 x - e9 y z").unwrap_err(),
        FenError::InvalidColCount
    );
    assert_eq!(
        Board::from_fen("4k3/8/8/8/8/8/8/4K3 x - e9 y z").unwrap_err(),
        FenError::InvalidColorToPlay { source: PieceError::InvalidNotation }
    );
    assert_eq!(
        Board::from_fen("4k3/8/8/8/8/8/8/4K3 w - e9 y z").unwrap_err(),
        FenError::InvalidEnPassant { source: Error::RowTooBig }
    );
}

#[test]
fn empty_board_text() {
    assert_eq!(Board::default().to_fen(), "8/8/8/8/8/8/8/8 w - - 0 1");
}

#[test]
fn castle_letters() {
    assert_eq!(CastleState::Both.to_fen(Color::White), "KQ");
    assert_eq!(CastleState::Kingside.to_fen(Color::White), "K");
    assert_eq!(CastleState::Queenside.to_fen(Color::Black), "q");
    assert_eq!(CastleState::Both.to_fen(Color::Black), "kq");
    assert_eq!(CastleState::Neither.to_fen(Color::Black), "");
}

#[test]
fn characters_of_a_text() {
    assert_eq!(game::text::chars_of("a b"), vec!['a', ' ', 'b']);
    assert_eq!(game::text::chars_of(""), Vec::<char>::new());
    let mut text = String::from("n=");
    game::text::append_decimal(&mut text, 1203);
    game::text::append_decimal(&mut text, 0);
    assert_eq!(text, "n=12030");
}
