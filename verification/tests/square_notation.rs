use game::pieces::PieceError;
use game::square::{column_at, column_index, Error};
use game::text::{parse_decimal, split_chars, trimmed, NumberError};
use game::{Color, Column, Piece, PieceType, Square};

const COLUMNS: [Column; 8] = [
    Column::A,
    Column::B,
    Column::C,
    Column::D,
    Column::E,
    Column::F,
    Column::G,
    Column::H,
];

#[test]
fn notation_reads_e4() {
    let sq = Square::from_notation("e4").unwrap();
    assert_eq!(sq, Square::new(Column::E, 3));
    assert_eq!(Square::from_notation("E4").unwrap(), sq);
}

#[test]
fn notation_rejects_bad_text() {
    assert_eq!(Square::from_notation(""), Err(Error::ParseError));
    assert_eq!(Square::from_notation("e"), Err(Error::ParseError));
    assert_eq!(Square::from_notation("e44"), Err(Error::ParseError));
    assert_eq!(Square::from_notation("e\u{e9}"), Err(Error::ParseError));
    assert_eq!(Square::from_notation("i4"), Err(Error::InvalidColumn));
    assert_eq!(
        Square::from_notation("ex"),
        Err(Error::InvalidRow { source: NumberError::InvalidDigit })
    );
    assert_eq!(Square::from_notation("e0"), Err(Error::RowTooBig));
    assert_eq!(Square::from_notation("e9"), Err(Error::RowTooBig));
}

#[test]
fn notation_round_trip_on_every_square() {
    for col in COLUMNS {
        for row in 0..8 {
            let sq = Square::new(col, row);
            let text = sq.to_notation();
            assert_eq!(text.chars().count(), 2);
            assert_eq!(Square::from_notation(&text), Ok(sq));
        }
    }
    assert_eq!(Square::new(Column::A, 0).to_notation(), "a1");
    assert_eq!(Square::new(Column::H, 7).to_notation(), "h8");
}

#[test]
fn columns_convert_to_indices_and_back() {
    for (i, col) in COLUMNS.into_iter().enumerate() {
        assert_eq!(usize::from(col), i);
        assert_eq!(column_index(col), i);
        assert_eq!(Column::try_from(i), Ok(col));
        assert_eq!(column_at(i), col);
    }
    assert_eq!(Column::try_from(8usize), Err(Error::ParseError));
    assert_eq!(Column::C.to_string(), "C");
    assert_eq!(Column::C.lower_str(), "c");
}

#[test]
fn steps_stay_on_the_board() {
    let e4 = Square::new(Column::E, 3);
    assert_eq!(e4.next_col(), Some(Square::new(Column::F, 3)));
    assert_eq!(e4.prev_col(), Some(Square::new(Column::D, 3)));
    assert_eq!(e4.next_row(), Some(Square::new(Column::E, 4)));
    assert_eq!(e4.prev_row(), Some(Square::new(Column::E, 2)));
    assert_eq!(e4.col_move(3), Some(Square::new(Column::H, 3)));
    assert_eq!(e4.col_move(4), None);
    assert_eq!(e4.col_move(-4), Some(Square::new(Column::A, 3)));
    assert_eq!(e4.col_move(-5), None);
    assert_eq!(e4.row_move(4), Some(Square::new(Column::E, 7)));
    assert_eq!(e4.row_move(5), None);
    assert_eq!(e4.row_move(-3), Some(Square::new(Column::E, 0)));
    assert_eq!(e4.row_move(-4), None);
    assert_eq!(e4.row_move(0), Some(e4));
    assert_eq!(e4.relative(1, 2), Some(Square::new(Column::F, 5)));
    assert_eq!(e4.relative(-2, -1), Some(Square::new(Column::C, 2)));
    assert_eq!(e4.relative(4, 0), None);
    assert_eq!(e4.relative(0, i32::MIN), None);
    assert_eq!(e4.relative(i32::MAX, 0), None);
    assert_eq!(Square::new(Column::A, 0).prev_col(), None);
    assert_eq!(Square::new(Column::A, 0).prev_row(), None);
    assert_eq!(Square::new(Column::H, 7).next_col(), None);
    assert_eq!(Square::new(Column::H, 7).next_row(), None);
}

#[test]
fn piece_letters() {
    assert_eq!(Piece::from_notation('p'), Ok(Piece::new(PieceType::Pawn, Color::Black)));
    assert_eq!(Piece::from_notation('P'), Ok(Piece::new(PieceType::Pawn, Color::White)));
    assert_eq!(Piece::from_notation('N'), Ok(Piece::new(PieceType::Knight, Color::White)));
    assert_eq!(Piece::from_notation('b'), Ok(Piece::new(PieceType::Bishop, Color::Black)));
    assert_eq!(Piece::from_notation('R'), Ok(Piece::new(PieceType::Rook, Color::White)));
    assert_eq!(Piece::from_notation('q'), Ok(Piece::new(PieceType::Queen, Color::Black)));
    assert_eq!(Piece::from_notation('K'), Ok(Piece::new(PieceType::King, Color::White)));
    assert_eq!(Piece::from_notation('x'), Err(PieceError::InvalidNotation));
    assert_eq!(Piece::from_notation('1'), Err(PieceError::InvalidNotation));
    assert_eq!(Piece::new(PieceType::Queen, Color::White).to_fen(), "Q");
    assert_eq!(Piece::new(PieceType::Knight, Color::Black).to_fen(), "n");
    assert!(!Piece::new(PieceType::Knight, Color::Black).moved_once);
}

#[test]
fn kinds_and_sides_from_text() {
    assert_eq!(Color::try_from("w".to_string()), Ok(Color::White));
    assert_eq!(Color::try_from("B".to_string()), Ok(Color::Black));
    assert_eq!(Color::try_from("x".to_string()), Err(PieceError::InvalidNotation));
    assert_eq!(Color::try_from("wb".to_string()), Err(PieceError::InvalidNotation));
    assert_eq!(Color::White.letter_str(), "w");
    assert_eq!(PieceType::try_from("k".to_string()), Ok(PieceType::King));
    assert_eq!(PieceType::try_from("Q".to_string()), Ok(PieceType::Queen));
    assert_eq!(PieceType::try_from("".to_string()), Err(PieceError::InvalidNotation));
    assert_eq!(PieceType::Rook.letter_str(), "r");
}

fn chars(text: &str) -> Vec<char> {
    text.chars().collect()
}

#[test]
fn decimal_numbers() {
    assert_eq!(parse_decimal(&chars("0")), Ok(0));
    assert_eq!(parse_decimal(&chars("42")), Ok(42));
    assert_eq!(parse_decimal(&chars("+42")), Ok(42));
    assert_eq!(parse_decimal(&chars("007")), Ok(7));
    assert_eq!(parse_decimal(&chars("")), Err(NumberError::Empty));
    assert_eq!(parse_decimal(&chars("+")), Err(NumberError::InvalidDigit));
    assert_eq!(parse_decimal(&chars("-")), Err(NumberError::InvalidDigit));
    assert_eq!(parse_decimal(&chars("-1")), Err(NumberError::InvalidDigit));
    assert_eq!(parse_decimal(&chars("1 ")), Err(NumberError::InvalidDigit));
    assert_eq!(parse_decimal(&chars("1_0")), Err(NumberError::InvalidDigit));
    assert_eq!(parse_decimal(&chars(&usize::MAX.to_string())), Ok(usize::MAX));
    assert_eq!(
        parse_decimal(&chars(&format!("{}0", usize::MAX))),
        Err(NumberError::PosOverflow)
    );
    for text in ["", "+", "x", "12", "+5", "99999999999999999999999", "1x", "-3"] {
        assert_eq!(parse_decimal(&chars(text)).ok(), text.parse::<usize>().ok());
    }
}

#[test]
fn splitting_and_trimming() {
    assert_eq!(split_chars(&chars("a b"), ' '), vec![chars("a"), chars("b")]);
    assert_eq!(split_chars(&chars(""), ' '), vec![chars("")]);
    assert_eq!(split_chars(&chars(" a  b "), ' '), vec![
        chars(""),
        chars("a"),
        chars(""),
        chars("b"),
        chars("")
    ]);
    for text in ["", "a/b/c", "//", "8/8", "no separator"] {
        let expected: Vec<Vec<char>> = text.split('/').map(chars).collect();
        assert_eq!(split_chars(&chars(text), '/'), expected);
    }
    for text in ["", "  ", " a b \n", "\u{3000}x\u{a0}", "x", "\tx y"] {
        assert_eq!(trimmed(&chars(text)), chars(text.trim()));
    }
}
