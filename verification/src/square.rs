//! Coordinates of the board: columns, rows, squares, stepping from one square
//! to another, and the two-character notation of a square.

use crate::constants::BOARD_DIMENSION;
use crate::text::{
    ascii_char, chars_of, digit_char, digit_of, digit_str, digit_value, is_ascii_char, NumberError,
};
use vstd::prelude::*;
use vstd::std_specs::convert::{FromSpecImpl, TryFromSpecImpl};

verus! {

/// Why a piece of text is not the notation of a square.
#[derive(Clone, Copy, Debug, PartialEq, Eq, Structural)]
pub enum Error {
    /// The text is not made of exactly two ASCII characters.
    ParseError,
    /// The first character is not a column letter.
    InvalidColumn,
    /// The second character is not a decimal digit.
    InvalidRow { source: NumberError },
    /// The second character is a digit outside `1..=8`.
    RowTooBig,
}

/// A column (file) of the board.
#[derive(Clone, Copy, Debug, PartialEq, Eq, PartialOrd, Structural)]
pub enum Column {
    A,
    B,
    C,
    D,
    E,
    F,
    G,
    H,
}

/// A row (rank) of the board, counted from zero.
pub type Row = usize;

/// A square as a pair of mathematical integers, on the board or off it.
pub struct Coord {
    pub col: int,
    pub row: int,
}

impl Coord {
    /// Both coordinates lie within the board.
    pub open spec fn on_board(self) -> bool {
        0 <= self.col < 8 && 0 <= self.row < 8
    }

    /// The coordinate `dc` columns and `dr` rows away.
    pub open spec fn shift(self, dc: int, dr: int) -> Coord {
        Coord { col: self.col + dc, row: self.row + dr }
    }
}

/// A square of the board.
#[derive(Clone, Copy, Debug, PartialEq, Eq, Structural)]
pub struct Square {
    pub col: Column,
    pub row: Row,
}

impl Column {
    /// Position of the column, counted from zero at `A`.
    pub open spec fn index(self) -> int {
        match self {
            Column::A => 0,
            Column::B => 1,
            Column::C => 2,
            Column::D => 3,
            Column::E => 4,
            Column::F => 5,
            Column::G => 6,
            Column::H => 7,
        }
    }

    /// The column at position `i`; `H` for every `i` past the board.
    pub open spec fn at_index(i: int) -> Column {
        if i <= 0 {
            Column::A
        } else if i == 1 {
            Column::B
        } else if i == 2 {
            Column::C
        } else if i == 3 {
            Column::D
        } else if i == 4 {
            Column::E
        } else if i == 5 {
            Column::F
        } else if i == 6 {
            Column::G
        } else {
            Column::H
        }
    }

    /// Lower-case letter of the column, as written in a square's notation.
    pub open spec fn lower(self) -> char {
        match self {
            Column::A => 'a',
            Column::B => 'b',
            Column::C => 'c',
            Column::D => 'd',
            Column::E => 'e',
            Column::F => 'f',
            Column::G => 'g',
            Column::H => 'h',
        }
    }

    /// Upper-case letter of the column.
    pub open spec fn upper(self) -> char {
        match self {
            Column::A => 'A',
            Column::B => 'B',
            Column::C => 'C',
            Column::D => 'D',
            Column::E => 'E',
            Column::F => 'F',
            Column::G => 'G',
            Column::H => 'H',
        }
    }

    /// The column that a letter names, in either case.
    pub open spec fn of_letter(c: char) -> Option<Column> {
        if c == 'a' || c == 'A' {
            Some(Column::A)
        } else if c == 'b' || c == 'B' {
            Some(Column::B)
        } else if c == 'c' || c == 'C' {
            Some(Column::C)
        } else if c == 'd' || c == 'D' {
            Some(Column::D)
        } else if c == 'e' || c == 'E' {
            Some(Column::E)
        } else if c == 'f' || c == 'F' {
            Some(Column::F)
        } else if c == 'g' || c == 'G' {
            Some(Column::G)
        } else if c == 'h' || c == 'H' {
            Some(Column::H)
        } else {
            None
        }
    }

    /// Reads a column letter, in either case.
    pub fn from_letter(c: char) -> (r: Option<Column>)
        ensures
            r == Column::of_letter(c),
    {
        if c == 'a' || c == 'A' {
            Some(Column::A)
        } else if c == 'b' || c == 'B' {
            Some(Column::B)
        } else if c == 'c' || c == 'C' {
            Some(Column::C)
        } else if c == 'd' || c == 'D' {
            Some(Column::D)
        } else if c == 'e' || c == 'E' {
            Some(Column::E)
        } else if c == 'f' || c == 'F' {
            Some(Column::F)
        } else if c == 'g' || c == 'G' {
            Some(Column::G)
        } else if c == 'h' || c == 'H' {
            Some(Column::H)
        } else {
            None
        }
    }

    /// The lower-case letter of the column as a string slice.
    pub fn lower_str(self) -> (s: &'static str)
        ensures
            s@ == seq![self.lower()],
    {
        proof {
            reveal_strlit("a");
            reveal_strlit("b");
            reveal_strlit("c");
            reveal_strlit("d");
            reveal_strlit("e");
            reveal_strlit("f");
            reveal_strlit("g");
            reveal_strlit("h");
        }
        let s = match self {
            Column::A => "a",
            Column::B => "b",
            Column::C => "c",
            Column::D => "d",
            Column::E => "e",
            Column::F => "f",
            Column::G => "g",
            Column::H => "h",
        };
        s
    }

    /// The upper-case letter of the column as text.
    pub fn to_string(&self) -> (s: String)
        ensures
            s@ == seq![self.upper()],
    {
        proof {
            reveal_strlit("A");
            reveal_strlit("B");
            reveal_strlit("C");
            reveal_strlit("D");
            reveal_strlit("E");
            reveal_strlit("F");
            reveal_strlit("G");
            reveal_strlit("H");
        }
        let s = match self {
            Column::A => "A",
            Column::B => "B",
            Column::C => "C",
            Column::D => "D",
            Column::E => "E",
            Column::F => "F",
            Column::G => "G",
            Column::H => "H",
        };
        s.to_owned()
    }
}

impl From<Column> for usize {
    fn from(col: Column) -> (r: usize) {
        match col {
            Column::A => 0,
            Column::B => 1,
            Column::C => 2,
            Column::D => 3,
            Column::E => 4,
            Column::F => 5,
            Column::G => 6,
            Column::H => 7,
        }
    }
}

impl FromSpecImpl<Column> for usize {
    open spec fn obeys_from_spec() -> bool {
        true
    }

    open spec fn from_spec(col: Column) -> usize {
        col.index() as usize
    }
}

impl TryFrom<usize> for Column {
    type Error = Error;

    fn try_from(value: usize) -> (r: Result<Column, Error>) {
        match value {
            0 => Ok(Column::A),
            1 => Ok(Column::B),
            2 => Ok(Column::C),
            3 => Ok(Column::D),
            4 => Ok(Column::E),
            5 => Ok(Column::F),
            6 => Ok(Column::G),
            7 => Ok(Column::H),
            _ => Err(Error::ParseError),
        }
    }
}

impl TryFromSpecImpl<usize> for Column {
    open spec fn obeys_try_from_spec() -> bool {
        true
    }

    open spec fn try_from_spec(value: usize) -> Result<Column, Error> {
        if value < 8 {
            Ok(Column::at_index(value as int))
        } else {
            Err(Error::ParseError)
        }
    }
}

impl Square {
    /// The row lies within the board.
    pub open spec fn wf(&self) -> bool {
        self.row < BOARD_DIMENSION
    }

    /// The square at a coordinate of the board.
    pub open spec fn at_coord(c: Coord) -> Square {
        Square { col: Column::at_index(c.col), row: c.row as usize }
    }

    /// The square `dc` columns and `dr` rows away, if there is one.
    pub open spec fn spec_relative(self, dc: int, dr: int) -> Option<Square> {
        let target = self@.shift(dc, dr);
        if target.on_board() {
            Some(Square::at_coord(target))
        } else {
            None
        }
    }

    /// The two characters that name the square: the column's letter, then the
    /// row counted from one.
    pub open spec fn notation(self) -> Seq<char> {
        seq![self.col.lower(), digit_char(self.row + 1)]
    }

    /// The square that a text names, or the reason why it names none.
    pub open spec fn parse_notation(s: Seq<char>) -> Result<Square, Error> {
        if s.len() != 2 || !is_ascii_char(s[0]) || !is_ascii_char(s[1]) {
            Err(Error::ParseError)
        } else {
            match (Column::of_letter(s[0]), digit_value(s[1])) {
                (None, _) => Err(Error::InvalidColumn),
                (Some(_), None) => Err(Error::InvalidRow { source: NumberError::InvalidDigit }),
                (Some(col), Some(rank)) => if 1 <= rank <= 8 {
                    Ok(Square { col, row: (rank - 1) as usize })
                } else {
                    Err(Error::RowTooBig)
                },
            }
        }
    }

    pub fn new(col: Column, row: Row) -> (sq: Square)
        requires
            row < BOARD_DIMENSION,
        ensures
            sq == (Square { col, row }),
            sq.wf(),
    {
        Square { col, row }
    }

    /// Reads a square from its notation, such as `e4`.
    pub fn from_notation(notation: &str) -> (r: Result<Square, Error>)
        ensures
            r == Square::parse_notation(notation@),
            r is Ok ==> r->Ok_0.wf(),
    {
        Square::from_chars(&chars_of(notation))
    }

    /// Reads a square from the characters of its notation.
    pub fn from_chars(notation: &Vec<char>) -> (r: Result<Square, Error>)
        ensures
            r == Square::parse_notation(notation@),
            r is Ok ==> r->Ok_0.wf(),
    {
        if notation.len() != 2 {
            return Err(Error::ParseError);
        }
        let file = notation[0];
        let rank = notation[1];
        if !ascii_char(file) || !ascii_char(rank) {
            return Err(Error::ParseError);
        }
        let col = match Column::from_letter(file) {
            Some(col) => col,
            None => { return Err(Error::InvalidColumn); },
        };
        let row = match digit_of(rank) {
            Some(row) => row,
            None => { return Err(Error::InvalidRow { source: NumberError::InvalidDigit }); },
        };
        if row == 0 || row > BOARD_DIMENSION {
            return Err(Error::RowTooBig);
        }
        Ok(Square::new(col, row - 1))
    }

    /// Writes the square in notation, such as `e4`.
    pub fn to_notation(&self) -> (s: String)
        requires
            self.wf(),
        ensures
            s@ == self.notation(),
    {
        let mut s = String::new();
        s.append(self.col.lower_str());
        s.append(digit_str(self.row + 1));
        s
    }

    /// Moves by `delta` columns, to the right when positive.
    pub fn col_move(self, delta: i32) -> (r: Option<Square>)
        requires
            self.wf(),
        ensures
            r == self.spec_relative(delta as int, 0),
    {
        let target: i64 = column_index(self.col) as i64 + delta as i64;
        if 0 <= target && target < 8 {
            let col = column_at(target as usize);
            Some(Square { col, row: self.row })
        } else {
            None
        }
    }

    /// The square one column to the right.
    pub fn next_col(self) -> (r: Option<Square>)
        requires
            self.wf(),
        ensures
            r == self.spec_relative(1, 0),
    {
        let idx: usize = column_index(self.col);
        match Column::try_from(idx + 1) {
            Ok(col) => Some(Square { col, row: self.row }),
            Err(_) => None,
        }
    }

    /// The square one column to the left.
    pub fn prev_col(self) -> (r: Option<Square>)
        requires
            self.wf(),
        ensures
            r == self.spec_relative(-1, 0),
    {
        let idx: usize = column_index(self.col);
        if idx == 0 {
            return None;
        }
        match Column::try_from(idx - 1) {
            Ok(col) => Some(Square { col, row: self.row }),
            Err(_) => None,
        }
    }

    /// Moves by `delta` rows, upwards when positive.
    pub fn row_move(self, delta: i32) -> (r: Option<Square>)
        requires
            self.wf(),
        ensures
            r == self.spec_relative(0, delta as int),
    {
        let target: i64 = self.row as i64 + delta as i64;
        if 0 <= target && target < 8 {
            Some(Square { col: self.col, row: target as usize })
        } else {
            None
        }
    }

    /// The square one row up.
    pub fn next_row(self) -> (r: Option<Square>)
        requires
            self.wf(),
        ensures
            r == self.spec_relative(0, 1),
    {
        if self.row < (BOARD_DIMENSION - 1) {
            Some(Square { col: self.col, row: self.row + 1 })
        } else {
            None
        }
    }

    /// The square one row down.
    pub fn prev_row(self) -> (r: Option<Square>)
        requires
            self.wf(),
        ensures
            r == self.spec_relative(0, -1),
    {
        if self.row > 0 {
            Some(Square { col: self.col, row: (self.row - 1) as usize })
        } else {
            None
        }
    }

    /// Moves by `row_delta` rows and `col_delta` columns at once.
    pub fn relative(self, col_delta: i32, row_delta: i32) -> (r: Option<Square>)
        requires
            self.wf(),
        ensures
            r == self.spec_relative(col_delta as int, row_delta as int),
            r is Some ==> r->0.wf(),
    {
        match self.row_move(row_delta) {
            Some(moved) => moved.col_move(col_delta),
            None => None,
        }
    }
}

impl View for Square {
    type V = Coord;

    open spec fn view(&self) -> Coord {
        Coord { col: self.col.index(), row: self.row as int }
    }
}

/// Position of a column, counted from zero.
pub fn column_index(col: Column) -> (i: usize)
    ensures
        i == col.index(),
{
    usize::from(col)
}

/// The column at a position below eight.
pub fn column_at(i: usize) -> (col: Column)
    requires
        i < BOARD_DIMENSION,
    ensures
        col == Column::at_index(i as int),
        col.index() == i,
{
    match Column::try_from(i) {
        Ok(col) => col,
        Err(_) => Column::H,
    }
}

/// Reading the notation of a square gives the square back.
pub proof fn lemma_notation_round_trip(sq: Square)
    requires
        sq.wf(),
    ensures
        Square::parse_notation(sq.notation()) == Ok::<Square, Error>(sq),
{
}

} // verus!
