//! Pieces: their colour, their kind, and the letter that stands for each.

use crate::text::chars_of;
use vstd::prelude::*;
use vstd::std_specs::convert::TryFromSpecImpl;

verus! {

/// Why a piece of text names no piece, kind or colour.
#[derive(Clone, Copy, Debug, PartialEq, Eq, Structural)]
pub enum PieceError {
    InvalidNotation,
}

/// One of the two sides.
#[derive(Clone, Copy, Debug, PartialEq, Eq, Structural)]
pub enum Color {
    Black,
    White,
}

/// The kind of a piece.
#[derive(Clone, Copy, Debug, PartialEq, Eq, Structural)]
pub enum PieceType {
    Pawn,
    Bishop,
    Knight,
    Rook,
    Queen,
    King,
}

/// A piece on the board. `moved_once` is set once the piece has landed on a
/// square through a move; castling is open only to pieces without it.
#[derive(Clone, Copy, Debug, PartialEq, Eq, Structural)]
pub struct Piece {
    pub piece_type: PieceType,
    pub color: Color,
    pub moved_once: bool,
}

impl Color {
    /// The other side.
    pub open spec fn spec_opposite(self) -> Color {
        match self {
            Color::Black => Color::White,
            Color::White => Color::Black,
        }
    }

    /// Letter of the side: `w` or `b`.
    pub open spec fn letter(self) -> char {
        match self {
            Color::White => 'w',
            Color::Black => 'b',
        }
    }

    /// The side that a text names: one letter, `w` or `b`, in either case.
    pub open spec fn parse(s: Seq<char>) -> Result<Color, PieceError> {
        if s.len() == 1 && (s[0] == 'w' || s[0] == 'W') {
            Ok(Color::White)
        } else if s.len() == 1 && (s[0] == 'b' || s[0] == 'B') {
            Ok(Color::Black)
        } else {
            Err(PieceError::InvalidNotation)
        }
    }

    pub fn opposite(&self) -> (c: Color)
        ensures
            c == self.spec_opposite(),
    {
        match self {
            Color::Black => Color::White,
            Color::White => Color::Black,
        }
    }

    /// The letter of the side as a string slice.
    pub fn letter_str(self) -> (s: &'static str)
        ensures
            s@ == seq![self.letter()],
    {
        proof {
            reveal_strlit("w");
            reveal_strlit("b");
        }
        let s = match self {
            Color::White => "w",
            Color::Black => "b",
        };
        s
    }

    /// Reads the side that a text names.
    pub fn from_chars(text: &Vec<char>) -> (r: Result<Color, PieceError>)
        ensures
            r == Color::parse(text@),
    {
        if text.len() != 1 {
            return Err(PieceError::InvalidNotation);
        }
        let c = text[0];
        if c == 'w' || c == 'W' {
            Ok(Color::White)
        } else if c == 'b' || c == 'B' {
            Ok(Color::Black)
        } else {
            Err(PieceError::InvalidNotation)
        }
    }
}

impl TryFrom<String> for Color {
    type Error = PieceError;

    fn try_from(c: String) -> (r: Result<Color, PieceError>) {
        Color::from_chars(&chars_of(c.as_str()))
    }
}

impl TryFromSpecImpl<String> for Color {
    open spec fn obeys_try_from_spec() -> bool {
        true
    }

    open spec fn try_from_spec(c: String) -> Result<Color, PieceError> {
        Color::parse(c@)
    }
}

impl PieceType {
    /// Lower-case letter of the kind.
    pub open spec fn letter(self) -> char {
        match self {
            PieceType::Pawn => 'p',
            PieceType::Bishop => 'b',
            PieceType::King => 'k',
            PieceType::Knight => 'n',
            PieceType::Rook => 'r',
            PieceType::Queen => 'q',
        }
    }

    /// Upper-case letter of the kind.
    pub open spec fn upper_letter(self) -> char {
        match self {
            PieceType::Pawn => 'P',
            PieceType::Bishop => 'B',
            PieceType::King => 'K',
            PieceType::Knight => 'N',
            PieceType::Rook => 'R',
            PieceType::Queen => 'Q',
        }
    }

    /// The kind that a letter names, in either case.
    pub open spec fn of_letter(c: char) -> Option<PieceType> {
        if c == 'p' || c == 'P' {
            Some(PieceType::Pawn)
        } else if c == 'b' || c == 'B' {
            Some(PieceType::Bishop)
        } else if c == 'k' || c == 'K' {
            Some(PieceType::King)
        } else if c == 'n' || c == 'N' {
            Some(PieceType::Knight)
        } else if c == 'r' || c == 'R' {
            Some(PieceType::Rook)
        } else if c == 'q' || c == 'Q' {
            Some(PieceType::Queen)
        } else {
            None
        }
    }

    /// The kind that a text names: one letter, in either case.
    pub open spec fn parse(s: Seq<char>) -> Result<PieceType, PieceError> {
        if s.len() == 1 && PieceType::of_letter(s[0]) is Some {
            Ok(PieceType::of_letter(s[0])->0)
        } else {
            Err(PieceError::InvalidNotation)
        }
    }

    /// Reads the kind that a letter names.
    pub fn from_letter(c: char) -> (r: Option<PieceType>)
        ensures
            r == PieceType::of_letter(c),
    {
        if c == 'p' || c == 'P' {
            Some(PieceType::Pawn)
        } else if c == 'b' || c == 'B' {
            Some(PieceType::Bishop)
        } else if c == 'k' || c == 'K' {
            Some(PieceType::King)
        } else if c == 'n' || c == 'N' {
            Some(PieceType::Knight)
        } else if c == 'r' || c == 'R' {
            Some(PieceType::Rook)
        } else if c == 'q' || c == 'Q' {
            Some(PieceType::Queen)
        } else {
            None
        }
    }

    /// The lower-case letter of the kind as a string slice.
    pub fn letter_str(self) -> (s: &'static str)
        ensures
            s@ == seq![self.letter()],
    {
        proof {
            reveal_strlit("p");
            reveal_strlit("b");
            reveal_strlit("k");
            reveal_strlit("n");
            reveal_strlit("r");
            reveal_strlit("q");
        }
        let s = match self {
            PieceType::Pawn => "p",
            PieceType::Bishop => "b",
            PieceType::King => "k",
            PieceType::Knight => "n",
            PieceType::Rook => "r",
            PieceType::Queen => "q",
        };
        s
    }

    /// The upper-case letter of the kind as a string slice.
    pub fn upper_letter_str(self) -> (s: &'static str)
        ensures
            s@ == seq![self.upper_letter()],
    {
        proof {
            reveal_strlit("P");
            reveal_strlit("B");
            reveal_strlit("K");
            reveal_strlit("N");
            reveal_strlit("R");
            reveal_strlit("Q");
        }
        let s = match self {
            PieceType::Pawn => "P",
            PieceType::Bishop => "B",
            PieceType::King => "K",
            PieceType::Knight => "N",
            PieceType::Rook => "R",
            PieceType::Queen => "Q",
        };
        s
    }
}

impl TryFrom<String> for PieceType {
    type Error = PieceError;

    fn try_from(value: String) -> (r: Result<PieceType, PieceError>) {
        let text = value.as_str();
        if text.unicode_len() != 1 {
            return Err(PieceError::InvalidNotation);
        }
        match PieceType::from_letter(text.get_char(0)) {
            Some(piece_type) => Ok(piece_type),
            None => Err(PieceError::InvalidNotation),
        }
    }
}

impl TryFromSpecImpl<String> for PieceType {
    open spec fn obeys_try_from_spec() -> bool {
        true
    }

    open spec fn try_from_spec(value: String) -> Result<PieceType, PieceError> {
        PieceType::parse(value@)
    }
}

/// The letter is one of the upper-case letters `A` to `Z`.
pub open spec fn is_upper_letter(c: char) -> bool {
    'A' <= c <= 'Z'
}

impl Piece {
    /// Letter of the piece: that of its kind, in upper case for White.
    pub open spec fn letter(self) -> char {
        match self.color {
            Color::White => self.piece_type.upper_letter(),
            Color::Black => self.piece_type.letter(),
        }
    }

    /// The piece that a letter names: the kind by the letter, the side by
    /// its case, not yet moved.
    pub open spec fn of_letter(c: char) -> Result<Piece, PieceError> {
        match PieceType::of_letter(c) {
            Some(piece_type) => Ok(
                Piece {
                    piece_type,
                    color: if is_upper_letter(c) {
                        Color::White
                    } else {
                        Color::Black
                    },
                    moved_once: false,
                },
            ),
            None => Err(PieceError::InvalidNotation),
        }
    }

    pub fn new(piece_type: PieceType, color: Color) -> (p: Piece)
        ensures
            p == (Piece { piece_type, color, moved_once: false }),
    {
        Self { piece_type, color, moved_once: false }
    }

    pub fn from_notation(notation: char) -> (r: Result<Piece, PieceError>)
        ensures
            r == Piece::of_letter(notation),
    {
        let piece_type = match PieceType::from_letter(notation) {
            Some(piece_type) => piece_type,
            None => { return Err(PieceError::InvalidNotation); },
        };
        let piece_color = if notation >= 'A' && notation <= 'Z' {
            Color::White
        } else {
            Color::Black
        };
        Ok(Piece::new(piece_type, piece_color))
    }

    /// The letter of the piece as a string slice.
    pub fn letter_str(&self) -> (s: &'static str)
        ensures
            s@ == seq![self.letter()],
    {
        match self.color {
            Color::White => self.piece_type.upper_letter_str(),
            Color::Black => self.piece_type.letter_str(),
        }
    }

    /// The letter of the piece as text.
    pub fn to_fen(&self) -> (s: String)
        ensures
            s@ == seq![self.letter()],
    {
        self.letter_str().to_owned()
    }
}

/// Reading the letter of a piece gives its kind and colour back.
pub proof fn lemma_piece_letter_round_trip(p: Piece)
    ensures
        Piece::of_letter(p.letter()) == Ok::<Piece, PieceError>(
            Piece { piece_type: p.piece_type, color: p.color, moved_once: false },
        ),
        digit_free(p.letter()),
{
}

/// The character is none of the digits, nor a space, a slash or a dash.
pub open spec fn digit_free(c: char) -> bool {
    !('0' <= c <= '9') && c != ' ' && c != '/' && c != '-'
}

} // verus!
