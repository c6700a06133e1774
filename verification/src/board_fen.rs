//! The text form of a position: six fields separated by single spaces, which
//! hold the pieces row by row, the side to play, the castling rights, the
//! square of the last double step of a pawn, and the two move counters.

use crate::board::{Board, CastleState};
use crate::pieces::{Color, Piece, PieceError, PieceType};
use crate::position::Position;
use crate::setup::pieces_row;
use crate::square::{column_at, Column, Coord, Error as SquareError, Square};
use crate::text::{
    append_decimal, chars_of, decimal, decimal_value, digit_char, digit_of, digit_str,
    digit_value, parse_decimal, split, split_chars, texts, trim, trimmed, NumberError,
};
use vstd::prelude::*;

verus! {

/// Why a piece of text is not the text form of a position.
#[allow(inconsistent_fields)]
#[derive(Clone, Copy, Debug, PartialEq, Eq, Structural)]
pub enum FenError {
    /// The text does not have six fields.
    InvalidFEN,
    /// The first field does not have eight rows.
    InvalidRowCount,
    /// A row does not have eight squares.
    InvalidColCount,
    /// A piece stands below the eighth row of the first field.
    TooManyRows,
    /// A piece stands beyond the eighth square of its row.
    TooManyCols,
    /// A character of the first field is neither a digit nor a piece.
    InvalidPiece { source: PieceError },
    /// The second field names no side.
    InvalidColorToPlay { source: PieceError },
    /// The fourth field is neither a dash nor a square.
    InvalidEnPassant { source: SquareError },
    /// The fifth field is no number.
    InvalidHalfMoveClock { source: NumberError },
    /// The sixth field is no number.
    InvalidFullMoveClock { source: NumberError },
}

/// The digit that stands for a run of empty squares; nothing for no square.
pub open spec fn run_text(run: int) -> Seq<char> {
    if run > 0 {
        seq![digit_char(run)]
    } else {
        Seq::<char>::empty()
    }
}

/// The letters of the castling rights of a side: king's side first, in
/// upper case for White.
pub open spec fn castle_letters(state: CastleState, color: Color) -> Seq<char> {
    let king = Piece { piece_type: PieceType::King, color, moved_once: false }.letter();
    let queen = Piece { piece_type: PieceType::Queen, color, moved_once: false }.letter();
    match state {
        CastleState::Both => seq![king, queen],
        CastleState::Kingside => seq![king],
        CastleState::Queenside => seq![queen],
        CastleState::Neither => Seq::<char>::empty(),
    }
}

impl Position {
    /// The text of the squares of `row` from column `col` on, after a run
    /// of `run` empty squares: each piece by its letter, each run of empty
    /// squares by its length.
    pub open spec fn rank_tail(self, row: int, col: int, run: int) -> Seq<char>
        decreases 8 - col,
    {
        if col >= 8 {
            run_text(run)
        } else {
            match self.at(Coord { col, row }) {
                Some(p) => run_text(run) + seq![p.letter()] + self.rank_tail(row, col + 1, 0),
                None => self.rank_tail(row, col + 1, run + 1),
            }
        }
    }

    /// The text of a row.
    pub open spec fn rank_text(self, row: int) -> Seq<char> {
        self.rank_tail(row, 0, 0)
    }

    /// The text of the rows from the eighth down to `row`, with a slash
    /// between two rows.
    pub open spec fn ranks_text(self, row: int) -> Seq<char>
        decreases 8 - row,
    {
        if row >= 7 {
            self.rank_text(7)
        } else {
            self.ranks_text(row + 1) + seq!['/'] + self.rank_text(row)
        }
    }

    /// The field of the castling rights: the letters of White, then those of
    /// Black, or a dash where neither side has any.
    pub open spec fn castle_field(self) -> Seq<char> {
        let letters = castle_letters(self.castle_state(Color::White), Color::White)
            + castle_letters(self.castle_state(Color::Black), Color::Black);
        if letters.len() == 0 {
            seq!['-']
        } else {
            letters
        }
    }

    /// The field of the last double step: the square in notation, or a dash.
    pub open spec fn en_passant_field(self) -> Seq<char> {
        match self.en_passant {
            Some(c) => Square::at_coord(c).notation(),
            None => seq!['-'],
        }
    }

    /// The text form of the position.
    pub open spec fn fen_text(self) -> Seq<char> {
        self.ranks_text(0) + seq![' '] + seq![self.to_play.letter()] + seq![' ']
            + self.castle_field() + seq![' '] + self.en_passant_field() + seq![' '] + decimal(
            self.half_move_clock,
        ) + seq![' '] + decimal(self.full_move_clock)
    }
}

/// What the reading of the first field has gathered: the pieces, and the
/// squares of the kings met last.
pub struct Placement {
    pub grid: Map<Coord, Piece>,
    pub white_king: Coord,
    pub black_king: Coord,
}

/// The square is a corner of the row on which the rooks of `color` start.
pub open spec fn is_rook_home(c: Coord, color: Color) -> bool {
    (c.col == 0 || c.col == 7) && c.row == pieces_row(color)
}

/// The piece as the reading places it on `c`: a rook away from the corners
/// of its side counts as moved.
pub open spec fn as_placed(c: Coord, p: Piece) -> Piece {
    if p.piece_type == PieceType::Rook && !is_rook_home(c, p.color) {
        Piece { moved_once: true, ..p }
    } else {
        p
    }
}

/// The placement after a piece is read for the square `c`.
pub open spec fn placed(state: Placement, c: Coord, p: Piece) -> Placement {
    let king = p.piece_type == PieceType::King;
    Placement {
        grid: state.grid.insert(c, as_placed(c, p)),
        white_king: if king && p.color == Color::White {
            c
        } else {
            state.white_king
        },
        black_king: if king && p.color == Color::Black {
            c
        } else {
            state.black_king
        },
    }
}

/// Reads what is left of the text of a row, from column `col` on: a digit
/// skips as many squares, a letter places a piece. A letter that names no
/// piece gives `InvalidPiece`, a piece beyond the eighth column
/// `TooManyCols`, a piece below the board `TooManyRows`, and a row that
/// does not end after eight squares `InvalidColCount`.
pub open spec fn read_rank(state: Placement, rest: Seq<char>, col: int, row: int) -> Result<
    Placement,
    FenError,
>
    decreases rest.len(),
{
    if rest.len() == 0 {
        if col == 8 {
            Ok(state)
        } else {
            Err(FenError::InvalidColCount)
        }
    } else {
        match digit_value(rest[0]) {
            Some(d) => read_rank(state, rest.skip(1), col + d, row),
            None => match Piece::of_letter(rest[0]) {
                Err(source) => Err(FenError::InvalidPiece { source }),
                Ok(p) => if col >= 8 {
                    Err(FenError::TooManyCols)
                } else if row < 0 {
                    Err(FenError::TooManyRows)
                } else {
                    read_rank(placed(state, Coord { col, row }, p), rest.skip(1), col + 1, row)
                },
            },
        }
    }
}

/// Reads the rows from the `k`-th on, the first being the eighth row of the
/// board. There must be eight of them, else `InvalidRowCount`.
pub open spec fn read_ranks(state: Placement, ranks: Seq<Seq<char>>, k: int) -> Result<
    Placement,
    FenError,
>
    decreases ranks.len() - k,
{
    if k >= ranks.len() {
        if ranks.len() == 8 {
            Ok(state)
        } else {
            Err(FenError::InvalidRowCount)
        }
    } else {
        match read_rank(state, ranks[k], 0, 7 - k) {
            Err(e) => Err(e),
            Ok(next) => read_ranks(next, ranks, k + 1),
        }
    }
}

/// The pieces with the one on `c`, if any, marked as moved.
pub open spec fn marked(grid: Map<Coord, Piece>, c: Coord) -> Map<Coord, Piece> {
    if grid.dom().contains(c) {
        grid.insert(c, Piece { moved_once: true, ..grid[c] })
    } else {
        grid
    }
}

/// The pieces with the one on `c` marked as moved if `lost` holds.
pub open spec fn marked_if(grid: Map<Coord, Piece>, lost: bool, c: Coord) -> Map<Coord, Piece> {
    if lost {
        marked(grid, c)
    } else {
        grid
    }
}

/// The pieces after the field of the castling rights is applied: the king
/// of a side without any right counts as moved, and so does the piece in a
/// corner whose letter is missing.
pub open spec fn with_rights(state: Placement, rights: Seq<char>) -> Map<Coord, Piece> {
    let white_kingside = rights.contains('K');
    let white_queenside = rights.contains('Q');
    let black_kingside = rights.contains('k');
    let black_queenside = rights.contains('q');
    let g1 = marked_if(state.grid, !(white_queenside || white_kingside), state.white_king);
    let g2 = marked_if(g1, !(black_kingside || black_queenside), state.black_king);
    let g3 = marked_if(g2, !white_queenside, Coord { col: 0, row: 0 });
    let g4 = marked_if(g3, !white_kingside, Coord { col: 7, row: 0 });
    let g5 = marked_if(g4, !black_kingside, Coord { col: 7, row: 7 });
    marked_if(g5, !black_queenside, Coord { col: 0, row: 7 })
}

/// The square that the field of the last double step names, if any.
pub open spec fn read_en_passant(field: Seq<char>) -> Result<Option<Coord>, SquareError> {
    if field == seq!['-'] {
        Ok(None)
    } else {
        match Square::parse_notation(field) {
            Ok(sq) => Ok(Some(sq@)),
            Err(e) => Err(e),
        }
    }
}

/// The placement before anything is read: no piece, the kings recorded on
/// their starting squares.
pub open spec fn empty_placement() -> Placement {
    Placement {
        grid: Map::empty(),
        white_king: Coord { col: 4, row: 0 },
        black_king: Coord { col: 4, row: 7 },
    }
}

/// The position that a text stands for, or the first thing that is wrong
/// with the text. White space around the text is ignored.
pub open spec fn parse_fen(text: Seq<char>) -> Result<Position, FenError> {
    let fields = split(trim(text), ' ');
    if fields.len() != 6 {
        Err(FenError::InvalidFEN)
    } else {
        match (
            read_ranks(empty_placement(), split(fields[0], '/'), 0),
            Color::parse(fields[1]),
            read_en_passant(fields[3]),
            decimal_value(fields[4]),
            decimal_value(fields[5]),
        ) {
            (Err(e), _, _, _, _) => Err(e),
            (Ok(_), Err(source), _, _, _) => Err(FenError::InvalidColorToPlay { source }),
            (Ok(_), Ok(_), Err(source), _, _) => Err(FenError::InvalidEnPassant { source }),
            (Ok(_), Ok(_), Ok(_), Err(source), _) => Err(
                FenError::InvalidHalfMoveClock { source },
            ),
            (Ok(_), Ok(_), Ok(_), Ok(_), Err(source)) => Err(
                FenError::InvalidFullMoveClock { source },
            ),
            (Ok(state), Ok(to_play), Ok(en_passant), Ok(half), Ok(full)) => Ok(
                Position {
                    grid: with_rights(state, fields[2]),
                    to_play,
                    full_move_clock: full,
                    half_move_clock: half,
                    black_king: state.black_king,
                    white_king: state.white_king,
                    en_passant,
                },
            ),
        }
    }
}

impl CastleState {
    /// The letters of the rights, in upper case for White.
    pub fn to_fen(&self, color: Color) -> (s: String)
        ensures
            s@ == castle_letters(*self, color),
    {
        proof {
            reveal_strlit("KQ");
            reveal_strlit("K");
            reveal_strlit("Q");
            reveal_strlit("kq");
            reveal_strlit("k");
            reveal_strlit("q");
            reveal_strlit("");
        }
        let s = match color {
            Color::White => match self {
                CastleState::Both => "KQ",
                CastleState::Kingside => "K",
                CastleState::Queenside => "Q",
                CastleState::Neither => "",
            },
            Color::Black => match self {
                CastleState::Both => "kq",
                CastleState::Kingside => "k",
                CastleState::Queenside => "q",
                CastleState::Neither => "",
            },
        };
        s.to_owned()
    }
}

/// Tells whether a character occurs in a text.
fn contains_char(text: &Vec<char>, c: char) -> (r: bool)
    ensures
        r == text@.contains(c),
{
    let mut i: usize = 0;
    while i < text.len()
        invariant
            i <= text.len(),
            forall|j: int| 0 <= j < i ==> text@[j] != c,
        decreases text.len() - i,
    {
        if text[i] == c {
            return true;
        }
        i += 1;
    }
    false
}

impl Board {
    /// What the reading has gathered on the board so far.
    pub open spec fn placement(&self) -> Placement {
        Placement {
            grid: self@.grid,
            white_king: self@.white_king,
            black_king: self@.black_king,
        }
    }

    /// Marks the piece on a square, if any, as moved.
    fn mark_moved(&mut self, square: &Square)
        requires
            square.wf(),
        ensures
            final(self)@ == (Position { grid: marked(old(self)@.grid, square@), ..old(self)@ }),
            final(self).wf() == old(self).wf(),
    {
        if let Some(p) = self.at(square) {
            self.put(
                square,
                Some(Piece { piece_type: p.piece_type, color: p.color, moved_once: true }),
            );
        }
    }

    /// Reads the text of one row into the board.
    fn read_rank(&mut self, row: &Vec<char>, row_count: usize) -> (r: Result<(), FenError>)
        requires
            old(self).wf(),
        ensures
            match read_rank(old(self).placement(), row@, 0, 7 - row_count) {
                Ok(state) => r is Ok && final(self).placement() == state,
                Err(e) => r == Err::<(), FenError>(e),
            },
            final(self).wf(),
            final(self)@.to_play == old(self)@.to_play,
            final(self)@.en_passant == old(self)@.en_passant,
            final(self)@.half_move_clock == old(self)@.half_move_clock,
            final(self)@.full_move_clock == old(self)@.full_move_clock,
    {
        let ghost goal = read_rank(old(self).placement(), row@, 0, 7 - row_count);
        let mut col_index: usize = 0;
        let ghost mut col: int = 0;
        let mut i: usize = 0;
        assert(row@.skip(0) =~= row@);
        while i < row.len()
            invariant
                i <= row.len(),
                self.wf(),
                0 <= col,
                col <= 8 ==> col_index == col,
                col > 8 ==> 8 < col_index <= 17,
                goal == read_rank(old(self).placement(), row@, 0, 7 - row_count),
                goal == read_rank(self.placement(), row@.skip(i as int), col, 7 - row_count),
                self@.to_play == old(self)@.to_play,
                self@.en_passant == old(self)@.en_passant,
                self@.half_move_clock == old(self)@.half_move_clock,
                self@.full_move_clock == old(self)@.full_move_clock,
            decreases row.len() - i,
        {
            let ch = row[i];
            let ghost before = self.placement();
            let ghost rest = row@.skip(i as int);
            assert(rest.skip(1) =~= row@.skip(i + 1));
            match digit_of(ch) {
                Some(d) => {
                    // Empty spaces.
                    if col_index <= 8 {
                        col_index += d;
                    }
                    proof {
                        col = col + d;
                    }
                },
                None => {
                    // Piece.
                    let mut piece = match Piece::from_notation(ch) {
                        Ok(piece) => piece,
                        Err(source) => { return Err(FenError::InvalidPiece { source }); },
                    };
                    if col_index >= 8 {
                        return Err(FenError::TooManyCols);
                    }
                    if row_count >= 8 {
                        return Err(FenError::TooManyRows);
                    }
                    let square = Square::new(column_at(col_index), 7 - row_count);
                    let ghost read = piece;
                    match piece.piece_type {
                        PieceType::King => match piece.color {
                            Color::White => {
                                self.white_king_position = square;
                            },
                            Color::Black => {
                                self.black_king_position = square;
                            },
                        },
                        PieceType::Rook => {
                            let home_row: usize = match piece.color {
                                Color::White => 0,
                                Color::Black => 7,
                            };
                            if !(square.row == home_row && (col_index == 0 || col_index == 7)) {
                                piece.moved_once = true;
                            }
                        },
                        _ => {},
                    }
                    assert(piece == as_placed(square@, read));
                    assert(self@.grid =~= before.grid);
                    self.put(&square, Some(piece));
                    col_index += 1;
                    proof {
                        col = col + 1;
                    }
                },
            }
            i += 1;
        }
        if col_index == 8 {
            Ok(())
        } else {
            Err(FenError::InvalidColCount)
        }
    }
}

impl Board {
    /// The result is the board of the expected position, or the expected
    /// error.
    pub open spec fn reads(r: Result<Board, FenError>, expected: Result<Position, FenError>) -> bool {
        match expected {
            Ok(pos) => r is Ok && r->Ok_0@ == pos && r->Ok_0.wf(),
            Err(e) => r == Err::<Board, FenError>(e),
        }
    }

    /// Reads the rows of the first field into a new board.
    fn read_board(rows: &Vec<Vec<char>>) -> (r: Result<Board, FenError>)
        ensures
            match read_ranks(empty_placement(), texts(rows@), 0) {
                Ok(state) => r is Ok && r->Ok_0.wf() && r->Ok_0@ == (Position {
                    grid: state.grid,
                    white_king: state.white_king,
                    black_king: state.black_king,
                    ..Board::empty_position()
                }),
                Err(e) => r == Err::<Board, FenError>(e),
            },
    {
        let mut board = Board::default();
        let ghost ranks = texts(rows@);
        let mut row_count: usize = 0;
        while row_count < rows.len()
            invariant
                row_count <= rows.len(),
                texts(rows@) == ranks,
                board.wf(),
                board@.to_play == Color::White,
                board@.en_passant is None,
                board@.half_move_clock == 0,
                board@.full_move_clock == 1,
                read_ranks(empty_placement(), ranks, 0) == read_ranks(
                    board.placement(),
                    ranks,
                    row_count as int,
                ),
            decreases rows.len() - row_count,
        {
            match board.read_rank(&rows[row_count], row_count) {
                Ok(_) => {},
                Err(e) => { return Err(e); },
            }
            row_count += 1;
        }
        if row_count != 8 {
            return Err(FenError::InvalidRowCount);
        }
        Ok(board)
    }

    /// Applies the field of the castling rights to the pieces.
    fn apply_rights(&mut self, rights: &Vec<char>)
        requires
            old(self).wf(),
        ensures
            final(self)@ == (Position {
                grid: with_rights(old(self).placement(), rights@),
                ..old(self)@
            }),
            final(self).wf(),
    {
        let white_queenside = contains_char(rights, 'Q');
        let white_kingside = contains_char(rights, 'K');
        let black_kingside = contains_char(rights, 'k');
        let black_queenside = contains_char(rights, 'q');
        if !(white_queenside || white_kingside) {
            // Can't castle at all, mark the king as moved.
            let white_king_pos = self.white_king_position;
            self.mark_moved(&white_king_pos);
        }
        if !(black_kingside || black_queenside) {
            // Can't castle at all, mark the king as moved.
            let black_king_pos = self.black_king_position;
            self.mark_moved(&black_king_pos);
        }
        if !white_queenside {
            self.mark_moved(&Square::new(Column::A, 0));
        }
        if !white_kingside {
            self.mark_moved(&Square::new(Column::H, 0));
        }
        if !black_kingside {
            self.mark_moved(&Square::new(Column::H, 7));
        }
        if !black_queenside {
            self.mark_moved(&Square::new(Column::A, 7));
        }
    }

    /// Reads a position from its text form.
    pub fn from_fen(fen: &str) -> (r: Result<Board, FenError>)
        ensures
            Board::reads(r, parse_fen(fen@)),
    {
        // Make sure FEN string is split in 6 chunks.
        let chars = chars_of(fen);
        let text = trimmed(&chars);
        let chunks = split_chars(&text, ' ');
        if chunks.len() != 6 {
            return Err(FenError::InvalidFEN);
        }
        let ghost fields = split(trim(fen@), ' ');

        // Load board state.
        let rows = split_chars(&chunks[0], '/');
        let mut board = Board::read_board(&rows)?;
        let ghost state = board.placement();

        // Load to_play.
        board.to_play = match Color::from_chars(&chunks[1]) {
            Ok(color) => color,
            Err(source) => { return Err(FenError::InvalidColorToPlay { source }); },
        };

        // Load castle state.
        assert(board.placement() == state) by {
            assert(board@.grid =~= state.grid);
        }
        board.apply_rights(&chunks[2]);

        // Load en-passant square.
        let dash = chunks[3].len() == 1 && chunks[3][0] == '-';
        assert(dash == (fields[3] =~= seq!['-']));
        if !dash {
            // We have an en-passant square.
            let sq = match Square::from_chars(&chunks[3]) {
                Ok(sq) => sq,
                Err(source) => { return Err(FenError::InvalidEnPassant { source }); },
            };
            board.en_passant_square = Some(sq);
        }

        // Load half-move clock.
        board.half_move_clock = match parse_decimal(&chunks[4]) {
            Ok(n) => n,
            Err(source) => { return Err(FenError::InvalidHalfMoveClock { source }); },
        };

        // Load full-move clock.
        board.full_move_clock = match parse_decimal(&chunks[5]) {
            Ok(n) => n,
            Err(source) => { return Err(FenError::InvalidFullMoveClock { source }); },
        };
        assert(board@.grid =~= with_rights(state, fields[2]));
        Ok(board)
    }

    /// Appends the text of a row.
    fn append_rank(&self, fen: &mut String, row: usize)
        requires
            row < 8,
        ensures
            final(fen)@ == old(fen)@ + self@.rank_text(row as int),
    {
        let ghost pos = self@;
        let mut last_piece_distance: usize = 0;
        let mut col: usize = 0;
        while col < 8
            invariant
                row < 8,
                pos == self@,
                last_piece_distance <= col <= 8,
                fen@ + pos.rank_tail(row as int, col as int, last_piece_distance as int) == old(
                    fen,
                )@ + pos.rank_text(row as int),
            decreases 8 - col,
        {
            let sq = Square::new(column_at(col), row);
            let ghost before = fen@;
            let ghost run = last_piece_distance as int;
            if let Some(piece) = self.at(&sq) {
                if last_piece_distance > 0 {
                    fen.append(digit_str(last_piece_distance));
                }
                fen.append(piece.letter_str());
                assert(fen@ + pos.rank_tail(row as int, col + 1, 0) =~= before + pos.rank_tail(
                    row as int,
                    col as int,
                    run,
                ));
                last_piece_distance = 0;
            } else {
                last_piece_distance += 1;
            }
            col += 1;
        }
        if last_piece_distance > 0 {
            fen.append(digit_str(last_piece_distance));
        }
    }

    /// Writes the position in its text form.
    pub fn to_fen(&self) -> (fen: String)
        requires
            self.wf(),
        ensures
            fen@ == self@.fen_text(),
    {
        proof {
            reveal_strlit("/");
            reveal_strlit(" ");
            reveal_strlit("-");
        }
        let ghost pos = self@;
        let mut fen = String::new();
        self.append_rank(&mut fen, 7);
        let mut row: usize = 7;
        while row > 0
            invariant
                row <= 7,
                pos == self@,
                fen@ == pos.ranks_text(row as int),
            decreases row,
        {
            row -= 1;
            proof {
                reveal_strlit("/");
            }
            fen.append("/");
            self.append_rank(&mut fen, row);
        }
        fen.append(" ");
        fen.append(self.to_play.letter_str());
        fen.append(" ");
        let white = self.get_castle_state(Color::White).to_fen(Color::White);
        let black = self.get_castle_state(Color::Black).to_fen(Color::Black);
        if white.as_str().unicode_len() == 0 && black.as_str().unicode_len() == 0 {
            fen.append("-");
        } else {
            fen.append(white.as_str());
            fen.append(black.as_str());
        }
        fen.append(" ");
        match self.en_passant_square {
            Some(sq) => {
                let notation = sq.to_notation();
                fen.append(notation.as_str());
            },
            None => {
                fen.append("-");
            },
        }
        fen.append(" ");
        append_decimal(&mut fen, self.half_move_clock);
        fen.append(" ");
        append_decimal(&mut fen, self.full_move_clock);
        fen
    }
}

} // verus!
