//! Reading the text form of a position gives the position back.

use crate::board::{Board, CastleState, MoveError};
use crate::board_fen::{
    as_placed, castle_letters, empty_placement, marked_if, parse_fen, placed, read_en_passant,
    read_rank, read_ranks, run_text, with_rights, FenError, Placement,
};
use crate::pieces::{lemma_piece_letter_round_trip, Color, Piece, PieceError, PieceType};
use crate::position::Position;
use crate::setup::{pieces_row, starting_position};
use crate::square::{lemma_notation_round_trip, Coord, Error, Square};
use crate::text::{
    decimal, digit_char, digit_value, free_of, is_digit, lemma_decimal_digits,
    lemma_decimal_round_trip, lemma_split_last, lemma_split_whole, lemma_trim_nothing, split,
    trim,
};
use vstd::prelude::*;

verus! {

/// The square on which the king of a side starts.
pub open spec fn king_home(color: Color) -> Coord {
    Coord { col: 4, row: pieces_row(color) }
}

impl Position {
    /// A king of `color` stands on `c`.
    pub open spec fn king_on(self, c: Coord, color: Color) -> bool {
        self.at(c) matches Some(p) && p.piece_type == PieceType::King && p.color == color
    }

    /// Every king stands on the square recorded for its side, and a king
    /// that has never moved stands on its starting square.
    pub open spec fn kings_recorded(self) -> bool {
        forall|c: Coord, color: Color| #[trigger]
            self.king_on(c, color) ==> c == self.king(color) && (!self.grid[c].moved_once ==> c
                == king_home(color))
    }

    /// The kind and the side of the piece on a square, if any.
    pub open spec fn kind_at(self, c: Coord) -> Option<(PieceType, Color)> {
        match self.at(c) {
            Some(p) => Some((p.piece_type, p.color)),
            None => None,
        }
    }

    /// The two positions show the same game: the same kinds of pieces of
    /// the same sides on the same squares, the same side to play, the same
    /// counters, the same square of the last double step, the same castling
    /// rights, and the same recorded square for each king on the board.
    pub open spec fn same_game(self, other: Position) -> bool {
        &&& forall|c: Coord| #[trigger] self.kind_at(c) == other.kind_at(c)
        &&& self.to_play == other.to_play
        &&& self.half_move_clock == other.half_move_clock
        &&& self.full_move_clock == other.full_move_clock
        &&& self.en_passant == other.en_passant
        &&& self.castle_state(Color::White) == other.castle_state(Color::White)
        &&& self.castle_state(Color::Black) == other.castle_state(Color::Black)
        &&& self.king_on(self.white_king, Color::White) ==> other.white_king == self.white_king
        &&& self.king_on(self.black_king, Color::Black) ==> other.black_king == self.black_king
    }

    /// The texts of the eight rows, the eighth first.
    pub open spec fn rank_texts(self) -> Seq<Seq<char>> {
        Seq::new(8, |k: int| self.rank_text(7 - k))
    }
}

/// The character stands for a piece or for a run of one to eight empty
/// squares.
pub open spec fn is_board_char(c: char) -> bool {
    Piece::of_letter(c) is Ok || (digit_value(c) matches Some(d) && 1 <= d <= 8)
}

/// The text of a row is made of letters of pieces and of digits from one to
/// eight, and is empty only where nothing is left to say.
proof fn lemma_rank_tail_chars(pos: Position, row: int, col: int, run: int)
    requires
        0 <= run <= col <= 8,
    ensures
        forall|i: int|
            0 <= i < pos.rank_tail(row, col, run).len() ==> is_board_char(
                #[trigger] pos.rank_tail(row, col, run)[i],
            ),
        col < 8 || run > 0 ==> pos.rank_tail(row, col, run).len() > 0,
    decreases 8 - col,
{
    if col < 8 {
        match pos.at(Coord { col, row }) {
            Some(p) => {
                lemma_rank_tail_chars(pos, row, col + 1, 0);
                lemma_piece_letter_round_trip(p);
                let text = pos.rank_tail(row, col, run);
                let head = run_text(run) + seq![p.letter()];
                let tail = pos.rank_tail(row, col + 1, 0);
                assert(text =~= head + tail);
                assert forall|i: int| 0 <= i < text.len() implies is_board_char(
                    #[trigger] text[i],
                ) by {
                    if i >= head.len() {
                        assert(text[i] == tail[i - head.len()]);
                    }
                }
            },
            None => {
                lemma_rank_tail_chars(pos, row, col + 1, run + 1);
            },
        }
    }
}

/// The text of a row holds no separator and starts with a character that is
/// not white space.
proof fn lemma_rank_text_plain(pos: Position, row: int)
    ensures
        free_of(pos.rank_text(row), '/'),
        free_of(pos.rank_text(row), ' '),
        pos.rank_text(row).len() > 0,
        is_board_char(pos.rank_text(row)[0]),
{
    lemma_rank_tail_chars(pos, row, 0, 0);
    let s = pos.rank_text(row);
    assert forall|i: int| 0 <= i < s.len() implies #[trigger] s[i] != '/' && s[i] != ' ' by {
        assert(is_board_char(s[i]));
    }
}

/// The rows of the first field are the texts of the rows of the board.
proof fn lemma_ranks_split(pos: Position, row: int)
    requires
        0 <= row <= 7,
    ensures
        split(pos.ranks_text(row), '/') == Seq::new(
            (8 - row) as nat,
            |k: int| pos.rank_text(7 - k),
        ),
        free_of(pos.ranks_text(row), ' '),
        pos.ranks_text(row).len() > 0,
        is_board_char(pos.ranks_text(row)[0]),
    decreases 7 - row,
{
    lemma_rank_text_plain(pos, row);
    if row == 7 {
        lemma_split_whole(pos.rank_text(7), '/');
        assert(seq![pos.rank_text(7)] =~= Seq::new(1, |k: int| pos.rank_text(7 - k)));
    } else {
        lemma_ranks_split(pos, row + 1);
        lemma_split_last(pos.ranks_text(row + 1), pos.rank_text(row), '/');
        assert(Seq::new((8 - (row + 1)) as nat, |k: int| pos.rank_text(7 - k)).push(
            pos.rank_text(row),
        ) =~= Seq::new((8 - row) as nat, |k: int| pos.rank_text(7 - k)));
    }
}

/// The square comes before column `col` of row `row` in the order of
/// reading: the eighth row first, each row from its first column on.
pub open spec fn processed(c: Coord, row: int, col: int) -> bool {
    c.row > row || (c.row == row && c.col < col)
}

/// The piece as it is read back from its letter on the square `c`.
pub open spec fn read_piece(p: Piece, c: Coord) -> Piece {
    as_placed(c, Piece { moved_once: false, ..p })
}

/// The square recorded for the king of a side once the reading has come to
/// column `col` of row `row`.
pub open spec fn king_seen(pos: Position, color: Color, row: int, col: int) -> Coord {
    if processed(pos.king(color), row, col) && pos.king_on(pos.king(color), color) {
        pos.king(color)
    } else {
        king_home(color)
    }
}

/// The placement holds what the reading of the text of `pos` has gathered
/// when it comes to column `col` of row `row`.
pub open spec fn gathered(state: Placement, pos: Position, row: int, col: int) -> bool {
    &&& forall|c: Coord|
        #![trigger state.grid.dom().contains(c)]
        #![trigger pos.grid.dom().contains(c)]
        state.grid.dom().contains(c) <==> (pos.grid.dom().contains(c) && processed(c, row, col))
    &&& forall|c: Coord|
        #![trigger state.grid[c]]
        #![trigger pos.grid[c]]
        state.grid.dom().contains(c) ==> state.grid[c] == read_piece(pos.grid[c], c)
    &&& state.white_king == king_seen(pos, Color::White, row, col)
    &&& state.black_king == king_seen(pos, Color::Black, row, col)
}

/// What the reading has gathered after it has passed one more square.
proof fn lemma_gathered_step(pos: Position, state: Placement, row: int, col: int)
    requires
        pos.kings_recorded(),
        gathered(state, pos, row, col),
    ensures
        match pos.at(Coord { col, row }) {
            None => gathered(state, pos, row, col + 1),
            Some(p) => gathered(
                placed(state, Coord { col, row }, Piece { moved_once: false, ..p }),
                pos,
                row,
                col + 1,
            ),
        },
{
    let c = Coord { col, row };
    assert(pos.king_on(c, Color::White) ==> c == pos.white_king);
    assert(pos.king_on(c, Color::Black) ==> c == pos.black_king);
    assert(forall|d: Coord| processed(d, row, col + 1) <==> processed(d, row, col) || d == c);
    match pos.at(c) {
        None => {
            assert forall|d: Coord|
                state.grid.dom().contains(d) <==> (pos.grid.dom().contains(d) && processed(
                    d,
                    row,
                    col + 1,
                )) by {
                assert(processed(d, row, col + 1) <==> processed(d, row, col) || d == c);
            }
        },
        Some(p) => {
            let next = placed(state, c, Piece { moved_once: false, ..p });
            assert forall|d: Coord|
                next.grid.dom().contains(d) <==> (pos.grid.dom().contains(d) && processed(
                    d,
                    row,
                    col + 1,
                )) by {
                assert(processed(d, row, col + 1) <==> processed(d, row, col) || d == c);
                assert(next.grid.dom().contains(d) <==> state.grid.dom().contains(d) || d == c);
            }
            assert forall|d: Coord| next.grid.dom().contains(d) implies #[trigger] next.grid[d]
                == read_piece(pos.grid[d], d) by {
                if d != c {
                    assert(state.grid.dom().contains(d));
                    assert(state.grid[d] == read_piece(pos.grid[d], d));
                }
            }
        },
    }
}

/// Reading the text of the rest of a row gathers the pieces of the rest of
/// the row.
proof fn lemma_read_rank_tail(pos: Position, state: Placement, row: int, col: int, run: int)
    requires
        pos.wf(),
        pos.kings_recorded(),
        0 <= row < 8,
        0 <= run <= col <= 8,
        gathered(state, pos, row, col),
    ensures
        read_rank(state, pos.rank_tail(row, col, run), col - run, row) matches Ok(next) && gathered(
            next,
            pos,
            row,
            8,
        ),
    decreases 8 - col,
{
    let text = pos.rank_tail(row, col, run);
    let c = Coord { col, row };
    if col >= 8 {
        if run > 0 {
            assert(text.skip(1) =~= Seq::<char>::empty());
            assert(digit_value(text[0]) == Some(run));
            assert(read_rank(state, text.skip(1), col, row) == Ok::<Placement, FenError>(state));
        }
    } else {
        lemma_gathered_step(pos, state, row, col);
        match pos.at(c) {
            None => {
                lemma_read_rank_tail(pos, state, row, col + 1, run + 1);
            },
            Some(p) => {
                let tail = pos.rank_tail(row, col + 1, 0);
                let letter = p.letter();
                let fresh = Piece { moved_once: false, ..p };
                let next = placed(state, c, fresh);
                lemma_piece_letter_round_trip(p);
                lemma_read_rank_tail(pos, next, row, col + 1, 0);
                let after_run = seq![letter] + tail;
                assert(after_run.skip(1) =~= tail);
                assert(after_run[0] == letter);
                assert(read_rank(state, after_run, col, row) == read_rank(
                    next,
                    tail,
                    col + 1,
                    row,
                ));
                if run > 0 {
                    assert(text =~= seq![digit_char(run)] + after_run);
                    assert(text.skip(1) =~= after_run);
                    assert(digit_value(text[0]) == Some(run));
                } else {
                    assert(text =~= after_run);
                }
            },
        }
    }
}

/// Reading the texts of the rows from the `k`-th on gathers all the pieces.
proof fn lemma_read_ranks(pos: Position, state: Placement, k: int)
    requires
        pos.wf(),
        pos.kings_recorded(),
        0 <= k <= 8,
        gathered(state, pos, 7 - k, 0),
    ensures
        read_ranks(state, pos.rank_texts(), k) matches Ok(next) && gathered(next, pos, -1, 0),
    decreases 8 - k,
{
    if k < 8 {
        lemma_read_rank_tail(pos, state, 7 - k, 0, 0);
        let next = read_rank(state, pos.rank_text(7 - k), 0, 7 - k)->Ok_0;
        assert(pos.rank_texts()[k] == pos.rank_text(7 - k));
        assert(gathered(next, pos, 7 - (k + 1), 0)) by {
            assert forall|c: Coord|
                next.grid.dom().contains(c) <==> (pos.grid.dom().contains(c) && processed(
                    c,
                    7 - (k + 1),
                    0,
                )) by {
                if pos.grid.dom().contains(c) {
                    assert(c.on_board());
                }
                assert(next.grid.dom().contains(c) <==> (pos.grid.dom().contains(c) && processed(
                    c,
                    7 - k,
                    8,
                )));
            }
        }
        lemma_read_ranks(pos, next, k + 1);
    }
}

/// The rights of `state` hold for the given side of the board.
pub open spec fn has_side(state: CastleState, side: CastleState) -> bool {
    state == CastleState::Both || state == side
}

/// The field of the castling rights holds a letter exactly for each right,
/// and no space.
proof fn lemma_castle_field(pos: Position)
    ensures
        pos.castle_field().contains('K') == has_side(
            pos.castle_state(Color::White),
            CastleState::Kingside,
        ),
        pos.castle_field().contains('Q') == has_side(
            pos.castle_state(Color::White),
            CastleState::Queenside,
        ),
        pos.castle_field().contains('k') == has_side(
            pos.castle_state(Color::Black),
            CastleState::Kingside,
        ),
        pos.castle_field().contains('q') == has_side(
            pos.castle_state(Color::Black),
            CastleState::Queenside,
        ),
        free_of(pos.castle_field(), ' '),
{
    let white = castle_letters(pos.castle_state(Color::White), Color::White);
    let black = castle_letters(pos.castle_state(Color::Black), Color::Black);
    let field = pos.castle_field();
    let letters = white + black;
    assert(forall|i: int| 0 <= i < white.len() ==> white[i] == 'K' || white[i] == 'Q');
    assert(forall|i: int| 0 <= i < black.len() ==> black[i] == 'k' || black[i] == 'q');
    assert(forall|i: int|
        0 <= i < letters.len() ==> letters[i] == (if i < white.len() {
            white[i]
        } else {
            black[i - white.len()]
        }));
    if has_side(pos.castle_state(Color::White), CastleState::Kingside) {
        assert(white[0] == 'K');
        assert(field[0] == 'K');
    }
    if has_side(pos.castle_state(Color::White), CastleState::Queenside) {
        assert(white[white.len() - 1] == 'Q');
        assert(field[white.len() - 1] == 'Q');
    }
    if has_side(pos.castle_state(Color::Black), CastleState::Kingside) {
        assert(black[0] == 'k');
        assert(field[white.len() as int] == 'k');
    }
    if has_side(pos.castle_state(Color::Black), CastleState::Queenside) {
        assert(black[black.len() - 1] == 'q');
        assert(field[white.len() + black.len() - 1] == 'q');
    }
}

/// The piece on `c` loses its standing as unmoved under the given field of
/// castling rights.
pub open spec fn lost(state: Placement, rights: Seq<char>, c: Coord) -> bool {
    let white_kingside = rights.contains('K');
    let white_queenside = rights.contains('Q');
    let black_kingside = rights.contains('k');
    let black_queenside = rights.contains('q');
    ||| (!(white_queenside || white_kingside) && c == state.white_king)
    ||| (!(black_kingside || black_queenside) && c == state.black_king)
    ||| (!white_queenside && c == Coord { col: 0, row: 0 })
    ||| (!white_kingside && c == Coord { col: 7, row: 0 })
    ||| (!black_kingside && c == Coord { col: 7, row: 7 })
    ||| (!black_queenside && c == Coord { col: 0, row: 7 })
}

/// Marking one square keeps every piece and marks the one on that square.
proof fn lemma_marked_if(grid: Map<Coord, Piece>, cond: bool, m: Coord, c: Coord)
    ensures
        marked_if(grid, cond, m).dom().contains(c) == grid.dom().contains(c),
        grid.dom().contains(c) ==> marked_if(grid, cond, m)[c] == (Piece {
            moved_once: grid[c].moved_once || (cond && c == m),
            ..grid[c]
        }),
{
}

/// Applying the castling rights keeps every piece and marks those that lose
/// their standing.
proof fn lemma_with_rights(state: Placement, rights: Seq<char>, c: Coord)
    ensures
        with_rights(state, rights).dom().contains(c) == state.grid.dom().contains(c),
        state.grid.dom().contains(c) ==> with_rights(state, rights)[c] == (Piece {
            moved_once: state.grid[c].moved_once || lost(state, rights, c),
            ..state.grid[c]
        }),
{
    let white_kingside = rights.contains('K');
    let white_queenside = rights.contains('Q');
    let black_kingside = rights.contains('k');
    let black_queenside = rights.contains('q');
    let g0 = state.grid;
    let g1 = marked_if(g0, !(white_queenside || white_kingside), state.white_king);
    let g2 = marked_if(g1, !(black_kingside || black_queenside), state.black_king);
    let g3 = marked_if(g2, !white_queenside, Coord { col: 0, row: 0 });
    let g4 = marked_if(g3, !white_kingside, Coord { col: 7, row: 0 });
    let g5 = marked_if(g4, !black_kingside, Coord { col: 7, row: 7 });
    let g6 = marked_if(g5, !black_queenside, Coord { col: 0, row: 7 });
    lemma_marked_if(g0, !(white_queenside || white_kingside), state.white_king, c);
    lemma_marked_if(g1, !(black_kingside || black_queenside), state.black_king, c);
    lemma_marked_if(g2, !white_queenside, Coord { col: 0, row: 0 }, c);
    lemma_marked_if(g3, !white_kingside, Coord { col: 7, row: 0 }, c);
    lemma_marked_if(g4, !black_kingside, Coord { col: 7, row: 7 }, c);
    lemma_marked_if(g5, !black_queenside, Coord { col: 0, row: 7 }, c);
    assert(g6 == with_rights(state, rights));
}

/// The six fields of the text of a position.
proof fn lemma_fields(pos: Position)
    requires
        pos.wf(),
    ensures
        split(trim(pos.fen_text()), ' ') == seq![
            pos.ranks_text(0),
            seq![pos.to_play.letter()],
            pos.castle_field(),
            pos.en_passant_field(),
            decimal(pos.half_move_clock),
            decimal(pos.full_move_clock),
        ],
{
    let x0 = pos.ranks_text(0);
    let side = seq![pos.to_play.letter()];
    let castle = pos.castle_field();
    let passing = pos.en_passant_field();
    let half = decimal(pos.half_move_clock);
    let full = decimal(pos.full_move_clock);
    let x1 = x0 + seq![' '] + side;
    let x2 = x1 + seq![' '] + castle;
    let x3 = x2 + seq![' '] + passing;
    let x4 = x3 + seq![' '] + half;
    let x5 = x4 + seq![' '] + full;
    assert(x5 == pos.fen_text());
    lemma_ranks_split(pos, 0);
    lemma_castle_field(pos);
    lemma_decimal_digits(pos.half_move_clock);
    lemma_decimal_digits(pos.full_move_clock);
    assert(free_of(side, ' '));
    assert(free_of(passing, ' '));
    assert(free_of(half, ' ')) by {
        assert forall|i: int| 0 <= i < half.len() implies #[trigger] half[i] != ' ' by {
            assert(is_digit(half[i]));
        }
    }
    assert(free_of(full, ' ')) by {
        assert forall|i: int| 0 <= i < full.len() implies #[trigger] full[i] != ' ' by {
            assert(is_digit(full[i]));
        }
    }
    lemma_split_whole(x0, ' ');
    lemma_split_last(x0, side, ' ');
    lemma_split_last(x1, castle, ' ');
    lemma_split_last(x2, passing, ' ');
    lemma_split_last(x3, half, ' ');
    lemma_split_last(x4, full, ' ');
    assert(split(x5, ' ') =~= seq![x0, side, castle, passing, half, full]);
    assert(x5[0] == x0[0]);
    assert(x5.last() == full.last());
    assert(is_digit(full[full.len() - 1]));
    lemma_trim_nothing(x5);
}

/// Reading the text form of a position gives back a position that shows
/// the same game, provided every king stands on the square recorded for its
/// side, a king that has never moved stands on its starting square, and the
/// counters fit the machine.
pub proof fn lemma_fen_round_trip(pos: Position)
    requires
        pos.wf(),
        pos.kings_recorded(),
        pos.half_move_clock <= usize::MAX,
        pos.full_move_clock <= usize::MAX,
    ensures
        parse_fen(pos.fen_text()) matches Ok(read) && pos.same_game(read) && read.wf(),
{
    lemma_fields(pos);
    let fields = split(trim(pos.fen_text()), ' ');
    assert(fields.len() == 6);
    assert(fields[0] == pos.ranks_text(0));
    assert(fields[1] == seq![pos.to_play.letter()]);
    assert(fields[2] == pos.castle_field());
    assert(fields[3] == pos.en_passant_field());
    assert(fields[4] == decimal(pos.half_move_clock));
    assert(fields[5] == decimal(pos.full_move_clock));
    lemma_ranks_split(pos, 0);
    assert(split(fields[0], '/') =~= pos.rank_texts());
    assert(gathered(empty_placement(), pos, 7, 0)) by {
        assert forall|c: Coord| pos.grid.dom().contains(c) implies !processed(c, 7, 0) by {
            assert(c.on_board());
        }
    }
    lemma_read_ranks(pos, empty_placement(), 0);
    let state = read_ranks(empty_placement(), pos.rank_texts(), 0)->Ok_0;
    assert(Color::parse(fields[1]) == Ok::<Color, PieceError>(pos.to_play));
    assert(read_en_passant(fields[3]) == Ok::<Option<Coord>, Error>(pos.en_passant)) by {
        match pos.en_passant {
            Some(c) => {
                let sq = Square::at_coord(c);
                lemma_notation_round_trip(sq);
                assert(sq@ == c);
                assert(sq.notation().len() == 2);
            },
            None => {},
        }
    }
    lemma_decimal_round_trip(pos.half_move_clock);
    lemma_decimal_round_trip(pos.full_move_clock);
    let read = parse_fen(pos.fen_text())->Ok_0;
    assert(parse_fen(pos.fen_text()) is Ok);
    assert(read.grid == with_rights(state, pos.castle_field()));
    lemma_castle_field(pos);
    assert forall|c: Coord| #[trigger] pos.kind_at(c) == read.kind_at(c) by {
        lemma_with_rights(state, pos.castle_field(), c);
        if pos.grid.dom().contains(c) {
            assert(c.on_board());
            assert(processed(c, -1, 0));
        }
    }
    assert(read.wf()) by {
        assert forall|c: Coord| read.grid.dom().contains(c) implies c.on_board() by {
            lemma_with_rights(state, pos.castle_field(), c);
        }
    }
    lemma_same_rights(pos, state, read, Color::White);
    lemma_same_rights(pos, state, read, Color::Black);
}

/// The position that is read back grants a side the castling rights that
/// the position that was written granted it.
proof fn lemma_same_rights(pos: Position, state: Placement, read: Position, color: Color)
    requires
        pos.wf(),
        pos.kings_recorded(),
        gathered(state, pos, -1, 0),
        read.grid == with_rights(state, pos.castle_field()),
        read.white_king == state.white_king,
        read.black_king == state.black_king,
    ensures
        pos.castle_state(color) == read.castle_state(color),
        pos.king_on(pos.king(color), color) ==> read.king(color) == pos.king(color),
{
    lemma_castle_field(pos);
    let rights = pos.castle_field();
    let king = pos.king(color);
    let row = pieces_row(color);
    let near = Coord { col: 7, row: king.row };
    let far = Coord { col: 0, row: king.row };
    assert(processed(king, -1, 0));
    assert(read.king(color) == king_seen(pos, color, -1, 0));
    lemma_with_rights(state, rights, read.king(color));
    lemma_with_rights(state, rights, king);
    lemma_with_rights(state, rights, near);
    lemma_with_rights(state, rights, far);
    lemma_with_rights(state, rights, Coord { col: 7, row: read.king(color).row });
    lemma_with_rights(state, rights, Coord { col: 0, row: read.king(color).row });
    assert forall|c: Coord| pos.grid.dom().contains(c) implies processed(c, -1, 0)
        && c.on_board() by {
        assert(c.on_board());
    }
    if pos.king_on(king, color) {
        assert(read.king(color) == king);
        if !pos.grid[king].moved_once {
            assert(king == king_home(color));
        }
    } else {
        assert(read.king(color) == king_home(color));
        assert(pos.castle_state(color) == CastleState::Neither);
        let home = king_home(color);
        if read.king_on(home, color) {
            assert(state.grid.dom().contains(home));
            assert(pos.king_on(home, color));
            assert(home == king);
        }
    }
}

/// In the starting position every king stands where it is recorded.
pub proof fn lemma_start_kings_recorded()
    ensures
        starting_position().wf(),
        starting_position().kings_recorded(),
{
}

/// A move that is carried out keeps every king on the square recorded for
/// its side.
pub proof fn lemma_move_keeps_kings_recorded(pos: Position, src: Coord, dst: Coord)
    requires
        pos.wf(),
        pos.kings_recorded(),
        src.on_board(),
        dst.on_board(),
        pos.move_result(src, dst) is Ok,
    ensures
        pos.move_result(src, dst)->Ok_0.wf(),
        pos.move_result(src, dst)->Ok_0.kings_recorded(),
{
    let next = pos.successor(src, dst);
    let piece = pos.grid[src];
    assert(pos.at(src) == Some(piece));
    assert(pos.king_on(src, piece.color) ==> src == pos.king(piece.color));
    if pos.is_castling(src, dst) {
        assert(pos.king_on(src, piece.color));
        assert(src == king_home(piece.color));
    }
    assert forall|c: Coord| next.grid.dom().contains(c) implies c.on_board() by {
        if c != dst && !pos.grid.dom().contains(c) {
            assert(pos.is_castling(src, dst));
        }
    }
    assert forall|c: Coord, color: Color| #[trigger] next.king_on(c, color) implies c == next.king(
        color,
    ) && (!next.grid[c].moved_once ==> c == king_home(color)) by {
        if c != dst {
            assert(pos.king_on(c, color));
        }
    }
}

/// The position that a game reaches from the starting position by the
/// given moves, each from one square to another, or the error of the first
/// move that is refused.
pub open spec fn after_moves(moves: Seq<(Coord, Coord)>) -> Result<Position, MoveError>
    decreases moves.len(),
{
    if moves.len() == 0 {
        Ok(starting_position())
    } else {
        match after_moves(moves.drop_last()) {
            Ok(pos) => pos.move_result(moves.last().0, moves.last().1),
            Err(e) => Err(e),
        }
    }
}

/// In every position of a game that starts from the starting position,
/// every king stands where it is recorded.
pub proof fn lemma_game_keeps_kings_recorded(moves: Seq<(Coord, Coord)>)
    requires
        forall|i: int| 0 <= i < moves.len() ==> moves[i].0.on_board() && moves[i].1.on_board(),
        after_moves(moves) is Ok,
    ensures
        after_moves(moves)->Ok_0.wf(),
        after_moves(moves)->Ok_0.kings_recorded(),
    decreases moves.len(),
{
    if moves.len() == 0 {
        lemma_start_kings_recorded();
    } else {
        let before = moves.drop_last();
        lemma_game_keeps_kings_recorded(before);
        lemma_move_keeps_kings_recorded(
            after_moves(before)->Ok_0,
            moves.last().0,
            moves.last().1,
        );
    }
}

/// The text form of every position of a game that starts from the starting
/// position reads back as a position that shows the same game, as long as
/// the counters fit the machine.
pub proof fn lemma_game_round_trip(moves: Seq<(Coord, Coord)>)
    requires
        forall|i: int| 0 <= i < moves.len() ==> moves[i].0.on_board() && moves[i].1.on_board(),
        after_moves(moves) is Ok,
        after_moves(moves)->Ok_0.half_move_clock <= usize::MAX,
        after_moves(moves)->Ok_0.full_move_clock <= usize::MAX,
    ensures
        parse_fen(after_moves(moves)->Ok_0.fen_text()) matches Ok(read) && after_moves(
            moves,
        )->Ok_0.same_game(read),
{
    lemma_game_keeps_kings_recorded(moves);
    lemma_fen_round_trip(after_moves(moves)->Ok_0);
}

/// The position that a well-formed board shows names squares of the board
/// only, and its counters fit the machine.
pub proof fn lemma_board_shows_position(board: Board)
    requires
        board.wf(),
    ensures
        board@.wf(),
        board@.half_move_clock <= usize::MAX,
        board@.full_move_clock <= usize::MAX,
{
}

/// The text form of a board on which every king stands where it is recorded
/// reads back as a position that shows the same game.
pub proof fn lemma_board_round_trip(board: Board)
    requires
        board.wf(),
        board@.kings_recorded(),
    ensures
        parse_fen(board@.fen_text()) matches Ok(read) && board@.same_game(read),
{
    lemma_board_shows_position(board);
    lemma_fen_round_trip(board@);
}

} // verus!
