//! Position strings: reading the six fields into a board.

use vstd::prelude::*;
use crate::board::{Board, BoardState, Castles, find_kings, king_count};
use crate::error::BoardError;
use crate::piece::{ClassicalPiece, fen_char, piece_of_char};
use crate::square::{Square, Team, alg_square, is_alg};
use crate::text::{
    chars_of, contains_char, decimal_value, digit_value, is_digit, is_u32_numeral,
    parse_bounded, split, split_on, views,
};

verus! {

/// `n` empty squares.
pub open spec fn empties(n: nat) -> Seq<Option<ClassicalPiece>> {
    Seq::new(n, |_i: int| None)
}

/// A rank of the placement field read from the left: the squares decided so
/// far and the number that the digits read since the last piece write; `None`
/// once a character is neither a digit nor a piece letter.
pub open spec fn row_scan(row: Seq<char>) -> Option<(Seq<Option<ClassicalPiece>>, nat)>
    decreases row.len(),
{
    if row.len() == 0 {
        Some((Seq::empty(), 0))
    } else {
        match row_scan(row.drop_last()) {
            None => None,
            Some(state) => {
                let c = row.last();
                if is_digit(c) {
                    Some((state.0, state.1 * 10 + digit_value(c)))
                } else {
                    match piece_of_char(c) {
                        Some(p) => Some((state.0 + empties(state.1) + seq![Some(p)], 0)),
                        None => None,
                    }
                }
            },
        }
    }
}

/// The squares that a rank of the placement field describes: a run of digits
/// stands for that many empty squares, a letter for a piece.
pub open spec fn row_cells(row: Seq<char>) -> Option<Seq<Option<ClassicalPiece>>> {
    match row_scan(row) {
        Some(state) => Some(state.0 + empties(state.1)),
        None => None,
    }
}

/// The rank describes exactly eight squares.
pub open spec fn row_ok(row: Seq<char>) -> bool {
    row_cells(row) matches Some(c) && c.len() == 8
}

/// The squares of the ranks `rows`, one after the other, where each is well formed.
pub open spec fn ranks_cells(rows: Seq<Seq<char>>) -> Option<Seq<Option<ClassicalPiece>>>
    decreases rows.len(),
{
    if rows.len() == 0 {
        Some(Seq::empty())
    } else {
        match ranks_cells(rows.drop_last()) {
            Some(init) => if row_ok(rows.last()) {
                Some(init + row_cells(rows.last())->0)
            } else {
                None
            },
            None => None,
        }
    }
}

/// The 64 squares that the placement field describes: eight ranks separated
/// by `/`, top rank first.
pub open spec fn placement(field: Seq<char>) -> Option<Seq<Option<ClassicalPiece>>> {
    let rows = split(field, '/');
    if rows.len() == 8 {
        ranks_cells(rows)
    } else {
        None
    }
}

/// The side to move that the second field names.
pub open spec fn side_of(field: Seq<char>) -> Option<Team> {
    if field == seq!['w'] {
        Some(Team::White)
    } else if field == seq!['b'] {
        Some(Team::Black)
    } else {
        None
    }
}

/// The castling rights of the third field: each of `K`, `Q`, `k`, `q` grants
/// one; other characters, and `-`, grant none.
pub open spec fn castles_of(field: Seq<char>) -> Castles {
    Castles {
        wq: field.contains('Q'),
        wk: field.contains('K'),
        bq: field.contains('q'),
        bk: field.contains('k'),
    }
}

/// The en passant field is `-` or a square of the board.
pub open spec fn enpassent_ok(field: Seq<char>) -> bool {
    field == seq!['-'] || is_alg(field, 8, 8)
}

/// The en passant target that the fourth field names.
pub open spec fn enpassent_of(field: Seq<char>) -> Option<Square> {
    if field == seq!['-'] {
        None
    } else {
        Some(alg_square(field, 8))
    }
}

/// The six fields of a position string.
pub open spec fn fen_fields(s: Seq<char>) -> Seq<Seq<char>> {
    split(s, ' ')
}

/// Every field of the position string can be read.
pub open spec fn fen_well_formed(s: Seq<char>) -> bool {
    let f = fen_fields(s);
    &&& f.len() == 6
    &&& placement(f[0]) is Some
    &&& side_of(f[1]) is Some
    &&& enpassent_ok(f[3])
    &&& is_u32_numeral(f[4])
    &&& is_u32_numeral(f[5])
}

/// Why the position string gives no board, if it gives none: it cannot be
/// read; or a team has no king or two kings; or the round is zero.
pub open spec fn fen_error(s: Seq<char>) -> Option<BoardError> {
    if !fen_well_formed(s) {
        Some(BoardError::InvalidFen)
    } else {
        let f = fen_fields(s);
        let cells = placement(f[0])->0;
        if king_count(cells, Team::White) != 1 || king_count(cells, Team::Black) != 1 {
            Some(BoardError::IllegalPosition)
        } else if decimal_value(f[5]) == 0 {
            Some(BoardError::RoundIsZero)
        } else {
            None
        }
    }
}

/// `st` is the position that the string describes, with each king recorded
/// where it stands.
pub open spec fn fen_describes(s: Seq<char>, st: BoardState) -> bool {
    let f = fen_fields(s);
    &&& st.squares == placement(f[0])->0
    &&& st.current_player == side_of(f[1])->0
    &&& st.castles == castles_of(f[2])
    &&& st.enpassent == enpassent_of(f[3])
    &&& st.halfmove_clock == decimal_value(f[4])
    &&& st.round == decimal_value(f[5])
    &&& st.kings_placed()
}

/// The number of squares decided or pending after reading `row`.
pub open spec fn scanned_len(row: Seq<char>) -> nat {
    match row_scan(row) {
        Some(state) => state.0.len() + state.1,
        None => 0,
    }
}

/// Once a rank has failed to read, no longer text makes it readable.
pub proof fn lemma_scan_fails_on(row: Seq<char>, i: int)
    requires
        0 <= i <= row.len(),
        row_scan(row.take(i)) is None,
    ensures
        row_scan(row) is None,
    decreases row.len() - i,
{
    if i == row.len() {
        assert(row.take(i) =~= row);
    } else {
        assert(row.take(i + 1).drop_last() =~= row.take(i));
        lemma_scan_fails_on(row, i + 1);
    }
}

/// The squares of a readable rank are at least those decided so far plus the
/// pending run of empty squares.
pub proof fn lemma_scan_grows(row: Seq<char>, i: int)
    requires
        0 <= i <= row.len(),
        row_scan(row.take(i)) is Some,
        row_cells(row) is Some,
    ensures
        row_cells(row)->0.len() >= scanned_len(row.take(i)),
    decreases row.len() - i,
{
    if i == row.len() {
        assert(row.take(i) =~= row);
    } else {
        assert(row.take(i + 1).drop_last() =~= row.take(i));
        if row_scan(row.take(i + 1)) is None {
            lemma_scan_fails_on(row, i + 1);
        } else {
            lemma_scan_grows(row, i + 1);
        }
    }
}

/// Reads one rank of the placement field; `None` unless it is well formed
/// and describes exactly eight squares.
pub fn parse_row(row: &Vec<char>) -> (r: Option<Vec<Option<ClassicalPiece>>>)
    ensures
        r is Some <==> row_ok(row@),
        r matches Some(v) ==> row_cells(row@) == Some(v@),
{
    let mut cells: Vec<Option<ClassicalPiece>> = Vec::new();
    let mut run: usize = 0;
    let mut i: usize = 0;
    assert(row@.take(0) =~= Seq::<char>::empty());
    while i < row.len()
        invariant
            i <= row@.len(),
            row_scan(row@.take(i as int)) == Some((cells@, run as nat)),
            cells@.len() + run <= 8,
        decreases row@.len() - i,
    {
        let c = row[i];
        assert(row@.take(i + 1).drop_last() =~= row@.take(i as int));
        assert(row@.take(i + 1).last() == c);
        if 48 <= c as u32 && c as u32 <= 57 {
            let d = (c as u32 - 48) as usize;
            if cells.len() + run * 10 + d > 8 {
                proof {
                    if row_cells(row@) is Some {
                        lemma_scan_grows(row@, i + 1);
                    }
                }
                return None;
            }
            run = run * 10 + d;
        } else {
            match fen_char(c) {
                Some(p) => {
                    if cells.len() + run + 1 > 8 {
                        proof {
                            if row_cells(row@) is Some {
                                lemma_scan_grows(row@, i + 1);
                            }
                        }
                        return None;
                    }
                    let ghost before = cells@;
                    let mut k: usize = 0;
                    while k < run
                        invariant
                            k <= run,
                            cells@ =~= before + empties(k as nat),
                        decreases run - k,
                    {
                        cells.push(None);
                        k += 1;
                    }
                    cells.push(Some(p));
                    assert(cells@ =~= before + empties(run as nat) + seq![Some(p)]);
                    run = 0;
                },
                None => {
                    proof {
                        lemma_scan_fails_on(row@, i + 1);
                    }
                    return None;
                },
            }
        }
        i += 1;
    }
    assert(row@.take(row@.len() as int) =~= row@);
    if cells.len() + run != 8 {
        return None;
    }
    let ghost before = cells@;
    let mut k: usize = 0;
    while k < run
        invariant
            k <= run,
            cells@ =~= before + empties(k as nat),
        decreases run - k,
    {
        cells.push(None);
        k += 1;
    }
    Some(cells)
}

/// Reads the placement field into the 64 squares of the board.
pub fn parse_placement(field: &Vec<char>) -> (r: Option<Vec<Option<ClassicalPiece>>>)
    ensures
        r is Some <==> placement(field@) is Some,
        r matches Some(v) ==> placement(field@) == Some(v@) && v@.len() == 64,
{
    let rows = split_on(field, '/');
    let ghost rs = split(field@, '/');
    assert(views(rows@).len() == rows@.len());
    if rows.len() != 8 {
        return None;
    }
    let mut cells: Vec<Option<ClassicalPiece>> = Vec::new();
    let mut i: usize = 0;
    assert(rs.take(0) =~= Seq::<Seq<char>>::empty());
    while i < 8
        invariant
            rows@.len() == 8,
            views(rows@) == rs,
            rs == split(field@, '/'),
            i <= 8,
            ranks_cells(rs.take(i as int)) == Some(cells@),
            cells@.len() == 8 * i,
        decreases 8 - i,
    {
        assert(rs.take(i + 1).drop_last() =~= rs.take(i as int));
        assert(rs.take(i + 1).last() == rows@[i as int]@);
        match parse_row(&rows[i]) {
            Some(row) => {
                let mut row = row;
                cells.append(&mut row);
                assert(cells@.len() == 8 * i + 8);
            },
            None => {
                proof {
                    assert(ranks_cells(rs.take(i + 1)) is None);
                    lemma_ranks_fail_on(rs, i as int + 1);
                }
                return None;
            },
        }
        i += 1;
    }
    assert(rs.take(8) =~= rs);
    Some(cells)
}

/// Once a rank fails, the placement as a whole fails.
pub proof fn lemma_ranks_fail_on(rows: Seq<Seq<char>>, i: int)
    requires
        0 <= i <= rows.len(),
        ranks_cells(rows.take(i)) is None,
    ensures
        ranks_cells(rows) is None,
    decreases rows.len() - i,
{
    if i == rows.len() {
        assert(rows.take(i) =~= rows);
    } else {
        assert(rows.take(i + 1).drop_last() =~= rows.take(i));
        lemma_ranks_fail_on(rows, i + 1);
    }
}

/// The side to move that a field names.
fn parse_side(field: &Vec<char>) -> (r: Option<Team>)
    ensures
        r == side_of(field@),
{
    if field.len() == 1 && field[0] == 'w' {
        assert(field@ =~= seq!['w']);
        Some(Team::White)
    } else if field.len() == 1 && field[0] == 'b' {
        assert(field@ =~= seq!['b']);
        Some(Team::Black)
    } else {
        assert(field@ != seq!['w'] && field@ != seq!['b']) by {
            if field@.len() == 1 {
                assert(seq!['w'][0] == 'w');
                assert(seq!['b'][0] == 'b');
            }
        }
        None
    }
}

/// Reads the en passant field: `-`, or a square of the board.
fn parse_enpassent(field: &Vec<char>) -> (r: Option<Option<Square>>)
    ensures
        r is Some <==> enpassent_ok(field@),
        r matches Some(ep) ==> ep == enpassent_of(field@),
{
    if field.len() == 1 && field[0] == '-' {
        assert(field@ =~= seq!['-']);
        return Some(None);
    }
    assert(field@ != seq!['-']) by {
        if field@.len() == 1 {
            assert(seq!['-'][0] == '-');
        }
    }
    match Square::alg_from_chars(field, (8, 8)) {
        Ok(sq) => Some(Some(sq)),
        Err(_) => None,
    }
}

impl Board {
    /// Builds a board from a position string of six space-separated fields:
    /// placement, side to move, castling rights, en passant target, halfmove
    /// clock and round.
    pub fn from_fen(fen: &str) -> (r: Result<Board, BoardError>)
        ensures
            r is Err <==> fen_error(fen@) is Some,
            r matches Err(e) ==> fen_error(fen@) == Some(e),
            r matches Ok(b) ==> b.wf() && fen_describes(fen@, b@),
    {
        let chars = chars_of(fen);
        let fields = split_on(&chars, ' ');
        let ghost f = fen_fields(fen@);
        assert(views(fields@).len() == fields@.len());
        if fields.len() != 6 {
            return Err(BoardError::InvalidFen);
        }
        assert(forall|k: int| 0 <= k < 6 ==> #[trigger] fields@[k]@ == f[k]) by {
            assert forall|k: int| 0 <= k < 6 implies #[trigger] fields@[k]@ == f[k] by {
                assert(views(fields@)[k] == fields@[k]@);
            }
        }
        let cells = match parse_placement(&fields[0]) {
            Some(c) => c,
            None => {
                return Err(BoardError::InvalidFen);
            },
        };
        let side = match parse_side(&fields[1]) {
            Some(t) => t,
            None => {
                return Err(BoardError::InvalidFen);
            },
        };
        let castles = Castles {
            wq: contains_char(&fields[2], 'Q'),
            wk: contains_char(&fields[2], 'K'),
            bq: contains_char(&fields[2], 'q'),
            bk: contains_char(&fields[2], 'k'),
        };
        let ep = match parse_enpassent(&fields[3]) {
            Some(e) => e,
            None => {
                return Err(BoardError::InvalidFen);
            },
        };
        let halfmove = match parse_bounded(&fields[4], u32::MAX) {
            Some(v) => v,
            None => {
                return Err(BoardError::InvalidFen);
            },
        };
        let round = match parse_bounded(&fields[5], u32::MAX) {
            Some(v) => v,
            None => {
                return Err(BoardError::InvalidFen);
            },
        };
        let (nw, wk) = find_kings(&cells, Team::White);
        let (nb, bk) = find_kings(&cells, Team::Black);
        if nw != 1 || nb != 1 {
            return Err(BoardError::IllegalPosition);
        }
        let mut kings: Vec<Square> = Vec::new();
        kings.push(wk);
        kings.push(bk);
        Board::new(cells, kings, side, castles, ep, halfmove, round)
    }
}

/// Builds a board of the classical game from a position string.
pub fn setup_from_fen(raw: &str) -> (r: Result<Board, BoardError>)
    ensures
        r is Err <==> fen_error(raw@) is Some,
        r matches Err(e) ==> fen_error(raw@) == Some(e),
        r matches Ok(b) ==> b.wf() && fen_describes(raw@, b@),
{
    Board::from_fen(raw)
}

/// A position string whose fields can all be read but one of whose ranks
/// describes other than eight squares is refused as unreadable.
pub proof fn lemma_rank_width_is_invalid_fen(s: Seq<char>, r: int)
    requires
        0 <= r < split(fen_fields(s)[0], '/').len(),
        fen_fields(s).len() >= 1,
        row_cells(split(fen_fields(s)[0], '/')[r]) matches Some(c) && c.len() != 8,
    ensures
        fen_error(s) == Some(BoardError::InvalidFen),
{
    let rows = split(fen_fields(s)[0], '/');
    if rows.len() == 8 {
        assert(rows.take(r + 1).drop_last() =~= rows.take(r));
        assert(rows.take(r + 1).last() == rows[r]);
        assert(ranks_cells(rows.take(r + 1)) is None);
        lemma_ranks_fail_on(rows, r + 1);
    }
}

/// A readable position string in which one team has two or more kings is
/// refused as an illegal position.
pub proof fn lemma_extra_king_is_illegal(s: Seq<char>, team: Team)
    requires
        fen_well_formed(s),
        king_count(placement(fen_fields(s)[0])->0, team) >= 2,
    ensures
        fen_error(s) == Some(BoardError::IllegalPosition),
{
}

} // verus!
