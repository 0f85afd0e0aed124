//! The board: placement grid, game metadata and the king-location cache.

use vstd::prelude::*;
use crate::error::BoardError;
use crate::piece::{ClassicalPiece, ClassicalPieceKind};
use crate::square::{Square, Team};

verus! {

/// Castling rights: White or Black, kingside or queenside.
#[derive(Clone, Copy, PartialEq, Eq, Structural, Debug)]
pub struct Castles {
    pub wq: bool,
    pub wk: bool,
    pub bq: bool,
    pub bk: bool,
}

/// What a board holds, as mathematical values.
pub struct BoardState {
    /// The 64 squares, rank by rank from rank index 0, each rank from file `a`.
    pub squares: Seq<Option<ClassicalPiece>>,
    /// Where White's king and Black's king stand, as recorded.
    pub kings: (Square, Square),
    pub current_player: Team,
    pub castles: Castles,
    pub enpassent: Option<Square>,
    pub halfmove_clock: u32,
    pub round: u32,
}

/// The position of a square of the board in the row-major list of squares.
pub open spec fn square_index(s: Square) -> int {
    s.0 * 8 + s.1
}

/// The square at position `i` of the row-major list of squares.
pub open spec fn index_square(i: int) -> Square {
    Square((i / 8) as i32, (i % 8) as i32)
}

/// The king of `team`.
pub open spec fn king_of(team: Team) -> ClassicalPiece {
    ClassicalPiece { kind: ClassicalPieceKind::King, team }
}

/// How many kings of `team` stand on `cells`.
pub open spec fn king_count(cells: Seq<Option<ClassicalPiece>>, team: Team) -> nat {
    cells.filter(|c: Option<ClassicalPiece>| c == Some(king_of(team))).len()
}

impl BoardState {
    /// The piece on square `s`; nothing off the board.
    pub open spec fn at(self, s: Square) -> Option<ClassicalPiece> {
        if s.spec_in_bounds() {
            self.squares[square_index(s)]
        } else {
            None
        }
    }

    /// The recorded square of `team`'s king.
    pub open spec fn king_square(self, team: Team) -> Square {
        match team {
            Team::White => self.kings.0,
            Team::Black => self.kings.1,
        }
    }

    /// Each team has exactly one king, and it stands where it is recorded.
    pub open spec fn kings_placed(self) -> bool {
        &&& king_count(self.squares, Team::White) == 1
        &&& king_count(self.squares, Team::Black) == 1
        &&& self.kings.0.spec_in_bounds()
        &&& self.kings.1.spec_in_bounds()
        &&& self.at(self.kings.0) == Some(king_of(Team::White))
        &&& self.at(self.kings.1) == Some(king_of(Team::Black))
    }
}

/// The piece at the back rank file `file` in the starting position.
pub open spec fn back_rank_kind(file: int) -> ClassicalPieceKind {
    if file == 0 || file == 7 {
        ClassicalPieceKind::Rook
    } else if file == 1 || file == 6 {
        ClassicalPieceKind::Knight
    } else if file == 2 || file == 5 {
        ClassicalPieceKind::Bishop
    } else if file == 3 {
        ClassicalPieceKind::Queen
    } else {
        ClassicalPieceKind::King
    }
}

/// The content of square `i` in the starting position.
pub open spec fn starting_cell(i: int) -> Option<ClassicalPiece> {
    let rank = i / 8;
    let file = i % 8;
    if rank == 0 {
        Some(ClassicalPiece { kind: back_rank_kind(file), team: Team::Black })
    } else if rank == 1 {
        Some(ClassicalPiece { kind: ClassicalPieceKind::Pawn, team: Team::Black })
    } else if rank == 6 {
        Some(ClassicalPiece { kind: ClassicalPieceKind::Pawn, team: Team::White })
    } else if rank == 7 {
        Some(ClassicalPiece { kind: back_rank_kind(file), team: Team::White })
    } else {
        None
    }
}

/// The classical starting position, White to move, all castling rights.
pub open spec fn starting_state() -> BoardState {
    BoardState {
        squares: Seq::new(64, |i: int| starting_cell(i)),
        kings: (Square(7, 4), Square(0, 4)),
        current_player: Team::White,
        castles: Castles { wq: true, wk: true, bq: true, bk: true },
        enpassent: None,
        halfmove_clock: 0,
        round: 1,
    }
}

/// A board with only the two kings, on their starting squares, White to
/// move, no castling rights.
pub open spec fn kings_only_state() -> BoardState {
    BoardState {
        squares: Seq::new(
            64,
            |i: int|
                if i == 60 {
                    Some(king_of(Team::White))
                } else if i == 4 {
                    Some(king_of(Team::Black))
                } else {
                    None
                },
        ),
        kings: (Square(7, 4), Square(0, 4)),
        current_player: Team::White,
        castles: Castles { wq: false, wk: false, bq: false, bk: false },
        enpassent: None,
        halfmove_clock: 0,
        round: 1,
    }
}

/// What the general constructor gives for its arguments.
pub open spec fn construction(
    pieces: Seq<Option<ClassicalPiece>>,
    kings: Seq<Square>,
    current_player: Team,
    castles: Castles,
    enpassent: Option<Square>,
    halfmove_clock: u32,
    round: u32,
) -> Result<BoardState, BoardError> {
    if kings.len() != 2 {
        Err(BoardError::NotEnoughKings)
    } else if round == 0 {
        Err(BoardError::RoundIsZero)
    } else {
        let st = BoardState {
            squares: pieces,
            kings: (kings[0], kings[1]),
            current_player,
            castles,
            enpassent,
            halfmove_clock,
            round,
        };
        if pieces.len() != 64 || !st.kings_placed() {
            Err(BoardError::IllegalPosition)
        } else {
            Ok(st)
        }
    }
}

/// Where a single element satisfies `pred`, the filter keeps just that one.
proof fn lemma_filter_single<A>(s: Seq<A>, pred: spec_fn(A) -> bool, k: int, j: int)
    requires
        0 <= k < s.len(),
        0 <= j <= s.len(),
        pred(s[k]),
        forall|i: int| 0 <= i < s.len() && i != k ==> !pred(#[trigger] s[i]),
    ensures
        s.take(j).filter(pred).len() == (if j > k {
            1int
        } else {
            0int
        }),
    decreases j,
{
    reveal(Seq::filter);
    if j > 0 {
        lemma_filter_single(s, pred, k, j - 1);
        assert(s.take(j).drop_last() =~= s.take(j - 1));
        assert(s.take(j).last() == s[j - 1]);
    } else {
        assert(s.take(0) =~= Seq::<A>::empty());
    }
}

/// The starting position has one king per team, on the recorded squares.
proof fn lemma_starting_kings()
    ensures
        starting_state().kings_placed(),
{
    let st = starting_state();
    let cells = st.squares;
    assert forall|i: int| 0 <= i < 64 && i != 60 implies #[trigger] cells[i] != Some(
        king_of(Team::White),
    ) by {
        if cells[i] == Some(king_of(Team::White)) {
            assert(i / 8 == 7 && i % 8 == 4);
        }
    }
    assert forall|i: int| 0 <= i < 64 && i != 4 implies #[trigger] cells[i] != Some(
        king_of(Team::Black),
    ) by {
        if cells[i] == Some(king_of(Team::Black)) {
            assert(i / 8 == 0 && i % 8 == 4);
        }
    }
    lemma_filter_single(cells, |c: Option<ClassicalPiece>| c == Some(king_of(Team::White)), 60, 64);
    lemma_filter_single(cells, |c: Option<ClassicalPiece>| c == Some(king_of(Team::Black)), 4, 64);
    assert(cells.take(64) =~= cells);
}

/// The board: an 8×8 grid of pieces and the game's metadata.
pub struct Board {
    pieces: Vec<Option<ClassicalPiece>>,
    kings: (Square, Square),
    current_player: Team,
    castles: Castles,
    enpassent: Option<Square>,
    halfmove_clock: u32,
    round: u32,
}

impl View for Board {
    type V = BoardState;

    closed spec fn view(&self) -> BoardState {
        BoardState {
            squares: self.pieces@,
            kings: self.kings,
            current_player: self.current_player,
            castles: self.castles,
            enpassent: self.enpassent,
            halfmove_clock: self.halfmove_clock,
            round: self.round,
        }
    }
}

/// Counts the kings of `team` on `cells`, and gives the square of the last one.
pub(crate) fn find_kings(cells: &Vec<Option<ClassicalPiece>>, team: Team) -> (r: (usize, Square))
    requires
        cells@.len() == 64,
    ensures
        r.0 == king_count(cells@, team),
        r.0 >= 1 ==> r.1.spec_in_bounds() && cells@[square_index(r.1)] == Some(king_of(team)),
{
    let ghost pred = |c: Option<ClassicalPiece>| c == Some(king_of(team));
    let mut n: usize = 0;
    let mut at = Square(0, 0);
    let mut i: usize = 0;
    assert(cells@.take(0) =~= Seq::<Option<ClassicalPiece>>::empty());
    proof {
        reveal(Seq::filter);
    }
    while i < 64
        invariant
            i <= 64,
            cells@.len() == 64,
            pred == (|c: Option<ClassicalPiece>| c == Some(king_of(team))),
            n == cells@.take(i as int).filter(pred).len(),
            n <= i,
            n >= 1 ==> at.spec_in_bounds() && cells@[square_index(at)] == Some(king_of(team)),
        decreases 64 - i,
    {
        let c = cells[i];
        proof {
            reveal(Seq::filter);
            assert(cells@.take(i + 1).drop_last() =~= cells@.take(i as int));
        }
        if c == Some(ClassicalPiece { kind: ClassicalPieceKind::King, team }) {
            n = n + 1;
            at = Square((i / 8) as i32, (i % 8) as i32);
        }
        i += 1;
    }
    assert(cells@.take(64) =~= cells@);
    (n, at)
}

/// The content of square `i` of the starting position.
fn starting_cell_exec(i: usize) -> (r: Option<ClassicalPiece>)
    requires
        i < 64,
    ensures
        r == starting_cell(i as int),
{
    let rank = i / 8;
    let file = i % 8;
    let back = if file == 0 || file == 7 {
        ClassicalPieceKind::Rook
    } else if file == 1 || file == 6 {
        ClassicalPieceKind::Knight
    } else if file == 2 || file == 5 {
        ClassicalPieceKind::Bishop
    } else if file == 3 {
        ClassicalPieceKind::Queen
    } else {
        ClassicalPieceKind::King
    };
    if rank == 0 {
        Some(ClassicalPiece { kind: back, team: Team::Black })
    } else if rank == 1 {
        Some(ClassicalPiece { kind: ClassicalPieceKind::Pawn, team: Team::Black })
    } else if rank == 6 {
        Some(ClassicalPiece { kind: ClassicalPieceKind::Pawn, team: Team::White })
    } else if rank == 7 {
        Some(ClassicalPiece { kind: back, team: Team::White })
    } else {
        None
    }
}

impl Board {
    /// The grid has 64 squares and the recorded king squares lie on the board.
    pub open spec fn wf(&self) -> bool {
        &&& self@.squares.len() == 64
        &&& self@.kings.0.spec_in_bounds()
        &&& self@.kings.1.spec_in_bounds()
    }

    /// Builds a board from its parts, checking that two king squares are
    /// given, that the round is at least one, that the grid has 64 squares,
    /// and that each team has exactly one king, standing on its given square.
    pub fn new(
        pieces: Vec<Option<ClassicalPiece>>,
        kings: Vec<Square>,
        current_player: Team,
        castles: Castles,
        enpassent: Option<Square>,
        halfmove_clock: u32,
        round: u32,
    ) -> (r: Result<Board, BoardError>)
        ensures
            r is Ok <==> construction(
                pieces@,
                kings@,
                current_player,
                castles,
                enpassent,
                halfmove_clock,
                round,
            ) is Ok,
            r matches Err(e) ==> construction(
                pieces@,
                kings@,
                current_player,
                castles,
                enpassent,
                halfmove_clock,
                round,
            ) == Err::<BoardState, BoardError>(e),
            r matches Ok(b) ==> b.wf() && construction(
                pieces@,
                kings@,
                current_player,
                castles,
                enpassent,
                halfmove_clock,
                round,
            ) == Ok::<BoardState, BoardError>(b@),
    {
        if kings.len() != 2 {
            return Err(BoardError::NotEnoughKings);
        }
        if round == 0 {
            return Err(BoardError::RoundIsZero);
        }
        if pieces.len() != 64 {
            return Err(BoardError::IllegalPosition);
        }
        let white = kings[0];
        let black = kings[1];
        if !white.in_bounds() || !black.in_bounds() {
            return Err(BoardError::IllegalPosition);
        }
        let (nw, _) = find_kings(&pieces, Team::White);
        let (nb, _) = find_kings(&pieces, Team::Black);
        if nw != 1 || nb != 1 {
            return Err(BoardError::IllegalPosition);
        }
        let wi = (white.0 * 8 + white.1) as usize;
        let bi = (black.0 * 8 + black.1) as usize;
        if pieces[wi] != Some(ClassicalPiece { kind: ClassicalPieceKind::King, team: Team::White })
            || pieces[bi] != Some(
                ClassicalPiece { kind: ClassicalPieceKind::King, team: Team::Black },
            ) {
            return Err(BoardError::IllegalPosition);
        }
        Ok(
            Board {
                pieces,
                kings: (white, black),
                current_player,
                castles,
                enpassent,
                halfmove_clock,
                round,
            },
        )
    }

    /// The classical starting position.
    pub fn starting_board() -> (r: Board)
        ensures
            r.wf(),
            r@ == starting_state(),
            r@.kings_placed(),
    {
        proof {
            lemma_starting_kings();
        }
        let mut pieces: Vec<Option<ClassicalPiece>> = Vec::new();
        let mut i: usize = 0;
        while i < 64
            invariant
                i <= 64,
                pieces@ =~= Seq::new(i as nat, |k: int| starting_cell(k)),
            decreases 64 - i,
        {
            pieces.push(starting_cell_exec(i));
            i += 1;
        }
        Board {
            pieces,
            kings: (Square(7, 4), Square(0, 4)),
            current_player: Team::White,
            castles: Castles { wq: true, wk: true, bq: true, bk: true },
            enpassent: None,
            halfmove_clock: 0,
            round: 1,
        }
    }

    /// A board holding only the two kings, White's on e1 and Black's on e8,
    /// White to move, no castling rights, round one.
    pub fn kings_only() -> (r: Board)
        ensures
            r.wf(),
            r@ == kings_only_state(),
            r@.kings_placed(),
    {
        let ghost cells = kings_only_state().squares;
        proof {
            assert forall|i: int| 0 <= i < 64 && i != 60 implies #[trigger] cells[i] != Some(
                king_of(Team::White),
            ) by {}
            assert forall|i: int| 0 <= i < 64 && i != 4 implies #[trigger] cells[i] != Some(
                king_of(Team::Black),
            ) by {}
            lemma_filter_single(cells, |c: Option<ClassicalPiece>| c == Some(king_of(Team::White)), 60, 64);
            lemma_filter_single(cells, |c: Option<ClassicalPiece>| c == Some(king_of(Team::Black)), 4, 64);
            assert(cells.take(64) =~= cells);
        }
        let mut pieces: Vec<Option<ClassicalPiece>> = Vec::new();
        let mut i: usize = 0;
        while i < 64
            invariant
                i <= 64,
                cells == kings_only_state().squares,
                pieces@ =~= cells.take(i as int),
            decreases 64 - i,
        {
            let cell = if i == 60 {
                Some(ClassicalPiece { kind: ClassicalPieceKind::King, team: Team::White })
            } else if i == 4 {
                Some(ClassicalPiece { kind: ClassicalPieceKind::King, team: Team::Black })
            } else {
                None
            };
            pieces.push(cell);
            i += 1;
            assert(pieces@ =~= cells.take(i as int));
        }
        assert(cells.take(64) =~= cells);
        Board {
            pieces,
            kings: (Square(7, 4), Square(0, 4)),
            current_player: Team::White,
            castles: Castles { wq: false, wk: false, bq: false, bk: false },
            enpassent: None,
            halfmove_clock: 0,
            round: 1,
        }
    }

    /// The classical starting position.
    pub fn normal_board() -> (r: Board)
        ensures
            r.wf(),
            r@ == starting_state(),
            r@.kings_placed(),
    {
        Board::starting_board()
    }

    /// The piece on `square`.
    pub fn get(&self, square: Square) -> (r: Option<ClassicalPiece>)
        requires
            self.wf(),
            square.spec_in_bounds(),
        ensures
            r == self@.at(square),
    {
        self.pieces[(square.0 * 8 + square.1) as usize]
    }

    /// The piece on `square`, where `ignoring` counts as empty.
    pub fn get_ignoring(&self, square: Square, ignoring: Square) -> (r: Option<ClassicalPiece>)
        requires
            self.wf(),
            square.spec_in_bounds(),
        ensures
            r == (if square == ignoring {
                None
            } else {
                self@.at(square)
            }),
    {
        if square == ignoring {
            None
        } else {
            self.get(square)
        }
    }

    /// Puts `piece` on `square`, replacing what stood there.
    pub fn insert(&mut self, square: Square, piece: ClassicalPiece)
        requires
            old(self).wf(),
            square.spec_in_bounds(),
        ensures
            final(self).wf(),
            final(self)@ == (BoardState {
                squares: old(self)@.squares.update(square_index(square), Some(piece)),
                ..old(self)@
            }),
    {
        self.pieces.set((square.0 * 8 + square.1) as usize, Some(piece));
    }

    /// Empties `square`.
    pub fn remove(&mut self, square: Square)
        requires
            old(self).wf(),
            square.spec_in_bounds(),
        ensures
            final(self).wf(),
            final(self)@ == (BoardState {
                squares: old(self)@.squares.update(square_index(square), None),
                ..old(self)@
            }),
    {
        self.pieces.set((square.0 * 8 + square.1) as usize, None);
    }

    /// The en passant target square, if any.
    pub fn enpassent(&self) -> (r: Option<Square>)
        ensures
            r == self@.enpassent,
    {
        self.enpassent
    }

    /// The recorded square of `team`'s king.
    pub fn get_king_loc(&self, team: Team) -> (r: Square)
        ensures
            r == self@.king_square(team),
    {
        match team {
            Team::White => self.kings.0,
            Team::Black => self.kings.1,
        }
    }

    /// Records `square` as the square of `team`'s king.
    pub fn set_king_loc(&mut self, team: Team, square: Square)
        requires
            old(self).wf(),
            square.spec_in_bounds(),
        ensures
            final(self).wf(),
            final(self)@ == (BoardState {
                kings: match team {
                    Team::White => (square, old(self)@.kings.1),
                    Team::Black => (old(self)@.kings.0, square),
                },
                ..old(self)@
            }),
    {
        match team {
            Team::White => {
                self.kings.0 = square;
            },
            Team::Black => {
                self.kings.1 = square;
            },
        }
    }

    /// The side to move.
    pub fn current_player(&self) -> (r: Team)
        ensures
            r == self@.current_player,
    {
        self.current_player
    }

    /// The castling rights.
    pub fn castles(&self) -> (r: Castles)
        ensures
            r == self@.castles,
    {
        self.castles
    }

    /// Half-moves since the last capture or pawn move.
    pub fn halfmove_clock(&self) -> (r: u32)
        ensures
            r == self@.halfmove_clock,
    {
        self.halfmove_clock
    }

    /// The round number, starting at one.
    pub fn round(&self) -> (r: u32)
        ensures
            r == self@.round,
    {
        self.round
    }
}

} // verus!
