//! Move generation: the pseudo-legal moves of each piece kind, the threat
//! detector, the legality filter, and the table of legal moves of the side
//! to move.

use vstd::prelude::*;
use crate::board::{Board, BoardState, index_square};
use crate::piece::{ClassicalPiece, ClassicalPieceKind};
use crate::square::{Square, Team};

verus! {

/// The rook's relocation that goes with a castling move.
#[derive(Clone, Copy, PartialEq, Eq, Structural, Debug)]
pub struct RookMove {
    pub from: Square,
    pub to: Square,
}

/// A candidate move: origin, destination, the rook's relocation where the
/// move castles, and whether a pawn reaches its last rank.
#[derive(Clone, Copy, PartialEq, Eq, Structural, Debug)]
pub struct PossibleMove {
    pub from: Square,
    pub to: Square,
    pub castle: Option<RookMove>,
    pub promotion: bool,
}

/// The square `d.0` ranks and `d.1` files away from `s`.
pub open spec fn shift(s: Square, d: (int, int)) -> Square {
    Square((s.0 + d.0) as i32, (s.1 + d.1) as i32)
}

/// The eight line directions: the four orthogonal ones (0 to 3), then the
/// four diagonal ones (4 to 7).
pub open spec fn ray_dir(i: int) -> (int, int) {
    if i == 0 {
        (-1, 0)
    } else if i == 1 {
        (1, 0)
    } else if i == 2 {
        (0, -1)
    } else if i == 3 {
        (0, 1)
    } else if i == 4 {
        (-1, -1)
    } else if i == 5 {
        (-1, 1)
    } else if i == 6 {
        (1, -1)
    } else {
        (1, 1)
    }
}

/// The eight knight jumps, oriented by the forward sign `f` of the mover.
pub open spec fn knight_jump(i: int, f: int) -> (int, int) {
    if i == 0 {
        (2 * f, 1)
    } else if i == 1 {
        (2 * f, -1)
    } else if i == 2 {
        (-2 * f, 1)
    } else if i == 3 {
        (-2 * f, -1)
    } else if i == 4 {
        (f, 2)
    } else if i == 5 {
        (f, -2)
    } else if i == 6 {
        (-f, 2)
    } else {
        (-f, -2)
    }
}

/// A move that neither castles nor promotes.
pub open spec fn simple_move(from: Square, to: Square) -> PossibleMove {
    PossibleMove { from, to, castle: None, promotion: false }
}

/// A pawn move of `team`; it promotes where one more step forward would
/// leave the board.
pub open spec fn pawn_move(team: Team, from: Square, to: Square) -> PossibleMove {
    PossibleMove {
        from,
        to,
        castle: None,
        promotion: !shift(to, (team.forward_sign(), 0)).spec_in_bounds(),
    }
}

/// The moves `f(lo)`, `f(lo + 1)`, ..., `f(hi - 1)`, one after the other.
pub open spec fn gather(f: spec_fn(int) -> Seq<PossibleMove>, lo: int, hi: int) -> Seq<
    PossibleMove,
>
    decreases hi - lo,
{
    if hi <= lo {
        Seq::empty()
    } else {
        gather(f, lo, hi - 1) + f(hi - 1)
    }
}

/// `s` holds a piece of `team`.
pub open spec fn own_piece(st: BoardState, s: Square, team: Team) -> bool {
    st.at(s) matches Some(p) && p.team == team
}

/// `s` holds a piece of the other team.
pub open spec fn enemy_piece(st: BoardState, s: Square, team: Team) -> bool {
    st.at(s) matches Some(p) && p.team != team
}

/// The moves along direction `d` from `cur` onwards, for a piece of `team`
/// standing on `from`: each empty square, then the first occupied square if it
/// holds an enemy. `fuel` bounds the number of steps; seven reach across the board.
pub open spec fn slide(
    st: BoardState,
    from: Square,
    team: Team,
    cur: Square,
    d: (int, int),
    fuel: nat,
) -> Seq<PossibleMove>
    decreases fuel,
{
    if fuel == 0 {
        Seq::empty()
    } else {
        let next = shift(cur, d);
        if !next.spec_in_bounds() {
            Seq::empty()
        } else if st.at(next) is None {
            seq![simple_move(from, next)] + slide(st, from, team, next, d, (fuel - 1) as nat)
        } else if enemy_piece(st, next, team) {
            seq![simple_move(from, next)]
        } else {
            Seq::empty()
        }
    }
}

/// The line moves of a piece of `team` on `from` along directions `lo` to `hi - 1`.
pub open spec fn line_moves(st: BoardState, from: Square, team: Team, lo: int, hi: int) -> Seq<
    PossibleMove,
> {
    gather(|i: int| slide(st, from, team, from, ray_dir(i), 7), lo, hi)
}

/// A single step by `d` from `from`: kept where it stays on the board and
/// does not land on a piece of `team`.
pub open spec fn jump(st: BoardState, from: Square, team: Team, d: (int, int)) -> Seq<
    PossibleMove,
> {
    let to = shift(from, d);
    if to.spec_in_bounds() && !own_piece(st, to, team) {
        seq![simple_move(from, to)]
    } else {
        Seq::empty()
    }
}

/// The king's steps to its eight neighbours.
pub open spec fn king_steps(st: BoardState, from: Square, team: Team, hi: int) -> Seq<
    PossibleMove,
> {
    gather(|i: int| jump(st, from, team, ray_dir(i)), 0, hi)
}

/// The knight's eight jumps.
pub open spec fn knight_jumps(st: BoardState, from: Square, team: Team, hi: int) -> Seq<
    PossibleMove,
> {
    gather(|i: int| jump(st, from, team, knight_jump(i, team.forward_sign())), 0, hi)
}

/// The rank index on which the pawns of `team` start.
pub open spec fn pawn_home_rank(team: Team) -> int {
    match team {
        Team::White => 6,
        Team::Black => 1,
    }
}

/// A pawn's advance: one step forward onto an empty square and, from its
/// starting rank, a second step onto an empty square.
pub open spec fn pawn_advance(st: BoardState, from: Square, team: Team) -> Seq<PossibleMove> {
    let f = team.forward_sign();
    let one = shift(from, (f, 0));
    let two = shift(from, (2 * f, 0));
    if one.spec_in_bounds() && st.at(one) is None {
        seq![pawn_move(team, from, one)] + if from.0 == pawn_home_rank(team) && two.spec_in_bounds()
            && st.at(two) is None {
            seq![pawn_move(team, from, two)]
        } else {
            Seq::empty()
        }
    } else {
        Seq::empty()
    }
}

/// A pawn's diagonal capture towards file offset `dc`: onto an enemy piece
/// or onto the en passant target.
pub open spec fn pawn_capture(st: BoardState, from: Square, team: Team, dc: int) -> Seq<
    PossibleMove,
> {
    let to = shift(from, (team.forward_sign(), dc));
    if to.spec_in_bounds() && (enemy_piece(st, to, team) || st.enpassent == Some(to)) {
        seq![pawn_move(team, from, to)]
    } else {
        Seq::empty()
    }
}

/// The moves of the piece on `from` by its geometry alone, whether or not
/// they leave its king attacked. Castling is not generated.
pub open spec fn pseudo_moves(st: BoardState, from: Square) -> Seq<PossibleMove> {
    match st.at(from) {
        None => Seq::empty(),
        Some(p) => match p.kind {
            ClassicalPieceKind::King => king_steps(st, from, p.team, 8),
            ClassicalPieceKind::Queen => line_moves(st, from, p.team, 0, 8),
            ClassicalPieceKind::Rook => line_moves(st, from, p.team, 0, 4),
            ClassicalPieceKind::Bishop => line_moves(st, from, p.team, 4, 8),
            ClassicalPieceKind::Knight => knight_jumps(st, from, p.team, 8),
            ClassicalPieceKind::Pawn => pawn_advance(st, from, p.team) + pawn_capture(
                st,
                from,
                p.team,
                -1,
            ) + pawn_capture(st, from, p.team, 1),
        },
    }
}

/// The square of the pawn that `m` takes en passant, if it takes one: a pawn
/// moving diagonally onto the en passant target takes the pawn beside its
/// origin, on the destination's file.
pub open spec fn en_passant_victim(st: BoardState, m: PossibleMove, mover: ClassicalPiece) -> Option<
    Square,
> {
    if mover.kind == ClassicalPieceKind::Pawn && st.enpassent == Some(m.to) && m.to.1 != m.from.1 {
        Some(Square(m.from.0, m.to.1))
    } else {
        None
    }
}

/// What stands on `s` once `mover` has made move `m`: the mover on the
/// destination, nothing on the origin nor on the square of a pawn taken en
/// passant, the rest as on the board.
pub open spec fn occupant_after(
    st: BoardState,
    m: PossibleMove,
    mover: ClassicalPiece,
    s: Square,
) -> Option<ClassicalPiece> {
    if s == m.to {
        Some(mover)
    } else if s == m.from || en_passant_victim(st, m, mover) == Some(s) {
        None
    } else {
        st.at(s)
    }
}

/// `o` is a piece of `kind` that does not belong to `team`.
pub open spec fn enemy_of_kind(o: Option<ClassicalPiece>, team: Team, kind: ClassicalPieceKind) -> bool {
    o matches Some(p) && p.team != team && p.kind == kind
}

/// The first piece met from `cur` along `d`, after move `m`.
pub open spec fn first_seen(
    st: BoardState,
    m: PossibleMove,
    mover: ClassicalPiece,
    cur: Square,
    d: (int, int),
    fuel: nat,
) -> Option<ClassicalPiece>
    decreases fuel,
{
    if fuel == 0 {
        None
    } else {
        let next = shift(cur, d);
        if !next.spec_in_bounds() {
            None
        } else if occupant_after(st, m, mover, next) is Some {
            occupant_after(st, m, mover, next)
        } else {
            first_seen(st, m, mover, next, d, (fuel - 1) as nat)
        }
    }
}

/// An enemy knight attacks `target` by jump `i`.
pub open spec fn knight_threat(
    st: BoardState,
    m: PossibleMove,
    mover: ClassicalPiece,
    target: Square,
    i: int,
) -> bool {
    enemy_of_kind(
        occupant_after(st, m, mover, shift(target, knight_jump(i, 1))),
        mover.team,
        ClassicalPieceKind::Knight,
    )
}

/// An enemy queen, or an enemy rook (orthogonal directions) or bishop
/// (diagonal directions), is the first piece seen from `target` along direction `i`.
pub open spec fn line_threat(
    st: BoardState,
    m: PossibleMove,
    mover: ClassicalPiece,
    target: Square,
    i: int,
) -> bool {
    let o = first_seen(st, m, mover, target, ray_dir(i), 7);
    enemy_of_kind(o, mover.team, ClassicalPieceKind::Queen) || enemy_of_kind(
        o,
        mover.team,
        if i < 4 {
            ClassicalPieceKind::Rook
        } else {
            ClassicalPieceKind::Bishop
        },
    )
}

/// The file offset of the left (0) and right (1) forward diagonals.
pub open spec fn flank(i: int) -> int {
    if i == 0 {
        -1
    } else {
        1
    }
}

/// An enemy pawn stands on forward diagonal `i` of `target`, as seen by the mover's team.
pub open spec fn pawn_threat(
    st: BoardState,
    m: PossibleMove,
    mover: ClassicalPiece,
    target: Square,
    i: int,
) -> bool {
    enemy_of_kind(
        occupant_after(st, m, mover, shift(target, (mover.team.forward_sign(), flank(i)))),
        mover.team,
        ClassicalPieceKind::Pawn,
    )
}

/// The enemy king stands next to `target`, in direction `i`.
pub open spec fn king_threat(
    st: BoardState,
    m: PossibleMove,
    mover: ClassicalPiece,
    target: Square,
    i: int,
) -> bool {
    enemy_of_kind(
        occupant_after(st, m, mover, shift(target, ray_dir(i))),
        mover.team,
        ClassicalPieceKind::King,
    )
}

/// Once `mover` has made `m`, a piece of the other team attacks `target`.
pub open spec fn attacked_after(
    st: BoardState,
    m: PossibleMove,
    mover: ClassicalPiece,
    target: Square,
) -> bool {
    ||| exists|i: int| 0 <= i < 8 && #[trigger] knight_threat(st, m, mover, target, i)
    ||| exists|i: int| 0 <= i < 8 && #[trigger] line_threat(st, m, mover, target, i)
    ||| exists|i: int| 0 <= i < 2 && #[trigger] pawn_threat(st, m, mover, target, i)
    ||| exists|i: int| 0 <= i < 8 && #[trigger] king_threat(st, m, mover, target, i)
}

/// The square of the mover's king once the move is made.
pub open spec fn guarded_square(st: BoardState, m: PossibleMove, mover: ClassicalPiece) -> Square {
    if mover.kind == ClassicalPieceKind::King {
        m.to
    } else {
        st.king_square(mover.team)
    }
}

/// Making `m` does not leave the mover's king attacked. The position after
/// the move is simulated as the board with the origin empty, the mover on
/// the destination and a pawn taken en passant removed, so a piece that steps
/// into the line of an attack on its king blocks it, and an en passant capture
/// that opens a line onto the king is refused.
pub open spec fn is_legal(st: BoardState, m: PossibleMove, mover: ClassicalPiece) -> bool {
    !attacked_after(st, m, mover, guarded_square(st, m, mover))
}

/// The legal moves of the piece on `from`, in the order of generation.
pub open spec fn legal_moves(st: BoardState, from: Square) -> Seq<PossibleMove> {
    match st.at(from) {
        None => Seq::empty(),
        Some(p) => pseudo_moves(st, from).filter(|m: PossibleMove| is_legal(st, m, p)),
    }
}

/// Every square, paired with the legal moves from it.
pub open spec fn all_origins(st: BoardState) -> Seq<(Square, Seq<PossibleMove>)> {
    Seq::new(64, |i: int| (index_square(i), legal_moves(st, index_square(i))))
}

/// An origin that belongs in the table of moves: a piece of the side to
/// move with at least one legal move.
pub open spec fn listed_origin(st: BoardState, e: (Square, Seq<PossibleMove>)) -> bool {
    own_piece(st, e.0, st.current_player) && e.1.len() > 0
}

/// The legal moves of the side to move, grouped by origin, origins in
/// row-major order, origins without a legal move left out.
pub open spec fn move_table(st: BoardState) -> Seq<(Square, Seq<PossibleMove>)> {
    all_origins(st).filter(|e: (Square, Seq<PossibleMove>)| listed_origin(st, e))
}

/// The contents of a table of moves.
pub open spec fn table_view(t: Seq<(Square, Vec<PossibleMove>)>) -> Seq<(Square, Seq<PossibleMove>)> {
    t.map_values(|e: (Square, Vec<PossibleMove>)| (e.0, e.1@))
}

/// Every move of `s` starts on `from` and ends on the board.
pub open spec fn moves_from(s: Seq<PossibleMove>, from: Square) -> bool {
    forall|k: int| 0 <= k < s.len() ==> (#[trigger] s[k]).from == from && s[k].to.spec_in_bounds()
}

/// A pawn's diagonal square is among its moves by geometry exactly when it
/// holds an enemy piece or is the en passant target.
pub proof fn lemma_pawn_diagonal_needs_target(st: BoardState, from: Square, dc: int)
    requires
        st.at(from) matches Some(p) && p.kind == ClassicalPieceKind::Pawn,
        dc == 1 || dc == -1,
        shift(from, ((st.at(from)->0).team.forward_sign(), dc)).spec_in_bounds(),
    ensures
        (exists|k: int|
            0 <= k < pseudo_moves(st, from).len() && (#[trigger] pseudo_moves(st, from)[k]).to
                == shift(from, ((st.at(from)->0).team.forward_sign(), dc))) <==> (enemy_piece(
            st,
            shift(from, ((st.at(from)->0).team.forward_sign(), dc)),
            (st.at(from)->0).team,
        ) || st.enpassent == Some(shift(from, ((st.at(from)->0).team.forward_sign(), dc)))),
{
    let team = (st.at(from)->0).team;
    let f = team.forward_sign();
    let to = shift(from, (f, dc));
    let a = pawn_advance(st, from, team);
    let cm = pawn_capture(st, from, team, -1);
    let cp = pawn_capture(st, from, team, 1);
    let s = pseudo_moves(st, from);
    assert(s == a + cm + cp);
    let hit = enemy_piece(st, to, team) || st.enpassent == Some(to);
    assert forall|k: int| 0 <= k < a.len() implies (#[trigger] a[k]).to.1 == from.1 by {}
    assert forall|k: int| 0 <= k < cm.len() implies (#[trigger] cm[k]).to == shift(from, (f, -1)) by {}
    assert forall|k: int| 0 <= k < cp.len() implies (#[trigger] cp[k]).to == shift(from, (f, 1)) by {}
    if hit {
        let k = if dc == -1 {
            a.len() as int
        } else {
            (a.len() + cm.len()) as int
        };
        assert(s[k].to == to);
    }
    assert forall|k: int| 0 <= k < s.len() && (#[trigger] s[k]).to == to implies hit by {
        if k < a.len() {
            assert(s[k] == a[k]);
        } else if k < a.len() + cm.len() {
            assert(s[k] == cm[k - a.len()]);
        } else {
            assert(s[k] == cp[k - a.len() - cm.len()]);
        }
    }
}

/// Line direction `i`.
fn ray_dir_exec(i: usize) -> (r: (i32, i32))
    requires
        i < 8,
    ensures
        (r.0 as int, r.1 as int) == ray_dir(i as int),
        -1 <= r.0 <= 1,
        -1 <= r.1 <= 1,
{
    if i == 0 {
        (-1, 0)
    } else if i == 1 {
        (1, 0)
    } else if i == 2 {
        (0, -1)
    } else if i == 3 {
        (0, 1)
    } else if i == 4 {
        (-1, -1)
    } else if i == 5 {
        (-1, 1)
    } else if i == 6 {
        (1, -1)
    } else {
        (1, 1)
    }
}

/// Knight jump `i` for forward sign `f`.
fn knight_jump_exec(i: usize, f: i32) -> (r: (i32, i32))
    requires
        i < 8,
        f == 1 || f == -1,
    ensures
        (r.0 as int, r.1 as int) == knight_jump(i as int, f as int),
        -2 <= r.0 <= 2,
        -2 <= r.1 <= 2,
{
    if i == 0 {
        (2 * f, 1)
    } else if i == 1 {
        (2 * f, -1)
    } else if i == 2 {
        (-2 * f, 1)
    } else if i == 3 {
        (-2 * f, -1)
    } else if i == 4 {
        (f, 2)
    } else if i == 5 {
        (f, -2)
    } else if i == 6 {
        (-f, 2)
    } else {
        (-f, -2)
    }
}

/// The change of rank index of one step forwards for `team`.
fn forward_sign_exec(team: Team) -> (r: i32)
    ensures
        r == team.forward_sign(),
        r == 1 || r == -1,
{
    match team {
        Team::White => -1,
        Team::Black => 1,
    }
}

/// The square `d` away from a square of the board.
fn shift_exec(s: Square, d: (i32, i32)) -> (r: Square)
    requires
        s.spec_in_bounds(),
        -2 <= d.0 <= 2,
        -2 <= d.1 <= 2,
    ensures
        r == shift(s, (d.0 as int, d.1 as int)),
        -2 <= r.0 < 10,
        -2 <= r.1 < 10,
{
    Square(s.0 + d.0, s.1 + d.1)
}

/// Whether `o` is a piece of `kind` that does not belong to `team`.
fn enemy_of_kind_exec(o: Option<ClassicalPiece>, team: Team, kind: ClassicalPieceKind) -> (r: bool)
    ensures
        r == enemy_of_kind(o, team, kind),
{
    match o {
        Some(p) => p.team != team && p.kind == kind,
        None => false,
    }
}

impl Board {
    /// Appends the moves along direction `d` from `from`.
    fn push_slide(&self, from: Square, team: Team, d: (i32, i32), out: &mut Vec<PossibleMove>)
        requires
            self.wf(),
            from.spec_in_bounds(),
            -1 <= d.0 <= 1,
            -1 <= d.1 <= 1,
            moves_from(old(out)@, from),
        ensures
            final(out)@ == old(out)@ + slide(self@, from, team, from, (d.0 as int, d.1 as int), 7),
            moves_from(final(out)@, from),
    {
        let ghost dd = (d.0 as int, d.1 as int);
        let ghost st = self@;
        let mut cur = from;
        let mut fuel: u32 = 7;
        while fuel > 0
            invariant
                self.wf(),
                st == self@,
                cur.spec_in_bounds(),
                -1 <= d.0 <= 1,
                -1 <= d.1 <= 1,
                fuel <= 7,
                dd == (d.0 as int, d.1 as int),
                out@ + slide(st, from, team, cur, dd, fuel as nat) == old(out)@ + slide(
                    st,
                    from,
                    team,
                    from,
                    dd,
                    7,
                ),
                moves_from(out@, from),
            decreases fuel,
        {
            let next = shift_exec(cur, d);
            if !next.in_bounds() {
                assert(out@ + slide(st, from, team, cur, dd, fuel as nat) =~= out@);
                return;
            }
            let ghost before = out@;
            let ghost rest = slide(st, from, team, next, dd, (fuel - 1) as nat);
            match self.get(next) {
                None => {
                    out.push(PossibleMove { from, to: next, castle: None, promotion: false });
                    assert(before + (seq![simple_move(from, next)] + rest) =~= out@ + rest);
                    cur = next;
                    fuel = fuel - 1;
                },
                Some(p) => {
                    if p.team != team {
                        out.push(PossibleMove { from, to: next, castle: None, promotion: false });
                        assert(before + seq![simple_move(from, next)] =~= out@);
                    } else {
                        assert(before + Seq::<PossibleMove>::empty() =~= out@);
                    }
                    return;
                },
            }
        }
        assert(out@ + slide(st, from, team, cur, dd, 0) =~= out@);
    }

    /// Appends the line moves along directions `lo` to `hi - 1`.
    fn push_lines(&self, from: Square, team: Team, lo: usize, hi: usize, out: &mut Vec<PossibleMove>)
        requires
            self.wf(),
            from.spec_in_bounds(),
            lo <= hi <= 8,
            moves_from(old(out)@, from),
        ensures
            final(out)@ == old(out)@ + line_moves(self@, from, team, lo as int, hi as int),
            moves_from(final(out)@, from),
    {
        let ghost st = self@;
        let mut i: usize = lo;
        assert(old(out)@ + line_moves(st, from, team, lo as int, lo as int) =~= old(out)@);
        while i < hi
            invariant
                self.wf(),
                st == self@,
                from.spec_in_bounds(),
                lo <= i <= hi <= 8,
                out@ == old(out)@ + line_moves(st, from, team, lo as int, i as int),
                moves_from(out@, from),
            decreases hi - i,
        {
            let d = ray_dir_exec(i);
            let ghost before = out@;
            self.push_slide(from, team, d, out);
            assert(line_moves(st, from, team, lo as int, i + 1) == line_moves(
                st,
                from,
                team,
                lo as int,
                i as int,
            ) + slide(st, from, team, from, ray_dir(i as int), 7));
            i += 1;
            assert(out@ =~= old(out)@ + line_moves(st, from, team, lo as int, i as int));
        }
    }

    /// Appends the step by `d` from `from` where it is a move.
    fn push_jump(&self, from: Square, team: Team, d: (i32, i32), out: &mut Vec<PossibleMove>)
        requires
            self.wf(),
            from.spec_in_bounds(),
            -2 <= d.0 <= 2,
            -2 <= d.1 <= 2,
            moves_from(old(out)@, from),
        ensures
            final(out)@ == old(out)@ + jump(self@, from, team, (d.0 as int, d.1 as int)),
            moves_from(final(out)@, from),
    {
        let to = shift_exec(from, d);
        if to.in_bounds() {
            let own = match self.get(to) {
                Some(p) => p.team == team,
                None => false,
            };
            if !own {
                out.push(PossibleMove { from, to, castle: None, promotion: false });
                return;
            }
        }
        assert(old(out)@ + Seq::<PossibleMove>::empty() =~= old(out)@);
    }

    /// Appends the king's steps.
    fn push_king_steps(&self, from: Square, team: Team, out: &mut Vec<PossibleMove>)
        requires
            self.wf(),
            from.spec_in_bounds(),
            moves_from(old(out)@, from),
        ensures
            final(out)@ == old(out)@ + king_steps(self@, from, team, 8),
            moves_from(final(out)@, from),
    {
        let ghost st = self@;
        let mut i: usize = 0;
        assert(old(out)@ + king_steps(st, from, team, 0) =~= old(out)@);
        while i < 8
            invariant
                self.wf(),
                st == self@,
                from.spec_in_bounds(),
                i <= 8,
                out@ == old(out)@ + king_steps(st, from, team, i as int),
                moves_from(out@, from),
            decreases 8 - i,
        {
            let d = ray_dir_exec(i);
            self.push_jump(from, team, d, out);
            assert(king_steps(st, from, team, i + 1) == king_steps(st, from, team, i as int) + jump(
                st,
                from,
                team,
                ray_dir(i as int),
            ));
            i += 1;
            assert(out@ =~= old(out)@ + king_steps(st, from, team, i as int));
        }
    }

    /// Appends the knight's jumps.
    fn push_knight_jumps(&self, from: Square, team: Team, out: &mut Vec<PossibleMove>)
        requires
            self.wf(),
            from.spec_in_bounds(),
            moves_from(old(out)@, from),
        ensures
            final(out)@ == old(out)@ + knight_jumps(self@, from, team, 8),
            moves_from(final(out)@, from),
    {
        let ghost st = self@;
        let f = forward_sign_exec(team);
        let mut i: usize = 0;
        assert(old(out)@ + knight_jumps(st, from, team, 0) =~= old(out)@);
        while i < 8
            invariant
                self.wf(),
                st == self@,
                from.spec_in_bounds(),
                f == team.forward_sign(),
                f == 1 || f == -1,
                i <= 8,
                out@ == old(out)@ + knight_jumps(st, from, team, i as int),
                moves_from(out@, from),
            decreases 8 - i,
        {
            let d = knight_jump_exec(i, f);
            self.push_jump(from, team, d, out);
            assert(knight_jumps(st, from, team, i + 1) == knight_jumps(st, from, team, i as int)
                + jump(st, from, team, knight_jump(i as int, team.forward_sign())));
            i += 1;
            assert(out@ =~= old(out)@ + knight_jumps(st, from, team, i as int));
        }
    }

    /// A pawn move of `team`, flagged as a promotion where it reaches the last rank.
    fn pawn_move_exec(team: Team, from: Square, to: Square) -> (r: PossibleMove)
        requires
            to.spec_in_bounds(),
        ensures
            r == pawn_move(team, from, to),
    {
        let beyond = shift_exec(to, (forward_sign_exec(team), 0));
        PossibleMove { from, to, castle: None, promotion: !beyond.in_bounds() }
    }

    /// Appends a pawn's diagonal capture towards file offset `dc`.
    fn push_pawn_capture(&self, from: Square, team: Team, dc: i32, out: &mut Vec<PossibleMove>)
        requires
            self.wf(),
            from.spec_in_bounds(),
            dc == 1 || dc == -1,
            moves_from(old(out)@, from),
        ensures
            final(out)@ == old(out)@ + pawn_capture(self@, from, team, dc as int),
            moves_from(final(out)@, from),
    {
        let to = shift_exec(from, (forward_sign_exec(team), dc));
        if to.in_bounds() {
            let enemy = match self.get(to) {
                Some(p) => p.team != team,
                None => false,
            };
            if enemy || self.enpassent() == Some(to) {
                out.push(Board::pawn_move_exec(team, from, to));
                return;
            }
        }
        assert(old(out)@ + Seq::<PossibleMove>::empty() =~= old(out)@);
    }

    /// Appends a pawn's advance.
    fn push_pawn_advance(&self, from: Square, team: Team, out: &mut Vec<PossibleMove>)
        requires
            self.wf(),
            from.spec_in_bounds(),
            moves_from(old(out)@, from),
        ensures
            final(out)@ == old(out)@ + pawn_advance(self@, from, team),
            moves_from(final(out)@, from),
    {
        let f = forward_sign_exec(team);
        let one = shift_exec(from, (f, 0));
        if !one.in_bounds() || self.get(one).is_some() {
            assert(old(out)@ + Seq::<PossibleMove>::empty() =~= old(out)@);
            return;
        }
        out.push(Board::pawn_move_exec(team, from, one));
        let home: i32 = match team {
            Team::White => 6,
            Team::Black => 1,
        };
        let two = shift_exec(from, (2 * f, 0));
        if from.0 == home && two.in_bounds() && self.get(two).is_none() {
            out.push(Board::pawn_move_exec(team, from, two));
            assert(out@ =~= old(out)@ + (seq![pawn_move(team, from, one)] + seq![
                pawn_move(team, from, two),
            ]));
        } else {
            assert(out@ =~= old(out)@ + (seq![pawn_move(team, from, one)]
                + Seq::<PossibleMove>::empty()));
        }
    }

    /// The moves of the piece on `from` by its geometry alone, before the
    /// check that its own king is not left attacked.
    pub fn pseudo_moves(&self, from: Square) -> (r: Vec<PossibleMove>)
        requires
            self.wf(),
            from.spec_in_bounds(),
        ensures
            r@ == pseudo_moves(self@, from),
            moves_from(r@, from),
    {
        let mut out: Vec<PossibleMove> = Vec::new();
        let ghost st = self@;
        match self.get(from) {
            None => {},
            Some(p) => {
                match p.kind {
                    ClassicalPieceKind::King => self.push_king_steps(from, p.team, &mut out),
                    ClassicalPieceKind::Queen => self.push_lines(from, p.team, 0, 8, &mut out),
                    ClassicalPieceKind::Rook => self.push_lines(from, p.team, 0, 4, &mut out),
                    ClassicalPieceKind::Bishop => self.push_lines(from, p.team, 4, 8, &mut out),
                    ClassicalPieceKind::Knight => self.push_knight_jumps(from, p.team, &mut out),
                    ClassicalPieceKind::Pawn => {
                        self.push_pawn_advance(from, p.team, &mut out);
                        self.push_pawn_capture(from, p.team, -1, &mut out);
                        self.push_pawn_capture(from, p.team, 1, &mut out);
                    },
                }
            },
        }
        assert(out@ =~= pseudo_moves(st, from));
        out
    }
}

impl Board {
    /// What stands on `s` once `mover` has made `m`.
    fn occupant_after_exec(&self, m: &PossibleMove, mover: ClassicalPiece, s: Square) -> (r: Option<
        ClassicalPiece,
    >)
        requires
            self.wf(),
        ensures
            r == occupant_after(self@, *m, mover, s),
    {
        let takes_en_passant = mover.kind == ClassicalPieceKind::Pawn && self.enpassent() == Some(
            m.to,
        ) && m.to.1 != m.from.1;
        if s == m.to {
            Some(mover)
        } else if !s.in_bounds() {
            None
        } else if takes_en_passant && s == Square(m.from.0, m.to.1) {
            None
        } else {
            self.get_ignoring(s, m.from)
        }
    }

    /// The first piece met from `target` along `d`, once `m` is made.
    fn first_seen_exec(&self, m: &PossibleMove, mover: ClassicalPiece, target: Square, d: (i32, i32)) -> (r:
        Option<ClassicalPiece>)
        requires
            self.wf(),
            target.spec_in_bounds(),
            -1 <= d.0 <= 1,
            -1 <= d.1 <= 1,
        ensures
            r == first_seen(self@, *m, mover, target, (d.0 as int, d.1 as int), 7),
    {
        let ghost dd = (d.0 as int, d.1 as int);
        let ghost st = self@;
        let mut cur = target;
        let mut fuel: u32 = 7;
        while fuel > 0
            invariant
                self.wf(),
                st == self@,
                cur.spec_in_bounds(),
                -1 <= d.0 <= 1,
                -1 <= d.1 <= 1,
                fuel <= 7,
                dd == (d.0 as int, d.1 as int),
                first_seen(st, *m, mover, cur, dd, fuel as nat) == first_seen(st, *m, mover, target, dd, 7),
            decreases fuel,
        {
            let next = shift_exec(cur, d);
            if !next.in_bounds() {
                return None;
            }
            let o = self.occupant_after_exec(m, mover, next);
            if o.is_some() {
                return o;
            }
            cur = next;
            fuel = fuel - 1;
        }
        None
    }

    /// Whether an enemy knight attacks `target` once `m` is made.
    fn knight_attack(&self, m: &PossibleMove, mover: ClassicalPiece, target: Square) -> (r: bool)
        requires
            self.wf(),
            target.spec_in_bounds(),
        ensures
            r == exists|i: int| 0 <= i < 8 && #[trigger] knight_threat(self@, *m, mover, target, i),
    {
        let mut i: usize = 0;
        while i < 8
            invariant
                self.wf(),
                target.spec_in_bounds(),
                i <= 8,
                forall|j: int| 0 <= j < i ==> !#[trigger] knight_threat(self@, *m, mover, target, j),
            decreases 8 - i,
        {
            let s = shift_exec(target, knight_jump_exec(i, 1));
            let o = self.occupant_after_exec(m, mover, s);
            if enemy_of_kind_exec(o, mover.team, ClassicalPieceKind::Knight) {
                assert(knight_threat(self@, *m, mover, target, i as int));
                return true;
            }
            i += 1;
        }
        false
    }

    /// Whether an enemy queen, rook or bishop attacks `target` along a line once `m` is made.
    fn line_attack(&self, m: &PossibleMove, mover: ClassicalPiece, target: Square) -> (r: bool)
        requires
            self.wf(),
            target.spec_in_bounds(),
        ensures
            r == exists|i: int| 0 <= i < 8 && #[trigger] line_threat(self@, *m, mover, target, i),
    {
        let mut i: usize = 0;
        while i < 8
            invariant
                self.wf(),
                target.spec_in_bounds(),
                i <= 8,
                forall|j: int| 0 <= j < i ==> !#[trigger] line_threat(self@, *m, mover, target, j),
            decreases 8 - i,
        {
            let o = self.first_seen_exec(m, mover, target, ray_dir_exec(i));
            let kind = if i < 4 {
                ClassicalPieceKind::Rook
            } else {
                ClassicalPieceKind::Bishop
            };
            if enemy_of_kind_exec(o, mover.team, ClassicalPieceKind::Queen) || enemy_of_kind_exec(
                o,
                mover.team,
                kind,
            ) {
                assert(line_threat(self@, *m, mover, target, i as int));
                return true;
            }
            i += 1;
        }
        false
    }

    /// Whether an enemy pawn attacks `target` once `m` is made.
    fn pawn_attack(&self, m: &PossibleMove, mover: ClassicalPiece, target: Square) -> (r: bool)
        requires
            self.wf(),
            target.spec_in_bounds(),
        ensures
            r == exists|i: int| 0 <= i < 2 && #[trigger] pawn_threat(self@, *m, mover, target, i),
    {
        let f = forward_sign_exec(mover.team);
        let left = self.occupant_after_exec(m, mover, shift_exec(target, (f, -1)));
        let right = self.occupant_after_exec(m, mover, shift_exec(target, (f, 1)));
        let r = enemy_of_kind_exec(left, mover.team, ClassicalPieceKind::Pawn) || enemy_of_kind_exec(
            right,
            mover.team,
            ClassicalPieceKind::Pawn,
        );
        assert(pawn_threat(self@, *m, mover, target, 0) == enemy_of_kind(left, mover.team, ClassicalPieceKind::Pawn));
        assert(pawn_threat(self@, *m, mover, target, 1) == enemy_of_kind(right, mover.team, ClassicalPieceKind::Pawn));
        r
    }

    /// Whether the enemy king stands next to `target` once `m` is made.
    fn king_attack(&self, m: &PossibleMove, mover: ClassicalPiece, target: Square) -> (r: bool)
        requires
            self.wf(),
            target.spec_in_bounds(),
        ensures
            r == exists|i: int| 0 <= i < 8 && #[trigger] king_threat(self@, *m, mover, target, i),
    {
        let mut i: usize = 0;
        while i < 8
            invariant
                self.wf(),
                target.spec_in_bounds(),
                i <= 8,
                forall|j: int| 0 <= j < i ==> !#[trigger] king_threat(self@, *m, mover, target, j),
            decreases 8 - i,
        {
            let s = shift_exec(target, ray_dir_exec(i));
            let o = self.occupant_after_exec(m, mover, s);
            if enemy_of_kind_exec(o, mover.team, ClassicalPieceKind::King) {
                assert(king_threat(self@, *m, mover, target, i as int));
                return true;
            }
            i += 1;
        }
        false
    }

    /// Whether a piece of the other team attacks `target` once `mover` has
    /// made `m`: the origin of `m` counts as empty and its destination as
    /// holding `mover`. Knights, then lines, then pawns, then the king are
    /// looked at; the answer does not depend on the order.
    pub fn is_attacked_after(&self, m: &PossibleMove, mover: ClassicalPiece, target: Square) -> (r: bool)
        requires
            self.wf(),
            target.spec_in_bounds(),
        ensures
            r == attacked_after(self@, *m, mover, target),
    {
        self.knight_attack(m, mover, target) || self.line_attack(m, mover, target)
            || self.pawn_attack(m, mover, target) || self.king_attack(m, mover, target)
    }

    /// Whether making `m` with `mover` leaves the mover's king unattacked.
    pub fn is_legal(&self, m: &PossibleMove, mover: ClassicalPiece) -> (r: bool)
        requires
            self.wf(),
            m.to.spec_in_bounds(),
        ensures
            r == is_legal(self@, *m, mover),
    {
        let target = if mover.kind == ClassicalPieceKind::King {
            m.to
        } else {
            self.get_king_loc(mover.team)
        };
        !self.is_attacked_after(m, mover, target)
    }

    /// The legal moves of the side to move, grouped by origin square in
    /// row-major order; an origin without a legal move is left out.
    pub fn possible_moves(&self) -> (r: Vec<(Square, Vec<PossibleMove>)>)
        requires
            self.wf(),
        ensures
            table_view(r@) == move_table(self@),
    {
        let ghost st = self@;
        let ghost keep = |e: (Square, Seq<PossibleMove>)| listed_origin(st, e);
        let mut table: Vec<(Square, Vec<PossibleMove>)> = Vec::new();
        let mut i: usize = 0;
        assert(all_origins(st).take(0) =~= Seq::<(Square, Seq<PossibleMove>)>::empty());
        proof {
            reveal(Seq::filter);
        }
        assert(table_view(table@) =~= all_origins(st).take(0).filter(keep));
        while i < 64
            invariant
                self.wf(),
                st == self@,
                i <= 64,
                keep == (|e: (Square, Seq<PossibleMove>)| listed_origin(st, e)),
                table_view(table@) == all_origins(st).take(i as int).filter(keep),
            decreases 64 - i,
        {
            let sq = Square((i / 8) as i32, (i % 8) as i32);
            assert(sq == index_square(i as int));
            let ghost entry = all_origins(st)[i as int];
            proof {
                reveal(Seq::filter);
                assert(all_origins(st).take(i + 1).drop_last() =~= all_origins(st).take(i as int));
                assert(all_origins(st).take(i + 1).last() == entry);
            }
            let ghost before = table@;
            match self.get(sq) {
                Some(p) => {
                    if p.team == self.current_player() {
                        let moves = p.possible_moves(sq, self);
                        if moves.len() > 0 {
                            table.push((sq, moves));
                            assert(table_view(table@) =~= table_view(before).push(entry));
                        } else {
                            assert(!keep(entry));
                        }
                    } else {
                        assert(!keep(entry));
                    }
                },
                None => {
                    assert(!keep(entry));
                },
            }
            i += 1;
        }
        assert(all_origins(st).take(64) =~= all_origins(st));
        table
    }
}

impl ClassicalPiece {
    /// The legal moves of this piece, standing on `square` of `board`.
    pub fn possible_moves(&self, square: Square, board: &Board) -> (r: Vec<PossibleMove>)
        requires
            board.wf(),
            square.spec_in_bounds(),
            board@.at(square) == Some(*self),
        ensures
            r@ == legal_moves(board@, square),
    {
        let ghost st = board@;
        let ghost mover = *self;
        let ghost keep = |m: PossibleMove| is_legal(st, m, mover);
        let candidates = board.pseudo_moves(square);
        let mut out: Vec<PossibleMove> = Vec::new();
        let mut i: usize = 0;
        assert(candidates@.take(0) =~= Seq::<PossibleMove>::empty());
        proof {
            reveal(Seq::filter);
        }
        while i < candidates.len()
            invariant
                board.wf(),
                st == board@,
                mover == *self,
                i <= candidates@.len(),
                moves_from(candidates@, square),
                keep == (|m: PossibleMove| is_legal(st, m, mover)),
                out@ == candidates@.take(i as int).filter(keep),
            decreases candidates@.len() - i,
        {
            let m = candidates[i];
            proof {
                reveal(Seq::filter);
                assert(candidates@.take(i + 1).drop_last() =~= candidates@.take(i as int));
            }
            if board.is_legal(&m, *self) {
                out.push(m);
            }
            i += 1;
        }
        assert(candidates@.take(candidates@.len() as int) =~= candidates@);
        out
    }
}

} // verus!
