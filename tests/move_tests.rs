use sandgoby::{Board, ClassicalPiece, ClassicalPieceKind, PossibleMove, Square, Team};

fn moves_of(board: &Board, square: Square) -> Vec<PossibleMove> {
    let piece = board.get(square).unwrap();
    piece.possible_moves(square, board)
}

fn find(moves: &[PossibleMove], to: Square) -> Option<PossibleMove> {
    moves.iter().copied().find(|m| m.to == to)
}

#[test]
fn basic_test() {
    let board = sandgoby::Board::starting_board();
    let moves = board.possible_moves();
    let mut total = 0;
    for i in moves {
        total += i.1.len();
    }
    assert_eq!(total, 20);
}

#[test]
fn starting_position_origins() {
    let board = Board::normal_board();
    let table = board.possible_moves();
    // eight pawns and two knights can move, in row-major order
    assert_eq!(table.len(), 10);
    assert_eq!(table[0].0, Square(6, 0));
    assert_eq!(table[7].0, Square(6, 7));
    assert_eq!(table[8].0, Square(7, 1));
    assert_eq!(table[9].0, Square(7, 6));
    for entry in &table {
        for m in &entry.1 {
            assert_eq!(m.from, entry.0);
            assert!(!m.promotion);
            assert_eq!(m.castle, None);
        }
    }
}

#[test]
fn black_to_move_in_start_position() {
    let board =
        Board::from_fen("rnbqkbnr/pppppppp/8/8/4P3/8/PPPP1PPP/RNBQKBNR b KQkq e3 0 1").unwrap();
    let total: usize = board.possible_moves().iter().map(|e| e.1.len()).sum();
    assert_eq!(total, 20);
}

#[test]
fn pawn_promotes_on_last_rank() {
    let board = Board::from_fen("7k/P7/8/8/8/8/8/7K w - - 1 1").unwrap();
    let moves = moves_of(&board, Square::from_alg("a7"));
    let m = find(&moves, Square::from_alg("a8")).unwrap();
    assert!(m.promotion);
    assert_eq!(moves.len(), 1);
}

#[test]
fn pawn_en_passant_and_captures() {
    let board = Board::from_fen("7k/8/4p3/2pP4/8/8/8/7K w - c6 1 1").unwrap();
    let moves = moves_of(&board, Square::from_alg("d5"));
    assert!(find(&moves, Square::from_alg("c6")).is_some());
    assert!(find(&moves, Square::from_alg("d6")).is_some());
    // e6 holds a black pawn here, so the diagonal capture to it is present
    assert_eq!(
        board.get(Square::from_alg("e6")),
        Some(ClassicalPiece::new(Team::Black, ClassicalPieceKind::Pawn))
    );
    assert!(find(&moves, Square::from_alg("e6")).is_some());
    assert_eq!(moves.len(), 3);
}

#[test]
fn pawn_diagonal_to_empty_square_is_absent() {
    let board = Board::from_fen("7k/8/8/2pP4/8/8/8/7K w - - 1 1").unwrap();
    let moves = moves_of(&board, Square::from_alg("d5"));
    assert!(find(&moves, Square::from_alg("c6")).is_none());
    assert!(find(&moves, Square::from_alg("e6")).is_none());
    assert_eq!(moves.len(), 1);
}

#[test]
fn pawn_double_step_from_home_rank() {
    let board = Board::starting_board();
    let moves = moves_of(&board, Square::from_alg("e2"));
    assert_eq!(moves.len(), 2);
    assert!(find(&moves, Square::from_alg("e3")).is_some());
    assert!(find(&moves, Square::from_alg("e4")).is_some());
}

#[test]
fn blocked_pawn_cannot_advance() {
    let board = Board::from_fen("7k/8/8/8/4p3/4P3/8/7K w - - 0 1").unwrap();
    assert!(moves_of(&board, Square::from_alg("e3")).is_empty());
}

#[test]
fn knight_jumps_forward() {
    let board = Board::from_fen("7k/8/2N5/8/8/8/8/7K w - - 1 1").unwrap();
    let from = Square::from_alg("c6");
    let moves = moves_of(&board, from);
    let target = from.forwards(Team::White, 2).sideways(1);
    assert_eq!(target, Square::from_alg("d8"));
    assert!(find(&moves, target).is_some());
    assert_eq!(moves.len(), 8);
}

#[test]
fn bishop_captures_and_is_blocked() {
    let board = Board::from_fen("7k/1p1P4/2B5/8/8/8/8/7K w - - 1 1").unwrap();
    let moves = moves_of(&board, Square::from_alg("c6"));
    assert!(find(&moves, Square::from_alg("b7")).is_some());
    assert!(find(&moves, Square::from_alg("a8")).is_none());
    assert!(find(&moves, Square::from_alg("d7")).is_none());
    assert!(find(&moves, Square::from_alg("e8")).is_none());
    assert!(find(&moves, Square::from_alg("a4")).is_some());
    assert!(find(&moves, Square::from_alg("h1")).is_none());
    assert!(find(&moves, Square::from_alg("g2")).is_some());
}

#[test]
fn rook_and_queen_rays() {
    let board = Board::from_fen("7k/8/8/8/3R4/8/8/Q6K w - - 0 1").unwrap();
    assert_eq!(moves_of(&board, Square::from_alg("d4")).len(), 14);
    // the queen on a1: seven up the file, six along the rank to g1, and b2, c3
    // on the diagonal up to the rook on d4
    assert_eq!(moves_of(&board, Square::from_alg("a1")).len(), 15);
}

#[test]
fn king_does_not_step_into_attack() {
    let board = Board::from_fen("7k/8/8/8/8/8/r7/4K3 w - - 0 1").unwrap();
    let moves = moves_of(&board, Square::from_alg("e1"));
    assert!(find(&moves, Square::from_alg("e2")).is_none());
    assert!(find(&moves, Square::from_alg("d1")).is_some());
    assert_eq!(moves.len(), 2);
}

#[test]
fn pinned_piece_cannot_leave_the_line() {
    let board = Board::from_fen("4r2k/8/8/8/8/8/4N3/4K3 w - - 0 1").unwrap();
    assert!(moves_of(&board, Square::from_alg("e2")).is_empty());
}

#[test]
fn interposing_piece_blocks_check() {
    let board = Board::from_fen("4r2k/8/8/8/8/8/8/2B1K3 w - - 0 1").unwrap();
    let moves = moves_of(&board, Square::from_alg("c1"));
    assert!(find(&moves, Square::from_alg("e3")).is_some());
    assert_eq!(moves.len(), 1);
}

#[test]
fn threat_detection_by_kind() {
    let board = Board::from_fen("7k/8/8/3n4/8/8/8/K7 w - - 0 1").unwrap();
    let king = ClassicalPiece::new(Team::White, ClassicalPieceKind::King);
    let stay = PossibleMove { from: Square(7, 0), to: Square(7, 0), castle: None, promotion: false };
    assert!(board.is_attacked_after(&stay, king, Square::from_alg("c3")));
    assert!(board.is_attacked_after(&stay, king, Square::from_alg("e7")));
    assert!(!board.is_attacked_after(&stay, king, Square::from_alg("d4")));
    let pawns = Board::from_fen("7k/8/8/3p4/8/8/8/K7 w - - 0 1").unwrap();
    assert!(pawns.is_attacked_after(&stay, king, Square::from_alg("c4")));
    assert!(pawns.is_attacked_after(&stay, king, Square::from_alg("e4")));
    assert!(!pawns.is_attacked_after(&stay, king, Square::from_alg("d4")));
}

#[test]
fn board_mutation_primitives() {
    let mut board = Board::starting_board();
    let e2 = Square::from_alg("e2");
    let e4 = Square::from_alg("e4");
    let pawn = board.get(e2).unwrap();
    board.remove(e2);
    board.insert(e4, pawn);
    assert_eq!(board.get(e2), None);
    assert_eq!(board.get(e4), Some(pawn));
    assert_eq!(board.get_ignoring(e4, e4), None);
    assert_eq!(board.get_ignoring(e4, e2), Some(pawn));
    board.set_king_loc(Team::White, Square(7, 3));
    assert_eq!(board.get_king_loc(Team::White), Square(7, 3));
    assert_eq!(board.get_king_loc(Team::Black), Square(0, 4));
}

#[test]
fn pseudo_moves_ignore_checks() {
    let board = Board::from_fen("4r2k/8/8/8/8/8/4N3/4K3 w - - 0 1").unwrap();
    assert_eq!(board.pseudo_moves(Square::from_alg("e2")).len(), 6);
    assert!(board.pseudo_moves(Square::from_alg("a3")).is_empty());
}

#[test]
fn en_passant_that_exposes_king_is_illegal() {
    let board = Board::from_fen("7k/8/8/K1pP3r/8/8/8/8 w - c6 0 2").unwrap();
    let moves = moves_of(&board, Square::from_alg("d5"));
    assert!(find(&moves, Square::from_alg("c6")).is_none());
    assert!(find(&moves, Square::from_alg("d6")).is_some());
    assert_eq!(moves.len(), 1);
    let table = board.possible_moves();
    let d5 = table.iter().find(|e| e.0 == Square::from_alg("d5")).unwrap();
    assert!(d5.1.iter().all(|m| m.to != Square::from_alg("c6")));
}

#[test]
fn en_passant_without_exposure_is_legal() {
    let board = Board::from_fen("7k/8/8/K1pP4/8/8/8/8 w - c6 0 2").unwrap();
    let moves = moves_of(&board, Square::from_alg("d5"));
    assert!(find(&moves, Square::from_alg("c6")).is_some());
    assert_eq!(moves.len(), 2);
}

#[test]
fn kings_only_board() {
    let board = Board::kings_only();
    assert_eq!(board.get(Square(7, 4)), Some(ClassicalPiece::new(Team::White, ClassicalPieceKind::King)));
    assert_eq!(board.get(Square(0, 4)), Some(ClassicalPiece::new(Team::Black, ClassicalPieceKind::King)));
    assert_eq!(board.get(Square(6, 4)), None);
    assert_eq!(board.get_king_loc(Team::White), Square(7, 4));
    assert_eq!(board.current_player(), Team::White);
    assert_eq!(board.round(), 1);
    let total: usize = board.possible_moves().iter().map(|e| e.1.len()).sum();
    assert_eq!(total, 5);
}
