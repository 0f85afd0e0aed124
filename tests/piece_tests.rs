use sandgoby::{fen_char, ClassicalPiece, ClassicalPieceKind, DirScale, Direction, Piece, Team};

#[test]
fn fen_char_reads_letters() {
    assert_eq!(fen_char('K'), Some(ClassicalPiece::new(Team::White, ClassicalPieceKind::King)));
    assert_eq!(fen_char('n'), Some(ClassicalPiece::new(Team::Black, ClassicalPieceKind::Knight)));
    assert_eq!(fen_char('x'), None);
    assert_eq!(fen_char('3'), None);
}

#[test]
fn classical_piece_capabilities() {
    let white = ClassicalPiece::new(Team::White, ClassicalPieceKind::Rook);
    let black = ClassicalPiece::new(Team::Black, ClassicalPieceKind::King);
    assert!(white.can_kill(&black));
    assert!(!white.can_kill(&white));
    assert!(black.is_king());
    assert!(!white.is_king());
    assert_eq!(white.team_id(), 0);
    assert_eq!(black.team_id(), 1);
    assert_eq!(white.get_team(), Team::White);
    assert_eq!(white.forwards(), Direction(DirScale::Minus, DirScale::Neutral));
    assert_eq!(black.forwards(), Direction(DirScale::Plus, DirScale::Neutral));
    assert_eq!(black.sideways(), Direction(DirScale::Neutral, DirScale::Plus));
    assert_eq!(Team::White.opponent(), Team::Black);
}
