use sandgoby::{
    setup_from_fen, Board, BoardError, Castles, ClassicalPiece, ClassicalPieceKind, Square, Team,
};

const START: &str = "rnbqkbnr/pppppppp/8/8/8/8/PPPPPPPP/RNBQKBNR w KQkq - 0 1";

fn error_of(fen: &str) -> BoardError {
    match Board::from_fen(fen) {
        Ok(_) => panic!("expected an error"),
        Err(e) => e,
    }
}

#[test]
fn fen_start_matches_starting_board() {
    let parsed = Board::from_fen(START).unwrap();
    let built = Board::starting_board();
    for r in 0..8 {
        for c in 0..8 {
            assert_eq!(parsed.get(Square(r, c)), built.get(Square(r, c)));
        }
    }
    assert_eq!(parsed.current_player(), Team::White);
    assert_eq!(parsed.castles(), Castles { wq: true, wk: true, bq: true, bk: true });
    assert_eq!(parsed.enpassent(), None);
    assert_eq!(parsed.halfmove_clock(), 0);
    assert_eq!(parsed.round(), 1);
    assert_eq!(parsed.get_king_loc(Team::White), Square(7, 4));
    assert_eq!(parsed.get_king_loc(Team::Black), Square(0, 4));
    assert_eq!(
        parsed.get(Square(7, 3)),
        Some(ClassicalPiece::new(Team::White, ClassicalPieceKind::Queen))
    );
}

#[test]
fn fen_reads_metadata() {
    let b = Board::from_fen("4k3/8/8/3pP3/8/8/8/4K3 b Kq d6 12 34").unwrap();
    assert_eq!(b.current_player(), Team::Black);
    assert_eq!(b.castles(), Castles { wq: false, wk: true, bq: true, bk: false });
    assert_eq!(b.enpassent(), Some(Square(2, 3)));
    assert_eq!(b.halfmove_clock(), 12);
    assert_eq!(b.round(), 34);
    assert_eq!(b.get_king_loc(Team::Black), Square(0, 4));
}

#[test]
fn fen_row_too_short_is_invalid() {
    assert_eq!(error_of("7k/8/8/8/8/8/8/6K w - - 0 1"), BoardError::InvalidFen);
}

#[test]
fn fen_row_too_long_is_invalid() {
    assert_eq!(error_of("7k/8/8/8/8/8/8/7K1 w - - 0 1"), BoardError::InvalidFen);
    assert_eq!(error_of("7k/44/8/8/8/8/8/7K w - - 0 1"), BoardError::InvalidFen);
}

#[test]
fn fen_two_kings_is_illegal() {
    assert_eq!(error_of("6kk/8/8/8/8/8/8/7K w - - 0 1"), BoardError::IllegalPosition);
    assert_eq!(error_of("7k/8/8/8/8/8/8/6KK w - - 0 1"), BoardError::IllegalPosition);
}

#[test]
fn fen_missing_king_is_illegal() {
    assert_eq!(error_of("8/8/8/8/8/8/8/7K w - - 0 1"), BoardError::IllegalPosition);
}

#[test]
fn fen_round_zero() {
    assert_eq!(error_of("7k/8/8/8/8/8/8/7K w - - 0 0"), BoardError::RoundIsZero);
}

#[test]
fn fen_malformed_fields() {
    assert_eq!(error_of("7k/8/8/8/8/8/8/7K x - - 0 1"), BoardError::InvalidFen);
    assert_eq!(error_of("7k/8/8/8/8/8/8/7K w - - 0"), BoardError::InvalidFen);
    assert_eq!(error_of("7k/8/8/8/8/8/8/7K w - - 0 1 extra"), BoardError::InvalidFen);
    assert_eq!(error_of("7k/8/8/8/8/8/8/7K w - z9 0 1"), BoardError::InvalidFen);
    assert_eq!(error_of("7k/8/8/8/8/8/8/7K w - - x 1"), BoardError::InvalidFen);
    assert_eq!(error_of("7k/8/8/8/8/8/8/7K w - - 0 4294967296"), BoardError::InvalidFen);
    assert_eq!(error_of("7k/8/8/8/8/8/8 w - - 0 1"), BoardError::InvalidFen);
    assert_eq!(error_of("7k/8/8/8/8/8/8/7X w - - 0 1"), BoardError::InvalidFen);
}

#[test]
fn fen_syntax_error_comes_before_king_count() {
    assert_eq!(error_of("8/8/8/8/8/8/8/8 x - - 0 1"), BoardError::InvalidFen);
}

#[test]
fn setup_from_fen_reads_the_same_board() {
    let b = setup_from_fen("7k/8/8/8/8/8/8/7K w - - 5 9").unwrap();
    assert_eq!(b.round(), 9);
    assert_eq!(b.halfmove_clock(), 5);
    assert_eq!(
        b.get(Square(0, 7)),
        Some(ClassicalPiece::new(Team::Black, ClassicalPieceKind::King))
    );
}

#[test]
fn new_checks_kings_and_round() {
    let mut pieces = vec![None; 64];
    pieces[4] = Some(ClassicalPiece::new(Team::Black, ClassicalPieceKind::King));
    pieces[60] = Some(ClassicalPiece::new(Team::White, ClassicalPieceKind::King));
    let castles = Castles { wq: false, wk: false, bq: false, bk: false };
    let one_king = Board::new(pieces.clone(), vec![Square(7, 4)], Team::White, castles, None, 0, 1);
    assert!(matches!(one_king, Err(BoardError::NotEnoughKings)));
    let kings = vec![Square(7, 4), Square(0, 4)];
    let zero = Board::new(pieces.clone(), kings.clone(), Team::White, castles, None, 0, 0);
    assert!(matches!(zero, Err(BoardError::RoundIsZero)));
    let wrong = vec![Square(7, 3), Square(0, 4)];
    let misplaced = Board::new(pieces.clone(), wrong, Team::White, castles, None, 0, 1);
    assert!(matches!(misplaced, Err(BoardError::IllegalPosition)));
    let short = Board::new(vec![None; 10], kings.clone(), Team::White, castles, None, 0, 1);
    assert!(matches!(short, Err(BoardError::IllegalPosition)));
    let b = Board::new(pieces, kings, Team::Black, castles, None, 3, 7).unwrap();
    assert_eq!(b.current_player(), Team::Black);
    assert_eq!(b.get_king_loc(Team::White), Square(7, 4));
}

#[test]
fn error_messages() {
    assert_eq!(BoardError::NotEnoughKings.message(), "Not enough kings on the board");
    assert_eq!(BoardError::IllegalPosition.message(), "Illegal position");
    assert_eq!(BoardError::InvalidFen.message(), "Invalid fen");
    assert_eq!(BoardError::RoundIsZero.message(), "Round is 0 (needs to be 1 or higher)");
    assert_eq!(BoardError::UnknownError.message(), "Unknown error (please report)");
    assert_eq!(sandgoby::InvalidAlg.message(), "Invalid algebraic notation");
}
