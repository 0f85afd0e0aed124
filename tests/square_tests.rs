use sandgoby::{InvalidAlg, Square, Team};

#[test]
fn from_alg_valid_normal() {
    let square = Square::try_from_alg("g3", (8, 8)).unwrap();
    println!("square");
    assert_eq!(square, Square(5, 6));
}

#[test]
#[should_panic]
fn from_alg_invalid_len() {
    Square::try_from_alg(":", (8, 8)).unwrap();
}

#[test]
#[should_panic]
fn from_alg_invalid_order() {
    Square::try_from_alg("4b", (8, 8)).unwrap();
}

#[test]
fn alg_round_trip_every_square() {
    for r in 0..8 {
        for c in 0..8 {
            let sq = Square(r, c);
            let text = sq.in_alg();
            assert_eq!(Square::try_from_alg(&text, (8, 8)), Ok(sq));
        }
    }
}

#[test]
fn alg_round_trip_every_string() {
    for file in ['a', 'b', 'c', 'd', 'e', 'f', 'g', 'h'] {
        for rank in ['1', '2', '3', '4', '5', '6', '7', '8'] {
            let text = format!("{}{}", file, rank);
            let sq = Square::try_from_alg(&text, (8, 8)).unwrap();
            assert_eq!(sq.in_alg(), text);
        }
    }
}

#[test]
fn in_alg_writes_file_and_rank() {
    assert_eq!(Square(6, 4).in_alg(), "e2");
    assert_eq!(Square(0, 0).in_alg(), "a8");
    assert_eq!(Square(7, 7).in_alg(), "h1");
}

#[test]
fn from_alg_reads_well_formed_square() {
    assert_eq!(Square::from_alg("e2"), Square(6, 4));
    assert_eq!(Square::from_alg("a8"), Square(0, 0));
}

#[test]
fn from_alg_rejects_malformed_text() {
    assert_eq!(Square::try_from_alg("", (8, 8)), Err(InvalidAlg));
    assert_eq!(Square::try_from_alg("e", (8, 8)), Err(InvalidAlg));
    assert_eq!(Square::try_from_alg("e9", (8, 8)), Err(InvalidAlg));
    assert_eq!(Square::try_from_alg("e0", (8, 8)), Err(InvalidAlg));
    assert_eq!(Square::try_from_alg("i1", (8, 8)), Err(InvalidAlg));
    assert_eq!(Square::try_from_alg("E2", (8, 8)), Err(InvalidAlg));
    assert_eq!(Square::try_from_alg("e2x", (8, 8)), Err(InvalidAlg));
    assert_eq!(Square::try_from_alg("e02", (8, 8)), Err(InvalidAlg));
}

#[test]
fn from_alg_on_larger_board() {
    assert_eq!(Square::try_from_alg("j10", (10, 10)), Ok(Square(0, 9)));
    assert_eq!(Square::try_from_alg("a1", (10, 10)), Ok(Square(9, 0)));
    assert_eq!(Square::try_from_alg("k1", (10, 10)), Err(InvalidAlg));
    assert_eq!(Square::try_from_alg("a11", (10, 10)), Err(InvalidAlg));
}

#[test]
fn in_bounds_on_the_board() {
    assert!(Square(0, 0).in_bounds());
    assert!(Square(7, 7).in_bounds());
    assert!(!Square(8, 0).in_bounds());
    assert!(!Square(0, -1).in_bounds());
}

#[test]
fn forwards_depends_on_team() {
    assert_eq!(Square(6, 4).forwards(Team::White, 2), Square(4, 4));
    assert_eq!(Square(1, 4).forwards(Team::Black, 2), Square(3, 4));
    assert_eq!(Square(3, 3).sideways(-1), Square(3, 2));
    assert_eq!(Square(3, 3).sideways(2), Square(3, 5));
}

#[test]
fn in_bounds_of_sized_board_with_boundary() {
    let all = |_s: Square| true;
    assert!(Square(9, 9).in_bounds_of((10, 10), all));
    assert!(!Square(10, 0).in_bounds_of((10, 10), all));
    assert!(!Square(-1, 0).in_bounds_of((10, 10), all));
    let no_corner = |s: Square| !(s.0 == 0 && s.1 == 0);
    assert!(!Square(0, 0).in_bounds_of((8, 8), no_corner));
    assert!(Square(0, 1).in_bounds_of((8, 8), no_corner));
}
