use game_of_life::{Game, Mapper};

#[test]
fn set() {
    let reference_pos = Mapper { row: 1, col: 1 };

    let top = reference_pos.set(-1, 0);
    let bottom = reference_pos.set(1, 0);
    let right = reference_pos.set(0, 1);
    let left = reference_pos.set(0, -1);

    assert_eq!(top.unwrap(), Mapper { row: 0, col: 1 });
    assert_eq!(bottom.unwrap(), Mapper { row: 2, col: 1 });
    assert_eq!(right.unwrap(), Mapper { row: 1, col: 2 });
    assert_eq!(left.unwrap(), Mapper { row: 1, col: 0 });

    // Out of bound indexes
    let reference_pos = Mapper { row: 0, col: 0 };

    let top = reference_pos.set(-1, 0);
    let bottom = reference_pos.set(1, 0);
    let right = reference_pos.set(0, 1);
    let left = reference_pos.set(0, -1);

    assert_eq!(top, None);
    assert_eq!(bottom.unwrap(), Mapper { row: 1, col: 0 });
    assert_eq!(right.unwrap(), Mapper { row: 0, col: 1 });
    assert_eq!(left, None);
}

#[test]
fn get_index() {
    let board = Game::new(64).unwrap();
    let mapper = Mapper { row: 0, col: 0 };

    assert_eq!(0, board.get_index(mapper));

    let mapper = Mapper { row: 0, col: 1 };
    assert_eq!(1, board.get_index(mapper));

    let mapper = Mapper { row: 0, col: 2 };
    assert_eq!(2, board.get_index(mapper));

    let mapper = Mapper { row: 1, col: 0 };
    assert_eq!(64, board.get_index(mapper));

    let mapper = Mapper { row: 1, col: 1 };
    assert_eq!(65, board.get_index(mapper));

    let mapper = Mapper { row: 1, col: 2 };
    assert_eq!(66, board.get_index(mapper));
}

#[test]
fn get_row_col() {
    let board = Game::new(64).unwrap();

    let pos = board.get_row_col(0);
    assert_eq!(Mapper { row: 0, col: 0 }, pos);

    let pos = board.get_row_col(1);
    assert_eq!(Mapper { row: 0, col: 1 }, pos);

    let pos = board.get_row_col(23);
    assert_eq!(Mapper { row: 0, col: 23 }, pos);

    let pos = board.get_row_col(60);
    assert_eq!(Mapper { row: 0, col: 60 }, pos);

    let pos = board.get_row_col(64);
    assert_eq!(Mapper { row: 1, col: 0 }, pos);

    let pos = board.get_row_col(128);
    assert_eq!(Mapper { row: 2, col: 0 }, pos);

    let pos = board.get_row_col(129);
    assert_eq!(Mapper { row: 2, col: 1 }, pos);
}

#[test]
fn new_takes_column_then_row() {
    let pos = Mapper::new(3, 7);
    assert_eq!(pos.col, 3);
    assert_eq!(pos.row, 7);
    assert_eq!(pos, Mapper { row: 7, col: 3 });
}

#[test]
fn set_by_zero_keeps_the_position() {
    for pos in [
        Mapper { row: 0, col: 0 },
        Mapper { row: 5, col: 9 },
        Mapper { row: usize::MAX, col: usize::MAX },
    ] {
        assert_eq!(pos.set(0, 0), Some(pos));
    }
}

#[test]
fn set_fails_only_below_zero() {
    let corner = Mapper { row: 0, col: 0 };
    assert_eq!(corner.set(-1, -1), None);
    assert_eq!(corner.set(-1, 1), None);
    assert_eq!(corner.set(1, -1), None);
    assert_eq!(corner.set(1, 1), Some(Mapper { row: 1, col: 1 }));

    let edge = Mapper { row: 3, col: 0 };
    assert_eq!(edge.set(-1, 0), Some(Mapper { row: 2, col: 0 }));
    assert_eq!(edge.set(0, -1), None);
    assert_eq!(edge.set(-3, 0), Some(Mapper { row: 0, col: 0 }));
    assert_eq!(edge.set(-4, 0), None);

    // No grid is consulted: a position far beyond any board still moves.
    let far = Mapper { row: 1_000_000, col: 2_000_000 };
    assert_eq!(far.set(1, 1), Some(Mapper { row: 1_000_001, col: 2_000_001 }));
}

#[test]
fn set_fails_past_the_largest_coordinate() {
    let last = Mapper { row: usize::MAX, col: 4 };
    assert_eq!(last.set(1, 0), None);
    assert_eq!(last.set(0, 1), Some(Mapper { row: usize::MAX, col: 5 }));
    let last = Mapper { row: 4, col: usize::MAX };
    assert_eq!(last.set(0, 1), None);
    assert_eq!(last.set(0, -1), Some(Mapper { row: 4, col: usize::MAX - 1 }));
}

#[test]
fn from_index_and_to_index_are_row_major() {
    assert_eq!(Mapper::from_index(5, 0), Mapper { row: 0, col: 0 });
    assert_eq!(Mapper::from_index(5, 4), Mapper { row: 0, col: 4 });
    assert_eq!(Mapper::from_index(5, 5), Mapper { row: 1, col: 0 });
    assert_eq!(Mapper::from_index(5, 24), Mapper { row: 4, col: 4 });
    assert_eq!(Mapper::from_index(5, 27), Mapper { row: 5, col: 2 });
    assert_eq!(Mapper::from_index(1, 9), Mapper { row: 9, col: 0 });

    assert_eq!(Mapper { row: 0, col: 0 }.to_index(5), 0);
    assert_eq!(Mapper { row: 2, col: 3 }.to_index(5), 13);
    assert_eq!(Mapper { row: 4, col: 4 }.to_index(5), 24);
    // Outside the grid the index is still a number.
    assert_eq!(Mapper { row: 5, col: 0 }.to_index(5), 25);
    assert_eq!(Mapper { row: 1, col: 7 }.to_index(5), 12);
}

#[test]
fn index_round_trip() {
    for size in [1usize, 2, 5, 7, 64] {
        for idx in 0..size * size {
            let pos = Mapper::from_index(size, idx);
            assert!(pos.row < size);
            assert!(pos.col < size);
            assert_eq!(pos.to_index(size), idx);
        }
    }
    let board = Game::new(9).unwrap();
    for idx in 0..81 {
        assert_eq!(board.get_index(board.get_row_col(idx)), idx);
    }
}
