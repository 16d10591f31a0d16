use gorrosion::field::bool_mat::BoolMat;
use gorrosion::field::bool_mat::BoolVec;
use gorrosion::field::Board;
use gorrosion::game::Color;

#[test]
fn square_board_is_a_grid() {
    let board = Board::square(3);
    assert_eq!(board.size, 9);
    for a in 0..9usize {
        for b in 0..9usize {
            let distance = (a / 3).abs_diff(b / 3) + (a % 3).abs_diff(b % 3);
            assert_eq!(board.adj.get(a, b), distance <= 1);
        }
    }
    assert_eq!(board.black_stones.set_positions(), Vec::<usize>::new());
    assert_eq!(board.white_stones.set_positions(), Vec::<usize>::new());
    assert_eq!(board.black_connections, BoolMat::falses(9, 9));
    assert_eq!(board.white_connections, BoolMat::falses(9, 9));
}

#[test]
fn placing_marks_the_point() {
    let mut board = Board::square(3);
    board.place(4, Color::Black);
    board.place(0, Color::White);
    assert_eq!(board.black_stones.set_positions(), vec![4]);
    assert_eq!(board.white_stones.set_positions(), vec![0]);
    assert_eq!(board.black_connections, BoolMat::falses(9, 9));
}

#[test]
fn placing_carries_connections_through_the_stones() {
    let adj = Board::square(2).adj;
    let mut stones = BoolVec::falses(4);
    stones.set(0);
    let mut connections = BoolMat::from_diag(&BoolVec::trues(4));
    Board::place_stone(&adj, 1, &mut stones, &mut connections);
    assert_eq!(stones.set_positions(), vec![0, 1]);
    assert_eq!(
        connections,
        BoolMat {
            height: 4,
            width: 4,
            contents: vec![
                true, true, false, false, true, true, false, false, false, false, false, false,
                false, false, false, false
            ]
        }
    );
}

#[test]
fn living_stones_are_next_to_what_reaches_a_free_point() {
    let adj = Board::square(2).adj;
    let mut connections = BoolMat::falses(4, 4);
    connections.set(1, 3);
    let mut free = BoolVec::falses(4);
    free.set(3);
    let living = Board::living_stones(&adj, &connections, &free);
    assert_eq!(living.set_positions(), vec![0, 1, 3]);
    let nothing = Board::living_stones(&adj, &BoolMat::falses(4, 4), &free);
    assert_eq!(nothing.set_positions(), Vec::<usize>::new());
}

#[test]
fn killing_keeps_the_living_stones() {
    let mut board = Board::square(2);
    board.place(0, Color::Black);
    board.place(1, Color::White);
    board.black_connections = BoolMat::from_diag(&BoolVec::trues(4));
    board.kill(Color::Black);
    assert_eq!(board.black_stones.set_positions(), vec![0, 1, 2, 3]);
    assert_eq!(board.black_connections, BoolMat::from_diag(&BoolVec::trues(4)));
    assert_eq!(board.white_stones.set_positions(), vec![1]);
    board.kill(Color::White);
    assert_eq!(board.white_stones.set_positions(), Vec::<usize>::new());
    assert_eq!(board.white_connections, BoolMat::falses(4, 4));
}
