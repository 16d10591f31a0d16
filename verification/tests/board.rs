use gorrosion::board::Board;
use gorrosion::board::Graph;
use gorrosion::board::Rect;
use gorrosion::board::Square;
use gorrosion::bool_mat::BoolMat;

#[test]
fn doctests() {
    let rect = Rect::new(6, 4);
    // Get the adjacency matrix.
    let adj = rect.adjacencies();
    // Every intersection point can be reached from every intersection point
    // in at most (6-1) + (4-1) = 8 steps.
    let two_steps = adj * adj;
    let four_steps = &two_steps * &two_steps;
    // So, this should be the all-true matrix
    let eight_steps = &four_steps * &four_steps;
    assert_eq!(eight_steps[((0, 0), (5, 3))], true);
}

#[test]
fn grid_links_each_cell_to_itself_and_its_four_neighbours() {
    let rect = Rect::new(3, 4);
    let adj = rect.adjacencies();
    for j in 0..3usize {
        for k in 0..4usize {
            for r in 0..3usize {
                for c in 0..4usize {
                    let distance = j.abs_diff(r) + k.abs_diff(c);
                    assert_eq!(adj[((j, k), (r, c))], distance <= 1);
                }
            }
        }
    }
}

#[test]
fn square_is_the_rectangle_with_equal_sides() {
    let square = Square::new(5);
    let rect = Rect::new(5, 5);
    assert_eq!(square.adjacencies(), rect.adjacencies());
    assert!(square.adjacencies()[((4, 4), (3, 4))]);
    assert!(!square.adjacencies()[((4, 4), (3, 3))]);
    assert!(!square.adjacencies()[((0, 4), (1, 0))]);
}

#[test]
fn seven_steps_do_not_cross_the_rectangle() {
    let rect = Rect::new(6, 4);
    let adj = rect.adjacencies();
    let two = adj * adj;
    let four = &two * &two;
    let six = &four * &two;
    let seven = &six * adj;
    assert!(!seven[((0, 0), (5, 3))]);
    assert!(seven[((0, 0), (5, 2))]);
}

#[test]
fn no_point_is_a_star_point_yet() {
    let rect = Rect::new(3, 3);
    let square = Square::new(9);
    let graph = Graph::new(BoolMat::id_matrix(4usize));
    assert!(!rect.is_hoshi((1, 1)));
    assert!(!square.is_hoshi((3, 3)));
    assert!(!square.is_hoshi((4, 4)));
    assert!(!graph.is_hoshi(2));
    assert_eq!(graph.adjacencies(), &BoolMat::id_matrix(4usize));
}
