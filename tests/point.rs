use grid_util::{Direction, Point};

#[test]
fn dir_obj_toward_northeast() {
    assert_eq!(
        Point::new(0, 0).dir_obj(&Point::new(5, 5)),
        Direction::NORTHEAST
    );
}

#[test]
fn dir_obj_all_sign_combinations() {
    let o = Point::new(2, 2);
    assert_eq!(o.dir_obj(&Point::new(3, 9)), Direction::NORTHEAST);
    assert_eq!(o.dir_obj(&Point::new(3, 2)), Direction::EAST);
    assert_eq!(o.dir_obj(&Point::new(3, -9)), Direction::SOUTHEAST);
    assert_eq!(o.dir_obj(&Point::new(2, 9)), Direction::NORTH);
    assert_eq!(o.dir_obj(&Point::new(2, 2)), Direction::NONE);
    assert_eq!(o.dir_obj(&Point::new(2, 1)), Direction::SOUTH);
    assert_eq!(o.dir_obj(&Point::new(1, 3)), Direction::NORTHWEST);
    assert_eq!(o.dir_obj(&Point::new(1, 2)), Direction::WEST);
    assert_eq!(o.dir_obj(&Point::new(-5, -5)), Direction::SOUTHWEST);
}

#[test]
fn dir_and_abs_dir() {
    assert_eq!(Point::new(4, 4).dir(&Point::new(0, 9)), Point::new(-1, 1));
    assert_eq!(Point::new(4, 4).dir(&Point::new(4, 4)), Point::new(0, 0));
    assert_eq!(Point::new(0, -3).abs_dir(), Direction::SOUTH);
    assert_eq!(Point::new(-1, 0).abs_dir(), Direction::WEST);
}

#[test]
fn distances() {
    let a = Point::new(1, -2);
    let b = Point::new(-3, 5);
    assert_eq!(a.manhattan_distance(&b), 11);
    assert_eq!(a.move_distance(&b), 7);
    assert_eq!(b.move_distance(&a), 7);
    assert_eq!(a.manhattan_distance(&a), 0);
    assert_eq!(Point::new(0, 0).move_distance(&Point::new(2, -9)), 9);
}

#[test]
fn neumann_neighborhood_order() {
    assert_eq!(
        Point::new(3, 4).neumann_neighborhood(),
        vec![
            Point::new(4, 4),
            Point::new(3, 5),
            Point::new(2, 4),
            Point::new(3, 3)
        ]
    );
}

#[test]
fn moore_neighborhood_runs_clockwise_from_north() {
    let p = Point::new(0, 0);
    assert_eq!(
        p.moore_neighborhood(),
        vec![
            Point::new(0, 1),
            Point::new(1, 1),
            Point::new(1, 0),
            Point::new(1, -1),
            Point::new(0, -1),
            Point::new(-1, -1),
            Point::new(-1, 0),
            Point::new(-1, 1)
        ]
    );
    for i in 0..8 {
        assert_eq!(p.moore_neighbor(i), p.moore_neighborhood()[i as usize]);
    }
}

#[test]
fn moore_neighbor_wraps_index() {
    let p = Point::new(10, 10);
    assert_eq!(p.moore_neighbor(-1), Point::new(9, 11));
    assert_eq!(p.moore_neighbor(9), Point::new(11, 11));
    assert_eq!(p.moore_neighbor(12), Point::new(10, 9));
}

#[test]
fn general_moore_neighborhood_of_one_is_column_major() {
    assert_eq!(
        Point::new(5, 5).general_moore_neighborhood(1),
        vec![
            Point::new(4, 4),
            Point::new(4, 5),
            Point::new(4, 6),
            Point::new(5, 4),
            Point::new(5, 6),
            Point::new(6, 4),
            Point::new(6, 5),
            Point::new(6, 6)
        ]
    );
}

#[test]
fn general_moore_neighborhood_sizes() {
    assert_eq!(Point::new(0, 0).general_moore_neighborhood(2).len(), 24);
    assert!(Point::new(0, 0).general_moore_neighborhood(0).is_empty());
    assert!(Point::new(0, 0).general_moore_neighborhood(-1).is_empty());
    let n = Point::new(0, 0).general_moore_neighborhood(2);
    assert!(!n.contains(&Point::new(0, 0)));
    assert_eq!(n[0], Point::new(-2, -2));
    assert_eq!(n[23], Point::new(2, 2));
}

#[test]
fn point_arithmetic() {
    let a = Point::new(1, 2);
    let b = Point::new(10, -20);
    assert_eq!(a + b, Point::new(11, -18));
    assert_eq!(a - b, Point::new(-9, 22));
    assert_eq!(-a, Point::new(-1, -2));
    assert_eq!(a * 3, Point::new(3, 6));
    assert_eq!(a + Direction::SOUTHWEST, Point::new(0, 1));
    assert_eq!(Point::from(Direction::NORTHWEST), Point::new(-1, 1));
}

#[test]
fn points_order_by_x_then_y() {
    assert!(Point::new(1, 9) < Point::new(2, 0));
    assert!(Point::new(1, 0) < Point::new(1, 1));
}
