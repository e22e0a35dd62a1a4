use grid_util::Direction;

#[test]
fn test_east1() {
    assert_eq!(6, Direction::SOUTH.discrete_angle(Direction::EAST));
    assert_eq!(Direction::EAST, Direction::SOUTH.rotate_cw(6));
    assert_eq!(Direction::EAST, Direction::SOUTH.rotate_ccw(2));
}

#[test]
fn test_east2() {
    assert_eq!(4, Direction::WEST.discrete_angle(Direction::EAST));
    assert_eq!(Direction::EAST, Direction::WEST.rotate_cw(4));
    assert_eq!(Direction::EAST, Direction::WEST.rotate_ccw(4));
}

#[test]
fn test_east3() {
    assert_eq!(2, Direction::NORTH.discrete_angle(Direction::EAST));
    assert_eq!(Direction::EAST, Direction::NORTH.rotate_cw(2));
    assert_eq!(Direction::EAST, Direction::NORTH.rotate_ccw(6));
}

#[test]
fn test_east4() {
    assert_eq!(0, Direction::EAST.discrete_angle(Direction::EAST));
}

#[test]
fn test_ne1() {
    assert_eq!(2, Direction::NORTHWEST.discrete_angle(Direction::NORTHEAST));
}

#[test]
fn test_ne2() {
    assert_eq!(4, Direction::SOUTHWEST.discrete_angle(Direction::NORTHEAST));
}

#[test]
fn test_ne3() {
    assert_eq!(6, Direction::SOUTHEAST.discrete_angle(Direction::NORTHEAST));
}

#[test]
fn test_ne4() {
    assert_eq!(0, Direction::NORTHEAST.discrete_angle(Direction::NORTHEAST));
}

const ALL: [Direction; 9] = [
    Direction::NORTH,
    Direction::NORTHEAST,
    Direction::EAST,
    Direction::SOUTHEAST,
    Direction::SOUTH,
    Direction::SOUTHWEST,
    Direction::WEST,
    Direction::NORTHWEST,
    Direction::NONE,
];

#[test]
fn codes_run_clockwise_from_north() {
    for (i, d) in ALL.iter().enumerate() {
        assert_eq!(d.num(), i as i32);
    }
    for c in 0..8 {
        assert_eq!(Direction::from_num(c).num(), c);
    }
}

#[test]
fn diagonal_directions_have_odd_codes() {
    let diagonals: Vec<bool> = ALL.iter().map(|d| d.diagonal()).collect();
    assert_eq!(
        diagonals,
        vec![false, true, false, true, false, true, false, true, false]
    );
}

#[test]
fn full_turn_is_identity() {
    for d in ALL {
        assert_eq!(d.rotate_cw(8), d);
        assert_eq!(d.rotate_ccw(8), d);
    }
}

#[test]
fn rotation_round_trip() {
    for d in ALL {
        for n in [-17, -8, -3, -1, 0, 1, 5, 9, 100, i32::MAX, i32::MIN] {
            assert_eq!(d.rotate_cw(n).rotate_ccw(n), d);
            assert_eq!(d.rotate_ccw(n).rotate_cw(n), d);
        }
    }
}

#[test]
fn rotation_by_extreme_amounts() {
    // i32::MAX = 8 * 268435455 + 7, i32::MIN = -8 * 268435456.
    assert_eq!(Direction::NORTH.rotate_cw(i32::MAX), Direction::NORTHWEST);
    assert_eq!(Direction::NORTH.rotate_cw(i32::MIN), Direction::NORTH);
    assert_eq!(Direction::EAST.rotate_ccw(i32::MIN), Direction::EAST);
    assert_eq!(Direction::EAST.rotate_ccw(-1), Direction::SOUTHEAST);
    assert_eq!(Direction::NONE.rotate_cw(3), Direction::NONE);
    assert_eq!(Direction::NONE.rotate_ccw(3), Direction::NONE);
}

#[test]
fn discrete_angle_is_antisymmetric() {
    for a in ALL {
        assert_eq!(a.discrete_angle(a), 0);
        for b in ALL {
            assert_eq!(a.discrete_angle(b), (8 - b.discrete_angle(a)) % 8);
        }
    }
}

#[test]
fn discrete_angle_with_none() {
    assert_eq!(Direction::NONE.discrete_angle(Direction::EAST), 2);
    assert_eq!(Direction::EAST.discrete_angle(Direction::NONE), 6);
}

#[test]
fn south_rotated_six_is_east() {
    assert_eq!(Direction::SOUTH.rotate_cw(6), Direction::EAST);
    assert_eq!(Direction::SOUTH.discrete_angle(Direction::EAST), 6);
}

#[test]
fn unit_steps_follow_the_table() {
    let steps: Vec<(i32, i32)> = ALL.iter().map(|d| (d.x(), d.y())).collect();
    assert_eq!(
        steps,
        vec![
            (0, 1),
            (1, 1),
            (1, 0),
            (1, -1),
            (0, -1),
            (-1, -1),
            (-1, 0),
            (-1, 1),
            (0, 0)
        ]
    );
}

#[test]
fn components_of_diagonals() {
    assert_eq!(Direction::NORTHEAST.x_dir(), Direction::EAST);
    assert_eq!(Direction::NORTHEAST.y_dir(), Direction::NORTH);
    assert_eq!(Direction::SOUTHWEST.x_dir(), Direction::WEST);
    assert_eq!(Direction::SOUTHWEST.y_dir(), Direction::SOUTH);
    assert_eq!(Direction::NORTH.x_dir(), Direction::NONE);
    assert_eq!(Direction::EAST.y_dir(), Direction::NONE);
    assert_eq!(Direction::NONE.x_dir(), Direction::NONE);
}
