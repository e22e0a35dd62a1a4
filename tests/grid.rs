use grid_util::{BoolGrid, Grid, Point, Rect, SimpleGrid, SimpleValueGrid, ValueGrid};

#[test]
fn test_out_of_bounds() {
    let grid = SimpleGrid::new(3, 2, true);
    assert_eq!(grid.get(10, 10), None);
    assert_eq!(grid.get(-10, -10), None);
    assert_eq!(grid.get(10, -10), None);
    assert_eq!(grid.get(-10, 10), None);
}

#[test]
fn test_simple_grid() {
    let mut grid = SimpleGrid::new(3, 2, true);
    assert_eq!(grid.width(), 3);
    assert_eq!(grid.height(), 2);
    grid.set(1, 1, false);
    assert_eq!(*grid.get(1, 1).unwrap(), false);
}

#[test]
fn bool_grid_single_set() {
    let mut grid = BoolGrid::new(3, 2, false);
    grid.set(1, 1, true);
    assert!(grid.get(1, 1));
    for y in 0..2 {
        for x in 0..3 {
            if (x, y) != (1, 1) {
                assert!(!grid.get(x, y));
            }
        }
    }
}

#[test]
fn bool_grid_defaults() {
    for default in [false, true] {
        let grid = BoolGrid::new(13, 10, default);
        for y in 0..10 {
            for x in 0..13 {
                assert_eq!(grid.get(x, y), default);
            }
        }
    }
}

#[test]
fn bool_grid_uses_exact_word_count() {
    assert_eq!(BoolGrid::new(8, 8, false).values.len(), 1);
    assert_eq!(BoolGrid::new(13, 10, false).values.len(), 3);
    assert_eq!(BoolGrid::new(0, 5, true).values.len(), 0);
    assert_eq!(BoolGrid::new(65, 1, true).values.len(), 2);
}

#[test]
fn bool_grid_last_write_wins_across_words() {
    let (w, h) = (13usize, 10usize);
    let mut grid = BoolGrid::new(w, h, false);
    let mut model = vec![false; w * h];
    let writes: Vec<(usize, bool)> = vec![
        (63, true),
        (64, true),
        (0, true),
        (127, true),
        (128, true),
        (129, true),
        (64, false),
        (63, true),
        (5, true),
        (5, false),
        (128, false),
        (100, true),
    ];
    for (ix, v) in writes {
        let (x, y) = ((ix % w) as i32, (ix / w) as i32);
        grid.set(x, y, v);
        model[ix] = v;
        for i in 0..w * h {
            assert_eq!(grid.get((i % w) as i32, (i / w) as i32), model[i]);
        }
    }
}

#[test]
fn value_grid_set_get_does_not_disturb_others() {
    let mut grid: SimpleValueGrid<i64> = SimpleValueGrid::new(4, 3, 7);
    grid.set(2, 1, -1);
    grid.set_point(Point::new(3, 2), 42);
    assert_eq!(grid.get(2, 1), -1);
    assert_eq!(grid.get_point(Point::new(3, 2)), 42);
    for y in 0..3 {
        for x in 0..4 {
            if (x, y) != (2, 1) && (x, y) != (3, 2) {
                assert_eq!(grid.get(x, y), 7);
            }
        }
    }
    assert_eq!(grid.values[6], -1);
    assert_eq!(grid.values[11], 42);
}

#[test]
fn value_grid_bounds_and_indices() {
    let grid: SimpleValueGrid<u8> = SimpleValueGrid::new(4, 3, 0);
    assert!(grid.index_in_bounds(0, 0));
    assert!(grid.index_in_bounds(3, 2));
    assert!(!grid.index_in_bounds(4, 0));
    assert!(!grid.index_in_bounds(0, 3));
    assert!(!grid.index_in_bounds(-1, 1));
    assert!(!grid.index_in_bounds(1, -1));
    assert!(grid.point_in_bounds(Point::new(2, 2)));
    assert!(!grid.point_in_bounds(Point::new(2, 3)));
    let mut seen = vec![false; 12];
    for y in 0..3 {
        for x in 0..4 {
            let ix = grid.get_ix(x, y);
            assert_eq!(ix, (x + 4 * y) as usize);
            assert!(!seen[ix]);
            seen[ix] = true;
        }
    }
    assert!(seen.iter().all(|s| *s));
    assert_eq!(grid.get_ix_point(&Point::new(1, 2)), 9);
}

#[test]
fn value_grid_rect_operations() {
    let mut grid: SimpleValueGrid<i32> = SimpleValueGrid::new(5, 4, 0);
    assert_eq!(grid.rect(), Rect::new(0, 0, 5, 4));
    grid.set_rect(Rect::new(1, 1, 2, 2), 9);
    for y in 0..4 {
        for x in 0..5 {
            let inside = (1..3).contains(&x) && (1..3).contains(&y);
            assert_eq!(grid.get(x, y), if inside { 9 } else { 0 });
        }
    }
    assert_eq!(grid.get_rect(Rect::new(0, 1, 1, 1)), vec![0, 0, 9, 9]);
}

#[test]
fn bool_grid_rect_operations() {
    let mut grid = BoolGrid::new(70, 2, false);
    grid.set_rect(Rect::new(62, 0, 4, 1), true);
    assert_eq!(
        grid.get_rect(Rect::new(61, 0, 5, 0)),
        vec![false, true, true, true, true, false]
    );
    assert!(!grid.get(62, 1));
}

#[test]
fn empty_grids_are_usable() {
    let grid = BoolGrid::new(0, 0, true);
    assert!(!grid.index_in_bounds(0, 0));
    let g: SimpleGrid<u8> = SimpleGrid::new(0, 3, 1);
    assert_eq!(g.get_ix(0), None);
    assert_eq!(g.get(0, 0), None);
}

#[test]
fn simple_grid_linear_access() {
    let mut grid: SimpleGrid<u32> = SimpleGrid::new(3, 2, 0);
    grid.set_ix(4, 8);
    assert_eq!(grid.get(1, 1), Some(&8));
    assert_eq!(grid.get_ix(4), Some(&8));
    assert_eq!(grid.get_ix(6), None);
    grid.set_ix(6, 1);
    assert_eq!(grid.values, vec![0, 0, 0, 0, 8, 0]);
    if let Some(r) = grid.get_ix_mut(5) {
        *r = 3;
    }
    assert_eq!(grid.get(2, 1), Some(&3));
    assert!(grid.get_ix_mut(100).is_none());
    assert_eq!(grid.compute_ix(2, 1), 5);
}

#[test]
fn simple_grid_mut_access() {
    let mut grid: SimpleGrid<String> = SimpleGrid::new(2, 2, String::from("a"));
    if let Some(s) = grid.get_point_mut(Point::new(1, 0)) {
        s.push('b');
    }
    assert_eq!(grid.get(1, 0).map(|s| s.as_str()), Some("ab"));
    assert_eq!(grid.get_point(Point::new(0, 1)).map(|s| s.as_str()), Some("a"));
    assert!(grid.get_mut(2, 0).is_none());
    grid.set(5, 5, String::from("z"));
    grid.set_point(Point::new(0, 0), String::from("z"));
    assert_eq!(grid.values, vec!["z", "ab", "a", "a"]);
}

#[test]
fn simple_grid_rect_operations_skip_outside() {
    let mut grid: SimpleGrid<i32> = SimpleGrid::new(3, 3, 0);
    grid.set_rect(Rect::new(1, 1, 5, 5), 4);
    assert_eq!(grid.values, vec![0, 0, 0, 0, 4, 4, 0, 4, 4]);
    assert_eq!(grid.get_rect(Rect::new(-1, 0, 2, 1)), vec![0, 0, 0, 4]);
    assert_eq!(grid.rect(), Rect::new(0, 0, 3, 3));
    assert!(grid.point_in_bounds(Point::new(2, 2)));
    assert!(!grid.index_in_bounds(3, 0));
    assert_eq!(grid.get_ix_point(&Point::new(2, 1)), 5);
}
