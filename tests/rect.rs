use grid_util::{Point, Rect};

#[test]
fn new_and_dimensions() {
    let r = Rect::new(2, 3, 4, 5);
    assert_eq!(r, Rect { x1: 2, x2: 6, y1: 3, y2: 8 });
    assert_eq!(r.width(), 4);
    assert_eq!(r.height(), 5);
    assert_eq!(r.area(), 20);
}

#[test]
fn points_in_includes_both_bounds() {
    let r = Rect::new(0, 0, 2, 3);
    let pts = r.points_in();
    assert_eq!(pts.len(), 3 * 4);
    assert_eq!(pts[0], Point::new(0, 0));
    assert_eq!(pts[1], Point::new(0, 1));
    assert_eq!(pts[3], Point::new(0, 3));
    assert_eq!(pts[4], Point::new(1, 0));
    assert_eq!(pts[11], Point::new(2, 3));
    for p in &pts {
        assert!(r.contains(p));
    }
}

#[test]
fn points_in_count_formula() {
    for (w, h) in [(0, 0), (1, 0), (0, 4), (3, 3), (5, 2)] {
        let r = Rect::new(-7, 11, w, h);
        assert_eq!(r.points_in().len() as i32, (w + 1) * (h + 1));
    }
}

#[test]
fn points_in_of_reversed_rect_is_empty() {
    let r = Rect { x1: 3, x2: 1, y1: 0, y2: 5 };
    assert!(r.points_in().is_empty());
}

#[test]
fn split_leaves_a_gap() {
    let r = Rect::new(0, 0, 10, 6);
    let (a, b) = r.split_x(4);
    assert_eq!(a, Rect { x1: 0, x2: 4, y1: 0, y2: 6 });
    assert_eq!(b, Rect { x1: 5, x2: 10, y1: 0, y2: 6 });
    let (c, d) = r.split_y(2);
    assert_eq!(c, Rect { x1: 0, x2: 10, y1: 0, y2: 2 });
    assert_eq!(d, Rect { x1: 0, x2: 10, y1: 3, y2: 6 });
}

#[test]
fn inner_rect_shrinks_every_side() {
    assert_eq!(
        Rect::new(1, 1, 4, 4).inner_rect(),
        Rect { x1: 2, x2: 4, y1: 2, y2: 4 }
    );
}

#[test]
fn intersection_is_closed() {
    let a = Rect::new(0, 0, 2, 2);
    assert!(a.intersect(&Rect::new(2, 2, 3, 3)));
    assert!(!a.intersect(&Rect::new(3, 0, 1, 1)));
    assert!(a.intersect(&Rect::new(-5, -5, 20, 20)));
    assert!(!a.intersect(&Rect::new(0, 3, 2, 2)));
}

#[test]
fn contains_is_closed() {
    let r = Rect::new(0, 0, 2, 2);
    assert!(r.contains(&Point::new(2, 2)));
    assert!(r.contains(&Point::new(0, 0)));
    assert!(!r.contains(&Point::new(3, 1)));
    assert!(!r.contains(&Point::new(1, -1)));
}

#[test]
fn center_rounds_toward_zero() {
    assert_eq!(Rect::new(0, 0, 5, 4).center(), Point::new(2, 2));
    assert_eq!(Rect::new(-5, -3, 0, 0).center(), Point::new(-5, -3));
    assert_eq!(Rect { x1: -4, x2: 1, y1: -2, y2: -1 }.center(), Point::new(-1, -1));
}

#[test]
fn sample_point_stays_inside() {
    let r = Rect::new(-3, 10, 6, 2);
    let mut xs = std::collections::BTreeSet::new();
    for _ in 0..200 {
        let p = r.sample_point();
        assert!(r.contains(&p));
        xs.insert(p.x);
    }
    assert!(xs.len() > 1);
    let single = Rect::new(7, -7, 0, 0);
    assert_eq!(single.sample_point(), Point::new(7, -7));
}
