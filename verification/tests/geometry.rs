use tvision::view::geometry::{Point, Rect};

#[test]
fn point_arithmetic() {
    let p = Point::new(3, 4) + Point::new(1, 2);
    assert_eq!(p, Point::new(4, 6));
    assert_eq!(Point::new(3, 4) - Point::new(1, 2), Point::new(2, 2));

    let mut q = Point::new(10, 10);
    q += Point::new(5, -5);
    assert_eq!(q, Point::new(15, 5));
    q -= Point::new(5, 5);
    assert_eq!(q, Point::new(10, 0));
}

#[test]
fn rect_constructors_equivalent() {
    let a = Rect::new(1, 2, 3, 4);
    let b = Rect::from_points(Point::new(1, 2), Point::new(3, 4));
    assert_eq!(a, b);
    assert_eq!(Rect::default(), Rect::new(0, 0, 0, 0));
}

#[test]
fn rect_move_and_grow() {
    let mut r = Rect::new(0, 0, 10, 10);
    r.move_by(2, 3);
    assert_eq!(r, Rect::new(2, 3, 12, 13));

    r.grow(1, 1);
    assert_eq!(r, Rect::new(1, 2, 13, 14));

    // negative grow shrinks
    r.grow(-1, -1);
    assert_eq!(r, Rect::new(2, 3, 12, 13));

    // chaining returns &mut Self
    let mut c = Rect::new(0, 0, 4, 4);
    c.move_by(1, 1).grow(1, 1);
    assert_eq!(c, Rect::new(0, 0, 6, 6));
}

#[test]
fn rect_intersect_and_union() {
    let mut r = Rect::new(0, 0, 10, 10);
    r.intersect(&Rect::new(5, 5, 20, 8));
    assert_eq!(r, Rect::new(5, 5, 10, 8));

    let mut u = Rect::new(0, 0, 4, 4);
    u.union(&Rect::new(2, 2, 10, 6));
    assert_eq!(u, Rect::new(0, 0, 10, 6));
}

#[test]
fn rect_contains_is_half_open() {
    let r = Rect::new(0, 0, 10, 5);
    assert!(r.contains(Point::new(0, 0)));
    assert!(r.contains(Point::new(9, 4)));
    assert!(!r.contains(Point::new(10, 0)));
    assert!(!r.contains(Point::new(0, 5)));
    assert!(!r.contains(Point::new(10, 5)));
    assert!(r.contains(Point::new(0, 4)));
}

#[test]
fn rect_is_empty() {
    assert!(Rect::new(0, 0, 0, 0).is_empty());
    assert!(Rect::new(5, 0, 5, 10).is_empty());
    assert!(Rect::new(0, 5, 10, 5).is_empty());
    assert!(Rect::new(3, 4, 2, 1).is_empty());
    assert!(!Rect::new(0, 0, 1, 1).is_empty());
}

#[test]
fn move_then_move_back_restores_rect() {
    let mut r = Rect::new(-3, 7, 12, 20);
    r.move_by(5, -9).move_by(-5, 9);
    assert_eq!(r, Rect::new(-3, 7, 12, 20));
}

#[test]
fn grow_then_shrink_restores_rect() {
    let mut r = Rect::new(1, 1, 9, 9);
    r.grow(3, -2).grow(-3, 2);
    assert_eq!(r, Rect::new(1, 1, 9, 9));
}

#[test]
fn intersection_holds_exactly_the_common_points() {
    let a = Rect::new(0, 0, 6, 6);
    let b = Rect::new(3, 2, 10, 4);
    let mut i = a;
    i.intersect(&b);
    for x in -1..11 {
        for y in -1..8 {
            let p = Point::new(x, y);
            assert_eq!(i.contains(p), a.contains(p) && b.contains(p), "at ({x}, {y})");
        }
    }
}

#[test]
fn union_covers_both() {
    let a = Rect::new(0, 0, 2, 2);
    let b = Rect::new(5, 5, 7, 9);
    let mut u = a;
    u.union(&b);
    for p in [Point::new(0, 0), Point::new(1, 1), Point::new(5, 5), Point::new(6, 8)] {
        assert!(u.contains(p));
    }
    assert_eq!(u, Rect::new(0, 0, 7, 9));
}
