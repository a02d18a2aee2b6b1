use renderer::geometry::bounds::Bounds2;
use renderer::geometry::point::{Point2, Vector2};

#[test]
fn min_inclusive_max_exclusive() {
    let bounds: Bounds2<i32> = Bounds2::new(Point2::new(-1, -1), Point2::new(1, 1));
    let points = bounds.range();
    assert_eq!(
        points,
        vec![
            Point2::new(-1, -1),
            Point2::new(-1, 0),
            Point2::new(0, -1),
            Point2::new(0, 0)
        ]
    );
}

#[test]
fn range_of_empty_bounds_is_empty() {
    let flat = Bounds2::new(Point2::new(3, 2), Point2::new(3, 7));
    assert!(flat.range().is_empty());
    let inverted = Bounds2::new(Point2::new(5, 5), Point2::new(2, 9));
    assert!(inverted.range().is_empty());
}

#[test]
fn range_lists_columns_in_order() {
    let bounds = Bounds2::new(Point2::new(2, 10), Point2::new(5, 12));
    let points = bounds.range();
    assert_eq!(points.len(), 6);
    assert_eq!(points.len() as i32, bounds.area());
    assert_eq!(
        points,
        vec![
            Point2::new(2, 10),
            Point2::new(2, 11),
            Point2::new(3, 10),
            Point2::new(3, 11),
            Point2::new(4, 10),
            Point2::new(4, 11)
        ]
    );
}

#[test]
fn area_and_diagonal() {
    let bounds = Bounds2::new(Point2::new(-3, 4), Point2::new(5, 10));
    assert_eq!(bounds.area(), 48);
    assert_eq!(bounds.diagonal(), Vector2::new(8, 6));
    let inverted = Bounds2::new(Point2::new(5, 0), Point2::new(2, 4));
    assert_eq!(inverted.area(), -12);
    assert_eq!(inverted.diagonal(), Vector2::new(-3, 4));
}

#[test]
fn intersect_overlapping_boxes() {
    let a = Bounds2::new(Point2::new(0, 0), Point2::new(10, 10));
    let b = Bounds2::new(Point2::new(5, -5), Point2::new(15, 8));
    let expected = Some(Bounds2::new(Point2::new(5, 0), Point2::new(10, 8)));
    assert_eq!(a.intersect(&b), expected);
    assert_eq!(b.intersect(&a), expected);
    assert_eq!(a.intersect(&a), Some(a));
}

#[test]
fn intersect_touching_boxes_is_empty_box() {
    let a = Bounds2::new(Point2::new(0, 0), Point2::new(4, 4));
    let b = Bounds2::new(Point2::new(4, 1), Point2::new(8, 3));
    let r = a.intersect(&b).unwrap();
    assert_eq!(r, Bounds2::new(Point2::new(4, 1), Point2::new(4, 3)));
    assert!(r.range().is_empty());
}

#[test]
fn intersect_disjoint_boxes_is_none() {
    let a = Bounds2::new(Point2::new(0, 0), Point2::new(4, 4));
    let b = Bounds2::new(Point2::new(5, 0), Point2::new(8, 4));
    assert_eq!(a.intersect(&b), None);
    let c = Bounds2::new(Point2::new(0, -9), Point2::new(4, -1));
    assert_eq!(a.intersect(&c), None);
}
