use spirograph::geom::{Origin, Point};

#[test]
fn offset_adds_coordinates() {
    let base = Origin::new(10, -20);
    assert_eq!(base.offset(Point::new(5, 7)), Origin::new(15, -13));
    assert_eq!(base.offset(Point::new(0, 0)), base);
}

#[test]
fn offsets_commute_and_associate() {
    let base = Origin::new(100, 200);
    let p = Point::new(-30, 45);
    let q = Point::new(7, -900);
    assert_eq!(base.offset(p).offset(q), base.offset(q).offset(p));
    let pq = Point::new(p.x + q.x, p.y + q.y);
    assert_eq!(base.offset(p).offset(q), base.offset(pq));
}

#[test]
fn offset_reaches_the_edge_of_the_range() {
    let base = Origin::new(i64::MAX - 1, i64::MIN + 1);
    assert_eq!(base.offset(Point::new(1, -1)), Origin::new(i64::MAX, i64::MIN));
}

#[test]
fn within_range_is_an_upper_bound_on_distance() {
    let a = Origin::new(0, 0);
    let b = Origin::new(3, 4);
    assert!(a.within_range(&b, 5));
    assert!(a.within_range(&b, 6));
    assert!(!a.within_range(&b, 4));
    assert!(b.within_range(&a, 5));
    assert!(!b.within_range(&a, 4));
}

#[test]
fn within_range_zero_admits_only_the_point_itself() {
    let a = Origin::new(-7, 9);
    assert!(a.within_range(&a, 0));
    assert!(!a.within_range(&Origin::new(-7, 10), 0));
}

#[test]
fn negative_range_admits_nothing() {
    let a = Origin::new(1, 1);
    assert!(!a.within_range(&a, -1));
    assert!(!a.within_range(&Origin::new(2, 1), -5));
    assert!(!a.within_range(&a, i64::MIN));
}

#[test]
fn within_range_survives_the_largest_distances() {
    let low = Origin::new(i64::MIN, i64::MIN);
    let high = Origin::new(i64::MAX, i64::MAX);
    assert!(!low.within_range(&high, i64::MAX));
    assert!(!high.within_range(&low, i64::MAX));
    let left = Origin::new(i64::MIN, 0);
    let right = Origin::new(i64::MAX, 0);
    assert!(!left.within_range(&right, i64::MAX));
    assert!(Origin::new(0, 0).within_range(&right, i64::MAX));
}
