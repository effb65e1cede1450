use lib::{MapRegion, Point2D, TerritoryMark};

#[test]
fn test_territory_conflict_resolution() {
    let t1 = TerritoryMark::new("a", MapRegion::new(Point2D::new(0.0, 0.0), Point2D::new(5.0, 5.0)), "o1", 1);
    let t2 = TerritoryMark::new("b", MapRegion::new(Point2D::new(0.0, 0.0), Point2D::new(5.0, 5.0)), "o2", 2);
    assert_eq!(t1.resolve_conflict(&t2), Some("b".to_string()));
}

#[test]
fn territory_conflict_is_the_same_from_both_sides() {
    let region = MapRegion::new(Point2D::new(0.0, 0.0), Point2D::new(1.0, 1.0));
    let high = TerritoryMark::new("high", region, "o1", 9);
    let low = TerritoryMark::new("low", region, "o2", 3);
    assert_eq!(high.resolve_conflict(&low), Some("high".to_string()));
    assert_eq!(low.resolve_conflict(&high), Some("high".to_string()));
}

#[test]
fn territory_equal_priorities_have_no_winner() {
    let region = MapRegion::new(Point2D::new(0.0, 0.0), Point2D::new(1.0, 1.0));
    let a = TerritoryMark::new("a", region, "o1", 4);
    let b = TerritoryMark::new("b", region, "o2", 4);
    assert_eq!(a.resolve_conflict(&b), None);
    assert_eq!(b.resolve_conflict(&a), None);
    assert_eq!(a.resolve_conflict(&a), None);
}

#[test]
fn territory_new_keeps_fields() {
    let region = MapRegion::new(Point2D::new(-1.0, 2.0), Point2D::new(3.0, 4.5));
    let t = TerritoryMark::new("alpha", region, "agent-1", u32::MAX);
    assert_eq!(t.name, "alpha");
    assert_eq!(t.owner, "agent-1");
    assert_eq!(t.priority, u32::MAX);
    assert_eq!(t.region, region);
    assert_eq!(t.region.top_left, Point2D::new(-1.0, 2.0));
    assert_eq!(t.region.bottom_right.y, 4.5);
    let copy = t.clone();
    assert_eq!(copy, t);
}
