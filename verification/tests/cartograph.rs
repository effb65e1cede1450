use lib::{Cartograph, MapRegion, Point2D};

#[test]
fn test_cartograph_place_markers() {
    let mut cart = Cartograph::new();
    cart.place_marker("room-a", Point2D::new(1.0, 2.0));
    cart.place_marker("room-b", Point2D::new(3.0, 4.0));
    assert_eq!(cart.marker_count(), 2);
    assert_eq!(cart.marker_position("room-a"), Some(Point2D::new(1.0, 2.0)));
}

#[test]
fn test_cartograph_connect_valid() {
    let mut cart = Cartograph::new();
    cart.place_marker("a", Point2D::new(0.0, 0.0));
    cart.place_marker("b", Point2D::new(1.0, 1.0));
    cart.connect("a", "b");
    assert_eq!(cart.route_count(), 1);
}

#[test]
fn test_cartograph_connect_missing_marker_ignored() {
    let mut cart = Cartograph::new();
    cart.place_marker("a", Point2D::new(0.0, 0.0));
    cart.connect("a", "nonexistent");
    assert_eq!(cart.route_count(), 0);
}

#[test]
fn test_fleet_map_has_direct_route() {
    let mut cart = Cartograph::new();
    cart.place_marker("a", Point2D::new(0.0, 0.0));
    cart.place_marker("b", Point2D::new(1.0, 1.0));
    cart.connect("a", "b");
    let map = cart.build_map();
    assert!(map.has_direct_route("a", "b"));
    assert!(map.has_direct_route("b", "a"));
    assert!(!map.has_direct_route("a", "c"));
}

#[test]
fn cartograph_moving_a_marker_keeps_the_count() {
    let mut cart: Cartograph<f64> = Cartograph::default();
    assert_eq!(cart.marker_position("a"), None);
    cart.place_marker("a", Point2D::new(0.0, 0.0));
    cart.place_marker("a", Point2D::new(7.0, -1.5));
    assert_eq!(cart.marker_count(), 1);
    assert_eq!(cart.marker_position("a"), Some(Point2D::new(7.0, -1.5)));
    assert_eq!(cart.marker_names(), vec!["a"]);
}

#[test]
fn cartograph_routes_keep_their_order() {
    let mut cart = Cartograph::new();
    cart.place_marker("a", Point2D::new(0.0, 0.0));
    cart.place_marker("b", Point2D::new(1.0, 0.0));
    cart.place_marker("c", Point2D::new(2.0, 0.0));
    cart.connect("b", "c");
    cart.connect("ghost", "a");
    cart.connect("a", "b");
    cart.connect("a", "b");
    let routes = cart.routes();
    assert_eq!(routes.len(), 3);
    assert_eq!(routes[0], ("b".to_string(), "c".to_string()));
    assert_eq!(routes[1], ("a".to_string(), "b".to_string()));
    assert_eq!(routes[2], ("a".to_string(), "b".to_string()));
}

#[test]
fn cartograph_regions_are_counted_by_name() {
    let mut cart = Cartograph::new();
    let r1 = MapRegion::new(Point2D::new(0.0, 0.0), Point2D::new(5.0, 5.0));
    let r2 = MapRegion::new(Point2D::new(1.0, 1.0), Point2D::new(2.0, 2.0));
    cart.define_region("zone", r1);
    cart.define_region("zone", r2);
    cart.define_region("other", r1);
    assert_eq!(cart.region_count(), 2);
    let regions = cart.regions();
    assert_eq!(regions.get("zone"), Some(&r2));
    assert_eq!(regions.get("other"), Some(&r1));
    assert_eq!(regions.get("missing"), None);
}

#[test]
fn cartograph_marker_names_lists_each_name_once() {
    let mut cart = Cartograph::new();
    cart.place_marker("x", Point2D::new(0, 0));
    cart.place_marker("y", Point2D::new(1, 1));
    cart.place_marker("x", Point2D::new(2, 2));
    let mut names = cart.marker_names();
    names.sort();
    assert_eq!(names, vec!["x", "y"]);
}

#[test]
fn fleet_map_keeps_what_was_built() {
    let mut cart = Cartograph::new();
    cart.place_marker("a", Point2D::new(0.0, 0.0));
    cart.place_marker("b", Point2D::new(3.0, 4.0));
    cart.place_marker("c", Point2D::new(6.0, 8.0));
    cart.connect("a", "b");
    cart.connect("c", "b");
    cart.define_region("zone", MapRegion::new(Point2D::new(0.0, 0.0), Point2D::new(1.0, 1.0)));
    let map = cart.build_map();
    assert_eq!(map.marker_count(), 3);
    assert_eq!(map.route_count(), 2);
    assert_eq!(map.regions().len(), 1);
    assert_eq!(map.markers().get("c"), Some(&Point2D::new(6.0, 8.0)));
    assert!(map.has_direct_route("b", "c"));
    assert!(!map.has_direct_route("a", "c"));
    let ends = map.route_endpoints();
    assert_eq!(
        ends,
        vec![
            (Point2D::new(0.0, 0.0), Point2D::new(3.0, 4.0)),
            (Point2D::new(6.0, 8.0), Point2D::new(3.0, 4.0)),
        ]
    );
    let copy = map.clone();
    assert_eq!(copy.route_endpoints(), ends);
    // Changing the cartograph afterwards leaves the built map as it was.
    cart.place_marker("a", Point2D::new(9.0, 9.0));
    assert_eq!(map.markers().get("a"), Some(&Point2D::new(0.0, 0.0)));
}

#[test]
fn fleet_map_of_empty_cartograph() {
    let map = Cartograph::<f64>::new().build_map();
    assert_eq!(map.marker_count(), 0);
    assert_eq!(map.route_count(), 0);
    assert!(map.route_endpoints().is_empty());
    assert!(!map.has_direct_route("a", "a"));
}

#[test]
fn cartograph_clone_is_independent() {
    let mut cart = Cartograph::new();
    cart.place_marker("a", Point2D::new(1.0, 1.0));
    let copy = cart.clone();
    cart.place_marker("b", Point2D::new(2.0, 2.0));
    assert_eq!(copy.marker_count(), 1);
    assert_eq!(cart.marker_count(), 2);
    assert_eq!(copy.marker_position("a"), Some(Point2D::new(1.0, 1.0)));
}
