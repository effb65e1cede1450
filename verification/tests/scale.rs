use lib::MapScale;

#[test]
fn test_map_scale_zoom() {
    assert_eq!(MapScale::Room.zoom_out(), Some(MapScale::Floor));
    assert_eq!(MapScale::Room.zoom_in(), None);
    assert_eq!(MapScale::Fleet.zoom_in(), Some(MapScale::Building));
    assert_eq!(MapScale::Fleet.zoom_out(), None);
}

#[test]
fn test_map_scale_from_level() {
    assert_eq!(MapScale::from_level(0), Some(MapScale::Room));
    assert_eq!(MapScale::from_level(3), Some(MapScale::Fleet));
    assert_eq!(MapScale::from_level(5), None);
}

#[test]
fn test_map_scale_visible_features() {
    assert!(MapScale::Room.visible_features().contains(&"agents"));
    assert!(MapScale::Fleet.visible_features().contains(&"regions"));
}

#[test]
fn scale_features_at_every_level() {
    assert_eq!(MapScale::Room.visible_features(), &["agents", "connections", "messages"]);
    assert_eq!(MapScale::Floor.visible_features(), &["rooms", "corridors", "clusters"]);
    assert_eq!(MapScale::Building.visible_features(), &["floors", "elevators", "services"]);
    assert_eq!(MapScale::Fleet.visible_features(), &["buildings", "network-links", "regions"]);
}

#[test]
fn scale_levels_round_trip() {
    let all = [MapScale::Room, MapScale::Floor, MapScale::Building, MapScale::Fleet];
    for (i, s) in all.iter().enumerate() {
        assert_eq!(s.level() as usize, i);
        assert_eq!(MapScale::from_level(s.level()), Some(*s));
    }
    for level in 4..=255u8 {
        assert_eq!(MapScale::from_level(level), None);
    }
}

#[test]
fn scale_zoom_steps_are_inverse() {
    let all = [MapScale::Room, MapScale::Floor, MapScale::Building, MapScale::Fleet];
    for s in all.iter() {
        if let Some(out) = s.zoom_out() {
            assert_eq!(out.level(), s.level() + 1);
            assert_eq!(out.zoom_in(), Some(*s));
        }
        if let Some(inner) = s.zoom_in() {
            assert_eq!(inner.level() + 1, s.level());
            assert_eq!(inner.zoom_out(), Some(*s));
        }
    }
    assert_eq!(MapScale::Floor.zoom_in(), Some(MapScale::Room));
    assert_eq!(MapScale::Building.zoom_out(), Some(MapScale::Fleet));
}
