use vstd::prelude::*;

verus! {

/// Controls zoom level and what detail is visible at each scale.
#[derive(Clone, Copy, Debug, PartialEq, Eq, Structural)]
pub enum MapScale {
    /// Individual agents visible.
    Room,
    /// Room clusters visible.
    Floor,
    /// Floor groups visible.
    Building,
    /// Entire fleet as one view.
    Fleet,
}

/// The level number of a scale: Room is 0, and each step out adds one.
pub open spec fn scale_level(s: MapScale) -> int {
    match s {
        MapScale::Room => 0,
        MapScale::Floor => 1,
        MapScale::Building => 2,
        MapScale::Fleet => 3,
    }
}

/// The scale at a level, if the level names one.
pub open spec fn scale_at(level: int) -> Option<MapScale> {
    if level == 0 {
        Some(MapScale::Room)
    } else if level == 1 {
        Some(MapScale::Floor)
    } else if level == 2 {
        Some(MapScale::Building)
    } else if level == 3 {
        Some(MapScale::Fleet)
    } else {
        None
    }
}

/// The names of the features drawn at a scale.
pub open spec fn scale_features(s: MapScale) -> Seq<Seq<char>> {
    match s {
        MapScale::Room => seq!["agents"@, "connections"@, "messages"@],
        MapScale::Floor => seq!["rooms"@, "corridors"@, "clusters"@],
        MapScale::Building => seq!["floors"@, "elevators"@, "services"@],
        MapScale::Fleet => seq!["buildings"@, "network-links"@, "regions"@],
    }
}

impl MapScale {
    /// Which details are visible at this scale.
    pub fn visible_features(&self) -> (r: &'static [&'static str])
        ensures
            r@.map_values(|f: &str| f@) == scale_features(*self),
    {
        let r: &'static [&'static str] = match self {
            MapScale::Room => &["agents", "connections", "messages"],
            MapScale::Floor => &["rooms", "corridors", "clusters"],
            MapScale::Building => &["floors", "elevators", "services"],
            MapScale::Fleet => &["buildings", "network-links", "regions"],
        };
        assert(r@.map_values(|f: &str| f@) =~= scale_features(*self));
        r
    }

    /// Zoom in one level, if possible.
    pub fn zoom_in(&self) -> (r: Option<MapScale>)
        ensures
            r == scale_at(scale_level(*self) - 1),
    {
        match self {
            MapScale::Room => None,
            MapScale::Floor => Some(MapScale::Room),
            MapScale::Building => Some(MapScale::Floor),
            MapScale::Fleet => Some(MapScale::Building),
        }
    }

    /// Zoom out one level, if possible.
    pub fn zoom_out(&self) -> (r: Option<MapScale>)
        ensures
            r == scale_at(scale_level(*self) + 1),
    {
        match self {
            MapScale::Room => Some(MapScale::Floor),
            MapScale::Floor => Some(MapScale::Building),
            MapScale::Building => Some(MapScale::Fleet),
            MapScale::Fleet => None,
        }
    }

    /// The scale at a level number, or `None` for a level above 3.
    pub fn from_level(level: u8) -> (r: Option<Self>)
        ensures
            r == scale_at(level as int),
    {
        match level {
            0 => Some(MapScale::Room),
            1 => Some(MapScale::Floor),
            2 => Some(MapScale::Building),
            3 => Some(MapScale::Fleet),
            _ => None,
        }
    }

    /// The level number of this scale.
    pub fn level(&self) -> (r: u8)
        ensures
            r == scale_level(*self),
    {
        match self {
            MapScale::Room => 0,
            MapScale::Floor => 1,
            MapScale::Building => 2,
            MapScale::Fleet => 3,
        }
    }
}

/// Levels and scales are in one-to-one correspondence: reading a scale's
/// level back gives the scale, and exactly the levels 0 to 3 name a scale.
pub proof fn lemma_level_round_trip(s: MapScale, level: int)
    ensures
        scale_at(scale_level(s)) == Some(s),
        scale_at(level) is Some <==> 0 <= level <= 3,
        scale_at(level) matches Some(t) ==> scale_level(t) == level,
{
}

/// Zooming out and then in again returns to the starting scale, and so
/// does zooming in and then out, wherever the first step is possible.
pub proof fn lemma_zoom_inverse(s: MapScale)
    ensures
        scale_at(scale_level(s) + 1) matches Some(o) ==> scale_at(scale_level(o) - 1) == Some(s),
        scale_at(scale_level(s) - 1) matches Some(i) ==> scale_at(scale_level(i) + 1) == Some(s),
{
}

/// Room is the innermost scale and Fleet the outermost: zooming in fails
/// exactly at Room, zooming out exactly at Fleet, and every other step moves
/// the level by one.
pub proof fn lemma_zoom_ends(s: MapScale)
    ensures
        scale_at(scale_level(s) - 1) is None <==> s == MapScale::Room,
        scale_at(scale_level(s) + 1) is None <==> s == MapScale::Fleet,
        scale_at(scale_level(s) + 1) matches Some(o) ==> scale_level(o) == scale_level(s) + 1,
        scale_at(scale_level(s) - 1) matches Some(i) ==> scale_level(i) + 1 == scale_level(s),
{
}

} // verus!
