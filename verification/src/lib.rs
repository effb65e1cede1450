//! Cartographic primitives for fleet topology maps: a discrete zoom scale,
//! a symbol legend, named markers with routes and regions, and territory
//! claims with priority-based conflict resolution.
//!
//! Coordinates are a type parameter: the structures here keep and relate
//! named positions without doing arithmetic on them.

mod cartograph;
mod legend;
mod points;
mod scale;
mod table;
mod territory;

pub use cartograph::{
    direct_route, empty_view, lemma_connect_appends, lemma_connect_then_route,
    lemma_define_region_count, lemma_direct_route_persists, lemma_every_route_is_direct,
    lemma_place_keeps_routes_and_regions, lemma_position_only_from_markers, lemma_region_is_stored, lemma_marker_keeps_routes_joined,
    lemma_region_keeps_routes_joined, lemma_route_keeps_routes_joined,
    lemma_direct_route_symmetric, lemma_every_route_resolves, lemma_place_count,
    lemma_place_then_read, marker_at, route_names, route_positions, routes_join_markers,
    with_marker, with_region, with_route, Cartograph, FleetMap, MapView,
};
pub use legend::{lemma_define_count, lemma_define_then_lookup, MapLegend};
pub use points::{MapRegion, Point2D};
pub use scale::{
    lemma_level_round_trip, lemma_zoom_ends, lemma_zoom_inverse, scale_at, scale_features,
    scale_level, MapScale,
};
pub use table::{entry_names, lists_names, lists_table, NamedTable};
pub use territory::{conflict_winner, lemma_conflict_agreement, TerritoryMark};
