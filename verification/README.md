# ternary-cartograph (verified core)

Cartographic primitives for fleet topology maps, written in Verus.

- `src/` is the verified library:
  - `scale.rs` — the discrete zoom scale (Room, Floor, Building, Fleet):
    levels, zooming in and out, visible features, and the laws tying them.
  - `table.rs` — `NamedTable`, a table of values keyed by name, each name
    at most once; its model is a `Map` from names to values. It stands
    where a `HashMap<String, _>` would: vstd's `HashMap` specification
    holds only for key types known to obey its key model, and `String`
    is not among them, so a map keyed by strings could not be reasoned
    about. Lookups are linear scans rather than hashed.
  - `legend.rs` — `MapLegend`, symbols and their meanings.
  - `points.rs` — `Point2D` and `MapRegion`, generic in the coordinate type.
  - `cartograph.rs` — `Cartograph` (markers, routes, regions) and the
    `FleetMap` it builds; in both, every route joins two placed markers
    (a type invariant).
  - `territory.rs` — `TerritoryMark` and priority-based conflict resolution.
- `app/` holds what works on `f64` coordinates: distances, containment,
  bounding boxes, nearest-marker and radius queries, densities, territory
  overlap, zoom factors and the weighted projection.
- `tests/` exercises the library on concrete values.
