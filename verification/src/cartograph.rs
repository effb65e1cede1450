use vstd::prelude::*;

use crate::points::{MapRegion, Point2D};
use crate::table::{lists_names, NamedTable};

verus! {

/// What a cartograph or a fleet map holds: named marker positions, the
/// routes between markers by name in the order they were made, and named
/// regions.
pub struct MapView<C> {
    pub markers: Map<Seq<char>, Point2D<C>>,
    pub routes: Seq<(Seq<char>, Seq<char>)>,
    pub regions: Map<Seq<char>, MapRegion<C>>,
}

/// The names at the ends of each route.
pub open spec fn route_names(routes: Seq<(String, String)>) -> Seq<(Seq<char>, Seq<char>)> {
    routes.map_values(|r: (String, String)| (r.0@, r.1@))
}

/// Every route joins two placed markers.
pub open spec fn routes_join_markers<C>(v: MapView<C>) -> bool {
    forall|i: int|
        0 <= i < v.routes.len() ==> #[trigger] v.markers.contains_key(v.routes[i].0)
            && v.markers.contains_key(v.routes[i].1)
}

/// Some route joins `a` and `b`, in either direction.
pub open spec fn direct_route(routes: Seq<(Seq<char>, Seq<char>)>, a: Seq<char>, b: Seq<char>) -> bool {
    exists|i: int| 0 <= i < routes.len() && (#[trigger] routes[i] == (a, b) || routes[i] == (b, a))
}

/// The positions at the two ends of each route, route by route.
pub open spec fn route_positions<C>(v: MapView<C>) -> Seq<(Point2D<C>, Point2D<C>)> {
    v.routes.map_values(|r: (Seq<char>, Seq<char>)| (v.markers[r.0], v.markers[r.1]))
}

/// The map after placing the marker `name` at `position`.
pub open spec fn with_marker<C>(v: MapView<C>, name: Seq<char>, position: Point2D<C>) -> MapView<C> {
    MapView { markers: v.markers.insert(name, position), ..v }
}

/// The map after asking to connect `from` to `to`: the route is added when
/// both markers are placed, and the map is unchanged otherwise.
pub open spec fn with_route<C>(v: MapView<C>, from: Seq<char>, to: Seq<char>) -> MapView<C> {
    if v.markers.contains_key(from) && v.markers.contains_key(to) {
        MapView { routes: v.routes.push((from, to)), ..v }
    } else {
        v
    }
}

/// The map after defining the region `name`.
pub open spec fn with_region<C>(v: MapView<C>, name: Seq<char>, region: MapRegion<C>) -> MapView<C> {
    MapView { regions: v.regions.insert(name, region), ..v }
}

/// The position of the marker `name`, if it is placed.
pub open spec fn marker_at<C>(v: MapView<C>, name: Seq<char>) -> Option<Point2D<C>> {
    if v.markers.contains_key(name) {
        Some(v.markers[name])
    } else {
        None
    }
}

/// The map with nothing placed, connected or defined.
pub open spec fn empty_view<C>() -> MapView<C> {
    MapView { markers: Map::empty(), routes: Seq::empty(), regions: Map::empty() }
}

/// A copy of a list of routes.
fn copy_routes(routes: &Vec<(String, String)>) -> (r: Vec<(String, String)>)
    ensures
        route_names(r@) == route_names(routes@),
{
    let mut r: Vec<(String, String)> = Vec::new();
    let n = routes.len();
    let mut i: usize = 0;
    while i < n
        invariant
            n == routes@.len(),
            i <= n,
            r@.len() == i,
            forall|j: int| 0 <= j < i ==> #[trigger] r@[j].0@ == routes@[j].0@ && r@[j].1@ == routes@[j].1@,
        decreases n - i,
    {
        let from: String = routes[i].0.clone();
        let to: String = routes[i].1.clone();
        r.push((from, to));
        i = i + 1;
    }
    assert(route_names(r@) =~= route_names(routes@));
    r
}

/// The main cartographic builder. Accumulates spatial data and produces fleet maps.
#[derive(Debug)]
pub struct Cartograph<C> {
    /// Named entities and their positions.
    markers: NamedTable<Point2D<C>>,
    /// Named connections between entities.
    routes: Vec<(String, String)>,
    /// Named regions.
    regions: NamedTable<MapRegion<C>>,
}

impl<C> View for Cartograph<C> {
    type V = MapView<C>;

    closed spec fn view(&self) -> MapView<C> {
        MapView { markers: self.markers@, routes: route_names(self.routes@), regions: self.regions@ }
    }
}

impl<C> Cartograph<C> {
    /// Every route of the cartograph joins two placed markers.
    #[verifier::type_invariant]
    closed spec fn routes_joined(self) -> bool {
        routes_join_markers(self@)
    }
}

impl<C: Copy> Cartograph<C> {
    /// An empty cartograph.
    pub fn new() -> (r: Self)
        ensures
            r@ == empty_view::<C>(),
    {
        let r = Cartograph { markers: NamedTable::new(), routes: Vec::new(), regions: NamedTable::new() };
        assert(r@.routes =~= Seq::<(Seq<char>, Seq<char>)>::empty());
        r
    }

    /// Place a named marker at a position, moving it if it was placed before.
    pub fn place_marker(&mut self, name: &str, position: Point2D<C>)
        ensures
            final(self)@ == with_marker(old(self)@, name@, position),
    {
        proof {
            use_type_invariant(&*self);
            lemma_marker_keeps_routes_joined(self@, name@, position);
        }
        let mut taken = Cartograph::new();
        std::mem::swap(&mut taken, self);
        let Cartograph { mut markers, routes, regions } = taken;
        markers.insert(name, position);
        *self = Cartograph { markers, routes, regions };
    }

    /// Connect two markers by name. No-op if either doesn't exist.
    pub fn connect(&mut self, from: &str, to: &str)
        ensures
            final(self)@ == with_route(old(self)@, from@, to@),
    {
        proof {
            use_type_invariant(&*self);
            lemma_route_keeps_routes_joined(self@, from@, to@);
        }
        if self.markers.contains_name(from) && self.markers.contains_name(to) {
            let mut taken = Cartograph::new();
            std::mem::swap(&mut taken, self);
            let Cartograph { markers, mut routes, regions } = taken;
            let a: String = from.to_owned();
            let b: String = to.to_owned();
            let ghost before = routes@;
            routes.push((a, b));
            assert(route_names(routes@) =~= route_names(before).push((from@, to@)));
            *self = Cartograph { markers, routes, regions };
        }
    }

    /// Define a named region, replacing any region defined under that name.
    pub fn define_region(&mut self, name: &str, region: MapRegion<C>)
        ensures
            final(self)@ == with_region(old(self)@, name@, region),
    {
        proof {
            use_type_invariant(&*self);
            lemma_region_keeps_routes_joined(self@, name@, region);
        }
        let mut taken = Cartograph::new();
        std::mem::swap(&mut taken, self);
        let Cartograph { markers, routes, mut regions } = taken;
        regions.insert(name, region);
        *self = Cartograph { markers, routes, regions };
    }

    /// Get the position of a named marker.
    pub fn marker_position(&self, name: &str) -> (r: Option<Point2D<C>>)
        ensures
            r == marker_at(self@, name@),
    {
        match self.markers.get(name) {
            Some(p) => Some(*p),
            None => None,
        }
    }

    /// List all marker names, each once.
    pub fn marker_names(&self) -> (r: Vec<&str>)
        ensures
            lists_names(r@, self@.markers),
    {
        self.markers.names_list()
    }

    /// List all routes, in the order they were made. Each joins two placed
    /// markers.
    pub fn routes(&self) -> (r: &[(String, String)])
        ensures
            route_names(r@) == self@.routes,
            routes_join_markers(self@),
    {
        proof {
            use_type_invariant(self);
        }
        self.routes.as_slice()
    }

    /// The placed markers.
    pub fn markers(&self) -> (r: &NamedTable<Point2D<C>>)
        ensures
            r@ == self@.markers,
    {
        &self.markers
    }

    /// The defined regions.
    pub fn regions(&self) -> (r: &NamedTable<MapRegion<C>>)
        ensures
            r@ == self@.regions,
    {
        &self.regions
    }

    /// Build a FleetMap from accumulated data.
    pub fn build_map(&self) -> (r: FleetMap<C>)
        ensures
            r@ == self@,
    {
        proof {
            use_type_invariant(self);
        }
        let markers = self.markers.clone();
        let regions = self.regions.clone();
        assert(markers@ =~= self.markers@);
        assert(regions@ =~= self.regions@);
        let routes = copy_routes(&self.routes);
        FleetMap { markers, routes, regions }
    }

    /// Number of placed markers.
    pub fn marker_count(&self) -> (r: usize)
        ensures
            r == self@.markers.len(),
    {
        self.markers.len()
    }

    /// Number of routes made.
    pub fn route_count(&self) -> (r: usize)
        ensures
            r == self@.routes.len(),
    {
        self.routes.len()
    }

    /// Number of defined regions.
    pub fn region_count(&self) -> (r: usize)
        ensures
            r == self@.regions.len(),
    {
        self.regions.len()
    }
}

impl<C> Cartograph<C> {
    /// A cartograph holds finitely many markers and regions.
    pub proof fn lemma_finite(&self)
        ensures
            self@.markers.dom().finite(),
            self@.regions.dom().finite(),
    {
        self.markers.lemma_finite();
        self.regions.lemma_finite();
    }
}

impl<C: Copy> Clone for Cartograph<C> {
    /// A cartograph with the same markers, routes and regions.
    fn clone(&self) -> (r: Self)
        ensures
            r@ == self@,
    {
        proof {
            use_type_invariant(self);
        }
        let markers = self.markers.clone();
        let regions = self.regions.clone();
        assert(markers@ =~= self.markers@);
        assert(regions@ =~= self.regions@);
        let routes = copy_routes(&self.routes);
        Cartograph { markers, routes, regions }
    }
}

impl<C: Copy> Default for Cartograph<C> {
    fn default() -> (r: Self)
        ensures
            r@ == empty_view::<C>(),
    {
        Self::new()
    }
}

/// A completed spatial map of the fleet.
#[derive(Debug)]
pub struct FleetMap<C> {
    markers: NamedTable<Point2D<C>>,
    routes: Vec<(String, String)>,
    regions: NamedTable<MapRegion<C>>,
}

impl<C> View for FleetMap<C> {
    type V = MapView<C>;

    closed spec fn view(&self) -> MapView<C> {
        MapView { markers: self.markers@, routes: route_names(self.routes@), regions: self.regions@ }
    }
}

impl<C> FleetMap<C> {
    /// Every route of the map joins two placed markers.
    #[verifier::type_invariant]
    closed spec fn routes_joined(self) -> bool {
        routes_join_markers(self@)
    }
}

impl<C: Copy> FleetMap<C> {

    /// Whether some route joins `from` and `to`, in either direction.
    pub fn has_direct_route(&self, from: &str, to: &str) -> (r: bool)
        ensures
            r == direct_route(self@.routes, from@, to@),
    {
        let a: String = from.to_owned();
        let b: String = to.to_owned();
        let n = self.routes.len();
        let mut i: usize = 0;
        while i < n
            invariant
                n == self.routes@.len(),
                i <= n,
                a@ == from@,
                b@ == to@,
                forall|j: int|
                    0 <= j < i ==> !(#[trigger] route_names(self.routes@)[j] == (from@, to@)
                        || route_names(self.routes@)[j] == (to@, from@)),
            decreases n - i,
        {
            let forward = self.routes[i].0 == a && self.routes[i].1 == b;
            let backward = self.routes[i].0 == b && self.routes[i].1 == a;
            assert(route_names(self.routes@)[i as int] == (
                self.routes@[i as int].0@,
                self.routes@[i as int].1@,
            ));
            if forward || backward {
                return true;
            }
            i = i + 1;
        }
        false
    }

    /// The positions at the two ends of each route, route by route.
    pub fn route_endpoints(&self) -> (r: Vec<(Point2D<C>, Point2D<C>)>)
        ensures
            routes_join_markers(self@),
            r@ == route_positions(self@),
    {
        proof {
            use_type_invariant(self);
        }
        let mut r: Vec<(Point2D<C>, Point2D<C>)> = Vec::new();
        let n = self.routes.len();
        let mut i: usize = 0;
        while i < n
            invariant
                n == self.routes@.len(),
                i <= n,
                routes_join_markers(self@),
                r@ =~= route_positions(self@).subrange(0, i as int),
            decreases n - i,
        {
            let ghost k = route_names(self.routes@)[i as int];
            assert(self@.markers.contains_key(k.0) && self@.markers.contains_key(k.1));
            match (self.markers.get(self.routes[i].0.as_str()), self.markers.get(self.routes[i].1.as_str())) {
                (Some(p), Some(q)) => {
                    r.push((*p, *q));
                },
                _ => {},
            }
            i = i + 1;
        }
        r
    }

    /// The placed markers.
    pub fn markers(&self) -> (r: &NamedTable<Point2D<C>>)
        ensures
            r@ == self@.markers,
    {
        &self.markers
    }

    /// The defined regions.
    pub fn regions(&self) -> (r: &NamedTable<MapRegion<C>>)
        ensures
            r@ == self@.regions,
    {
        &self.regions
    }

    /// All routes, in the order they were made.
    pub fn routes(&self) -> (r: &[(String, String)])
        ensures
            route_names(r@) == self@.routes,
    {
        self.routes.as_slice()
    }

    /// Number of markers on this map.
    pub fn marker_count(&self) -> (r: usize)
        ensures
            r == self@.markers.len(),
    {
        self.markers.len()
    }

    /// Number of routes on this map.
    pub fn route_count(&self) -> (r: usize)
        ensures
            r == self@.routes.len(),
    {
        self.routes.len()
    }
}

impl<C: Copy> Clone for FleetMap<C> {
    /// A map with the same markers, routes and regions.
    fn clone(&self) -> (r: Self)
        ensures
            r@ == self@,
    {
        proof {
            use_type_invariant(self);
        }
        let markers = self.markers.clone();
        let regions = self.regions.clone();
        assert(markers@ =~= self.markers@);
        assert(regions@ =~= self.regions@);
        let routes = copy_routes(&self.routes);
        FleetMap { markers, routes, regions }
    }
}


/// Placing a marker keeps every route joining two placed markers: markers
/// are only added or moved, never taken away.
pub proof fn lemma_marker_keeps_routes_joined<C>(v: MapView<C>, name: Seq<char>, position: Point2D<C>)
    requires
        routes_join_markers(v),
    ensures
        routes_join_markers(with_marker(v, name, position)),
{
    let w = with_marker(v, name, position);
    assert forall|i: int| 0 <= i < w.routes.len() implies #[trigger] w.markers.contains_key(w.routes[i].0)
        && w.markers.contains_key(w.routes[i].1) by {
        assert(v.markers.contains_key(v.routes[i].0));
    }
}

/// Asking for a route keeps every route joining two placed markers: a
/// route is only added between two placed markers.
pub proof fn lemma_route_keeps_routes_joined<C>(v: MapView<C>, from: Seq<char>, to: Seq<char>)
    requires
        routes_join_markers(v),
    ensures
        routes_join_markers(with_route(v, from, to)),
{
    let w = with_route(v, from, to);
    assert forall|i: int| 0 <= i < w.routes.len() implies #[trigger] w.markers.contains_key(w.routes[i].0)
        && w.markers.contains_key(w.routes[i].1) by {
        if i < v.routes.len() {
            assert(v.markers.contains_key(v.routes[i].0));
        }
    }
}

/// Defining a region leaves markers and routes as they were.
pub proof fn lemma_region_keeps_routes_joined<C>(v: MapView<C>, name: Seq<char>, region: MapRegion<C>)
    requires
        routes_join_markers(v),
    ensures
        routes_join_markers(with_region(v, name, region)),
{
}

/// Placing a marker under a new name adds one marker; placing it under a
/// name already in use moves that marker and keeps the count.
pub proof fn lemma_place_count<C>(c: &Cartograph<C>, name: Seq<char>, position: Point2D<C>)
    ensures
        with_marker(c@, name, position).markers.len() == c@.markers.len() + if c@.markers.contains_key(
            name,
        ) {
            0int
        } else {
            1int
        },
{
    c.lemma_finite();
    if c@.markers.contains_key(name) {
        assert(with_marker(c@, name, position).markers.dom() =~= c@.markers.dom());
    } else {
        assert(with_marker(c@, name, position).markers.dom() =~= c@.markers.dom().insert(name));
    }
}

/// A marker reads back at the position it was last placed at; placing one
/// marker leaves every other marker where it was.
pub proof fn lemma_place_then_read<C>(
    v: MapView<C>,
    name: Seq<char>,
    position: Point2D<C>,
    other: Seq<char>,
)
    ensures
        marker_at(with_marker(v, name, position), name) == Some(position),
        other != name ==> marker_at(with_marker(v, name, position), other) == marker_at(v, other),
{
}

/// Connecting two placed markers makes a direct route between them, found
/// from either end; asking to connect a marker that is not placed changes
/// nothing.
pub proof fn lemma_connect_then_route<C>(v: MapView<C>, from: Seq<char>, to: Seq<char>)
    ensures
        v.markers.contains_key(from) && v.markers.contains_key(to) ==> direct_route(
            with_route(v, from, to).routes,
            from,
            to,
        ) && direct_route(with_route(v, from, to).routes, to, from),
        !(v.markers.contains_key(from) && v.markers.contains_key(to)) ==> with_route(v, from, to)
            == v,
{
    if v.markers.contains_key(from) && v.markers.contains_key(to) {
        let w = with_route(v, from, to);
        assert(w.routes[v.routes.len() as int] == (from, to));
    }
}

/// Every route made counts as a direct route between its two ends, from
/// either end, however many routes were made after it.
pub proof fn lemma_every_route_is_direct(routes: Seq<(Seq<char>, Seq<char>)>, i: int)
    requires
        0 <= i < routes.len(),
    ensures
        direct_route(routes, routes[i].0, routes[i].1),
        direct_route(routes, routes[i].1, routes[i].0),
{
    assert(routes[i] == (routes[i].0, routes[i].1));
}

/// Adding a route never takes away a direct route, and with no routes at
/// all there is none.
pub proof fn lemma_direct_route_persists(
    routes: Seq<(Seq<char>, Seq<char>)>,
    x: (Seq<char>, Seq<char>),
    a: Seq<char>,
    b: Seq<char>,
)
    ensures
        direct_route(routes, a, b) ==> direct_route(routes.push(x), a, b),
        !direct_route(Seq::<(Seq<char>, Seq<char>)>::empty(), a, b),
{
    if direct_route(routes, a, b) {
        let i = choose|i: int| 0 <= i < routes.len() && (#[trigger] routes[i] == (a, b) || routes[i] == (b, a));
        assert(routes.push(x)[i] == routes[i]);
    }
}

/// A position is found under a name exactly when a marker of that name is
/// placed, and it is that marker's position; regions never answer for
/// markers, whatever their names.
pub proof fn lemma_position_only_from_markers<C>(
    v: MapView<C>,
    name: Seq<char>,
    region_name: Seq<char>,
    region: MapRegion<C>,
)
    ensures
        marker_at(v, name) is None <==> !v.markers.contains_key(name),
        marker_at(v, name) matches Some(p) ==> p == v.markers[name],
        marker_at(with_region(v, region_name, region), name) == marker_at(v, name),
{
}

/// Defining a region always stores it under its name, whatever regions
/// exist already; the other regions, the markers and the routes stay as
/// they were.
pub proof fn lemma_region_is_stored<C>(
    v: MapView<C>,
    name: Seq<char>,
    region: MapRegion<C>,
    other: Seq<char>,
)
    ensures
        with_region(v, name, region).regions.contains_key(name),
        with_region(v, name, region).regions[name] == region,
        other != name ==> (with_region(v, name, region).regions.contains_key(other)
            == v.regions.contains_key(other)),
        other != name && v.regions.contains_key(other) ==> with_region(v, name, region).regions[other]
            == v.regions[other],
        with_region(v, name, region).markers == v.markers,
        with_region(v, name, region).routes == v.routes,
{
}

/// Defining a region under a new name adds one region; under a name in use
/// it replaces that region and keeps the count.
pub proof fn lemma_define_region_count<C>(c: &Cartograph<C>, name: Seq<char>, region: MapRegion<C>)
    ensures
        with_region(c@, name, region).regions.len() == c@.regions.len() + if c@.regions.contains_key(
            name,
        ) {
            0int
        } else {
            1int
        },
{
    c.lemma_finite();
    if c@.regions.contains_key(name) {
        assert(with_region(c@, name, region).regions.dom() =~= c@.regions.dom());
    } else {
        assert(with_region(c@, name, region).regions.dom() =~= c@.regions.dom().insert(name));
    }
}

/// Placing or moving a marker changes only that marker: every route and
/// every region stays as it was.
pub proof fn lemma_place_keeps_routes_and_regions<C>(
    v: MapView<C>,
    name: Seq<char>,
    position: Point2D<C>,
)
    ensures
        with_marker(v, name, position).routes == v.routes,
        with_marker(v, name, position).regions == v.regions,
{
}

/// Connecting two placed markers adds exactly one route, after all the
/// earlier ones, which stay in place; otherwise the routes stay as they
/// were. Markers and regions are never changed by connecting.
pub proof fn lemma_connect_appends<C>(v: MapView<C>, from: Seq<char>, to: Seq<char>)
    ensures
        v.markers.contains_key(from) && v.markers.contains_key(to) ==> {
            &&& with_route(v, from, to).routes.len() == v.routes.len() + 1
            &&& forall|i: int|
                0 <= i < v.routes.len() ==> #[trigger] with_route(v, from, to).routes[i] == v.routes[i]
            &&& with_route(v, from, to).routes[v.routes.len() as int] == (from, to)
        },
        !(v.markers.contains_key(from) && v.markers.contains_key(to)) ==> with_route(
            v,
            from,
            to,
        ).routes == v.routes,
        with_route(v, from, to).markers == v.markers,
        with_route(v, from, to).regions == v.regions,
{
}

/// A direct route joins its two ends whichever end is asked about first.
pub proof fn lemma_direct_route_symmetric(
    routes: Seq<(Seq<char>, Seq<char>)>,
    a: Seq<char>,
    b: Seq<char>,
)
    ensures
        direct_route(routes, a, b) == direct_route(routes, b, a),
{
    if direct_route(routes, a, b) {
        let i = choose|i: int| 0 <= i < routes.len() && (#[trigger] routes[i] == (a, b) || routes[i] == (b, a));
        assert(routes[i] == (b, a) || routes[i] == (a, b));
    }
    if direct_route(routes, b, a) {
        let i = choose|i: int| 0 <= i < routes.len() && (#[trigger] routes[i] == (b, a) || routes[i] == (a, b));
        assert(routes[i] == (a, b) || routes[i] == (b, a));
    }
}

/// On a map whose routes all join placed markers, every route resolves to a
/// pair of positions, so the routes and their endpoint pairs correspond one
/// to one, in order.
pub proof fn lemma_every_route_resolves<C>(v: MapView<C>)
    requires
        routes_join_markers(v),
    ensures
        route_positions(v).len() == v.routes.len(),
        forall|i: int|
            0 <= i < v.routes.len() ==> #[trigger] route_positions(v)[i] == (
                v.markers[v.routes[i].0],
                v.markers[v.routes[i].1],
            ) && v.markers.contains_key(v.routes[i].0) && v.markers.contains_key(v.routes[i].1),
{
}

} // verus!
