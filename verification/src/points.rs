use vstd::prelude::*;

verus! {

/// A point in 2D space used for map projections, with coordinates of type `C`.
#[derive(Copy, Debug, PartialEq)]
pub struct Point2D<C> {
    pub x: C,
    pub y: C,
}

impl<C> Point2D<C> {
    pub fn new(x: C, y: C) -> (r: Self)
        ensures
            r.x == x,
            r.y == y,
    {
        Point2D { x, y }
    }
}

impl<C: Copy> Clone for Point2D<C> {
    fn clone(&self) -> (r: Self)
        ensures
            r == *self,
    {
        *self
    }
}

/// A bounded rectangular region on the map, from its top-left corner to
/// its bottom-right corner.
#[derive(Copy, Debug, PartialEq)]
pub struct MapRegion<C> {
    pub top_left: Point2D<C>,
    pub bottom_right: Point2D<C>,
}

impl<C> MapRegion<C> {
    pub fn new(top_left: Point2D<C>, bottom_right: Point2D<C>) -> (r: Self)
        ensures
            r.top_left == top_left,
            r.bottom_right == bottom_right,
    {
        MapRegion { top_left, bottom_right }
    }
}

impl<C: Copy> Clone for MapRegion<C> {
    fn clone(&self) -> (r: Self)
        ensures
            r == *self,
    {
        *self
    }
}

} // verus!
