//! Planar points over the rational scalar.

use vstd::prelude::*;

use crate::rational::Rat;
use crate::rational::Ratio;
use crate::rational::rat_wf;

verus! {

/// Ghost model of a planar point: a pair of rational coordinates.
pub ghost struct Rat2 {
    pub x: Rat,
    pub y: Rat,
}

pub open spec fn rat2_wf(p: Rat2) -> bool {
    rat_wf(p.x) && rat_wf(p.y)
}

/// A 2D coordinate: an immutable value type with no identity beyond its
/// coordinates.
#[derive(Clone, Copy, Debug, PartialEq)]
pub struct Point2 {
    pub x: Ratio,
    pub y: Ratio,
}

impl View for Point2 {
    type V = Rat2;

    open spec fn view(&self) -> Rat2 {
        Rat2 { x: self.x@, y: self.y@ }
    }
}

impl Point2 {
    pub fn new(x: Ratio, y: Ratio) -> (r: Self)
        ensures
            r@ == (Rat2 { x: x@, y: y@ }),
    {
        Point2 { x, y }
    }

    /// Any reachable point has well-formed coordinates.
    pub fn wf_fact(&self)
        ensures
            rat2_wf(self@),
    {
        self.x.wf_fact();
        self.y.wf_fact();
    }

    pub fn x(&self) -> (r: Ratio)
        ensures
            r@ == self@.x,
    {
        self.x
    }

    pub fn y(&self) -> (r: Ratio)
        ensures
            r@ == self@.y,
    {
        self.y
    }
}

/// The coordinate view of a sequence of points.
pub open spec fn pts_view(s: Seq<Point2>) -> Seq<Rat2> {
    s.map_values(|p: Point2| p@)
}

} // verus!
