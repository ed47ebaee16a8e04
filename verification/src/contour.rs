//! Contours: open polylines and closed polygon boundaries, with their
//! point-closing walk and boundary segments.

use vstd::prelude::*;

use crate::point::Point2;
use crate::point::Rat2;
use crate::point::pts_view;
use crate::segment::SegV;
use crate::segment::Segment;

verus! {

/// The point-closing walk: the stored points, with the first point appended
/// again when the contour is closed and non-empty.
pub open spec fn closing_of<T>(s: Seq<T>, closed: bool) -> Seq<T> {
    if closed && s.len() > 0 {
        s.push(s[0])
    } else {
        s
    }
}

/// Consecutive pairs of a point-closing walk, as segments.
pub open spec fn segments_of(c: Seq<Rat2>) -> Seq<SegV> {
    Seq::new(
        if c.len() < 2 {
            0
        } else {
            (c.len() - 1) as nat
        },
        |i: int| SegV { a: c[i], b: c[i + 1] },
    )
}

/// Law: the point-closing walk of an open contour is exactly its points;
/// for a closed contour it is the points followed by the first point again.
pub proof fn lemma_point_closing_shape(pts: Seq<Rat2>)
    ensures
        closing_of(pts, false) == pts,
        pts.len() >= 1 ==> closing_of(pts, true) == pts.push(pts[0]) && closing_of(pts, true).len()
            == pts.len() + 1,
        pts.len() == 0 ==> closing_of(pts, true) == pts,
{
}

/// Law: an open contour with `n` points has `max(n - 1, 0)` boundary
/// segments; a closed one has `n` (for `n >= 1`); both have none when
/// `n < 1`.
pub proof fn lemma_segment_count(pts: Seq<Rat2>)
    ensures
        pts.len() == 0 ==> segments_of(closing_of(pts, false)).len() == 0 && segments_of(
            closing_of(pts, true),
        ).len() == 0,
        pts.len() >= 1 ==> segments_of(closing_of(pts, false)).len() == pts.len() - 1,
        pts.len() >= 1 ==> segments_of(closing_of(pts, true)).len() == pts.len(),
{
}

/// A contour: an ordered sequence of points forming either an open polyline
/// or a closed polygon boundary. Point order is significant; points are
/// never validated, deduplicated or reordered.
pub enum Contour {
    Open { points: Vec<Point2> },
    Closed { points: Vec<Point2> },
}

/// A closed contour: a polygon boundary with an implicit edge from the last
/// point back to the first.
pub struct ClosedContour {
    pub points: Vec<Point2>,
}

fn copy_points(points: &Vec<Point2>) -> (r: Vec<Point2>)
    ensures
        r@ == points@,
{
    let mut r: Vec<Point2> = Vec::new();
    let mut i: usize = 0;
    while i < points.len()
        invariant
            i <= points@.len(),
            r@ == points@.take(i as int),
        decreases points@.len() - i,
    {
        r.push(points[i]);
        assert(points@.take(i as int + 1) =~= points@.take(i as int).push(points@[i as int]));
        i += 1;
    }
    assert(points@.take(points@.len() as int) =~= points@);
    r
}

fn closing_from(points: &Vec<Point2>, closed: bool) -> (r: Vec<Point2>)
    ensures
        r@ == closing_of(points@, closed),
{
    let mut r = copy_points(points);
    if closed && points.len() > 0 {
        let first = points[0];
        r.push(first);
    }
    r
}

fn segments_from(closing: &Vec<Point2>) -> (r: Vec<Segment>)
    ensures
        r@.len() == segments_of(pts_view(closing@)).len(),
        forall|i: int|
            0 <= i < r@.len() ==> (#[trigger] r@[i])@ == segments_of(pts_view(closing@))[i],
{
    let mut r: Vec<Segment> = Vec::new();
    if closing.len() >= 2 {
        let mut i: usize = 0;
        while i < closing.len() - 1
            invariant
                closing@.len() >= 2,
                i <= closing@.len() - 1,
                r@.len() == i,
                forall|j: int|
                    0 <= j < i ==> (#[trigger] r@[j])@ == segments_of(pts_view(closing@))[j],
            decreases closing@.len() - 1 - i,
        {
            r.push(Segment(closing[i], closing[i + 1]));
            i += 1;
        }
    }
    r
}

impl Contour {
    /// The stored points, as coordinates.
    pub open spec fn points_view(&self) -> Seq<Rat2> {
        match self {
            Contour::Open { points } => pts_view(points@),
            Contour::Closed { points } => pts_view(points@),
        }
    }

    pub open spec fn is_closed(&self) -> bool {
        self is Closed
    }

    /// An open contour over the given points.
    pub fn open(points: Vec<Point2>) -> (r: Self)
        ensures
            r == (Contour::Open { points }),
    {
        Contour::Open { points }
    }

    /// A closed contour over the given points.
    pub fn closed(points: Vec<Point2>) -> (r: Self)
        ensures
            r == (Contour::Closed { points }),
    {
        Contour::Closed { points }
    }

    /// The point-closing walk of the contour, materialised.
    pub fn iter_points_closing(&self) -> (r: Vec<Point2>)
        ensures
            pts_view(r@) == closing_of(self.points_view(), self.is_closed()),
    {
        let r = match self {
            Contour::Open { points } => closing_from(points, false),
            Contour::Closed { points } => closing_from(points, true),
        };
        proof {
            lemma_pts_view_closing(self.spec_points(), self.is_closed());
        }
        r
    }

    pub open spec fn spec_points(&self) -> Seq<Point2> {
        match self {
            Contour::Open { points } => points@,
            Contour::Closed { points } => points@,
        }
    }

    /// The boundary segments of the contour, materialised.
    pub fn iter_segments(&self) -> (r: Vec<Segment>)
        ensures
            r@.len() == segments_of(closing_of(self.points_view(), self.is_closed())).len(),
            forall|i: int|
                0 <= i < r@.len() ==> (#[trigger] r@[i])@ == segments_of(
                    closing_of(self.points_view(), self.is_closed()),
                )[i],
    {
        let closing = self.iter_points_closing();
        segments_from(&closing)
    }
}

/// Mapping points to coordinates commutes with the closing walk.
proof fn lemma_pts_view_closing(s: Seq<Point2>, closed: bool)
    ensures
        pts_view(closing_of(s, closed)) == closing_of(pts_view(s), closed),
{
    assert(pts_view(closing_of(s, closed)) =~= closing_of(pts_view(s), closed));
}

impl ClosedContour {
    pub open spec fn points_view(&self) -> Seq<Rat2> {
        pts_view(self.points@)
    }

    pub fn new(points: Vec<Point2>) -> (r: Self)
        ensures
            r.points == points,
    {
        ClosedContour { points }
    }

    /// The point-closing walk: the points, then the first point again.
    pub fn iter_points_closing(&self) -> (r: Vec<Point2>)
        ensures
            pts_view(r@) == closing_of(self.points_view(), true),
    {
        let r = closing_from(&self.points, true);
        proof {
            lemma_pts_view_closing(self.points@, true);
        }
        r
    }

    /// The boundary segments, the last one connecting back to the first
    /// point.
    pub fn iter_segments(&self) -> (r: Vec<Segment>)
        ensures
            r@.len() == segments_of(closing_of(self.points_view(), true)).len(),
            forall|i: int|
                0 <= i < r@.len() ==> (#[trigger] r@[i])@ == segments_of(
                    closing_of(self.points_view(), true),
                )[i],
    {
        let closing = self.iter_points_closing();
        segments_from(&closing)
    }
}

} // verus!
