//! Geometry over contours: signed area, winding classification and the
//! squared distance from a point to the nearest boundary segment.

use vstd::prelude::*;

use crate::contour::ClosedContour;
use crate::contour::Contour;
use crate::contour::closing_of;
use crate::contour::segments_of;
use crate::point::Point2;
use crate::point::Rat2;
use crate::point::pts_view;
use crate::point::rat2_wf;
use crate::rational::Rat;
use crate::rational::Ratio;
use crate::rational::lemma_rat_le_trans;
use crate::rational::lemma_rat_sum_neg;
use crate::rational::lemma_rat_sum_reverse;
use crate::rational::lemma_rat_sum_rotate;
use crate::rational::rat_add;
use crate::rational::rat_div;
use crate::rational::rat_in_i64;
use crate::rational::rat_int;
use crate::rational::rat_le;
use crate::rational::rat_lt;
use crate::rational::rat_mul;
use crate::rational::rat_neg;
use crate::rational::rat_sub;
use crate::rational::rat_sum;
use crate::rational::rat_wf;
use crate::segment::SegV;
use crate::segment::Segment;
use crate::segment::lemma_seg_dist_sq_wf;
use crate::segment::seg_dist_fits;
use crate::segment::seg_dist_sq;
use crate::segment::seg_wf;

verus! {

/// Winding direction of a contour, derived from the sign of its signed
/// area.
#[derive(Debug, Clone, Copy, PartialEq, PartialOrd, Eq, Hash)]
pub enum Winding {
    /// Positive winding.
    Clockwise,
    /// Negative winding.
    CounterClockwise,
}

/// One shoelace term for a consecutive pair of boundary points.
pub open spec fn term(p: Rat2, q: Rat2) -> Rat {
    rat_sub(rat_mul(p.x, q.y), rat_mul(q.x, p.y))
}

/// Left-fold of the shoelace terms over consecutive pairs of a walk.
pub open spec fn shoelace(c: Seq<Rat2>) -> Rat
    decreases c.len(),
{
    if c.len() < 2 {
        rat_int(0)
    } else {
        rat_add(shoelace(c.drop_last()), term(c[c.len() - 2], c[c.len() - 1]))
    }
}

/// The signed area of a walk: the shoelace sum halved; exactly zero for a
/// walk of fewer than two points.
pub open spec fn area_of(c: Seq<Rat2>) -> Rat {
    if c.len() == 0 {
        rat_int(0)
    } else {
        rat_div(shoelace(c), rat_int(2))
    }
}

/// The signed area of the closed contour over the given points.
pub open spec fn area_signed_spec(pts: Seq<Rat2>) -> Rat {
    area_of(closing_of(pts, true))
}

/// The two multiplications and the subtraction of one shoelace term are
/// representable.
pub open spec fn term_fits(p: Rat2, q: Rat2) -> bool {
    rat_in_i64(rat_mul(p.x, q.y)) && rat_in_i64(rat_mul(q.x, p.y)) && rat_in_i64(term(p, q))
}

/// The fold step that extends the walk to its first `k` points is
/// representable: the term over the pair `(k-2, k-1)` and the partial sum.
pub open spec fn step_fits(c: Seq<Rat2>, k: int) -> bool {
    term_fits(c[k - 2], c[k - 1]) && rat_in_i64(shoelace(c.take(k)))
}

/// Every intermediate value of the shoelace fold over the walk `c` is
/// representable in the stored integer type (a machine limit only).
pub open spec fn closing_fits(c: Seq<Rat2>) -> bool {
    rat_in_i64(area_of(c)) && forall|k: int| 2 <= k <= c.len() ==> #[trigger] step_fits(c, k)
}

/// The area computation over a closed contour's walk stays representable.
pub open spec fn area_fits(pts: Seq<Rat2>) -> bool {
    closing_fits(closing_of(pts, true))
}

proof fn lemma_shoelace_step(c: Seq<Rat2>, k: int)
    requires
        2 <= k <= c.len(),
    ensures
        shoelace(c.take(k)) == rat_add(shoelace(c.take(k - 1)), term(c[k - 2], c[k - 1])),
{
    let s = c.take(k);
    assert(s.drop_last() =~= c.take(k - 1));
    assert(s[k - 2] == c[k - 2]);
    assert(s[k - 1] == c[k - 1]);
}

/// Methods specific to closed contours in 2d cartesian space.
pub trait CartesianClosedContour {
    /// The coordinates of the contour's points.
    spec fn pts(&self) -> Seq<Rat2>;

    /// Signed area of the contour: positive for a counter-clockwise
    /// boundary, non-positive otherwise.
    fn area_signed(&self) -> (r: Ratio)
        requires
            area_fits(self.pts()),
        ensures
            r@ == area_signed_spec(self.pts()),
    ;

    /// Winding direction of the contour; an area of exactly zero counts as
    /// clockwise by convention.
    fn winding(&self) -> (w: Winding)
        requires
            area_fits(self.pts()),
        ensures
            w == (if rat_le(area_signed_spec(self.pts()), rat_int(0)) {
                Winding::Clockwise
            } else {
                Winding::CounterClockwise
            }),
            (w == Winding::CounterClockwise) <==> rat_lt(rat_int(0), area_signed_spec(self.pts())),
    ;
}

/// Methods for contours in 2d cartesian space.
pub trait CartesianContour {
    /// The contour's point-closing walk, as coordinates.
    spec fn closing_view(&self) -> Seq<Rat2>;

    /// Squared distance from the point to the closest segment of the
    /// contour; absent exactly when the contour has no boundary segments.
    fn distance_to_point_sq(&self, point: &Point2) -> (r: Option<Ratio>)
        requires
            forall|i: int|
                0 <= i < segments_of(self.closing_view()).len() ==> seg_dist_fits(
                    #[trigger] segments_of(self.closing_view())[i],
                    point@,
                ),
        ensures
            (r is None) <==> segments_of(self.closing_view()).len() == 0,
            r matches Some(d) ==> exists|i: int|
                0 <= i < segments_of(self.closing_view()).len() && d@ == seg_dist_sq(
                    #[trigger] segments_of(self.closing_view())[i],
                    point@,
                ),
            r matches Some(d) ==> forall|i: int|
                0 <= i < segments_of(self.closing_view()).len() ==> rat_le(
                    d@,
                    seg_dist_sq(#[trigger] segments_of(self.closing_view())[i], point@),
                ),
    ;
}

/// The shoelace fold over a walk, computed pairwise in a single pass.
fn area_over(closing: &Vec<Point2>) -> (r: Ratio)
    requires
        closing_fits(pts_view(closing@)),
    ensures
        r@ == area_of(pts_view(closing@)),
{
    let ghost c = pts_view(closing@);
    if closing.len() == 0 {
        Ratio::zero()
    } else {
        let mut aggr = Ratio::zero();
        let mut prev = closing[0];
        let mut i: usize = 1;
        assert(c.take(1).len() < 2);
        while i < closing.len()
            invariant
                1 <= i <= closing@.len(),
                c == pts_view(closing@),
                closing_fits(c),
                prev == closing@[i - 1],
                aggr@ == shoelace(c.take(i as int)),
            decreases closing@.len() - i,
        {
            let p = closing[i];
            proof {
                let k = i as int + 1;
                assert(2 <= k <= c.len());
                assert(step_fits(c, k));
                assert(term_fits(c[k - 2], c[k - 1]) && rat_in_i64(shoelace(c.take(k))));
                lemma_shoelace_step(c, k);
            }
            let m1 = prev.x.mul(p.y);
            let m2 = p.x.mul(prev.y);
            let t = m1.sub(m2);
            aggr = aggr.add(t);
            prev = p;
            i += 1;
        }
        assert(c.take(c.len() as int) =~= c);
        let two = Ratio::new(2, 1);
        assert(two@ == rat_int(2));
        aggr.div(two)
    }
}

/// Minimum of the squared distances from `point` to the given segments;
/// absent exactly when there are none.
fn min_distance_over(segs: &Vec<Segment>, point: &Point2) -> (r: Option<Ratio>)
    requires
        forall|i: int|
            0 <= i < segs@.len() ==> seg_dist_fits((#[trigger] segs@[i])@, point@),
    ensures
        (r is None) <==> segs@.len() == 0,
        r matches Some(d) ==> exists|i: int|
            0 <= i < segs@.len() && d@ == seg_dist_sq((#[trigger] segs@[i])@, point@),
        r matches Some(d) ==> forall|i: int|
            0 <= i < segs@.len() ==> rat_le(d@, seg_dist_sq((#[trigger] segs@[i])@, point@)),
{
    if segs.len() == 0 {
        None
    } else {
        let s0 = segs[0];
        s0.wf_fact();
        point.wf_fact();
        proof {
            lemma_seg_dist_sq_wf(segs@[0]@, point@);
        }
        let mut best = s0.distance_to_point_sq(point);
        let mut i: usize = 1;
        while i < segs.len()
            invariant
                1 <= i <= segs@.len(),
                forall|j: int|
                    0 <= j < segs@.len() ==> seg_dist_fits((#[trigger] segs@[j])@, point@),
                rat2_wf(point@),
                forall|j: int| 0 <= j < i ==> seg_wf((#[trigger] segs@[j])@),
                rat_wf(best@),
                exists|j: int|
                    0 <= j < i && best@ == seg_dist_sq((#[trigger] segs@[j])@, point@),
                forall|j: int|
                    0 <= j < i ==> rat_le(best@, seg_dist_sq((#[trigger] segs@[j])@, point@)),
            decreases segs@.len() - i,
        {
            let sg = segs[i];
            sg.wf_fact();
            proof {
                lemma_seg_dist_sq_wf(segs@[i as int]@, point@);
            }
            let d = sg.distance_to_point_sq(point);
            if d.lt(best) {
                proof {
                    assert forall|j: int| 0 <= j < i + 1 implies rat_le(
                        d@,
                        seg_dist_sq((#[trigger] segs@[j])@, point@),
                    ) by {
                        if j < i {
                            lemma_seg_dist_sq_wf(segs@[j]@, point@);
                            lemma_rat_le_trans(d@, best@, seg_dist_sq(segs@[j]@, point@));
                        }
                    }
                }
                best = d;
            }
            i += 1;
        }
        Some(best)
    }
}

impl CartesianClosedContour for ClosedContour {
    open spec fn pts(&self) -> Seq<Rat2> {
        self.points_view()
    }

    fn area_signed(&self) -> (r: Ratio) {
        let closing = self.iter_points_closing();
        area_over(&closing)
    }

    fn winding(&self) -> (w: Winding) {
        let a = self.area_signed();
        if a.le(Ratio::zero()) {
            Winding::Clockwise
        } else {
            Winding::CounterClockwise
        }
    }
}

impl CartesianContour for Contour {
    open spec fn closing_view(&self) -> Seq<Rat2> {
        closing_of(self.points_view(), self.is_closed())
    }

    fn distance_to_point_sq(&self, point: &Point2) -> (r: Option<Ratio>) {
        let ghost sv = segments_of(self.closing_view());
        let segs = self.iter_segments();
        proof {
            assert forall|i: int| 0 <= i < segs@.len() implies seg_dist_fits(
                (#[trigger] segs@[i])@,
                point@,
            ) by {
                assert(segs@[i]@ == sv[i]);
            }
        }
        let r = min_distance_over(&segs, point);
        proof {
            match r {
                Some(d) => {
                    let j = choose|j: int|
                        0 <= j < segs@.len() && d@ == seg_dist_sq((#[trigger] segs@[j])@, point@);
                    assert(segs@[j]@ == sv[j]);
                    assert forall|i: int| 0 <= i < sv.len() implies rat_le(
                        d@,
                        seg_dist_sq(#[trigger] sv[i], point@),
                    ) by {
                        assert(segs@[i]@ == sv[i]);
                    }
                },
                None => {},
            }
        }
        r
    }
}

impl CartesianContour for ClosedContour {
    open spec fn closing_view(&self) -> Seq<Rat2> {
        closing_of(self.points_view(), true)
    }

    fn distance_to_point_sq(&self, point: &Point2) -> (r: Option<Ratio>) {
        let ghost sv = segments_of(self.closing_view());
        let segs = self.iter_segments();
        proof {
            assert forall|i: int| 0 <= i < segs@.len() implies seg_dist_fits(
                (#[trigger] segs@[i])@,
                point@,
            ) by {
                assert(segs@[i]@ == sv[i]);
            }
        }
        let r = min_distance_over(&segs, point);
        proof {
            match r {
                Some(d) => {
                    let j = choose|j: int|
                        0 <= j < segs@.len() && d@ == seg_dist_sq((#[trigger] segs@[j])@, point@);
                    assert(segs@[j]@ == sv[j]);
                    assert forall|i: int| 0 <= i < sv.len() implies rat_le(
                        d@,
                        seg_dist_sq(#[trigger] sv[i], point@),
                    ) by {
                        assert(segs@[i]@ == sv[i]);
                    }
                },
                None => {},
            }
        }
        r
    }
}

/// The shoelace terms of consecutive pairs of a walk.
pub open spec fn boundary_terms(c: Seq<Rat2>) -> Seq<Rat> {
    Seq::new(
        if c.len() < 2 {
            0
        } else {
            (c.len() - 1) as nat
        },
        |i: int| term(c[i], c[i + 1]),
    )
}

proof fn lemma_shoelace_is_sum(c: Seq<Rat2>)
    ensures
        shoelace(c) == rat_sum(boundary_terms(c)),
    decreases c.len(),
{
    if c.len() < 2 {
        assert(boundary_terms(c) =~= Seq::<Rat>::empty());
    } else {
        lemma_shoelace_is_sum(c.drop_last());
        assert(boundary_terms(c).drop_last() =~= boundary_terms(c.drop_last()));
        assert(boundary_terms(c).last() == term(c[c.len() - 2], c[c.len() - 1]));
    }
}

/// Swapping the endpoints of a pair negates its shoelace term, on the very
/// representation.
proof fn lemma_term_antisym(p: Rat2, q: Rat2)
    ensures
        term(q, p) == rat_neg(term(p, q)),
{
    assert((q.x.d * p.y.d) * (p.x.d * q.y.d) == (p.x.d * q.y.d) * (q.x.d * p.y.d))
        by (nonlinear_arith);
}

/// Law: the signed area of a closed contour is invariant under a cyclic
/// rotation of its points; the very same rational representation results.
pub proof fn lemma_area_cyclic_shift(pts: Seq<Rat2>, k: int)
    requires
        0 <= k <= pts.len(),
    ensures
        area_signed_spec(pts.subrange(k, pts.len() as int) + pts.subrange(0, k))
            == area_signed_spec(pts),
{
    let n = pts.len() as int;
    let r = pts.subrange(k, n) + pts.subrange(0, k);
    if n == 0 || k == 0 || k == n {
        assert(r =~= pts);
    } else {
        let cs = closing_of(pts, true);
        let cr = closing_of(r, true);
        let bt = boundary_terms(cs);
        assert(bt.len() == n);
        assert(boundary_terms(cr) =~= bt.subrange(k, n) + bt.subrange(0, k)) by {
            assert forall|j: int| 0 <= j < n implies boundary_terms(cr)[j] == (bt.subrange(k, n)
                + bt.subrange(0, k))[j] by {
                if j < n - k {
                    assert(cr[j] == pts[k + j]);
                    assert(cr[j + 1] == (if k + j + 1 < n {
                        pts[k + j + 1]
                    } else {
                        pts[0]
                    }));
                    assert(cs[k + j] == pts[k + j]);
                } else {
                    assert(cr[j] == pts[j + k - n]);
                    assert(cr[j + 1] == pts[j + 1 + k - n]);
                }
            }
        }
        lemma_rat_sum_rotate(bt, k);
        lemma_shoelace_is_sum(cs);
        lemma_shoelace_is_sum(cr);
    }
}

/// Law: reversing the point order of a closed contour negates its signed
/// area.
pub proof fn lemma_area_reversal(pts: Seq<Rat2>)
    ensures
        area_signed_spec(pts.reverse()) == rat_neg(area_signed_spec(pts)),
{
    let n = pts.len() as int;
    if n == 0 {
        assert(pts.reverse() =~= pts);
        assert(rat_neg(rat_int(0)) == rat_int(0));
    } else {
        let rev = pts.reverse();
        let cs = closing_of(pts, true);
        let cr = closing_of(rev, true);
        let bt = boundary_terms(cs);
        assert(bt.len() == n);
        let w = bt.reverse().subrange(1, n) + bt.reverse().subrange(0, 1);
        assert(boundary_terms(cr) =~= w.map_values(|a: Rat| rat_neg(a))) by {
            assert forall|j: int| 0 <= j < n implies boundary_terms(cr)[j] == rat_neg(w[j]) by {
                if j < n - 1 {
                    assert(cr[j] == pts[n - 1 - j]);
                    assert(cr[j + 1] == pts[n - 2 - j]);
                    assert(w[j] == bt[n - 2 - j]);
                    lemma_term_antisym(pts[n - 2 - j], pts[n - 1 - j]);
                } else {
                    assert(cr[j] == pts[0]);
                    assert(cr[j + 1] == pts[n - 1]);
                    assert(w[j] == bt[n - 1]);
                    lemma_term_antisym(pts[n - 1], pts[0]);
                }
            }
        }
        lemma_rat_sum_neg(w);
        lemma_rat_sum_rotate(bt.reverse(), 1);
        lemma_rat_sum_reverse(bt);
        lemma_shoelace_is_sum(cs);
        lemma_shoelace_is_sum(cr);
        assert(rat_sum(boundary_terms(cr)) == rat_sum(w.map_values(|a: Rat| rat_neg(a))));
        assert(rat_sum(w) == rat_sum(bt.reverse()));
        assert(shoelace(cr) == rat_neg(shoelace(cs)));
        let s = shoelace(cs);
        assert(area_signed_spec(pts.reverse()) == rat_div(rat_neg(s), rat_int(2)));
        assert((-s.n) * 1 == -(s.n * 1)) by (nonlinear_arith);
        assert(rat_div(rat_neg(s), rat_int(2)) == rat_neg(rat_div(s, rat_int(2))));
    }
}

} // verus!
