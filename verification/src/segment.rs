//! Boundary segments and the point-to-segment squared distance.

use vstd::prelude::*;

use crate::point::Point2;
use crate::point::Rat2;
use crate::point::rat2_wf;
use crate::rational::Rat;
use crate::rational::Ratio;
use crate::rational::lemma_pos_mul;
use crate::rational::rat_add;
use crate::rational::rat_div;
use crate::rational::rat_in_i64;
use crate::rational::rat_int;
use crate::rational::rat_le;
use crate::rational::rat_mul;
use crate::rational::rat_sub;
use crate::rational::rat_wf;

verus! {

/// Ghost model of a segment: an ordered pair of points.
pub ghost struct SegV {
    pub a: Rat2,
    pub b: Rat2,
}

pub open spec fn seg_wf(s: SegV) -> bool {
    rat2_wf(s.a) && rat2_wf(s.b)
}

/// One edge of a contour boundary: an ordered pair of points, start then
/// end. Constructed transiently while walking a contour.
#[derive(Clone, Copy, Debug, PartialEq)]
pub struct Segment(pub Point2, pub Point2);

impl View for Segment {
    type V = SegV;

    open spec fn view(&self) -> SegV {
        SegV { a: self.0@, b: self.1@ }
    }
}

/// The direction vector `b - a` of the segment.
pub open spec fn seg_delta(s: SegV) -> Rat2 {
    Rat2 { x: rat_sub(s.b.x, s.a.x), y: rat_sub(s.b.y, s.a.y) }
}

/// The squared length of the direction vector.
pub open spec fn seg_dd(s: SegV) -> Rat {
    let d = seg_delta(s);
    rat_add(rat_mul(d.x, d.x), rat_mul(d.y, d.y))
}

/// The dot product of `p - a` with the direction vector.
pub open spec fn seg_dot(s: SegV, p: Rat2) -> Rat {
    let d = seg_delta(s);
    let vx = rat_sub(p.x, s.a.x);
    let vy = rat_sub(p.y, s.a.y);
    rat_add(rat_mul(vx, d.x), rat_mul(vy, d.y))
}

/// The unclamped projection parameter of `p` onto the segment's line.
pub open spec fn seg_t_raw(s: SegV, p: Rat2) -> Rat {
    rat_div(seg_dot(s, p), seg_dd(s))
}

/// `t` clamped into the closed interval `[0, 1]`.
pub open spec fn clamp01(t: Rat) -> Rat {
    if rat_le(t, rat_int(0)) {
        rat_int(0)
    } else if rat_le(rat_int(1), t) {
        rat_int(1)
    } else {
        t
    }
}

/// The point of the segment closest to `p`: the start point for a
/// degenerate segment, otherwise `a + clamp(t) * (b - a)`.
pub open spec fn seg_closest(s: SegV, p: Rat2) -> Rat2 {
    if seg_dd(s).n == 0 {
        s.a
    } else {
        let t = clamp01(seg_t_raw(s, p));
        let d = seg_delta(s);
        Rat2 { x: rat_add(s.a.x, rat_mul(t, d.x)), y: rat_add(s.a.y, rat_mul(t, d.y)) }
    }
}

/// The squared Euclidean distance between two points.
pub open spec fn pt_dist_sq(p: Rat2, q: Rat2) -> Rat {
    let ex = rat_sub(p.x, q.x);
    let ey = rat_sub(p.y, q.y);
    rat_add(rat_mul(ex, ex), rat_mul(ey, ey))
}

/// The squared distance from `p` to the segment.
pub open spec fn seg_dist_sq(s: SegV, p: Rat2) -> Rat {
    pt_dist_sq(p, seg_closest(s, p))
}

/// Every intermediate value of the distance computation is representable in
/// the stored integer type (a machine limit, not a geometric condition).
pub open spec fn seg_dist_fits(s: SegV, p: Rat2) -> bool {
    let d = seg_delta(s);
    rat_in_i64(d.x) && rat_in_i64(d.y) && rat_in_i64(rat_mul(d.x, d.x)) && rat_in_i64(
        rat_mul(d.y, d.y),
    ) && rat_in_i64(seg_dd(s)) && rat_in_i64(rat_sub(p.x, s.a.x)) && rat_in_i64(
        rat_sub(p.y, s.a.y),
    ) && if seg_dd(s).n == 0 {
        let vx = rat_sub(p.x, s.a.x);
        let vy = rat_sub(p.y, s.a.y);
        rat_in_i64(rat_mul(vx, vx)) && rat_in_i64(rat_mul(vy, vy)) && rat_in_i64(seg_dist_sq(s, p))
    } else {
        let vx = rat_sub(p.x, s.a.x);
        let vy = rat_sub(p.y, s.a.y);
        let t = clamp01(seg_t_raw(s, p));
        let c = seg_closest(s, p);
        rat_in_i64(rat_mul(vx, d.x)) && rat_in_i64(rat_mul(vy, d.y)) && rat_in_i64(seg_dot(s, p))
            && rat_in_i64(seg_t_raw(s, p)) && rat_in_i64(rat_mul(t, d.x)) && rat_in_i64(
            rat_mul(t, d.y),
        ) && rat_in_i64(c.x) && rat_in_i64(c.y) && rat_in_i64(rat_sub(p.x, c.x)) && rat_in_i64(
            rat_sub(p.y, c.y),
        ) && rat_in_i64(rat_mul(rat_sub(p.x, c.x), rat_sub(p.x, c.x))) && rat_in_i64(
            rat_mul(rat_sub(p.y, c.y), rat_sub(p.y, c.y)),
        ) && rat_in_i64(seg_dist_sq(s, p))
    }
}

/// The squared length of the direction vector is non-negative, and it is
/// zero only for a degenerate (zero-length) segment.
pub proof fn lemma_seg_dd_sign(s: SegV)
    requires
        seg_wf(s),
    ensures
        seg_dd(s).n >= 0,
        seg_dd(s).n == 0 ==> seg_delta(s).x.n == 0 && seg_delta(s).y.n == 0,
{
    let d = seg_delta(s);
    lemma_pos_mul(s.b.x.d, s.a.x.d);
    lemma_pos_mul(s.b.y.d, s.a.y.d);
    assert((d.x.n * d.x.n) * (d.y.d * d.y.d) + (d.y.n * d.y.n) * (d.x.d * d.x.d) >= 0
        && ((d.x.n * d.x.n) * (d.y.d * d.y.d) + (d.y.n * d.y.n) * (d.x.d * d.x.d) == 0 ==> d.x.n
        == 0 && d.y.n == 0)) by (nonlinear_arith)
        requires
            d.x.d > 0,
            d.y.d > 0,
    ;
}

/// The squared distance is a well-formed rational (positive denominator).
pub proof fn lemma_seg_dist_sq_wf(s: SegV, p: Rat2)
    requires
        seg_wf(s),
        rat2_wf(p),
    ensures
        rat_wf(seg_dist_sq(s, p)),
        rat2_wf(seg_closest(s, p)),
{
    let d = seg_delta(s);
    lemma_pos_mul(s.b.x.d, s.a.x.d);
    lemma_pos_mul(s.b.y.d, s.a.y.d);
    lemma_pos_mul(d.x.d, d.x.d);
    lemma_pos_mul(d.y.d, d.y.d);
    lemma_pos_mul(rat_mul(d.x, d.x).d, rat_mul(d.y, d.y).d);
    if seg_dd(s).n == 0 {
        let c = s.a;
        lemma_pos_mul(p.x.d, c.x.d);
        lemma_pos_mul(p.y.d, c.y.d);
        let ex = rat_sub(p.x, c.x);
        let ey = rat_sub(p.y, c.y);
        lemma_pos_mul(ex.d, ex.d);
        lemma_pos_mul(ey.d, ey.d);
        lemma_pos_mul(rat_mul(ex, ex).d, rat_mul(ey, ey).d);
    } else {
        lemma_seg_dd_sign(s);
        let vx = rat_sub(p.x, s.a.x);
        let vy = rat_sub(p.y, s.a.y);
        lemma_pos_mul(p.x.d, s.a.x.d);
        lemma_pos_mul(p.y.d, s.a.y.d);
        lemma_pos_mul(vx.d, d.x.d);
        lemma_pos_mul(vy.d, d.y.d);
        lemma_pos_mul(rat_mul(vx, d.x).d, rat_mul(vy, d.y).d);
        lemma_pos_mul(seg_dot(s, p).d, seg_dd(s).n);
        let t = clamp01(seg_t_raw(s, p));
        assert(rat_wf(t));
        lemma_pos_mul(t.d, d.x.d);
        lemma_pos_mul(t.d, d.y.d);
        let c = seg_closest(s, p);
        lemma_pos_mul(s.a.x.d, rat_mul(t, d.x).d);
        lemma_pos_mul(s.a.y.d, rat_mul(t, d.y).d);
        let ex = rat_sub(p.x, c.x);
        let ey = rat_sub(p.y, c.y);
        lemma_pos_mul(p.x.d, c.x.d);
        lemma_pos_mul(p.y.d, c.y.d);
        lemma_pos_mul(ex.d, ex.d);
        lemma_pos_mul(ey.d, ey.d);
        lemma_pos_mul(rat_mul(ex, ex).d, rat_mul(ey, ey).d);
    }
}

/// The squared distance is non-negative.
pub proof fn lemma_seg_dist_sq_nonneg(s: SegV, p: Rat2)
    requires
        seg_wf(s),
        rat2_wf(p),
    ensures
        rat_le(rat_int(0), seg_dist_sq(s, p)),
{
    lemma_seg_dist_sq_wf(s, p);
    let c = seg_closest(s, p);
    lemma_pos_mul(p.x.d, c.x.d);
    lemma_pos_mul(p.y.d, c.y.d);
    let ex = rat_sub(p.x, c.x);
    let ey = rat_sub(p.y, c.y);
    let r = rat_add(rat_mul(ex, ex), rat_mul(ey, ey));
    assert(0 * r.d <= ((ex.n * ex.n) * (ey.d * ey.d) + (ey.n * ey.n) * (ex.d * ex.d)) * 1)
        by (nonlinear_arith)
        requires
            ex.d > 0,
            ey.d > 0,
    ;
}

impl Segment {
    /// Any reachable segment has well-formed endpoints.
    pub fn wf_fact(&self)
        ensures
            seg_wf(self@),
    {
        self.0.wf_fact();
        self.1.wf_fact();
    }

    /// Squared distance from `point` to this segment, by the clamped
    /// projection of the point onto the segment's line.
    pub fn distance_to_point_sq(&self, point: &Point2) -> (r: Ratio)
        requires
            seg_dist_fits(self@, point@),
        ensures
            r@ == seg_dist_sq(self@, point@),
    {
        self.wf_fact();
        point.wf_fact();
        let dx = self.1.x.sub(self.0.x);
        let dy = self.1.y.sub(self.0.y);
        let xx = dx.mul(dx);
        let yy = dy.mul(dy);
        let dd = xx.add(yy);
        let vx = point.x.sub(self.0.x);
        let vy = point.y.sub(self.0.y);
        if dd.num_is_zero() {
            let ex2 = vx.mul(vx);
            let ey2 = vy.mul(vy);
            ex2.add(ey2)
        } else {
            proof {
                lemma_seg_dd_sign(self@);
            }
            let dot = vx.mul(dx).add(vy.mul(dy));
            let traw = dot.div(dd);
            let zero = Ratio::zero();
            let one = Ratio::one();
            let t = if traw.le(zero) {
                zero
            } else if one.le(traw) {
                one
            } else {
                traw
            };
            let cx = self.0.x.add(t.mul(dx));
            let cy = self.0.y.add(t.mul(dy));
            let ex = point.x.sub(cx);
            let ey = point.y.sub(cy);
            ex.mul(ex).add(ey.mul(ey))
        }
    }
}

} // verus!
