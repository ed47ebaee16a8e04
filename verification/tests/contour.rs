use galileo_types::CartesianClosedContour;
use galileo_types::CartesianContour;
use galileo_types::ClosedContour;
use galileo_types::Contour;
use galileo_types::Point2;
use galileo_types::Ratio;
use galileo_types::Segment;
use galileo_types::Winding;

fn p(x: i64, y: i64) -> Point2 {
    Point2::new(Ratio::new(x, 1), Ratio::new(y, 1))
}

fn r(n: i64, d: i64) -> Ratio {
    Ratio::new(n, d)
}

#[test]
fn iter_points_closing() {
    let contour = Contour::open(vec![p(0, 0), p(1, 1)]);
    assert_eq!(contour.iter_points_closing().len(), 2);
    assert_eq!(*contour.iter_points_closing().last().unwrap(), p(1, 1));

    let contour = ClosedContour { points: vec![p(0, 0), p(1, 1)] };
    assert_eq!(contour.iter_points_closing().len(), 3);
    assert_eq!(*contour.iter_points_closing().last().unwrap(), p(0, 0));
}

#[test]
fn iter_segments() {
    let contour = Contour::open(vec![p(0, 0)]);
    assert_eq!(contour.iter_segments().len(), 0);

    let contour = Contour::open(vec![p(0, 0), p(1, 1)]);
    assert_eq!(contour.iter_segments().len(), 1);
    assert_eq!(*contour.iter_segments().last().unwrap(), Segment(p(0, 0), p(1, 1)));

    let contour = ClosedContour { points: vec![p(0, 0), p(1, 1)] };
    assert_eq!(contour.iter_segments().len(), 2);
    assert_eq!(*contour.iter_segments().last().unwrap(), Segment(p(1, 1), p(0, 0)));
}

#[test]
fn distance_to_point() {
    let contour = ClosedContour { points: vec![p(0, 0), p(1, 1), p(1, 0)] };

    assert_eq!(contour.distance_to_point_sq(&p(0, 0)), Some(r(0, 1)));
    assert_eq!(
        contour.distance_to_point_sq(&Point2::new(r(1, 2), r(0, 1))),
        Some(r(0, 1))
    );
    assert_eq!(
        contour.distance_to_point_sq(&Point2::new(r(1, 2), r(1, 2))),
        Some(r(0, 1))
    );
    assert_eq!(contour.distance_to_point_sq(&p(0, 1)), Some(r(1, 2)));
    assert_eq!(contour.distance_to_point_sq(&p(2, 2)), Some(r(2, 1)));
    assert_eq!(contour.distance_to_point_sq(&p(-2, -2)), Some(r(8, 1)));
}

#[test]
fn area() {
    let contour = ClosedContour::new(vec![p(0, 0), p(0, 1), p(1, 0)]);
    assert_eq!(contour.area_signed(), r(-1, 2));

    let contour = ClosedContour::new(vec![p(0, 0), p(1, 0), p(0, 1)]);
    assert_eq!(contour.area_signed(), r(1, 2));
}

#[test]
fn winding() {
    let contour = ClosedContour::new(vec![p(0, 0), p(0, 1), p(1, 0)]);
    assert_eq!(contour.winding(), Winding::Clockwise);

    let contour = ClosedContour::new(vec![p(0, 0), p(1, 0), p(0, 1)]);
    assert_eq!(contour.winding(), Winding::CounterClockwise);
}

#[test]
fn single_point_contours() {
    let open = Contour::open(vec![p(3, 4)]);
    assert_eq!(open.iter_points_closing().len(), 1);
    assert_eq!(open.iter_segments().len(), 0);
    assert_eq!(open.distance_to_point_sq(&p(0, 0)), None);

    let closed = ClosedContour::new(vec![p(3, 4)]);
    assert_eq!(closed.area_signed(), r(0, 1));
    assert_eq!(closed.winding(), Winding::Clockwise);
}

#[test]
fn empty_contours() {
    let open = Contour::open(vec![]);
    assert_eq!(open.iter_points_closing().len(), 0);
    assert_eq!(open.iter_segments().len(), 0);
    assert_eq!(open.distance_to_point_sq(&p(1, 1)), None);

    let closed = ClosedContour::new(vec![]);
    assert_eq!(closed.iter_points_closing().len(), 0);
    assert_eq!(closed.area_signed(), r(0, 1));
    assert_eq!(closed.winding(), Winding::Clockwise);
}

#[test]
fn closed_two_points() {
    let contour = Contour::closed(vec![p(0, 0), p(1, 1)]);
    let closing = contour.iter_points_closing();
    assert_eq!(closing.len(), 3);
    assert_eq!(*closing.last().unwrap(), p(0, 0));
    let segments = contour.iter_segments();
    assert_eq!(segments.len(), 2);
    assert_eq!(*segments.last().unwrap(), Segment(p(1, 1), p(0, 0)));
}

#[test]
fn area_cyclic_rotation_and_reversal() {
    let base = ClosedContour::new(vec![p(0, 0), p(4, 0), p(4, 3), p(1, 2)]);
    let rotated = ClosedContour::new(vec![p(4, 3), p(1, 2), p(0, 0), p(4, 0)]);
    let reversed = ClosedContour::new(vec![p(1, 2), p(4, 3), p(4, 0), p(0, 0)]);
    let a = base.area_signed();
    assert_eq!(rotated.area_signed(), a);
    assert_eq!(reversed.area_signed(), Ratio::zero().sub(a));
    assert_eq!(a, r(17, 2));
}

#[test]
fn winding_sign_matches_area() {
    let ccw = ClosedContour::new(vec![p(0, 0), p(2, 0), p(2, 2), p(0, 2)]);
    assert!(Ratio::zero().lt(ccw.area_signed()));
    assert_eq!(ccw.winding(), Winding::CounterClockwise);

    let cw = ClosedContour::new(vec![p(0, 0), p(0, 2), p(2, 2), p(2, 0)]);
    assert!(cw.area_signed().le(Ratio::zero()));
    assert_eq!(cw.winding(), Winding::Clockwise);

    let degenerate = ClosedContour::new(vec![p(0, 0), p(1, 1), p(2, 2)]);
    assert_eq!(degenerate.area_signed(), r(0, 1));
    assert_eq!(degenerate.winding(), Winding::Clockwise);
}

#[test]
fn distance_zero_on_boundary() {
    let contour = ClosedContour::new(vec![p(0, 0), p(6, 0), p(6, 6)]);
    assert_eq!(contour.distance_to_point_sq(&p(6, 0)), Some(r(0, 1)));
    assert_eq!(contour.distance_to_point_sq(&p(3, 0)), Some(r(0, 1)));
    assert_eq!(
        contour.distance_to_point_sq(&Point2::new(r(3, 1), r(3, 1))),
        Some(r(0, 1))
    );
}

#[test]
fn rational_scalar_arithmetic() {
    let half = r(1, 2);
    let third = r(1, 3);
    assert_eq!(half.add(third), r(5, 6));
    assert_eq!(half.sub(third), r(1, 6));
    assert_eq!(half.mul(third), r(1, 6));
    assert_eq!(half.div(third), r(3, 2));
    assert!(third.lt(half));
    assert!(third.le(third));
    assert_eq!(r(2, 4), r(1, 2));
    assert_eq!(Ratio::zero(), r(0, 7));
    assert_eq!(Ratio::one(), r(3, 3));
}
