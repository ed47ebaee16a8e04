//! A small kernel of planar geometric primitives: contours (open polylines
//! and closed polygon boundaries) over exact rational coordinates, with
//! signed area, winding classification and point-to-boundary squared
//! distance.

pub mod cartesian;
pub mod contour;
pub mod point;
pub mod rational;
pub mod segment;

pub use cartesian::CartesianClosedContour;
pub use cartesian::CartesianContour;
pub use cartesian::Winding;
pub use contour::ClosedContour;
pub use contour::Contour;
pub use point::Point2;
pub use rational::Ratio;
pub use segment::Segment;
