//! Points, axis-aligned bounding boxes and line segments in the plane.
//!
//! Coordinates are of any type implementing [`Num`]; the library gives each
//! coordinate an integer meaning (`Num::val`) and states every operation over it.

pub mod bbox;
pub mod geometry;
pub mod num;
pub mod point;
pub mod segment;

pub use bbox::{BBox, BBoxIter, Bounded, Bounds};
pub use num::Num;
pub use point::Pt;
pub use segment::Seg;
