//! 2D Line Segments
use crate::bbox::{bounds_of, BBox, Bounded, Bounds, Rect};
use crate::geometry::{lemma_seg_bounded_iff_meets_rect, seg_meets_rect};
use crate::num::Num;
use crate::point::Pt;
use vstd::prelude::*;

verus! {

/// Segment of a line between two endpoints
#[derive(Clone, Copy, Debug, PartialEq, Eq)]
pub struct Seg<N> {
    /// First endpoint
    pub p0: Pt<N>,
    /// Second endpoint
    pub p1: Pt<N>,
}

impl<N: Num> View for Seg<N> {
    type V = ((int, int), (int, int));

    /// The segment's endpoints as integer points.
    open spec fn view(&self) -> ((int, int), (int, int)) {
        (self.p0@, self.p1@)
    }
}

/// The vector from `a` to `b`.
pub open spec fn delta(a: (int, int), b: (int, int)) -> (int, int) {
    (b.0 - a.0, b.1 - a.1)
}

/// The cross product of two vectors.
pub open spec fn cross(u: (int, int), v: (int, int)) -> int {
    u.0 * v.1 - u.1 * v.0
}

/// Whether the line through segment `a` crosses segment `b` at exactly one
/// point.
///
/// The lines meet at one point when their directions are not parallel
/// (`den != 0`); that point is `b.0 + (num / den) * (b.1 - b.0)`, so it lies
/// on `b` when `num / den` is within `0..=1`. Where `b` is a single point (as
/// the edge of a box of one point is), it is met when it lies on the line
/// through `a`.
pub open spec fn line_meets_segment(a: ((int, int), (int, int)), b: ((int, int), (int, int))) -> bool {
    let da = delta(a.0, a.1);
    let db = delta(b.0, b.1);
    let den = cross(da, db);
    let num = cross(delta(a.0, b.0), da);
    if den > 0 {
        0 <= num <= den
    } else if den < 0 {
        den <= num <= 0
    } else {
        db == (0int, 0int) && da != (0int, 0int) && num == 0
    }
}

/// The edge on the X min side of an extent.
pub open spec fn x_min_edge(r: Rect) -> ((int, int), (int, int)) {
    ((r.x_min, r.y_min), (r.x_min, r.y_max))
}

/// The edge on the X max side of an extent.
pub open spec fn x_max_edge(r: Rect) -> ((int, int), (int, int)) {
    ((r.x_max, r.y_min), (r.x_max, r.y_max))
}

/// The edge on the Y min side of an extent.
pub open spec fn y_min_edge(r: Rect) -> ((int, int), (int, int)) {
    ((r.x_min, r.y_min), (r.x_max, r.y_min))
}

/// The edge on the Y max side of an extent.
pub open spec fn y_max_edge(r: Rect) -> ((int, int), (int, int)) {
    ((r.x_min, r.y_max), (r.x_max, r.y_max))
}

/// Positions left of a box, at any height.
pub open spec fn is_leftward(b: Bounds) -> bool {
    b == Bounds::Left || b == Bounds::BelowLeft || b == Bounds::AboveLeft
}

/// Positions right of a box, at any height.
pub open spec fn is_rightward(b: Bounds) -> bool {
    b == Bounds::Right || b == Bounds::BelowRight || b == Bounds::AboveRight
}

/// Positions below a box, at any width.
pub open spec fn is_downward(b: Bounds) -> bool {
    b == Bounds::Below || b == Bounds::BelowLeft || b == Bounds::BelowRight
}

/// Positions above a box, at any width.
pub open spec fn is_upward(b: Bounds) -> bool {
    b == Bounds::Above || b == Bounds::AboveLeft || b == Bounds::AboveRight
}

/// Whether segment `s` is found to lie at least partially inside extent `r`.
///
/// An endpoint within the box, or endpoints on opposite sides straight across
/// it, settle it at once; endpoints that are both beyond one edge rule it out.
/// Otherwise the segment's line is tested against the edges that an endpoint
/// faces: the one edge for a side position, the two edges for a corner one.
pub open spec fn seg_bounded(s: ((int, int), (int, int)), r: Rect) -> bool {
    let b0 = bounds_of(r, s.0);
    let b1 = bounds_of(r, s.1);
    if b0 == Bounds::Within || b1 == Bounds::Within {
        true
    } else if (b0 == Bounds::Left && b1 == Bounds::Right) || (b0 == Bounds::Right && b1
        == Bounds::Left) || (b0 == Bounds::Below && b1 == Bounds::Above) || (b0 == Bounds::Above
        && b1 == Bounds::Below) {
        true
    } else if (is_leftward(b0) && is_leftward(b1)) || (is_rightward(b0) && is_rightward(b1)) || (
    is_downward(b0) && is_downward(b1)) || (is_upward(b0) && is_upward(b1)) {
        false
    } else if b0 == Bounds::Left || b1 == Bounds::Left {
        line_meets_segment(s, x_min_edge(r))
    } else if b0 == Bounds::Right || b1 == Bounds::Right {
        line_meets_segment(s, x_max_edge(r))
    } else if b0 == Bounds::BelowLeft || b1 == Bounds::BelowLeft {
        line_meets_segment(s, x_min_edge(r)) || line_meets_segment(s, y_min_edge(r))
    } else if b0 == Bounds::AboveLeft || b1 == Bounds::AboveLeft {
        line_meets_segment(s, x_min_edge(r)) || line_meets_segment(s, y_max_edge(r))
    } else if b0 == Bounds::BelowRight || b1 == Bounds::BelowRight {
        line_meets_segment(s, x_max_edge(r)) || line_meets_segment(s, y_min_edge(r))
    } else {
        line_meets_segment(s, x_max_edge(r)) || line_meets_segment(s, y_max_edge(r))
    }
}

impl<N: Num> Seg<N> {
    /// Create a new line segment
    pub fn new(p0: Pt<N>, p1: Pt<N>) -> (r: Self)
        ensures
            r.p0 == p0,
            r.p1 == p1,
    {
        Self { p0, p1 }
    }
}

/// Products of two values within `2^32` in size stay within `2^64`.
proof fn lemma_mul_bound(a: int, b: int)
    requires
        -0x1_0000_0000 <= a <= 0x1_0000_0000,
        -0x1_0000_0000 <= b <= 0x1_0000_0000,
    ensures
        -0x1_0000_0000_0000_0000 <= a * b <= 0x1_0000_0000_0000_0000,
{
    assert(-0x1_0000_0000_0000_0000 <= a * b <= 0x1_0000_0000_0000_0000) by (nonlinear_arith)
        requires
            -0x1_0000_0000 <= a <= 0x1_0000_0000,
            -0x1_0000_0000 <= b <= 0x1_0000_0000,
    ;
}

/// The cross product of two vectors whose parts are within `2^32` in size.
fn cross_i128(ux: i128, uy: i128, vx: i128, vy: i128) -> (r: i128)
    requires
        -0x1_0000_0000 <= ux <= 0x1_0000_0000,
        -0x1_0000_0000 <= uy <= 0x1_0000_0000,
        -0x1_0000_0000 <= vx <= 0x1_0000_0000,
        -0x1_0000_0000 <= vy <= 0x1_0000_0000,
    ensures
        r == cross((ux as int, uy as int), (vx as int, vy as int)),
{
    proof {
        lemma_mul_bound(ux as int, vy as int);
        lemma_mul_bound(uy as int, vx as int);
    }
    ux * vy - uy * vx
}

impl Seg<i32> {
    /// Check if the line through this segment crosses another segment (or
    /// passes through it, where it is a single point)
    ///
    /// The test is made in exact integer arithmetic.
    fn intersects(self, rhs: Self) -> (r: bool)
        ensures
            r == line_meets_segment(self@, rhs@),
    {
        let dax = self.p1.x as i128 - self.p0.x as i128;
        let day = self.p1.y as i128 - self.p0.y as i128;
        let dbx = rhs.p1.x as i128 - rhs.p0.x as i128;
        let dby = rhs.p1.y as i128 - rhs.p0.y as i128;
        let wx = rhs.p0.x as i128 - self.p0.x as i128;
        let wy = rhs.p0.y as i128 - self.p0.y as i128;
        let den = cross_i128(dax, day, dbx, dby);
        let num = cross_i128(wx, wy, dax, day);
        if den > 0 {
            0 <= num && num <= den
        } else if den < 0 {
            den <= num && num <= 0
        } else {
            // `rhs` is a single point: it is met where it lies on the line.
            dbx == 0 && dby == 0 && (dax != 0 || day != 0) && num == 0
        }
    }
}

impl Bounded<i32> for Seg<i32> {
    fn bounded_by(self, bbox: BBox<i32>) -> (r: bool)
        ensures
            r == seg_bounded(self@, bbox@),
            bbox@.is_valid() ==> r == seg_meets_rect(self@, bbox@),
    {
        proof {
            if bbox@.is_valid() {
                lemma_seg_bounded_iff_meets_rect(self@, bbox@);
            }
        }
        let p0 = bbox.check(self.p0.x, self.p0.y);
        let p1 = bbox.check(self.p1.x, self.p1.y);
        match (p0, p1) {
            (Bounds::Within, _) | (_, Bounds::Within) => true,
            // both opposite horizontally
            (Bounds::Left, Bounds::Right) => true,
            (Bounds::Right, Bounds::Left) => true,
            // both opposite vertically
            (Bounds::Below, Bounds::Above) => true,
            (Bounds::Above, Bounds::Below) => true,
            (
                Bounds::Left | Bounds::BelowLeft | Bounds::AboveLeft,
                Bounds::Left | Bounds::BelowLeft | Bounds::AboveLeft,
            ) => false,
            (
                Bounds::Right | Bounds::BelowRight | Bounds::AboveRight,
                Bounds::Right | Bounds::BelowRight | Bounds::AboveRight,
            ) => false,
            (
                Bounds::Below | Bounds::BelowLeft | Bounds::BelowRight,
                Bounds::Below | Bounds::BelowLeft | Bounds::BelowRight,
            ) => false,
            (
                Bounds::Above | Bounds::AboveLeft | Bounds::AboveRight,
                Bounds::Above | Bounds::AboveLeft | Bounds::AboveRight,
            ) => false,
            (Bounds::Left, _) | (_, Bounds::Left) => { self.intersects(bbox.x_min_edge()) },
            (Bounds::Right, _) | (_, Bounds::Right) => { self.intersects(bbox.x_max_edge()) },
            (Bounds::BelowLeft, _) | (_, Bounds::BelowLeft) => {
                self.intersects(bbox.x_min_edge()) || self.intersects(bbox.y_min_edge())
            },
            (Bounds::AboveLeft, _) | (_, Bounds::AboveLeft) => {
                self.intersects(bbox.x_min_edge()) || self.intersects(bbox.y_max_edge())
            },
            (Bounds::BelowRight, _) | (_, Bounds::BelowRight) => {
                self.intersects(bbox.x_max_edge()) || self.intersects(bbox.y_min_edge())
            },
            (Bounds::AboveRight, _) | (_, Bounds::AboveRight) => {
                self.intersects(bbox.x_max_edge()) || self.intersects(bbox.y_max_edge())
            },
        }
    }
}

// Private BBox helper functions
impl<N: Num> BBox<N> {
    /// Get edge on X min side
    fn x_min_edge(self) -> (r: Seg<N>)
        ensures
            r@ == x_min_edge(self@),
    {
        let xmn = self.x_min();
        Seg::new(Pt::new(xmn, self.y_min()), Pt::new(xmn, self.y_max()))
    }

    /// Get edge on X max side
    fn x_max_edge(self) -> (r: Seg<N>)
        ensures
            r@ == x_max_edge(self@),
    {
        let xmx = self.x_max();
        Seg::new(Pt::new(xmx, self.y_min()), Pt::new(xmx, self.y_max()))
    }

    /// Get edge on Y min side
    fn y_min_edge(self) -> (r: Seg<N>)
        ensures
            r@ == y_min_edge(self@),
    {
        let ymn = self.y_min();
        Seg::new(Pt::new(self.x_min(), ymn), Pt::new(self.x_max(), ymn))
    }

    /// Get edge on Y max side
    fn y_max_edge(self) -> (r: Seg<N>)
        ensures
            r@ == y_max_edge(self@),
    {
        let ymx = self.y_max();
        Seg::new(Pt::new(self.x_min(), ymx), Pt::new(self.x_max(), ymx))
    }
}

} // verus!
