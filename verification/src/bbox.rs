//! Bounding boxes
use crate::num::{clamp_int, max_int, min_int, Num};
use crate::point::Pt;
use std::cmp::Ordering;
use vstd::prelude::*;

verus! {

/// The integer extent of a bounding box: its least and greatest coordinates.
pub struct Rect {
    pub x_min: int,
    pub y_min: int,
    pub x_max: int,
    pub y_max: int,
}

impl Rect {
    /// Whether a point lies within the extent, edges included.
    pub open spec fn contains(self, p: (int, int)) -> bool {
        &&& self.x_min <= p.0 <= self.x_max
        &&& self.y_min <= p.1 <= self.y_max
    }

    /// Whether two extents share at least one point of the plane.
    pub open spec fn overlaps(self, other: Rect) -> bool {
        &&& self.x_min <= other.x_max
        &&& self.x_max >= other.x_min
        &&& self.y_min <= other.y_max
        &&& self.y_max >= other.y_min
    }

    /// Whether the extent holds any point at all.
    pub open spec fn is_valid(self) -> bool {
        self.x_min <= self.x_max && self.y_min <= self.y_max
    }

    /// The extent of a single point.
    pub open spec fn of_point(p: (int, int)) -> Rect {
        Rect { x_min: p.0, y_min: p.1, x_max: p.0, y_max: p.1 }
    }

    /// The least extent that holds this one and the point `p`.
    pub open spec fn cover(self, p: (int, int)) -> Rect {
        Rect {
            x_min: min_int(self.x_min, p.0),
            y_min: min_int(self.y_min, p.1),
            x_max: max_int(self.x_max, p.0),
            y_max: max_int(self.y_max, p.1),
        }
    }
}

/// The extent of a box that starts from `r` and takes in each point of `pts`
/// in turn.
pub open spec fn extended<N: Num>(r: Rect, pts: Seq<Pt<N>>) -> Rect
    decreases pts.len(),
{
    if pts.len() == 0 {
        r
    } else {
        extended(r, pts.drop_last()).cover(pts.last()@)
    }
}

/// The extent of the default box: least coordinates at the largest value,
/// greatest at the smallest, so that it holds no point.
pub open spec fn empty_rect<N: Num>() -> Rect {
    Rect { x_min: N::highest(), y_min: N::highest(), x_max: N::lowest(), y_max: N::lowest() }
}

/// Trait for comparing a shape with a bounding box
pub trait Bounded<N: Num> {
    /// Check if inside a bounding box (at least partially)
    fn bounded_by(self, bbox: BBox<N>) -> bool;
}

/// Position relative to bounding box, used by [Bounded](trait.Bounded.html)
/// trait
#[derive(Clone, Copy, Debug, PartialEq, Eq, Structural)]
pub enum Bounds {
    /// Within box
    Within,
    /// Below box
    Below,
    /// Below and left of box
    BelowLeft,
    /// Left of box
    Left,
    /// Above and left of box
    AboveLeft,
    /// Above box
    Above,
    /// Above and right of box
    AboveRight,
    /// Right of box
    Right,
    /// Below and right of box
    BelowRight,
}

/// Where `v` lies against `lo..=hi`: -1 below, 0 within, 1 above.
pub open spec fn side(v: int, lo: int, hi: int) -> int {
    if v < lo {
        -1
    } else if v > hi {
        1
    } else {
        0
    }
}

/// The position of point `p` relative to extent `r`.
pub open spec fn bounds_of(r: Rect, p: (int, int)) -> Bounds {
    let h = side(p.0, r.x_min, r.x_max);
    let v = side(p.1, r.y_min, r.y_max);
    if h < 0 {
        if v < 0 {
            Bounds::BelowLeft
        } else if v == 0 {
            Bounds::Left
        } else {
            Bounds::AboveLeft
        }
    } else if h == 0 {
        if v < 0 {
            Bounds::Below
        } else if v == 0 {
            Bounds::Within
        } else {
            Bounds::Above
        }
    } else {
        if v < 0 {
            Bounds::BelowRight
        } else if v == 0 {
            Bounds::Right
        } else {
            Bounds::AboveRight
        }
    }
}

/// Axis-aligned bounding box
#[derive(Clone, Copy, Debug, PartialEq, Eq)]
pub struct BBox<N> {
    pts: [Pt<N>; 2],
}

impl<N: Num> View for BBox<N> {
    type V = Rect;

    /// The box's extent: the first corner holds the least coordinates, the
    /// second the greatest.
    closed spec fn view(&self) -> Rect {
        Rect {
            x_min: self.pts[0].x.val(),
            y_min: self.pts[0].y.val(),
            x_max: self.pts[1].x.val(),
            y_max: self.pts[1].y.val(),
        }
    }
}

/// Iterator for points in a bounding box
pub struct BBoxIter<N> {
    pts: [Pt<N>; 2],
    i: u8,
}

impl<N: Num> BBoxIter<N> {
    /// The points that the iterator has yet to give, in order.
    pub closed spec fn remaining(self) -> Seq<Pt<N>> {
        if self.i == 0 {
            seq![self.pts[0], self.pts[1]]
        } else if self.i == 1 {
            seq![self.pts[1]]
        } else {
            seq![]
        }
    }

    fn new(pts: [Pt<N>; 2]) -> (r: Self)
        ensures
            r.remaining() == seq![pts[0], pts[1]],
    {
        Self { pts, i: 0 }
    }

    /// Get the next point: the least corner, then the greatest, then none
    pub fn next(&mut self) -> (r: Option<Pt<N>>)
        ensures
            old(self).remaining().len() == 0 ==> r is None && final(self).remaining()
                == old(self).remaining(),
            old(self).remaining().len() > 0 ==> r == Some(old(self).remaining()[0])
                && final(self).remaining() == old(self).remaining().drop_first(),
    {
        if self.i == 0 {
            self.i = 1;
            assert(seq![self.pts[0], self.pts[1]].drop_first() =~= seq![self.pts[1]]);
            Some(self.pts[0])
        } else if self.i == 1 {
            self.i = 2;
            assert(seq![self.pts[1]].drop_first() =~= Seq::<Pt<N>>::empty());
            Some(self.pts[1])
        } else {
            None
        }
    }
}

impl<N: Num> Default for BBox<N> {
    fn default() -> (r: Self)
        ensures
            r@ == empty_rect::<N>(),
    {
        // min > max results in no valid bounds
        let minp = Pt::new(N::max_value(), N::max_value());
        let maxp = Pt::new(N::min_value(), N::min_value());
        let pts = [minp, maxp];
        Self { pts }
    }
}

impl<N: Num> From<Pt<N>> for BBox<N> {
    fn from(pt: Pt<N>) -> (r: Self)
        ensures
            r@ == Rect::of_point(pt@),
    {
        Self { pts: [pt, pt] }
    }
}

impl<N: Num> From<&Pt<N>> for BBox<N> {
    fn from(pt: &Pt<N>) -> (r: Self)
        ensures
            r@ == Rect::of_point(pt@),
    {
        Self { pts: [*pt, *pt] }
    }
}

impl<N: Num> vstd::std_specs::convert::FromSpecImpl<&Pt<N>> for BBox<N> {
    open spec fn obeys_from_spec() -> bool {
        true
    }

    closed spec fn from_spec(pt: &Pt<N>) -> Self {
        Self { pts: [*pt, *pt] }
    }
}

impl<N: Num> vstd::std_specs::convert::FromSpecImpl<Pt<N>> for BBox<N> {
    open spec fn obeys_from_spec() -> bool {
        true
    }

    closed spec fn from_spec(pt: Pt<N>) -> Self {
        Self { pts: [pt, pt] }
    }
}

impl<N: Num> Bounded<N> for BBox<N> {
    fn bounded_by(self, bbox: BBox<N>) -> (r: bool)
        ensures
            r == self@.overlaps(bbox@),
            r == (self@.x_min <= bbox@.x_max && self@.x_max >= bbox@.x_min && self@.y_min
                <= bbox@.y_max && self@.y_max >= bbox@.y_min),
            self@.is_valid() && bbox@.is_valid() ==> (r <==> exists|p: (int, int)|
                #[trigger] self@.contains(p) && bbox@.contains(p)),
    {
        proof {
            lemma_overlaps_iff_common_point(self@, bbox@);
        }
        !self.x_max().is_less(bbox.x_min()) && !bbox.x_max().is_less(self.x_min())
            && !self.y_max().is_less(bbox.y_min()) && !bbox.y_max().is_less(self.y_min())
    }
}

impl<N: Num> BBox<N> {
    /// Create a new axis-aligned bounding box holding a set of points
    pub fn new(pts: &[Pt<N>]) -> (r: Self)
        ensures
            r@ == extended(empty_rect::<N>(), pts@),
    {
        let mut bbox = Self::default();
        bbox.extend(pts);
        bbox
    }

    /// Extend bounding box with a set of points
    pub fn extend(&mut self, pts: &[Pt<N>])
        ensures
            final(self)@ == extended(old(self)@, pts@),
    {
        let ghost start = self@;
        let mut i: usize = 0;
        while i < pts.len()
            invariant
                i <= pts.len(),
                self@ == extended(start, pts@.take(i as int)),
            decreases pts.len() - i,
        {
            self.extend_pt(pts[i]);
            assert(pts@.take(i + 1).drop_last() =~= pts@.take(i as int));
            i += 1;
        }
        assert(pts@.take(pts.len() as int) =~= pts@);
    }

    /// Include a point in bounding box
    fn extend_pt(&mut self, p: Pt<N>)
        ensures
            final(self)@ == old(self)@.cover(p@),
    {
        let minp = self.pts[0].with_min(p);
        let maxp = self.pts[1].with_max(p);
        self.pts = [minp, maxp];
    }

    /// Clamp a point to the bounding box
    pub fn clamp(&self, p: Pt<N>) -> (r: Pt<N>)
        requires
            self@.is_valid(),
        ensures
            r@ == (clamp_int(p@.0, self@.x_min, self@.x_max), clamp_int(
                p@.1,
                self@.y_min,
                self@.y_max,
            )),
    {
        let x = p.x.clamp(self.x_min(), self.x_max());
        let y = p.y.clamp(self.y_min(), self.y_max());
        Pt::new(x, y)
    }

    /// Get the minimum X value
    pub fn x_min(self) -> (r: N)
        ensures
            r.val() == self@.x_min,
    {
        self.pts[0].x
    }

    /// Get the maximum X value
    pub fn x_max(self) -> (r: N)
        ensures
            r.val() == self@.x_max,
    {
        self.pts[1].x
    }

    /// Get the minimum Y value
    pub fn y_min(self) -> (r: N)
        ensures
            r.val() == self@.y_min,
    {
        self.pts[0].y
    }

    /// Get the maximum Y value
    pub fn y_max(self) -> (r: N)
        ensures
            r.val() == self@.y_max,
    {
        self.pts[1].y
    }

    /// Get the X span
    pub fn x_span(self) -> (r: N)
        requires
            N::lowest() <= self@.x_max - self@.x_min <= N::highest(),
        ensures
            r.val() == self@.x_max - self@.x_min,
    {
        self.x_max().sub(self.x_min())
    }

    /// Get the Y span
    pub fn y_span(self) -> (r: N)
        requires
            N::lowest() <= self@.y_max - self@.y_min <= N::highest(),
        ensures
            r.val() == self@.y_max - self@.y_min,
    {
        self.y_max().sub(self.y_min())
    }

    /// Check bounds
    pub fn check(self, x: N, y: N) -> (r: Bounds)
        ensures
            r == bounds_of(self@, (x.val(), y.val())),
    {
        let x = if x.is_less(self.x_min()) {
            Ordering::Less
        } else if self.x_max().is_less(x) {
            Ordering::Greater
        } else {
            Ordering::Equal
        };
        let y = if y.is_less(self.y_min()) {
            Ordering::Less
        } else if self.y_max().is_less(y) {
            Ordering::Greater
        } else {
            Ordering::Equal
        };
        match (x, y) {
            (Ordering::Equal, Ordering::Equal) => Bounds::Within,
            (Ordering::Less, Ordering::Less) => Bounds::BelowLeft,
            (Ordering::Less, Ordering::Equal) => Bounds::Left,
            (Ordering::Less, Ordering::Greater) => Bounds::AboveLeft,
            (Ordering::Equal, Ordering::Greater) => Bounds::Above,
            (Ordering::Greater, Ordering::Greater) => Bounds::AboveRight,
            (Ordering::Greater, Ordering::Equal) => Bounds::Right,
            (Ordering::Greater, Ordering::Less) => Bounds::BelowRight,
            (Ordering::Equal, Ordering::Less) => Bounds::Below,
        }
    }

    /// Iterate over the two corners: least coordinates, then greatest
    pub fn into_iter(self) -> (r: BBoxIter<N>)
        ensures
            r.remaining().len() == 2,
            r.remaining()[0]@ == (self@.x_min, self@.y_min),
            r.remaining()[1]@ == (self@.x_max, self@.y_max),
    {
        BBoxIter::new(self.pts)
    }
}

impl<N: Num> Bounded<N> for Pt<N> {
    fn bounded_by(self, bbox: BBox<N>) -> (r: bool)
        ensures
            r == bbox@.contains(self@),
    {
        bbox.check(self.x, self.y) == Bounds::Within
    }
}

/// Every point that a box is extended with lies within the result.
pub proof fn lemma_extended_contains<N: Num>(r: Rect, pts: Seq<Pt<N>>, i: int)
    requires
        0 <= i < pts.len(),
    ensures
        extended(r, pts).contains(pts[i]@),
    decreases pts.len(),
{
    if i < pts.len() - 1 {
        lemma_extended_contains(r, pts.drop_last(), i);
    }
}

/// Extending a box never shrinks it: the result reaches at least as far as
/// the start on every side, so it holds every point that the start holds.
pub proof fn lemma_extended_grows<N: Num>(r: Rect, pts: Seq<Pt<N>>)
    ensures
        extended(r, pts).x_min <= r.x_min,
        extended(r, pts).y_min <= r.y_min,
        extended(r, pts).x_max >= r.x_max,
        extended(r, pts).y_max >= r.y_max,
    decreases pts.len(),
{
    if pts.len() > 0 {
        lemma_extended_grows(r, pts.drop_last());
    }
}

/// Each bound of an extended box is the start's bound or a coordinate of
/// one of the points: extending adds nothing beyond what is needed.
pub proof fn lemma_extended_tight<N: Num>(r: Rect, pts: Seq<Pt<N>>)
    ensures
        extended(r, pts).x_min == r.x_min || exists|i: int|
            0 <= i < pts.len() && extended(r, pts).x_min == #[trigger] pts[i]@.0,
        extended(r, pts).y_min == r.y_min || exists|i: int|
            0 <= i < pts.len() && extended(r, pts).y_min == #[trigger] pts[i]@.1,
        extended(r, pts).x_max == r.x_max || exists|i: int|
            0 <= i < pts.len() && extended(r, pts).x_max == #[trigger] pts[i]@.0,
        extended(r, pts).y_max == r.y_max || exists|i: int|
            0 <= i < pts.len() && extended(r, pts).y_max == #[trigger] pts[i]@.1,
    decreases pts.len(),
{
    if pts.len() > 0 {
        let init = pts.drop_last();
        let last = pts.len() - 1;
        lemma_extended_tight(r, init);
        assert(pts[last] == pts.last());
        assert forall|i: int| 0 <= i < init.len() implies #[trigger] init[i] == pts[i] by {}
    }
}

/// Extending a box with one list of points and then another is extending it
/// with the two lists joined.
pub proof fn lemma_extended_concat<N: Num>(r: Rect, a: Seq<Pt<N>>, b: Seq<Pt<N>>)
    ensures
        extended(extended(r, a), b) == extended(r, a + b),
    decreases b.len(),
{
    if b.len() == 0 {
        assert(a + b =~= a);
    } else {
        lemma_extended_concat(r, a, b.drop_last());
        assert((a + b).drop_last() =~= a + b.drop_last());
        assert((a + b).last() == b.last());
    }
}

/// A box made from a list of points is the least box holding them all: it
/// holds every point, and each of its bounds is a coordinate of some point.
/// From no points at all it is the default box, which holds no point.
pub proof fn lemma_new_is_least<N: Num>(pts: Seq<Pt<N>>)
    ensures
        pts.len() == 0 ==> extended(empty_rect::<N>(), pts) == empty_rect::<N>(),
        forall|i: int|
            0 <= i < pts.len() ==> #[trigger] extended(empty_rect::<N>(), pts).contains(pts[i]@),
        pts.len() > 0 ==> {
            let e = extended(empty_rect::<N>(), pts);
            &&& exists|i: int| 0 <= i < pts.len() && e.x_min == #[trigger] pts[i]@.0
            &&& exists|i: int| 0 <= i < pts.len() && e.y_min == #[trigger] pts[i]@.1
            &&& exists|i: int| 0 <= i < pts.len() && e.x_max == #[trigger] pts[i]@.0
            &&& exists|i: int| 0 <= i < pts.len() && e.y_max == #[trigger] pts[i]@.1
        },
{
    let r = empty_rect::<N>();
    let e = extended(r, pts);
    assert forall|i: int| 0 <= i < pts.len() implies #[trigger] e.contains(pts[i]@) by {
        lemma_extended_contains(r, pts, i);
    }
    if pts.len() > 0 {
        lemma_extended_tight(r, pts);
        pts[0].x.lemma_range();
        pts[0].y.lemma_range();
        assert(e.contains(pts[0]@));
    }
}

/// Every box that the library builds is the default box or one that holds a
/// point: extending keeps that so.
pub proof fn lemma_extended_shape<N: Num>(r: Rect, pts: Seq<Pt<N>>)
    requires
        r == empty_rect::<N>() || r.is_valid(),
    ensures
        extended(r, pts) == empty_rect::<N>() || extended(r, pts).is_valid(),
        pts.len() > 0 ==> extended(r, pts).is_valid(),
    decreases pts.len(),
{
    if pts.len() > 0 {
        lemma_extended_shape(r, pts.drop_last());
        pts.last().x.lemma_range();
        pts.last().y.lemma_range();
    }
}

/// The default box holds no point.
pub proof fn lemma_default_is_empty<N: Num>(p: (int, int))
    ensures
        !empty_rect::<N>().contains(p),
        !empty_rect::<N>().is_valid(),
{
    N::lemma_lowest_below_highest();
}

/// Extending the default box with one point gives the box of that point.
pub proof fn lemma_default_extended_by_point<N: Num>(p: Pt<N>)
    ensures
        extended(empty_rect::<N>(), seq![p]) == Rect::of_point(p@),
{
    p.x.lemma_range();
    p.y.lemma_range();
    assert(seq![p].drop_last() =~= Seq::<Pt<N>>::empty());
    assert(extended(empty_rect::<N>(), seq![p].drop_last()) == empty_rect::<N>());
}

/// A clamped point lies within the box it was clamped to.
pub proof fn lemma_clamp_within(r: Rect, p: (int, int))
    requires
        r.is_valid(),
    ensures
        r.contains((clamp_int(p.0, r.x_min, r.x_max), clamp_int(p.1, r.y_min, r.y_max))),
{
}

/// Clamping leaves a point that lies within the box as it is, so clamping
/// twice is clamping once.
pub proof fn lemma_clamp_fixes_contained(r: Rect, p: (int, int))
    requires
        r.contains(p),
    ensures
        (clamp_int(p.0, r.x_min, r.x_max), clamp_int(p.1, r.y_min, r.y_max)) == p,
{
}

/// Of all points of the box, the clamped point is nearest to the given one
/// along each axis.
pub proof fn lemma_clamp_nearest(r: Rect, p: (int, int), q: (int, int))
    requires
        r.is_valid(),
        r.contains(q),
    ensures
        abs_int(clamp_int(p.0, r.x_min, r.x_max) - p.0) <= abs_int(q.0 - p.0),
        abs_int(clamp_int(p.1, r.y_min, r.y_max) - p.1) <= abs_int(q.1 - p.1),
{
}

/// The absolute value of an integer.
pub open spec fn abs_int(v: int) -> int {
    if v < 0 {
        -v
    } else {
        v
    }
}

/// Two boxes that each hold a point overlap exactly when some point lies in
/// both: their spans of `x` meet and their spans of `y` meet.
pub proof fn lemma_overlaps_iff_common_point(a: Rect, b: Rect)
    ensures
        a.overlaps(b) == (a.x_min <= b.x_max && b.x_min <= a.x_max && a.y_min <= b.y_max && b.y_min
            <= a.y_max),
        a.is_valid() && b.is_valid() ==> (a.overlaps(b) <==> exists|p: (int, int)|
            #[trigger] a.contains(p) && b.contains(p)),
{
    if a.is_valid() && b.is_valid() {
        if a.overlaps(b) {
            let q = (max_int(a.x_min, b.x_min), max_int(a.y_min, b.y_min));
            assert(a.contains(q) && b.contains(q));
        }
        if exists|p: (int, int)| #[trigger] a.contains(p) && b.contains(p) {
            let p = choose|p: (int, int)| #[trigger] a.contains(p) && b.contains(p);
            assert(a.contains(p) && b.contains(p));
        }
    }
}

/// Whether one box is bounded by another does not depend on which is which.
pub proof fn lemma_overlaps_symmetric(a: Rect, b: Rect)
    ensures
        a.overlaps(b) == b.overlaps(a),
{
}

/// A point is bounded by a box exactly when the box of that point is.
pub proof fn lemma_point_box_bounded(p: (int, int), r: Rect)
    ensures
        Rect::of_point(p).overlaps(r) == r.contains(p),
{
}

/// A point's position is `Within` exactly when the box holds it; every other
/// position names the side or corner where it lies beyond the box.
pub proof fn lemma_check_within(r: Rect, p: (int, int))
    ensures
        (bounds_of(r, p) == Bounds::Within) == r.contains(p),
        bounds_of(r, p) == Bounds::Left ==> p.0 < r.x_min && r.y_min <= p.1 <= r.y_max,
        bounds_of(r, p) == Bounds::Right ==> p.0 > r.x_max && r.y_min <= p.1 <= r.y_max,
        bounds_of(r, p) == Bounds::Below ==> p.1 < r.y_min && r.x_min <= p.0 <= r.x_max,
        bounds_of(r, p) == Bounds::Above ==> p.1 > r.y_max && r.x_min <= p.0 <= r.x_max,
        bounds_of(r, p) == Bounds::BelowLeft ==> p.0 < r.x_min && p.1 < r.y_min,
        bounds_of(r, p) == Bounds::AboveLeft ==> p.0 < r.x_min && p.1 > r.y_max,
        bounds_of(r, p) == Bounds::BelowRight ==> p.0 > r.x_max && p.1 < r.y_min,
        bounds_of(r, p) == Bounds::AboveRight ==> p.0 > r.x_max && p.1 > r.y_max,
{
}

/// The spans of a box that holds a point are never negative.
pub proof fn lemma_valid_spans(r: Rect)
    requires
        r.is_valid(),
    ensures
        r.x_max - r.x_min >= 0,
        r.y_max - r.y_min >= 0,
{
}

} // verus!
