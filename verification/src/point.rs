//! Points in the plane.
use crate::num::{max_int, min_int, Num};
use vstd::prelude::*;

verus! {

/// A point in the plane
#[derive(Clone, Copy, Debug, PartialEq, Eq)]
pub struct Pt<N> {
    /// X coordinate
    pub x: N,
    /// Y coordinate
    pub y: N,
}

impl<N: Num> View for Pt<N> {
    type V = (int, int);

    /// The point's coordinates as integers.
    open spec fn view(&self) -> (int, int) {
        (self.x.val(), self.y.val())
    }
}

impl<N: Num> Pt<N> {
    /// Create a new point
    pub fn new(x: N, y: N) -> (r: Self)
        ensures
            r.x == x,
            r.y == y,
    {
        Pt { x, y }
    }

    /// Get the point with the smaller of each coordinate
    pub fn with_min(self, rhs: Self) -> (r: Self)
        ensures
            r@ == (min_int(self@.0, rhs@.0), min_int(self@.1, rhs@.1)),
    {
        Pt::new(self.x.min(rhs.x), self.y.min(rhs.y))
    }

    /// Get the point with the larger of each coordinate
    pub fn with_max(self, rhs: Self) -> (r: Self)
        ensures
            r@ == (max_int(self@.0, rhs@.0), max_int(self@.1, rhs@.1)),
    {
        Pt::new(self.x.max(rhs.x), self.y.max(rhs.y))
    }
}

impl<N: Num> From<(N, N)> for Pt<N> {
    fn from(pt: (N, N)) -> (r: Self)
        ensures
            r.x == pt.0,
            r.y == pt.1,
    {
        Pt { x: pt.0, y: pt.1 }
    }
}

impl<N: Num> vstd::std_specs::convert::FromSpecImpl<(N, N)> for Pt<N> {
    open spec fn obeys_from_spec() -> bool {
        true
    }

    open spec fn from_spec(pt: (N, N)) -> Self {
        Pt { x: pt.0, y: pt.1 }
    }
}

/// Converting an `(x, y)` pair into a point keeps its order: the first value
/// is the X coordinate and the second the Y coordinate.
pub proof fn lemma_from_pair<N: Num>(t: (N, N))
    ensures
        <Pt<N> as vstd::std_specs::convert::FromSpec<(N, N)>>::from_spec(t).x == t.0,
        <Pt<N> as vstd::std_specs::convert::FromSpec<(N, N)>>::from_spec(t).y == t.1,
        <Pt<N> as vstd::std_specs::convert::FromSpec<(N, N)>>::from_spec(t)@ == (
            t.0.val(),
            t.1.val(),
        ),
{
}

} // verus!
