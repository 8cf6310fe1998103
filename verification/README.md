# pointy

Points, axis-aligned bounding boxes and line segments in the plane, verified
with Verus.

- `src/num.rs`: the `Num` coordinate trait; each value stands for an integer,
  and `i32` implements it.
- `src/point.rs`: `Pt`, a point.
- `src/bbox.rs`: `BBox`, its extent `Rect`, the `Bounded` trait and the
  `Bounds` positions, with the laws of boxes (a box made from points is the
  least box holding them, extending twice is extending once with both lists,
  clamping lands in the box, and so on).
- `src/segment.rs`: `Seg`, and the test of whether a segment lies at least
  partly inside a box, computed in exact integer arithmetic.
- `src/geometry.rs`: the proof that this test holds exactly when some point of
  the segment lies within the box (for every box that holds a point).
- `app/`: serde forms of the types, and the operations that need floating
  point (distances, midpoints, points where segments cross, clipping).
