//! How the segment test of `Bounded` relates to the geometry of the plane.
use crate::bbox::{bounds_of, lemma_check_within, Bounds, Rect};
use crate::segment::{
    cross, delta, is_downward, is_leftward, is_rightward, is_upward, line_meets_segment,
    seg_bounded, x_max_edge, x_min_edge, y_max_edge, y_min_edge,
};
use vstd::prelude::*;

verus! {

/// The same segment with its endpoints swapped.
pub open spec fn reversed(s: ((int, int), (int, int))) -> ((int, int), (int, int)) {
    (s.1, s.0)
}

/// The point at fraction `k / m` of the way along segment `s`, with both of
/// its coordinates multiplied by `m`.
pub open spec fn scaled_point(s: ((int, int), (int, int)), k: int, m: int) -> (int, int) {
    (m * s.0.0 + k * (s.1.0 - s.0.0), m * s.0.1 + k * (s.1.1 - s.0.1))
}

/// Whether `q`, a point with coordinates multiplied by `m`, lies within `r`.
pub open spec fn scaled_within(r: Rect, q: (int, int), m: int) -> bool {
    &&& m * r.x_min <= q.0 <= m * r.x_max
    &&& m * r.y_min <= q.1 <= m * r.y_max
}

/// Whether the point at fraction `k / m` along segment `s` lies within `r`.
pub open spec fn point_within(s: ((int, int), (int, int)), r: Rect, k: int, m: int) -> bool {
    &&& 0 < m
    &&& 0 <= k <= m
    &&& scaled_within(r, scaled_point(s, k, m), m)
}

/// Whether some point of segment `s` lies within `r`.
///
/// The points considered are those at a rational fraction of the way along
/// the segment; where the segment meets the box at all, the part they share is
/// a point or a segment with rational ends, so this loses nothing.
pub open spec fn seg_meets_rect(s: ((int, int), (int, int)), r: Rect) -> bool {
    exists|k: int, m: int| #[trigger] point_within(s, r, k, m)
}

/// Where a line from `(u0, v0)` in direction `(du, dv)` crosses `u == c`:
/// the `v` coordinate of that point, multiplied by `du`.
pub open spec fn cross_v(u0: int, du: int, v0: int, dv: int, c: int) -> int {
    du * v0 + (c - u0) * dv
}

/// Whether a line from `(u0, v0)` in direction `(du, dv)` meets the part of
/// `u == c` where `v` lies within `lo..=hi`: it crosses that line there, or,
/// where the part is a single point and the line runs along `u == c`, it
/// passes through that point.
pub open spec fn crossing_ok(u0: int, du: int, v0: int, dv: int, c: int, lo: int, hi: int) -> bool {
    let y = cross_v(u0, du, v0, dv, c);
    if du > 0 {
        du * lo <= y <= du * hi
    } else if du < 0 {
        du * hi <= y <= du * lo
    } else {
        lo == hi && dv != 0 && c == u0
    }
}

proof fn lemma_scale_le(m: int, a: int, b: int)
    requires
        0 < m,
        a <= b,
    ensures
        m * a <= m * b,
{
    assert(m * a <= m * b) by (nonlinear_arith)
        requires
            0 < m,
            a <= b,
    ;
}

proof fn lemma_scale_lt(m: int, a: int, b: int)
    requires
        0 < m,
        a < b,
    ensures
        m * a < m * b,
{
    assert(m * a < m * b) by (nonlinear_arith)
        requires
            0 < m,
            a < b,
    ;
}

/// A point between two values below `c` is below `c`.
proof fn lemma_comb_below(a0: int, a1: int, c: int, k: int, m: int)
    requires
        a0 < c,
        a1 < c,
        0 < m,
        0 <= k <= m,
    ensures
        m * a0 + k * (a1 - a0) < m * c,
{
    assert(m * a0 + k * (a1 - a0) < m * c) by (nonlinear_arith)
        requires
            a0 < c,
            a1 < c,
            0 < m,
            0 <= k <= m,
    {
        assert(m * a0 + k * (a1 - a0) == (m - k) * a0 + k * a1);
        assert((m - k) * a0 <= (m - k) * c);
        assert(k * a1 <= k * c);
        if k == 0 {
            assert(m * a0 < m * c);
        } else {
            assert(k * a1 < k * c);
        }
        assert((m - k) * c + k * c == m * c);
    }
}

/// A point between two values above `c` is above `c`.
proof fn lemma_comb_above(a0: int, a1: int, c: int, k: int, m: int)
    requires
        a0 > c,
        a1 > c,
        0 < m,
        0 <= k <= m,
    ensures
        m * a0 + k * (a1 - a0) > m * c,
{
    lemma_comb_below(-a0, -a1, -c, k, m);
    assert(m * (-a0) + k * (-a1 - -a0) == -(m * a0 + k * (a1 - a0))) by (nonlinear_arith);
    assert(m * (-c) == -(m * c)) by (nonlinear_arith);
}

/// A point between two values within `lo..=hi` is within `lo..=hi`.
proof fn lemma_comb_between(a0: int, a1: int, lo: int, hi: int, k: int, m: int)
    requires
        lo <= a0 <= hi,
        lo <= a1 <= hi,
        0 < m,
        0 <= k <= m,
    ensures
        m * lo <= m * a0 + k * (a1 - a0) <= m * hi,
{
    assert(m * lo <= m * a0 + k * (a1 - a0) <= m * hi) by (nonlinear_arith)
        requires
            lo <= a0 <= hi,
            lo <= a1 <= hi,
            0 < m,
            0 <= k <= m,
    {
        assert(m * a0 + k * (a1 - a0) == (m - k) * a0 + k * a1);
        assert((m - k) * lo <= (m - k) * a0 <= (m - k) * hi);
        assert(k * lo <= k * a1 <= k * hi);
        assert((m - k) * lo + k * lo == m * lo);
        assert((m - k) * hi + k * hi == m * hi);
    }
}

/// Against a vertical edge `x == c`, `y` within `lo..=hi`, the line through
/// `s` meets the edge exactly when it crosses `x == c` within `lo..=hi`.
proof fn lemma_vertical_meets(s: ((int, int), (int, int)), c: int, lo: int, hi: int)
    requires
        lo <= hi,
    ensures
        line_meets_segment(s, ((c, lo), (c, hi))) == crossing_ok(
            s.0.0,
            s.1.0 - s.0.0,
            s.0.1,
            s.1.1 - s.0.1,
            c,
            lo,
            hi,
        ),
{
    let u0 = s.0.0;
    let v0 = s.0.1;
    let du = s.1.0 - s.0.0;
    let dv = s.1.1 - s.0.1;
    let y = cross_v(u0, du, v0, dv, c);
    let den = cross(delta(s.0, s.1), delta((c, lo), (c, hi)));
    let num = cross(delta(s.0, (c, lo)), delta(s.0, s.1));
    assert(den == du * (hi - lo) - dv * (c - c));
    assert(du * (hi - lo) - dv * (c - c) == du * hi - du * lo) by (nonlinear_arith);
    assert(num == (c - u0) * dv - (lo - v0) * du);
    assert((c - u0) * dv - (lo - v0) * du == du * v0 + (c - u0) * dv - du * lo) by (nonlinear_arith);
    if lo == hi {
        assert(du * hi == du * lo);
        assert(delta((c, lo), (c, hi)) == (0int, 0int));
        if du == 0 {
            assert(du * v0 == 0 && du * lo == 0) by (nonlinear_arith)
                requires
                    du == 0,
            ;
            assert((c - u0) * dv == 0 <==> (c == u0 || dv == 0)) by (nonlinear_arith);
        }
    } else if du > 0 {
        lemma_scale_lt(du, lo, hi);
    } else if du < 0 {
        lemma_scale_lt(-du, lo, hi);
        assert((-du) * lo == -(du * lo) && (-du) * hi == -(du * hi)) by (nonlinear_arith);
    } else {
        assert(du * hi == 0 && du * lo == 0) by (nonlinear_arith)
            requires
                du == 0,
        ;
    }
}

/// Against a horizontal edge `y == c`, `x` within `lo..=hi`, the line through
/// `s` meets the edge exactly when it crosses `y == c` within `lo..=hi`.
proof fn lemma_horizontal_meets(s: ((int, int), (int, int)), c: int, lo: int, hi: int)
    requires
        lo <= hi,
    ensures
        line_meets_segment(s, ((lo, c), (hi, c))) == crossing_ok(
            s.0.1,
            s.1.1 - s.0.1,
            s.0.0,
            s.1.0 - s.0.0,
            c,
            lo,
            hi,
        ),
{
    let u0 = s.0.1;
    let v0 = s.0.0;
    let du = s.1.1 - s.0.1;
    let dv = s.1.0 - s.0.0;
    let x = cross_v(u0, du, v0, dv, c);
    let den = cross(delta(s.0, s.1), delta((lo, c), (hi, c)));
    let num = cross(delta(s.0, (lo, c)), delta(s.0, s.1));
    assert(den == dv * (c - c) - du * (hi - lo));
    assert(dv * (c - c) - du * (hi - lo) == du * lo - du * hi) by (nonlinear_arith);
    assert(num == (lo - v0) * du - (c - u0) * dv);
    assert((lo - v0) * du - (c - u0) * dv == du * lo - (du * v0 + (c - u0) * dv)) by (nonlinear_arith);
    if lo == hi {
        assert(du * hi == du * lo);
        assert(delta((lo, c), (hi, c)) == (0int, 0int));
        if du == 0 {
            assert(du * v0 == 0 && du * lo == 0) by (nonlinear_arith)
                requires
                    du == 0,
            ;
            assert((c - u0) * dv == 0 <==> (c == u0 || dv == 0)) by (nonlinear_arith);
        }
    } else if du > 0 {
        lemma_scale_lt(du, lo, hi);
    } else if du < 0 {
        lemma_scale_lt(-du, lo, hi);
        assert((-du) * lo == -(du * lo) && (-du) * hi == -(du * hi)) by (nonlinear_arith);
    } else {
        assert(du * hi == 0 && du * lo == 0) by (nonlinear_arith)
            requires
                du == 0,
        ;
    }
}

/// Swapping a segment's endpoints does not change whether its line meets a
/// segment.
proof fn lemma_reversed_meets(s: ((int, int), (int, int)), e: ((int, int), (int, int)))
    ensures
        line_meets_segment(reversed(s), e) == line_meets_segment(s, e),
{
    let d = delta(s.0, s.1);
    let db = delta(e.0, e.1);
    let den = cross(d, db);
    let num = cross(delta(s.0, e.0), d);
    let den2 = cross(delta(s.1, s.0), db);
    let num2 = cross(delta(s.1, e.0), delta(s.1, s.0));
    assert(den2 == -den) by (nonlinear_arith)
        requires
            den == d.0 * db.1 - d.1 * db.0,
            den2 == (s.0.0 - s.1.0) * db.1 - (s.0.1 - s.1.1) * db.0,
            d.0 == s.1.0 - s.0.0,
            d.1 == s.1.1 - s.0.1,
    ;
    assert(num2 == -num) by (nonlinear_arith)
        requires
            num == (e.0.0 - s.0.0) * d.1 - (e.0.1 - s.0.1) * d.0,
            num2 == (e.0.0 - s.1.0) * (s.0.1 - s.1.1) - (e.0.1 - s.1.1) * (s.0.0 - s.1.0),
            d.0 == s.1.0 - s.0.0,
            d.1 == s.1.1 - s.0.1,
    ;
}

/// The point `k / m` along a segment is the point `(m - k) / m` along the
/// reversed segment.
proof fn lemma_reversed_point(s: ((int, int), (int, int)), r: Rect, k: int, m: int)
    requires
        point_within(s, r, k, m),
    ensures
        point_within(reversed(s), r, m - k, m),
{
    assert(scaled_point(reversed(s), m - k, m) == scaled_point(s, k, m)) by {
        assert(m * s.1.0 + (m - k) * (s.0.0 - s.1.0) == m * s.0.0 + k * (s.1.0 - s.0.0))
            by (nonlinear_arith);
        assert(m * s.1.1 + (m - k) * (s.0.1 - s.1.1) == m * s.0.1 + k * (s.1.1 - s.0.1))
            by (nonlinear_arith);
    }
}

/// A segment from `(u0, v0)`, below `c` in `u`, reaches a point at or above
/// `c` whose `v` lies within `lo..=hi`. Then it crosses `u == c` on the way
/// there, and the `v` where it crosses lies between `v0` and that point's `v`.
proof fn lemma_between_below(
    u0: int,
    du: int,
    v0: int,
    dv: int,
    c: int,
    k: int,
    m: int,
    lo: int,
    hi: int,
)
    requires
        u0 < c,
        0 < m,
        0 <= k <= m,
        m * u0 + k * du >= m * c,
        m * lo <= m * v0 + k * dv <= m * hi,
    ensures
        du > 0,
        0 < c - u0 <= du,
        (dv >= 0 || v0 <= hi) ==> cross_v(u0, du, v0, dv, c) <= du * hi,
        (dv <= 0 || v0 >= lo) ==> cross_v(u0, du, v0, dv, c) >= du * lo,
{
    let a = c - u0;
    let y = cross_v(u0, du, v0, dv, c);
    // The point is at or beyond the crossing: k * du >= m * a > 0.
    assert(k * du >= m * a) by (nonlinear_arith)
        requires
            m * u0 + k * du >= m * c,
            a == c - u0,
    ;
    lemma_scale_lt(m, 0, a);
    assert(du > 0) by (nonlinear_arith)
        requires
            k * du > 0,
            k >= 0,
    ;
    assert(m * a <= m * du) by (nonlinear_arith)
        requires
            k * du >= m * a,
            k <= m,
            du > 0,
    ;
    assert(a <= du) by (nonlinear_arith)
        requires
            m * a <= m * du,
            m > 0,
    ;
    if dv >= 0 {
        assert(y <= du * hi) by (nonlinear_arith)
            requires
                y == du * v0 + a * dv,
                m * v0 + k * dv <= m * hi,
                m * a <= k * du,
                dv >= 0,
                du > 0,
                m > 0,
        {
            assert(m * y == du * (m * v0) + (m * a) * dv);
            assert((m * a) * dv <= (k * du) * dv);
            assert(du * (m * v0) + (k * du) * dv == du * (m * v0 + k * dv));
            assert(du * (m * v0 + k * dv) <= du * (m * hi));
            assert(m * y <= m * (du * hi));
        }
    } else if v0 <= hi {
        assert(y <= du * hi) by (nonlinear_arith)
            requires
                y == du * v0 + a * dv,
                a > 0,
                dv < 0,
                du > 0,
                v0 <= hi,
        ;
    }
    if dv <= 0 {
        assert(y >= du * lo) by (nonlinear_arith)
            requires
                y == du * v0 + a * dv,
                m * v0 + k * dv >= m * lo,
                m * a <= k * du,
                dv <= 0,
                du > 0,
                m > 0,
        {
            assert(m * y == du * (m * v0) + (m * a) * dv);
            assert((m * a) * dv >= (k * du) * dv);
            assert(du * (m * v0) + (k * du) * dv == du * (m * v0 + k * dv));
            assert(du * (m * v0 + k * dv) >= du * (m * lo));
            assert(m * y >= m * (du * lo));
        }
    } else if v0 >= lo {
        assert(y >= du * lo) by (nonlinear_arith)
            requires
                y == du * v0 + a * dv,
                a > 0,
                dv > 0,
                du > 0,
                v0 >= lo,
        ;
    }
}

/// A segment from `(u0, v0)`, above `c` in `u`, reaches a point at or below
/// `c` whose `v` lies within `lo..=hi`. Then it crosses `u == c` on the way
/// there, and the `v` where it crosses lies between `v0` and that point's `v`.
proof fn lemma_between_above(
    u0: int,
    du: int,
    v0: int,
    dv: int,
    c: int,
    k: int,
    m: int,
    lo: int,
    hi: int,
)
    requires
        u0 > c,
        0 < m,
        0 <= k <= m,
        m * u0 + k * du <= m * c,
        m * lo <= m * v0 + k * dv <= m * hi,
    ensures
        du < 0,
        0 < u0 - c <= -du,
        (dv >= 0 || v0 <= hi) ==> cross_v(u0, du, v0, dv, c) >= du * hi,
        (dv <= 0 || v0 >= lo) ==> cross_v(u0, du, v0, dv, c) <= du * lo,
{
    assert(m * (-u0) + k * (-du) == -(m * u0 + k * du)) by (nonlinear_arith);
    assert(m * (-c) == -(m * c)) by (nonlinear_arith);
    lemma_between_below(-u0, -du, v0, dv, -c, k, m, lo, hi);
    assert(cross_v(-u0, -du, v0, dv, -c) == -cross_v(u0, du, v0, dv, c)) by (nonlinear_arith);
    assert((-du) * hi == -(du * hi) && (-du) * lo == -(du * lo)) by (nonlinear_arith);
}

/// Where a segment from `u0` to `u1` (which differ) passes `u == c`: the
/// fraction `k / m` of the way along it, and the `v` there, multiplied by `m`.
proof fn lemma_cross_point(u0: int, u1: int, v0: int, v1: int, c: int) -> (km: (int, int))
    requires
        (u0 < u1 && u0 <= c <= u1) || (u1 < u0 && u1 <= c <= u0),
    ensures
        0 < km.1,
        0 <= km.0 <= km.1,
        km.1 * u0 + km.0 * (u1 - u0) == km.1 * c,
        u0 < u1 ==> km.1 == u1 - u0 && km.1 * v0 + km.0 * (v1 - v0) == cross_v(
            u0,
            u1 - u0,
            v0,
            v1 - v0,
            c,
        ),
        u1 < u0 ==> km.1 == u0 - u1 && km.1 * v0 + km.0 * (v1 - v0) == -cross_v(
            u0,
            u1 - u0,
            v0,
            v1 - v0,
            c,
        ),
{
    let du = u1 - u0;
    let dv = v1 - v0;
    if u0 < u1 {
        assert(du * u0 + (c - u0) * du == du * c) by (nonlinear_arith);
        (c - u0, du)
    } else {
        assert((-du) * u0 + (u0 - c) * du == (-du) * c) by (nonlinear_arith);
        assert((-du) * v0 + (u0 - c) * dv == -(du * v0 + (c - u0) * dv)) by (nonlinear_arith);
        (u0 - c, -du)
    }
}

/// Where a line crosses two perpendicular lines: the two crossings compare
/// with the second line in opposite ways.
proof fn lemma_corner_identity(a: int, du: int, b: int, dv: int, cx: int, cy: int)
    ensures
        cross_v(a, du, b, dv, cx) - du * cy == -(cross_v(b, dv, a, du, cy) - dv * cx),
{
    assert(du * b + (cx - a) * dv - du * cy == -(dv * a + (cy - b) * du - dv * cx))
        by (nonlinear_arith);
}

/// Where the segment passes `x == c` inside the box's span of `x`, and its line
/// meets the box's vertical edge there, that crossing is a point of the
/// segment within the box.
proof fn lemma_vertical_witness(s: ((int, int), (int, int)), r: Rect, c: int)
    requires
        r.is_valid(),
        r.x_min <= c <= r.x_max,
        (s.0.0 < s.1.0 && s.0.0 <= c <= s.1.0) || (s.1.0 < s.0.0 && s.1.0 <= c <= s.0.0),
        line_meets_segment(s, ((c, r.y_min), (c, r.y_max))),
    ensures
        seg_meets_rect(s, r),
{
    lemma_vertical_meets(s, c, r.y_min, r.y_max);
    let km = lemma_cross_point(s.0.0, s.1.0, s.0.1, s.1.1, c);
    let k = km.0;
    let m = km.1;
    lemma_scale_le(m, r.x_min, c);
    lemma_scale_le(m, c, r.x_max);
    let du = s.1.0 - s.0.0;
    assert((-du) * r.y_min == -(du * r.y_min) && (-du) * r.y_max == -(du * r.y_max))
        by (nonlinear_arith);
    assert(point_within(s, r, k, m));
}

/// Where the segment passes `y == c` inside the box's span of `y`, and its line
/// meets the box's horizontal edge there, that crossing is a point of the
/// segment within the box.
proof fn lemma_horizontal_witness(s: ((int, int), (int, int)), r: Rect, c: int)
    requires
        r.is_valid(),
        r.y_min <= c <= r.y_max,
        (s.0.1 < s.1.1 && s.0.1 <= c <= s.1.1) || (s.1.1 < s.0.1 && s.1.1 <= c <= s.0.1),
        line_meets_segment(s, ((r.x_min, c), (r.x_max, c))),
    ensures
        seg_meets_rect(s, r),
{
    lemma_horizontal_meets(s, c, r.x_min, r.x_max);
    let km = lemma_cross_point(s.0.1, s.1.1, s.0.0, s.1.0, c);
    let k = km.0;
    let m = km.1;
    lemma_scale_le(m, r.y_min, c);
    lemma_scale_le(m, c, r.y_max);
    let du = s.1.1 - s.0.1;
    assert((-du) * r.x_min == -(du * r.x_min) && (-du) * r.x_max == -(du * r.x_max))
        by (nonlinear_arith);
    assert(point_within(s, r, k, m));
}

/// Where both ends of a segment lie within the box's span of `y`, on opposite
/// sides of it in `x`, the segment passes through the box.
proof fn lemma_across_x(s: ((int, int), (int, int)), r: Rect)
    requires
        r.is_valid(),
        r.y_min <= s.0.1 <= r.y_max,
        r.y_min <= s.1.1 <= r.y_max,
        (s.0.0 < r.x_min && s.1.0 > r.x_max) || (s.1.0 < r.x_min && s.0.0 > r.x_max),
    ensures
        seg_meets_rect(s, r),
{
    let km = lemma_cross_point(s.0.0, s.1.0, s.0.1, s.1.1, r.x_min);
    let k = km.0;
    let m = km.1;
    lemma_scale_le(m, r.x_min, r.x_max);
    lemma_comb_between(s.0.1, s.1.1, r.y_min, r.y_max, k, m);
    assert(point_within(s, r, k, m));
}

/// Where both ends of a segment lie within the box's span of `x`, on opposite
/// sides of it in `y`, the segment passes through the box.
proof fn lemma_across_y(s: ((int, int), (int, int)), r: Rect)
    requires
        r.is_valid(),
        r.x_min <= s.0.0 <= r.x_max,
        r.x_min <= s.1.0 <= r.x_max,
        (s.0.1 < r.y_min && s.1.1 > r.y_max) || (s.1.1 < r.y_min && s.0.1 > r.y_max),
    ensures
        seg_meets_rect(s, r),
{
    let km = lemma_cross_point(s.0.1, s.1.1, s.0.0, s.1.0, r.y_min);
    let k = km.0;
    let m = km.1;
    lemma_scale_le(m, r.y_min, r.y_max);
    lemma_comb_between(s.0.0, s.1.0, r.x_min, r.x_max, k, m);
    assert(point_within(s, r, k, m));
}

/// A segment that starts beside a box, where its other end is above or below
/// the box: if any of its points lies within, it runs out through the edge
/// that it starts beside. This is that edge on the X min side.
proof fn lemma_left_enters(s: ((int, int), (int, int)), r: Rect, k: int, m: int)
    requires
        r.is_valid(),
        point_within(s, r, k, m),
        s.0.0 < r.x_min,
        r.y_min <= s.0.1 <= r.y_max,
        s.1.1 < r.y_min || s.1.1 > r.y_max,
    ensures
        line_meets_segment(s, x_min_edge(r)),
{
    let du = s.1.0 - s.0.0;
    let dv = s.1.1 - s.0.1;
    lemma_between_below(s.0.0, du, s.0.1, dv, r.x_min, k, m, r.y_min, r.y_max);
    lemma_vertical_meets(s, r.x_min, r.y_min, r.y_max);
}

/// As `lemma_left_enters`, for a segment that starts beside the X max side.
proof fn lemma_right_enters(s: ((int, int), (int, int)), r: Rect, k: int, m: int)
    requires
        r.is_valid(),
        point_within(s, r, k, m),
        s.0.0 > r.x_max,
        r.y_min <= s.0.1 <= r.y_max,
        s.1.1 < r.y_min || s.1.1 > r.y_max,
    ensures
        line_meets_segment(s, x_max_edge(r)),
{
    let du = s.1.0 - s.0.0;
    let dv = s.1.1 - s.0.1;
    lemma_between_above(s.0.0, du, s.0.1, dv, r.x_max, k, m, r.y_min, r.y_max);
    lemma_vertical_meets(s, r.x_max, r.y_min, r.y_max);
}

/// A segment that starts beyond a corner of a box: if any of its points lies
/// within, it runs in through one of the two edges at that corner. This is
/// the corner of the X min and Y min sides.
proof fn lemma_below_left_enters(s: ((int, int), (int, int)), r: Rect, k: int, m: int)
    requires
        r.is_valid(),
        point_within(s, r, k, m),
        s.0.0 < r.x_min,
        s.0.1 < r.y_min,
    ensures
        line_meets_segment(s, x_min_edge(r)) || line_meets_segment(s, y_min_edge(r)),
{
    let du = s.1.0 - s.0.0;
    let dv = s.1.1 - s.0.1;
    lemma_between_below(s.0.0, du, s.0.1, dv, r.x_min, k, m, r.y_min, r.y_max);
    lemma_between_below(s.0.1, dv, s.0.0, du, r.y_min, k, m, r.x_min, r.x_max);
    lemma_corner_identity(s.0.0, du, s.0.1, dv, r.x_min, r.y_min);
    lemma_vertical_meets(s, r.x_min, r.y_min, r.y_max);
    lemma_horizontal_meets(s, r.y_min, r.x_min, r.x_max);
}

/// As `lemma_below_left_enters`, for the corner of the X min and Y max sides.
proof fn lemma_above_left_enters(s: ((int, int), (int, int)), r: Rect, k: int, m: int)
    requires
        r.is_valid(),
        point_within(s, r, k, m),
        s.0.0 < r.x_min,
        s.0.1 > r.y_max,
    ensures
        line_meets_segment(s, x_min_edge(r)) || line_meets_segment(s, y_max_edge(r)),
{
    let du = s.1.0 - s.0.0;
    let dv = s.1.1 - s.0.1;
    lemma_between_below(s.0.0, du, s.0.1, dv, r.x_min, k, m, r.y_min, r.y_max);
    lemma_between_above(s.0.1, dv, s.0.0, du, r.y_max, k, m, r.x_min, r.x_max);
    lemma_corner_identity(s.0.0, du, s.0.1, dv, r.x_min, r.y_max);
    lemma_vertical_meets(s, r.x_min, r.y_min, r.y_max);
    lemma_horizontal_meets(s, r.y_max, r.x_min, r.x_max);
}

/// As `lemma_below_left_enters`, for the corner of the X max and Y min sides.
proof fn lemma_below_right_enters(s: ((int, int), (int, int)), r: Rect, k: int, m: int)
    requires
        r.is_valid(),
        point_within(s, r, k, m),
        s.0.0 > r.x_max,
        s.0.1 < r.y_min,
    ensures
        line_meets_segment(s, x_max_edge(r)) || line_meets_segment(s, y_min_edge(r)),
{
    let du = s.1.0 - s.0.0;
    let dv = s.1.1 - s.0.1;
    lemma_between_above(s.0.0, du, s.0.1, dv, r.x_max, k, m, r.y_min, r.y_max);
    lemma_between_below(s.0.1, dv, s.0.0, du, r.y_min, k, m, r.x_min, r.x_max);
    lemma_corner_identity(s.0.0, du, s.0.1, dv, r.x_max, r.y_min);
    lemma_vertical_meets(s, r.x_max, r.y_min, r.y_max);
    lemma_horizontal_meets(s, r.y_min, r.x_min, r.x_max);
}

/// As `lemma_below_left_enters`, for the corner of the X max and Y max sides.
proof fn lemma_above_right_enters(s: ((int, int), (int, int)), r: Rect, k: int, m: int)
    requires
        r.is_valid(),
        point_within(s, r, k, m),
        s.0.0 > r.x_max,
        s.0.1 > r.y_max,
    ensures
        line_meets_segment(s, x_max_edge(r)) || line_meets_segment(s, y_max_edge(r)),
{
    let du = s.1.0 - s.0.0;
    let dv = s.1.1 - s.0.1;
    lemma_between_above(s.0.0, du, s.0.1, dv, r.x_max, k, m, r.y_min, r.y_max);
    lemma_between_above(s.0.1, dv, s.0.0, du, r.y_max, k, m, r.x_min, r.x_max);
    lemma_corner_identity(s.0.0, du, s.0.1, dv, r.x_max, r.y_max);
    lemma_vertical_meets(s, r.x_max, r.y_min, r.y_max);
    lemma_horizontal_meets(s, r.y_max, r.x_min, r.x_max);
}

/// A segment that the test of `Bounded` accepts has a point within the box.
pub proof fn lemma_bounded_seg_meets_rect(s: ((int, int), (int, int)), r: Rect)
    requires
        r.is_valid(),
        seg_bounded(s, r),
    ensures
        seg_meets_rect(s, r),
{
    lemma_check_within(r, s.0);
    lemma_check_within(r, s.1);
    let b0 = bounds_of(r, s.0);
    let b1 = bounds_of(r, s.1);
    if b0 == Bounds::Within {
        assert(point_within(s, r, 0, 1));
    } else if b1 == Bounds::Within {
        assert(point_within(s, r, 1, 1));
    } else if (b0 == Bounds::Left && b1 == Bounds::Right) || (b0 == Bounds::Right && b1
        == Bounds::Left) {
        lemma_across_x(s, r);
    } else if (b0 == Bounds::Below && b1 == Bounds::Above) || (b0 == Bounds::Above && b1
        == Bounds::Below) {
        lemma_across_y(s, r);
    } else if (is_leftward(b0) && is_leftward(b1)) || (is_rightward(b0) && is_rightward(b1)) || (
    is_downward(b0) && is_downward(b1)) || (is_upward(b0) && is_upward(b1)) {
    } else if b0 == Bounds::Left || b1 == Bounds::Left {
        lemma_vertical_witness(s, r, r.x_min);
    } else if b0 == Bounds::Right || b1 == Bounds::Right {
        lemma_vertical_witness(s, r, r.x_max);
    } else if b0 == Bounds::BelowLeft || b1 == Bounds::BelowLeft {
        if line_meets_segment(s, x_min_edge(r)) {
            lemma_vertical_witness(s, r, r.x_min);
        } else {
            lemma_horizontal_witness(s, r, r.y_min);
        }
    } else if b0 == Bounds::AboveLeft || b1 == Bounds::AboveLeft {
        if line_meets_segment(s, x_min_edge(r)) {
            lemma_vertical_witness(s, r, r.x_min);
        } else {
            lemma_horizontal_witness(s, r, r.y_max);
        }
    } else if b0 == Bounds::BelowRight || b1 == Bounds::BelowRight {
        if line_meets_segment(s, x_max_edge(r)) {
            lemma_vertical_witness(s, r, r.x_max);
        } else {
            lemma_horizontal_witness(s, r, r.y_min);
        }
    } else {
        if line_meets_segment(s, x_max_edge(r)) {
            lemma_vertical_witness(s, r, r.x_max);
        } else {
            lemma_horizontal_witness(s, r, r.y_max);
        }
    }
}

/// A segment with a point within a box is accepted by the test of `Bounded`.
pub proof fn lemma_seg_meets_rect_bounded(s: ((int, int), (int, int)), r: Rect)
    requires
        r.is_valid(),
        seg_meets_rect(s, r),
    ensures
        seg_bounded(s, r),
{
    let (k, m) = choose|k: int, m: int| point_within(s, r, k, m);
    let rs = reversed(s);
    lemma_reversed_point(s, r, k, m);
    lemma_reversed_meets(s, x_min_edge(r));
    lemma_reversed_meets(s, x_max_edge(r));
    lemma_reversed_meets(s, y_min_edge(r));
    lemma_reversed_meets(s, y_max_edge(r));
    lemma_check_within(r, s.0);
    lemma_check_within(r, s.1);
    let b0 = bounds_of(r, s.0);
    let b1 = bounds_of(r, s.1);
    if b0 == Bounds::Within || b1 == Bounds::Within {
    } else if (b0 == Bounds::Left && b1 == Bounds::Right) || (b0 == Bounds::Right && b1
        == Bounds::Left) || (b0 == Bounds::Below && b1 == Bounds::Above) || (b0 == Bounds::Above
        && b1 == Bounds::Below) {
    } else if is_leftward(b0) && is_leftward(b1) {
        lemma_comb_below(s.0.0, s.1.0, r.x_min, k, m);
    } else if is_rightward(b0) && is_rightward(b1) {
        lemma_comb_above(s.0.0, s.1.0, r.x_max, k, m);
    } else if is_downward(b0) && is_downward(b1) {
        lemma_comb_below(s.0.1, s.1.1, r.y_min, k, m);
    } else if is_upward(b0) && is_upward(b1) {
        lemma_comb_above(s.0.1, s.1.1, r.y_max, k, m);
    } else if b0 == Bounds::Left {
        lemma_left_enters(s, r, k, m);
    } else if b1 == Bounds::Left {
        lemma_left_enters(rs, r, m - k, m);
    } else if b0 == Bounds::Right {
        lemma_right_enters(s, r, k, m);
    } else if b1 == Bounds::Right {
        lemma_right_enters(rs, r, m - k, m);
    } else if b0 == Bounds::BelowLeft {
        lemma_below_left_enters(s, r, k, m);
    } else if b1 == Bounds::BelowLeft {
        lemma_below_left_enters(rs, r, m - k, m);
    } else if b0 == Bounds::AboveLeft {
        lemma_above_left_enters(s, r, k, m);
    } else if b1 == Bounds::AboveLeft {
        lemma_above_left_enters(rs, r, m - k, m);
    } else if b0 == Bounds::BelowRight {
        lemma_below_right_enters(s, r, k, m);
    } else if b1 == Bounds::BelowRight {
        lemma_below_right_enters(rs, r, m - k, m);
    } else if b0 == Bounds::AboveRight {
        lemma_above_right_enters(s, r, k, m);
    } else {
        lemma_above_right_enters(rs, r, m - k, m);
    }
}

/// A segment is bounded by a box (at least partially inside it) exactly when
/// some point of the segment lies within the box, for every box that holds a
/// point.
pub proof fn lemma_seg_bounded_iff_meets_rect(s: ((int, int), (int, int)), r: Rect)
    requires
        r.is_valid(),
    ensures
        seg_bounded(s, r) == seg_meets_rect(s, r),
{
    if seg_bounded(s, r) {
        lemma_bounded_seg_meets_rect(s, r);
    }
    if seg_meets_rect(s, r) {
        lemma_seg_meets_rect_bounded(s, r);
    }
}

/// Swapping a segment's endpoints changes neither whether it is bounded by a
/// box nor whether it has a point within it.
pub proof fn lemma_reversed_bounded(s: ((int, int), (int, int)), r: Rect)
    ensures
        seg_bounded(reversed(s), r) == seg_bounded(s, r),
        seg_meets_rect(reversed(s), r) == seg_meets_rect(s, r),
{
    lemma_reversed_meets(s, x_min_edge(r));
    lemma_reversed_meets(s, x_max_edge(r));
    lemma_reversed_meets(s, y_min_edge(r));
    lemma_reversed_meets(s, y_max_edge(r));
    if seg_meets_rect(s, r) {
        let (k, m) = choose|k: int, m: int| point_within(s, r, k, m);
        lemma_reversed_point(s, r, k, m);
    }
    if seg_meets_rect(reversed(s), r) {
        let (k, m) = choose|k: int, m: int| point_within(reversed(s), r, k, m);
        lemma_reversed_point(reversed(s), r, k, m);
        assert(reversed(reversed(s)) == s);
    }
}

/// A segment whose two endpoints are the same point is bounded by a box
/// exactly when that point is.
pub proof fn lemma_point_seg_bounded(p: (int, int), r: Rect)
    ensures
        seg_bounded((p, p), r) == r.contains(p),
{
    lemma_check_within(r, p);
}

/// A segment with an endpoint within a box is bounded by it, and one with both
/// endpoints beyond the same side of a box that holds a point is not.
pub proof fn lemma_seg_bounded_simple_cases(s: ((int, int), (int, int)), r: Rect)
    ensures
        r.contains(s.0) || r.contains(s.1) ==> seg_bounded(s, r),
        r.is_valid() && ((s.0.0 < r.x_min && s.1.0 < r.x_min) || (s.0.0 > r.x_max && s.1.0
            > r.x_max) || (s.0.1 < r.y_min && s.1.1 < r.y_min) || (s.0.1 > r.y_max && s.1.1
            > r.y_max)) ==> !seg_bounded(s, r),
{
    lemma_check_within(r, s.0);
    lemma_check_within(r, s.1);
}

} // verus!
