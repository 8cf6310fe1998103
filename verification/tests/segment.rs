use pointy::{BBox, Bounded, Pt, Seg};

/// A coordinate in tenths of a unit: the library's integer coordinates hold
/// the decimal values of these tests exactly.
fn d(v: f64) -> i32 {
    (v * 10.0).round() as i32
}

fn pt(x: f64, y: f64) -> Pt<i32> {
    Pt::new(d(x), d(y))
}

fn seg(p0: (f64, f64), p1: (f64, f64)) -> Seg<i32> {
    Seg::new(pt(p0.0, p0.1), pt(p1.0, p1.1))
}

#[test]
fn bounded() {
    let b = BBox::new(&[pt(0.0, 0.0), pt(1.0, 1.0)]);
    assert!(seg((0.0, 0.0), (1.0, 1.0)).bounded_by(b));
    assert!(seg((1.0, 1.0), (2.0, 2.0)).bounded_by(b));
    assert!(seg((0.0, 0.0), (-1.0, -1.0)).bounded_by(b));
    assert!(!seg((2.0, 2.0), (3.0, 3.0)).bounded_by(b));
    assert!(!seg((-1.0, -1.0), (-2.0, -2.0)).bounded_by(b));
    assert!(seg((0.5, 0.5), (1.5, 0.5)).bounded_by(b));
    assert!(seg((0.5, 0.5), (0.5, 1.5)).bounded_by(b));
    assert!(seg((0.5, 1.5), (1.5, 0.5)).bounded_by(b));
    assert!(!seg((0.5, 1.6), (1.6, 0.5)).bounded_by(b));
    assert!(seg((-0.5, 0.5), (1.5, 0.5)).bounded_by(b));
    assert!(seg((0.5, -0.5), (0.5, 1.5)).bounded_by(b));
}

#[test]
fn segment_new_keeps_endpoints() {
    let s = Seg::new(Pt::new(1, 2), Pt::new(-3, 4));
    assert_eq!(s.p0, Pt::new(1, 2));
    assert_eq!(s.p1, Pt::new(-3, 4));
}

#[test]
fn segment_across_corner_regions() {
    let b = BBox::new(&[Pt::new(0, 0), Pt::new(10, 10)]);
    // below-left to above-right, through the box
    assert!(Seg::new(Pt::new(-5, -5), Pt::new(15, 15)).bounded_by(b));
    // below-left to above-right, passing left of the box
    assert!(!Seg::new(Pt::new(-5, -1), Pt::new(5, 30)).bounded_by(b));
    // through the top-left corner exactly
    assert!(Seg::new(Pt::new(-5, 5), Pt::new(5, 15)).bounded_by(b));
    // left to below, missing the corner
    assert!(!Seg::new(Pt::new(-5, 1), Pt::new(2, -8)).bounded_by(b));
    // left to below, cutting the corner
    assert!(Seg::new(Pt::new(-5, 5), Pt::new(5, -5)).bounded_by(b));
    // above-left to below-right, across the middle
    assert!(Seg::new(Pt::new(-5, 15), Pt::new(15, -5)).bounded_by(b));
    // below-right to above, missing on the right
    assert!(!Seg::new(Pt::new(20, -5), Pt::new(9, 30)).bounded_by(b));
}

#[test]
fn segment_endpoint_within_is_bounded() {
    let b = BBox::new(&[Pt::new(0, 0), Pt::new(10, 10)]);
    assert!(Seg::new(Pt::new(3, 3), Pt::new(100, -100)).bounded_by(b));
    assert!(Seg::new(Pt::new(-100, 50), Pt::new(10, 10)).bounded_by(b));
}

#[test]
fn segment_beyond_one_edge_is_not_bounded() {
    let b = BBox::new(&[Pt::new(0, 0), Pt::new(10, 10)]);
    assert!(!Seg::new(Pt::new(-1, -100), Pt::new(-5, 100)).bounded_by(b));
    assert!(!Seg::new(Pt::new(-100, 11), Pt::new(100, 12)).bounded_by(b));
}

#[test]
fn segment_with_large_coordinates() {
    let b = BBox::new(&[Pt::new(i32::MIN, i32::MIN), Pt::new(-1, -1)]);
    assert!(Seg::new(Pt::new(i32::MAX, i32::MIN), Pt::new(i32::MIN, i32::MAX - 10)).bounded_by(b));
    assert!(!Seg::new(Pt::new(0, i32::MAX), Pt::new(i32::MAX, 0)).bounded_by(b));
}

#[test]
fn segment_through_single_point_box() {
    // A box of one point bounds exactly the segments that pass through it.
    let b = BBox::from(Pt::new(0, 0));
    assert!(Seg::new(Pt::new(-1, 0), Pt::new(1, 0)).bounded_by(b));
    assert!(Seg::new(Pt::new(0, 0), Pt::new(5, 7)).bounded_by(b));
    assert!(Seg::new(Pt::new(-1, -1), Pt::new(1, 1)).bounded_by(b));
    assert!(Seg::new(Pt::new(-3, 2), Pt::new(3, -2)).bounded_by(b));
    assert!(!Seg::new(Pt::new(-1, -2), Pt::new(1, 1)).bounded_by(b));
    assert!(!Seg::new(Pt::new(-2, 3), Pt::new(3, -1)).bounded_by(b));
    assert!(!Seg::new(Pt::new(1, 1), Pt::new(3, 3)).bounded_by(b));
}

#[test]
fn segment_bounded_by_thin_boxes() {
    // a box of no height
    let flat = BBox::new(&[Pt::new(-5, 0), Pt::new(5, 0)]);
    assert!(Seg::new(Pt::new(-1, -1), Pt::new(1, 1)).bounded_by(flat));
    assert!(!Seg::new(Pt::new(-9, -1), Pt::new(-7, 1)).bounded_by(flat));
    // a box of no width
    let tall = BBox::new(&[Pt::new(0, -5), Pt::new(0, 5)]);
    assert!(Seg::new(Pt::new(-1, -1), Pt::new(1, 1)).bounded_by(tall));
    assert!(!Seg::new(Pt::new(-1, 6), Pt::new(1, 8)).bounded_by(tall));
}

#[test]
fn one_point_segment_is_bounded_as_its_point() {
    let b = BBox::new(&[Pt::new(0, 0), Pt::new(10, 10)]);
    for p in [Pt::new(5, 5), Pt::new(10, 0), Pt::new(-1, 5), Pt::new(11, 11)] {
        assert_eq!(Seg::new(p, p).bounded_by(b), p.bounded_by(b));
    }
}
