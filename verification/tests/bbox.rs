use pointy::{BBox, Bounded, Bounds, Pt};

/// A coordinate in tenths of a unit: the library's integer coordinates hold
/// the decimal values of these tests exactly.
fn d(v: f64) -> i32 {
    (v * 10.0).round() as i32
}

fn pt(x: f64, y: f64) -> Pt<i32> {
    Pt::new(d(x), d(y))
}

#[test]
fn bounds() {
    let a = BBox::from(&pt(0.0, 0.0));
    assert_eq!(a.x_min(), d(0.0));
    assert_eq!(a.x_max(), d(0.0));
    assert_eq!(a.x_span(), d(0.0));
    assert_eq!(a.y_min(), d(0.0));
    assert_eq!(a.y_max(), d(0.0));
    assert_eq!(a.y_span(), d(0.0));
    let b = BBox::new(&[pt(0.0, 10.0), pt(100.0, 200.0)]);
    assert_eq!(b.x_min(), d(0.0));
    assert_eq!(b.x_max(), d(100.0));
    assert_eq!(b.x_span(), d(100.0));
    assert_eq!(b.y_min(), d(10.0));
    assert_eq!(b.y_max(), d(200.0));
    assert_eq!(b.y_span(), d(190.0));
}

#[test]
fn from_vec() {
    let pts = [pt(5.2, 55.8), pt(-58.8, 20.0), pt(150.0, -240.0)];
    let b = BBox::new(&pts);
    assert_eq!(b.x_min(), d(-58.8));
    assert_eq!(b.x_max(), d(150.0));
    assert_eq!(b.x_span(), d(208.8));
    assert_eq!(b.y_min(), d(-240.0));
    assert_eq!(b.y_max(), d(55.8));
    assert_eq!(b.y_span(), d(295.8));
}

#[test]
fn box_bounded_by() {
    let a = BBox::new(&[pt(0.0, 0.0), pt(1.0, 1.0)]);
    assert!(a.bounded_by(BBox::new(&[pt(0.0, 0.0), pt(5.0, 5.0)])));
    assert!(a.bounded_by(BBox::new(&[pt(-1.0, -1.0), pt(0.0, 0.0)])));
    assert!(a.bounded_by(BBox::new(&[pt(0.0, 0.5), pt(1.0, 1.0)])));
    assert!(a.bounded_by(BBox::new(&[pt(1.0, 1.0), pt(2.0, 2.0)])));
    assert!(!a.bounded_by(BBox::new(&[pt(1.1, 1.0), pt(2.0, 2.0)])));
    assert!(!a.bounded_by(BBox::new(&[pt(0.0, 10.0), pt(100.0, 200.0)])));
}

#[test]
fn pt_bounded_by() {
    let p = Pt::from((d(0.0), d(0.0)));
    assert!(p.bounded_by(BBox::new(&[pt(0.0, 0.0), pt(5.0, 5.0)])));
    assert!(p.bounded_by(BBox::new(&[pt(-1.0, -1.0), pt(0.0, 0.0)])));
    assert!(!p.bounded_by(BBox::new(&[pt(0.0, 0.5), pt(1.0, 1.0)])));
    assert!(!p.bounded_by(BBox::new(&[pt(1.0, 1.0), pt(2.0, 2.0)])));
    assert!(!p.bounded_by(BBox::new(&[pt(1.1, 1.0), pt(2.0, 2.0)])));
    assert!(!p.bounded_by(BBox::new(&[pt(0.0, 10.0), pt(100.0, 200.0)])));
    let p = Pt::from((d(1.0), d(1.1)));
    assert!(!p.bounded_by(BBox::new(&[pt(0.0, 0.0), pt(1.0, 1.0)])));
}

#[test]
fn extend() {
    let mut a = BBox::new(&[pt(0.0, 0.0), pt(1.0, 1.0)]);
    a.extend(&[pt(-1.0, -1.0)]);
    assert_eq!(a.x_min(), d(-1.0));
    assert_eq!(a.x_max(), d(1.0));
    assert_eq!(a.x_span(), d(2.0));
    assert_eq!(a.y_min(), d(-1.0));
    assert_eq!(a.y_max(), d(1.0));
    assert_eq!(a.y_span(), d(2.0));
    let mut a = BBox::default();
    a.extend(&[pt(0.0, 0.0)]);
    assert_eq!(a.x_min(), d(0.0));
    assert_eq!(a.x_max(), d(0.0));
    assert_eq!(a.x_span(), d(0.0));
    assert_eq!(a.y_min(), d(0.0));
    assert_eq!(a.y_max(), d(0.0));
    assert_eq!(a.y_span(), d(0.0));
}

#[test]
fn box_clamp() {
    let bbox = BBox::new(&[pt(0.0, 0.0), pt(5.0, 5.0)]);
    assert_eq!(pt(0.0, 0.0), bbox.clamp(pt(0.0, 0.0)));
    assert_eq!(pt(0.0, 0.0), bbox.clamp(pt(-5.0, 0.0)));
    assert_eq!(pt(0.0, 0.0), bbox.clamp(pt(0.0, -5.0)));
    assert_eq!(pt(5.0, 0.0), bbox.clamp(pt(10.0, 0.0)));
    assert_eq!(pt(0.0, 5.0), bbox.clamp(pt(0.0, 10.0)));
    assert_eq!(pt(5.0, 5.0), bbox.clamp(pt(10.0, 10.0)));
    assert_eq!(pt(2.0, 5.0), bbox.clamp(pt(2.0, 10.0)));
}

#[test]
fn check_names_each_region() {
    let b = BBox::new(&[Pt::new(0, 0), Pt::new(10, 10)]);
    assert_eq!(b.check(5, 5), Bounds::Within);
    assert_eq!(b.check(0, 10), Bounds::Within);
    assert_eq!(b.check(5, -1), Bounds::Below);
    assert_eq!(b.check(-1, -1), Bounds::BelowLeft);
    assert_eq!(b.check(-1, 5), Bounds::Left);
    assert_eq!(b.check(-1, 11), Bounds::AboveLeft);
    assert_eq!(b.check(5, 11), Bounds::Above);
    assert_eq!(b.check(11, 11), Bounds::AboveRight);
    assert_eq!(b.check(11, 5), Bounds::Right);
    assert_eq!(b.check(11, -1), Bounds::BelowRight);
}

#[test]
fn new_from_no_points_is_default() {
    let b = BBox::<i32>::new(&[]);
    assert_eq!(b, BBox::default());
    assert_eq!(b.x_min(), i32::MAX);
    assert_eq!(b.x_max(), i32::MIN);
    assert_eq!(b.y_min(), i32::MAX);
    assert_eq!(b.y_max(), i32::MIN);
    assert!(!Pt::new(0, 0).bounded_by(b));
}

#[test]
fn new_holds_every_point_tightly() {
    let pts = [Pt::new(3, -7), Pt::new(-2, 4), Pt::new(8, 1), Pt::new(0, 0)];
    let b = BBox::new(&pts);
    for p in pts {
        assert!(p.bounded_by(b));
    }
    assert_eq!((b.x_min(), b.y_min(), b.x_max(), b.y_max()), (-2, -7, 8, 4));
}

#[test]
fn extend_twice_is_extend_joined() {
    let a = [Pt::new(1, 2), Pt::new(-3, 5)];
    let c = [Pt::new(7, -1), Pt::new(0, 9)];
    let mut one = BBox::from(Pt::new(0, 0));
    one.extend(&a);
    one.extend(&c);
    let mut two = BBox::from(Pt::new(0, 0));
    two.extend(&[a[0], a[1], c[0], c[1]]);
    assert_eq!(one, two);
    assert_eq!((one.x_min(), one.y_min(), one.x_max(), one.y_max()), (-3, -1, 7, 9));
}

#[test]
fn extend_never_shrinks() {
    let mut b = BBox::new(&[Pt::new(-5, -5), Pt::new(5, 5)]);
    b.extend(&[Pt::new(1, 1), Pt::new(2, -3)]);
    assert_eq!((b.x_min(), b.y_min(), b.x_max(), b.y_max()), (-5, -5, 5, 5));
}

#[test]
fn default_extended_by_point_is_point_box() {
    let mut b = BBox::default();
    b.extend(&[Pt::new(4, -6)]);
    assert_eq!(b, BBox::from(Pt::new(4, -6)));
    assert_eq!(b, BBox::from(&Pt::new(4, -6)));
}

#[test]
fn clamp_is_within_and_idempotent() {
    let b = BBox::new(&[Pt::new(-3, 2), Pt::new(4, 9)]);
    let c = b.clamp(Pt::new(-10, 20));
    assert_eq!(c, Pt::new(-3, 9));
    assert!(c.bounded_by(b));
    assert_eq!(b.clamp(c), c);
    assert_eq!(b.clamp(Pt::new(1, 5)), Pt::new(1, 5));
}

#[test]
fn bounded_by_is_symmetric_for_boxes() {
    let a = BBox::new(&[Pt::new(0, 0), Pt::new(4, 4)]);
    let b = BBox::new(&[Pt::new(4, 3), Pt::new(9, 9)]);
    let c = BBox::new(&[Pt::new(5, 0), Pt::new(9, 9)]);
    assert!(a.bounded_by(b) && b.bounded_by(a));
    assert!(!a.bounded_by(c) && !c.bounded_by(a));
}

#[test]
fn point_bounded_iff_its_box_is() {
    let b = BBox::new(&[Pt::new(0, 0), Pt::new(4, 4)]);
    for p in [Pt::new(0, 4), Pt::new(2, 2), Pt::new(5, 2), Pt::new(-1, -1)] {
        assert_eq!(p.bounded_by(b), BBox::from(p).bounded_by(b));
    }
}

#[test]
fn iterator_gives_both_corners() {
    let b = BBox::new(&[Pt::new(6, -2), Pt::new(-1, 3)]);
    let mut it = b.into_iter();
    assert_eq!(it.next(), Some(Pt::new(-1, -2)));
    assert_eq!(it.next(), Some(Pt::new(6, 3)));
    assert_eq!(it.next(), None);
    assert_eq!(it.next(), None);
}

#[test]
fn point_with_min_and_max() {
    let a = Pt::new(3, -4);
    let b = Pt::new(-1, 7);
    assert_eq!(a.with_min(b), Pt::new(-1, -4));
    assert_eq!(a.with_max(b), Pt::new(3, 7));
}
