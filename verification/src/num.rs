//! Number component type.
use vstd::prelude::*;

verus! {

/// The integer that `clamp` gives: `v` held within `lo..=hi`.
pub open spec fn clamp_int(v: int, lo: int, hi: int) -> int {
    if v < lo {
        lo
    } else if v > hi {
        hi
    } else {
        v
    }
}

/// The smaller of two integers.
pub open spec fn min_int(a: int, b: int) -> int {
    if a <= b {
        a
    } else {
        b
    }
}

/// The larger of two integers.
pub open spec fn max_int(a: int, b: int) -> int {
    if a >= b {
        a
    } else {
        b
    }
}

/// Number component type.
///
/// Each value stands for an integer, `val`, between `lowest()` and
/// `highest()`; every operation is stated over those integers.
pub trait Num: Copy + Sized {
    /// The integer this value stands for.
    spec fn val(self) -> int;

    /// The integer of the smallest value of the type.
    spec fn lowest() -> int;

    /// The integer of the largest value of the type.
    spec fn highest() -> int;

    /// Every value lies between the smallest and the largest.
    proof fn lemma_range(self)
        ensures
            Self::lowest() <= self.val() <= Self::highest(),
    ;

    /// The smallest value is below the largest.
    proof fn lemma_lowest_below_highest()
        ensures
            Self::lowest() < Self::highest(),
    ;

    /// Min type value
    fn min(self, other: Self) -> (r: Self)
        ensures
            r.val() == min_int(self.val(), other.val()),
    ;

    /// Max type value
    fn max(self, other: Self) -> (r: Self)
        ensures
            r.val() == max_int(self.val(), other.val()),
    ;

    /// Returns the minimum value of the type
    fn min_value() -> (r: Self)
        ensures
            r.val() == Self::lowest(),
    ;

    /// Returns the maximum value of the type
    fn max_value() -> (r: Self)
        ensures
            r.val() == Self::highest(),
    ;

    /// A value bounded by a minimum and a maximum
    ///
    /// If input is less than min then this returns min. If input is greater
    /// than max then this returns max. Otherwise this returns input.
    fn clamp(self, min: Self, max: Self) -> (r: Self)
        requires
            min.val() <= max.val(),
        ensures
            r.val() == clamp_int(self.val(), min.val(), max.val()),
    ;

    /// Whether this value is less than another
    fn is_less(self, other: Self) -> (r: bool)
        ensures
            r == (self.val() < other.val()),
    ;

    /// The difference of two values, where it is a value of the type
    fn sub(self, other: Self) -> (r: Self)
        requires
            Self::lowest() <= self.val() - other.val() <= Self::highest(),
        ensures
            r.val() == self.val() - other.val(),
    ;
}

/// `num_traits::clamp` on `i32`: `input` held within `min..=max`.
/// Its source asserts (in debug builds) that `min <= max`, so that is required;
/// then it returns `min` below `min`, `max` above `max`, and `input` otherwise.
#[verifier::external_body]
fn i32_clamp(input: i32, min: i32, max: i32) -> (r: i32)
    requires
        min <= max,
    ensures
        r == clamp_int(input as int, min as int, max as int),
{
    num_traits::clamp(input, min, max)
}

impl Num for i32 {
    open spec fn val(self) -> int {
        self as int
    }

    open spec fn lowest() -> int {
        i32::MIN as int
    }

    open spec fn highest() -> int {
        i32::MAX as int
    }

    proof fn lemma_range(self) {
    }

    proof fn lemma_lowest_below_highest() {
    }

    fn min(self, other: Self) -> (r: Self) {
        Ord::min(self, other)
    }

    fn max(self, other: Self) -> (r: Self) {
        Ord::max(self, other)
    }

    fn min_value() -> (r: Self) {
        i32::MIN
    }

    fn max_value() -> (r: Self) {
        i32::MAX
    }

    fn clamp(self, min: Self, max: Self) -> (r: Self) {
        i32_clamp(self, min, max)
    }

    fn is_less(self, other: Self) -> (r: bool) {
        self < other
    }

    fn sub(self, other: Self) -> (r: Self) {
        self - other
    }
}

} // verus!
