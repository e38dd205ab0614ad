use vstd::prelude::*;
use vstd::std_specs::ops::{AddSpec, DivSpec, MulSpec, NegSpec, SubSpec};
use std::ops::{Add, Div, Mul, Neg, Sub};

verus! {

/// The numbers that vectors, rays and spheres are made of.
///
/// Besides the four arithmetic operators and negation, a scalar can be made
/// from a ratio of two integers, compared, and has a square root. Each of the
/// four methods is a function of its arguments alone, named by the spec
/// function above it. What is proved of vectors, spheres and colours holds
/// for a scalar type as far as its methods keep to these contracts: for the
/// whole numbers below that is proved, and an implementation elsewhere
/// defines each spec function by the expression that its method computes.
pub trait Scalar: Copy + Add<Output = Self> + Sub<Output = Self> + Mul<Output = Self> + Div<
    Output = Self,
> + Neg<Output = Self> {
    /// The scalar that stands for `num / den`.
    spec fn ratio(num: i32, den: i32) -> Self;

    fn from_ratio(num: i32, den: i32) -> (r: Self)
        requires
            den != 0,
        ensures
            r == Self::ratio(num, den),
    ;

    /// The strict order `self < other`.
    spec fn less(self, other: Self) -> bool;

    fn less_than(self, other: Self) -> (r: bool)
        ensures
            r == self.less(other),
    ;

    /// The square root of `self`.
    spec fn root(self) -> Self;

    fn sqrt(self) -> (r: Self)
        ensures
            r == self.root(),
    ;

    /// The whole part of `self` as a byte: 0 below zero, 255 above 255.
    spec fn byte(self) -> u8;

    fn to_byte(self) -> (r: u8)
        ensures
            r == self.byte(),
    ;
}

/// The scalar that stands for `num / den`, for numbers that fit 32 bits.
pub open spec fn frac<T: Scalar>(num: int, den: int) -> T {
    T::ratio(num as i32, den as i32)
}

/// Whether the five operators of `T` return what their spec functions say.
pub open spec fn exact<T: Scalar>() -> bool {
    &&& T::obeys_add_spec()
    &&& T::obeys_sub_spec()
    &&& T::obeys_mul_spec()
    &&& T::obeys_div_spec()
    &&& T::obeys_neg_spec()
}

/// `r` is the largest integer whose square is at most `n`.
pub open spec fn is_floor_root(n: int, r: int) -> bool {
    0 <= r && r * r <= n < (r + 1) * (r + 1)
}

/// Two floor roots of one number are the same.
pub proof fn lemma_floor_root_unique(n: int, r1: int, r2: int)
    requires
        is_floor_root(n, r1),
        is_floor_root(n, r2),
    ensures
        r1 == r2,
{
    if r1 < r2 {
        assert((r1 + 1) * (r1 + 1) <= r2 * r2) by (nonlinear_arith)
            requires
                0 <= r1 + 1 <= r2,
        ;
    } else if r2 < r1 {
        assert((r2 + 1) * (r2 + 1) <= r1 * r1) by (nonlinear_arith)
            requires
                0 <= r2 + 1 <= r1,
        ;
    }
}

/// The floor of the square root of a number that is not negative.
pub fn floor_root(n: i64) -> (r: i64)
    requires
        n >= 0,
    ensures
        is_floor_root(n as int, r as int),
{
    let mut lo: i64 = 0;
    let mut hi: i64 = 3037000500;
    assert(0 * 0 == 0) by (nonlinear_arith);
    assert(3037000500 * 3037000500 > i64::MAX) by (nonlinear_arith);
    while hi - lo > 1
        invariant
            0 <= lo < hi <= 3037000500,
            lo * lo <= n < hi * hi,
        decreases hi - lo,
    {
        let mid: i64 = lo + (hi - lo) / 2;
        assert(mid * mid <= 3037000499 * 3037000499) by (nonlinear_arith)
            requires
                0 <= mid <= 3037000499,
        ;
        if mid * mid <= n {
            lo = mid;
        } else {
            hi = mid;
        }
    }
    lo
}

/// Whole numbers as scalars: exact arithmetic that rounds each quotient
/// toward zero and each root down.
impl Scalar for i64 {
    open spec fn ratio(num: i32, den: i32) -> i64 {
        (num as i64).div_spec(den as i64)
    }

    fn from_ratio(num: i32, den: i32) -> (r: i64) {
        let n: i64 = num as i64;
        let d: i64 = den as i64;
        n / d
    }

    open spec fn less(self, other: i64) -> bool {
        self < other
    }

    fn less_than(self, other: i64) -> (r: bool) {
        self < other
    }

    open spec fn root(self) -> i64 {
        if self < 0 {
            0
        } else {
            choose|r: i64| is_floor_root(self as int, r as int)
        }
    }

    open spec fn byte(self) -> u8 {
        if self < 0 {
            0
        } else if self > 255 {
            255
        } else {
            self as u8
        }
    }

    fn to_byte(self) -> (r: u8) {
        if self < 0 {
            0
        } else if self > 255 {
            255
        } else {
            self as u8
        }
    }

    fn sqrt(self) -> (r: i64) {
        if self < 0 {
            0
        } else {
            let r: i64 = floor_root(self);
            proof {
                let c = choose|c: i64| is_floor_root(self as int, c as int);
                lemma_floor_root_unique(self as int, r as int, c as int);
            }
            r
        }
    }
}

/// Every number that is not negative has a floor root, which is at most the
/// number itself.
pub proof fn lemma_floor_root_exists(n: nat)
    ensures
        exists|r: int| #[trigger] is_floor_root(n as int, r) && r <= n,
    decreases n,
{
    if n == 0 {
        assert(is_floor_root(0, 0));
    } else {
        lemma_floor_root_exists((n - 1) as nat);
        let m: int = n - 1;
        let r = choose|r: int| #[trigger] is_floor_root(m, r) && r <= m;
        if (r + 1) * (r + 1) <= n {
            assert((r + 2) * (r + 2) > n) by (nonlinear_arith)
                requires
                    n - 1 < (r + 1) * (r + 1),
                    0 <= r,
            ;
            assert(r + 1 <= (r + 1) * (r + 1)) by (nonlinear_arith)
                requires
                    0 <= r,
            ;
            assert(is_floor_root(n as int, r + 1));
        } else {
            assert(is_floor_root(n as int, r));
        }
    }
}

/// The root of a whole number is never negative.
pub proof fn lemma_whole_root_not_negative(n: i64)
    ensures
        n.root() >= 0,
{
    if n >= 0 {
        lemma_floor_root_exists(n as nat);
        let r = choose|r: int| #[trigger] is_floor_root(n as int, r) && r <= n;
        assert(is_floor_root(n as int, (r as i64) as int));
    }
}

} // verus!
