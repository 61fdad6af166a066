//! Signed fixed-point numbers with sixteen fractional bits.

use vstd::prelude::*;

verus! {

/// The raw value that stands for the number one.
pub const ONE: i32 = 0x1_0000;

/// A number `raw / ONE`.
#[derive(Clone, Copy, Debug, PartialEq, Eq, Structural)]
pub struct Fixed {
    pub raw: i32,
}

/// A pair of fixed-point numbers.
#[derive(Clone, Copy, Debug, PartialEq, Eq, Structural)]
pub struct FixedVec2 {
    pub x: Fixed,
    pub y: Fixed,
}

/// A triple of fixed-point numbers.
#[derive(Clone, Copy, Debug, PartialEq, Eq, Structural)]
pub struct FixedVec3 {
    pub x: Fixed,
    pub y: Fixed,
    pub z: Fixed,
}

impl View for Fixed {
    type V = int;

    /// The number in units of `1 / ONE`.
    open spec fn view(&self) -> int {
        self.raw as int
    }
}

/// No product of two numbers exceeds this raw value.
pub const PRODUCT_LIMIT: i64 = 0x4000_0000_0000;

/// The product of two raw values, rounded down to a raw value.
pub open spec fn product(a: int, b: int) -> int {
    (a * b) / (ONE as int)
}

/// `v` held between `lo` and `hi`.
pub open spec fn clamped(v: int, lo: int, hi: int) -> int {
    if v < lo {
        lo
    } else if v > hi {
        hi
    } else {
        v
    }
}

/// A raw value held within what a `Fixed` can hold.
pub open spec fn saturated(v: int) -> int {
    clamped(v, i32::MIN as int, i32::MAX as int)
}

/// Quotient rounded down.
pub fn floor_div(a: i64, b: i64) -> (q: i64)
    requires
        b > 0,
    ensures
        q == (a as int) / (b as int),
{
    proof {
        lemma_quotient_within(a as int, b as int);
    }
    a.checked_div_euclid(b).unwrap()
}

/// A quotient by a positive number lies between zero and the dividend.
proof fn lemma_quotient_within(a: int, b: int)
    requires
        b > 0,
    ensures
        a >= 0 ==> 0 <= a / b <= a,
        a < 0 ==> a <= a / b < 0,
{
    vstd::arithmetic::div_mod::lemma_fundamental_div_mod(a, b);
    vstd::arithmetic::div_mod::lemma_mod_bound(a, b);
    let q = a / b;
    let r = a % b;
    assert(a >= 0 ==> 0 <= q <= a) by (nonlinear_arith)
        requires
            a == b * q + r,
            0 <= r < b,
            b > 0,
    ;
    assert(a < 0 ==> a <= q < 0) by (nonlinear_arith)
        requires
            a == b * q + r,
            0 <= r < b,
            b > 0,
    ;
}

/// A quotient is at most `n` where the dividend is at most `n` times the
/// divisor, and at least `n` where the dividend is.
pub proof fn lemma_quotient_bounds(x: int, a: int, n: int)
    requires
        a > 0,
    ensures
        x <= n * a ==> x / a <= n,
        x >= n * a ==> x / a >= n,
{
    vstd::arithmetic::div_mod::lemma_fundamental_div_mod(x, a);
    vstd::arithmetic::div_mod::lemma_mod_bound(x, a);
    let q = x / a;
    let r = x % a;
    assert(x <= n * a ==> q <= n) by (nonlinear_arith)
        requires
            x == a * q + r,
            0 <= r < a,
    ;
    assert(x >= n * a ==> q >= n) by (nonlinear_arith)
        requires
            x == a * q + r,
            0 <= r < a,
    ;
}

impl Fixed {
    /// Whether the number lies in `[0, 1)`.
    pub open spec fn in_unit(self) -> bool {
        0 <= self.raw < ONE
    }

    /// Whether the number lies in `[0, 1]`.
    pub open spec fn in_unit_closed(self) -> bool {
        0 <= self.raw <= ONE
    }

    /// The number `raw / ONE`.
    pub fn from_raw(raw: i32) -> (r: Fixed)
        ensures
            r@ == raw,
    {
        Fixed { raw }
    }

    /// The number of raw value `v`, or the nearest that there is.
    pub fn saturate(v: i64) -> (r: Fixed)
        ensures
            r@ == saturated(v as int),
    {
        if v < i32::MIN as i64 {
            Fixed { raw: i32::MIN }
        } else if v > i32::MAX as i64 {
            Fixed { raw: i32::MAX }
        } else {
            Fixed { raw: v as i32 }
        }
    }

    /// The whole number `n`.
    pub fn from_int(n: i16) -> (r: Fixed)
        ensures
            r@ == n * ONE,
    {
        Fixed { raw: (n as i32) * ONE }
    }

    /// The product with `other`, rounded down, as a raw value, which may be
    /// more than a `Fixed` can hold.
    pub fn times(self, other: Fixed) -> (p: i64)
        ensures
            p == product(self@, other@),
            -PRODUCT_LIMIT <= p <= PRODUCT_LIMIT,
    {
        assert(-0x4000_0000_0000_0000 <= self.raw * other.raw <= 0x4000_0000_0000_0000)
            by (nonlinear_arith)
            requires
                -0x8000_0000 <= self.raw <= 0x7fff_ffff,
                -0x8000_0000 <= other.raw <= 0x7fff_ffff,
        ;
        floor_div((self.raw as i64) * (other.raw as i64), ONE as i64)
    }

    /// The largest whole number that is not above `self`.
    pub fn floor(self) -> (n: i32)
        ensures
            n == self@ / (ONE as int),
    {
        let q: i64 = floor_div(self.raw as i64, ONE as i64);
        q as i32
    }

    /// What is left of `self` above its floor.
    pub fn fract(self) -> (r: Fixed)
        ensures
            r@ == self@ % (ONE as int),
            r.in_unit(),
    {
        let q: i64 = floor_div(self.raw as i64, ONE as i64);
        let rem: i64 = self.raw as i64 - q * (ONE as i64);
        Fixed { raw: rem as i32 }
    }

    /// `self` held within `[0, 1]`.
    pub fn clamp_unit(self) -> (r: Fixed)
        ensures
            r@ == clamped(self@, 0, ONE as int),
            r.in_unit_closed(),
    {
        if self.raw < 0 {
            Fixed { raw: 0 }
        } else if self.raw > ONE {
            Fixed { raw: ONE }
        } else {
            self
        }
    }
}

} // verus!
