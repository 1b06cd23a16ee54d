//! Fixed-point scalars.
//!
//! A `Fx` holds the real number `raw / FX_ONE`. The scale is `3 * 2^34`, which
//! is divisible by 6, so the cubic B-spline basis takes its exact rational
//! values (2/3, 1/6) at integer arguments. Every operation is total: results
//! outside the `i64` range saturate, so each operation is an exact,
//! deterministic function of its operands and can be specified precisely.

use vstd::prelude::*;

verus! {

/// Number of raw units in one.
pub const FX_ONE: i64 = 51539607552;

/// A fixed-point scalar; its mathematical value is `raw / FX_ONE`.
#[derive(Clone, Copy, Debug, PartialEq, Eq, Structural)]
pub struct Fx {
    pub raw: i64,
}

impl View for Fx {
    type V = int;

    open spec fn view(&self) -> int {
        self.raw as int
    }
}

/// Absolute value of a mathematical integer.
pub open spec fn iabs(x: int) -> int {
    if x >= 0 {
        x
    } else {
        -x
    }
}

/// Clamp a mathematical integer into the `i64` range.
pub open spec fn sat64(x: int) -> int {
    if x > i64::MAX as int {
        i64::MAX as int
    } else if x < i64::MIN as int {
        i64::MIN as int
    } else {
        x
    }
}

/// Division rounding toward zero, as the machine divides.
pub open spec fn tdiv(n: int, d: int) -> int {
    if (n >= 0) == (d >= 0) {
        iabs(n) / iabs(d)
    } else {
        -(iabs(n) / iabs(d))
    }
}

pub open spec fn fx_add_s(a: int, b: int) -> int {
    sat64(a + b)
}

pub open spec fn fx_sub_s(a: int, b: int) -> int {
    sat64(a - b)
}

pub open spec fn fx_neg_s(a: int) -> int {
    sat64(-a)
}

pub open spec fn fx_mul_s(a: int, b: int) -> int {
    sat64(tdiv(a * b, FX_ONE as int))
}

/// Quotient of two fixed-point values; defined only for a nonzero divisor.
pub open spec fn fx_div_s(a: int, b: int) -> int {
    sat64(tdiv(a * FX_ONE, b))
}

/// Clamp an `i128` into the `i64` range.
pub(crate) fn sat_cast(x: i128) -> (r: i64)
    ensures
        r as int == sat64(x as int),
{
    if x > i64::MAX as i128 {
        i64::MAX
    } else if x < i64::MIN as i128 {
        i64::MIN
    } else {
        x as i64
    }
}

/// Truncating division of an `i128` by a positive divisor.
pub(crate) fn div_trunc(n: i128, d: i128) -> (q: i128)
    requires
        d > 0,
        n > i128::MIN,
    ensures
        q as int == tdiv(n as int, d as int),
        iabs(q as int) == iabs(n as int) / (d as int),
        iabs(q as int) <= iabs(n as int),
{
    proof {
        vstd::arithmetic::div_mod::lemma_div_pos_is_pos(iabs(n as int), d as int);
        vstd::arithmetic::div_mod::lemma_div_nonincreasing(iabs(n as int), d as int);
    }
    if n >= 0 {
        n / d
    } else {
        -((-n) / d)
    }
}

impl Fx {
    pub fn zero() -> (r: Fx)
        ensures
            r@ == 0,
    {
        Fx { raw: 0 }
    }

    pub fn one() -> (r: Fx)
        ensures
            r@ == FX_ONE as int,
    {
        Fx { raw: FX_ONE }
    }

    /// The fixed-point value of a small integer.
    pub fn from_int(n: i64) -> (r: Fx)
        ensures
            r@ == sat64(n * FX_ONE),
    {
        proof {
            assert(iabs((n as int) * (FX_ONE as int)) <= 0x8000_0000_0000_0000 * (FX_ONE as int))
                by (nonlinear_arith)
                requires
                    -0x8000_0000_0000_0000 <= n as int,
                    (n as int) < 0x8000_0000_0000_0000;
        }
        let p: i128 = (n as i128) * (FX_ONE as i128);
        Fx { raw: sat_cast(p) }
    }

    /// The fixed-point value nearest `num / den`, rounded toward zero.
    pub fn ratio(num: i64, den: i64) -> (r: Fx)
        requires
            den > 0,
        ensures
            r@ == sat64(tdiv(num * FX_ONE, den as int)),
    {
        proof {
            assert(iabs((num as int) * (FX_ONE as int)) <= 0x8000_0000_0000_0000 * (FX_ONE as int))
                by (nonlinear_arith)
                requires
                    -0x8000_0000_0000_0000 <= num as int,
                    (num as int) < 0x8000_0000_0000_0000;
        }
        let n: i128 = (num as i128) * (FX_ONE as i128);
        let q = div_trunc(n, den as i128);
        Fx { raw: sat_cast(q) }
    }

    pub fn add(self, o: Fx) -> (r: Fx)
        ensures
            r@ == fx_add_s(self@, o@),
    {
        let s: i128 = self.raw as i128 + o.raw as i128;
        Fx { raw: sat_cast(s) }
    }

    pub fn sub(self, o: Fx) -> (r: Fx)
        ensures
            r@ == fx_sub_s(self@, o@),
    {
        let s: i128 = self.raw as i128 - o.raw as i128;
        Fx { raw: sat_cast(s) }
    }

    pub fn neg(self) -> (r: Fx)
        ensures
            r@ == fx_neg_s(self@),
    {
        let s: i128 = -(self.raw as i128);
        Fx { raw: sat_cast(s) }
    }

    pub fn mul(self, o: Fx) -> (r: Fx)
        ensures
            r@ == fx_mul_s(self@, o@),
    {
        proof {
            assert(iabs((self.raw as int) * (o.raw as int)) <= 0x8000_0000_0000_0000
                * 0x8000_0000_0000_0000) by (nonlinear_arith)
                requires
                    -0x8000_0000_0000_0000 <= self.raw as int,
                    (self.raw as int) < 0x8000_0000_0000_0000,
                    -0x8000_0000_0000_0000 <= o.raw as int,
                    (o.raw as int) < 0x8000_0000_0000_0000;
        }
        let p: i128 = (self.raw as i128) * (o.raw as i128);
        let q = div_trunc(p, FX_ONE as i128);
        Fx { raw: sat_cast(q) }
    }

    /// Quotient; a zero divisor is excluded because the machine cannot divide by it.
    pub fn div(self, o: Fx) -> (r: Fx)
        requires
            o@ != 0,
        ensures
            r@ == fx_div_s(self@, o@),
    {
        let n: i128 = (self.raw as i128) * (FX_ONE as i128);
        proof {
            assert(iabs(n as int) <= 0x8000_0000_0000_0000 * (FX_ONE as int))
                by (nonlinear_arith)
                requires
                    n as int == (self.raw as int) * (FX_ONE as int),
                    -0x8000_0000_0000_0000 <= self.raw as int,
                    (self.raw as int) < 0x8000_0000_0000_0000;
        }
        if o.raw >= 0 {
            let q = div_trunc(n, o.raw as i128);
            Fx { raw: sat_cast(q) }
        } else {
            let q = div_trunc(n, -(o.raw as i128));
            proof {
                lemma_tdiv_neg_divisor(n as int, o.raw as int);
            }
            Fx { raw: sat_cast(-q) }
        }
    }

    pub fn abs(self) -> (r: Fx)
        ensures
            r@ == sat64(iabs(self@)),
    {
        if self.raw >= 0 {
            self
        } else {
            self.neg()
        }
    }

    pub fn lt(self, o: Fx) -> (r: bool)
        ensures
            r == (self@ < o@),
    {
        self.raw < o.raw
    }

    pub fn le(self, o: Fx) -> (r: bool)
        ensures
            r == (self@ <= o@),
    {
        self.raw <= o.raw
    }
}

proof fn lemma_tdiv_neg_divisor(n: int, d: int)
    requires
        d < 0,
    ensures
        tdiv(n, d) == -tdiv(n, -d),
{
}

} // verus!
