//! Numeric decompositions for the constitutive update: an exact integer
//! square root, the hardening exponential, and a closed-form singular value
//! decomposition of a 2 x 2 matrix via its polar rotation and a symmetric
//! eigensolve, sized for this fixed dimension rather than a general
//! iterative routine.

use vstd::prelude::*;
use crate::fixed::{Fx, FX_ONE, tdiv, sat64, fx_add_s, fx_sub_s, fx_mul_s, fx_div_s, fx_neg_s};
use crate::vector::{Vector2, Matrix2, fx, m2_identity, m2_mul_s, m2_transpose_s};

verus! {

/// The greatest integer whose square does not exceed `n`.
pub open spec fn sqrt_floor(n: int) -> int {
    choose|r: int| r >= 0 && #[trigger] (r * r) <= n < (r + 1) * (r + 1)
}

/// Two integer square roots of the same number are the same number.
proof fn lemma_sqrt_unique(n: int, r1: int, r2: int)
    by (nonlinear_arith)
    requires
        r1 >= 0,
        r1 * r1 <= n < (r1 + 1) * (r1 + 1),
        r2 >= 0,
        r2 * r2 <= n < (r2 + 1) * (r2 + 1),
    ensures
        r1 == r2,
{
}

/// Integer square root by bisection.
fn isqrt(n: u128) -> (r: u128)
    ensures
        (r as int) * (r as int) <= n as int,
        (n as int) < ((r as int) + 1) * ((r as int) + 1),
        r as int == sqrt_floor(n as int),
{
    let mut lo: u128 = 0;
    let mut hi: u128 = if n >= 0x1_0000_0000_0000_0000u128 {
        0x1_0000_0000_0000_0000u128
    } else {
        n + 1
    };
    proof {
        assert((n as int) < (hi as int) * (hi as int)) by (nonlinear_arith)
            requires
                hi as int == 0x1_0000_0000_0000_0000 && (n as int)
                    < 0x1_0000_0000_0000_0000_0000_0000_0000_0000 || hi as int == n as int + 1;
    }
    while lo + 1 < hi
        invariant
            lo < hi,
            hi <= 0x1_0000_0000_0000_0000u128,
            (lo as int) * (lo as int) <= n as int,
            (n as int) < (hi as int) * (hi as int),
        decreases hi - lo,
    {
        let mid = lo + (hi - lo) / 2;
        proof {
            assert((mid as int) * (mid as int)
                < 0x1_0000_0000_0000_0000_0000_0000_0000_0000) by (nonlinear_arith)
                requires
                    0 <= mid as int,
                    (mid as int) < 0x1_0000_0000_0000_0000;
        }
        if mid * mid <= n {
            lo = mid;
        } else {
            hi = mid;
        }
    }
    proof {
        lemma_sqrt_unique(n as int, lo as int, sqrt_floor(n as int));
    }
    lo
}

/// The fixed-point square root: `sqrt(v / S) = sqrt(v * S) / S`.
pub open spec fn fx_sqrt_s(v: int) -> int {
    sqrt_floor(v * FX_ONE)
}

/// Square root of a nonnegative fixed-point value.
pub fn fx_sqrt(x: Fx) -> (r: Fx)
    requires
        x@ >= 0,
    ensures
        r@ == fx_sqrt_s(x@),
        r@ >= 0,
{
    proof {
        assert((x.raw as int) * (FX_ONE as int) < 0x1_0000_0000_0000_0000_0000_0000_0000_0000)
            by (nonlinear_arith)
            requires
                0 <= x.raw as int,
                (x.raw as int) < 0x8000_0000_0000_0000,
                FX_ONE == 51539607552;
    }
    let n: u128 = (x.raw as u128) * (FX_ONE as u128);
    let r = isqrt(n);
    proof {
        assert((r as int) * (r as int) <= (x.raw as int) * (FX_ONE as int));
        assert((r as int) < 0x8000_0000_0000_0000) by (nonlinear_arith)
            requires
                (r as int) * (r as int) <= (x.raw as int) * (FX_ONE as int),
                0 <= r as int,
                0 <= x.raw as int,
                (x.raw as int) < 0x8000_0000_0000_0000,
                FX_ONE == 51539607552;
    }
    Fx { raw: r as i64 }
}

/// The fixed-point value of Euler's number.
pub const FX_E: i64 = 140099178654;

/// `e^k` computed by `k` fixed-point multiplications.
pub open spec fn pow_e_s(k: nat) -> int
    decreases k,
{
    if k == 0 {
        FX_ONE as int
    } else {
        fx_mul_s(pow_e_s((k - 1) as nat), FX_E as int)
    }
}

/// The truncated series for `e^f` on one cell `0 <= f < 1`.
pub open spec fn exp_frac_s(f: int) -> int {
    let f2 = fx_mul_s(f, f);
    let f3 = fx_mul_s(f2, f);
    let f4 = fx_mul_s(f3, f);
    let f5 = fx_mul_s(f4, f);
    let f6 = fx_mul_s(f5, f);
    sat64(
        FX_ONE + f + tdiv(f2, 2) + tdiv(f3, 6) + tdiv(f4, 24) + tdiv(f5, 120) + tdiv(f6, 720),
    )
}

/// The hardening exponential: the argument clamped into `[-32, 32]`, split
/// into an integer part handled by repeated multiplication (reciprocal for a
/// negative part) and a fractional part handled by a truncated series.
pub open spec fn fx_exp_s(t0: int) -> int {
    let lo = -32 * (FX_ONE as int);
    let hi = 32 * (FX_ONE as int);
    let t = if t0 < lo {
        lo
    } else if t0 > hi {
        hi
    } else {
        t0
    };
    let n = t / (FX_ONE as int);
    let f = t % (FX_ONE as int);
    let ef = exp_frac_s(f);
    if n >= 0 {
        fx_mul_s(pow_e_s(n as nat), ef)
    } else {
        let p = pow_e_s((-n) as nat);
        if p != 0 {
            fx_mul_s(fx_div_s(FX_ONE as int, p), ef)
        } else {
            0
        }
    }
}

/// `e^x` in fixed point, exact per its defining computation.
pub fn fx_exp(x: Fx) -> (r: Fx)
    ensures
        r@ == fx_exp_s(x@),
{
    let lo = Fx { raw: -32 * FX_ONE };
    let hi = Fx { raw: 32 * FX_ONE };
    let t = if x.raw < lo.raw {
        lo
    } else if x.raw > hi.raw {
        hi
    } else {
        x
    };
    let shifted: i64 = t.raw + 32 * FX_ONE;
    let n0: i64 = shifted / FX_ONE;
    let f: i64 = shifted % FX_ONE;
    let n: i64 = n0 - 32;
    proof {
        vstd::arithmetic::div_mod::lemma_fundamental_div_mod(shifted as int, FX_ONE as int);
        vstd::arithmetic::div_mod::lemma_fundamental_div_mod_converse(
            t.raw as int,
            FX_ONE as int,
            n as int,
            f as int,
        );
    }
    let f2 = Fx { raw: f }.mul(Fx { raw: f });
    let f3 = f2.mul(Fx { raw: f });
    let f4 = f3.mul(Fx { raw: f });
    let f5 = f4.mul(Fx { raw: f });
    let f6 = f5.mul(Fx { raw: f });
    proof {
        assert(0 <= f2.raw && 0 <= f3.raw && 0 <= f4.raw && 0 <= f5.raw && 0 <= f6.raw)
            by (nonlinear_arith)
            requires
                0 <= f,
                f < FX_ONE as int,
                FX_ONE == 51539607552,
                f2.raw as int == fx_mul_s(f as int, f as int),
                f3.raw as int == fx_mul_s(f2.raw as int, f as int),
                f4.raw as int == fx_mul_s(f3.raw as int, f as int),
                f5.raw as int == fx_mul_s(f4.raw as int, f as int),
                f6.raw as int == fx_mul_s(f5.raw as int, f as int);
    }
    let series: i128 = FX_ONE as i128 + f as i128 + (f2.raw as i128) / 2 + (f3.raw as i128) / 6 + (
    f4.raw as i128) / 24 + (f5.raw as i128) / 120 + (f6.raw as i128) / 720;
    let ef = Fx { raw: crate::fixed::sat_cast(series) };
    let steps: u64 = if n >= 0 {
        n as u64
    } else {
        (-n) as u64
    };
    let mut p = Fx::one();
    let mut k: u64 = 0;
    while k < steps
        invariant
            k <= steps,
            p@ == pow_e_s(k as nat),
        decreases steps - k,
    {
        p = p.mul(Fx { raw: FX_E });
        k = k + 1;
    }
    if n >= 0 {
        p.mul(ef)
    } else {
        if p.raw != 0 {
            Fx::one().div(p).mul(ef)
        } else {
            Fx::zero()
        }
    }
}

/// A singular value decomposition `f == u * diag(sig) * v_t` of a 2 x 2
/// matrix, in exact real arithmetic; here each entry is the stated
/// fixed-point computation.
pub struct Svd2 {
    pub u: Matrix2,
    pub sig: Vector2,
    pub v_t: Matrix2,
}

/// The polar rotation of `f`: the rotation part `[[p, q], [-q, p]] / w` with
/// `p = a + d`, `q = b - c` and `w` their hypot; the identity where that
/// length vanishes.
pub open spec fn polar_r_s(f: Matrix2) -> Matrix2 {
    let p = fx_add_s(f.a@, f.d@);
    let q = fx_sub_s(f.b@, f.c@);
    let w = fx_sqrt_s(fx_add_s(fx_mul_s(p, p), fx_mul_s(q, q)));
    if w != 0 {
        Matrix2 {
            a: fx(fx_div_s(p, w)),
            b: fx(fx_div_s(q, w)),
            c: fx(fx_div_s(fx_neg_s(q), w)),
            d: fx(fx_div_s(p, w)),
        }
    } else {
        m2_identity()
    }
}

/// The leading eigenvector of the symmetric part of `s`, unit length.
pub open spec fn eigvec_s(s: Matrix2, l1: int) -> Vector2 {
    let sq = fx_mul_s(fx_add_s(s.b@, s.c@), FX_ONE / 2);
    if sq != 0 {
        let vx = sq;
        let vy = fx_sub_s(l1, s.a@);
        let n = fx_sqrt_s(fx_add_s(fx_mul_s(vx, vx), fx_mul_s(vy, vy)));
        if n != 0 {
            Vector2 { x: fx(fx_div_s(vx, n)), y: fx(fx_div_s(vy, n)) }
        } else {
            Vector2 { x: fx(FX_ONE as int), y: fx(0) }
        }
    } else if s.a@ >= s.d@ {
        Vector2 { x: fx(FX_ONE as int), y: fx(0) }
    } else {
        Vector2 { x: fx(0), y: fx(FX_ONE as int) }
    }
}

/// The closed-form decomposition: polar rotation first, then the symmetric
/// remainder `r^T f` eigensolved; `u = r * v`.
pub open spec fn svd2_s(f: Matrix2) -> Svd2 {
    let r = polar_r_s(f);
    let s = m2_mul_s(m2_transpose_s(r), f);
    let tr = fx_add_s(s.a@, s.d@);
    let diff = fx_sub_s(s.a@, s.d@);
    let sq = fx_mul_s(fx_add_s(s.b@, s.c@), FX_ONE / 2);
    let disc = fx_sqrt_s(
        fx_add_s(fx_mul_s(diff, diff), fx_mul_s(4 * FX_ONE, fx_mul_s(sq, sq))),
    );
    let l1 = fx_mul_s(fx_add_s(tr, disc), FX_ONE / 2);
    let l2 = fx_mul_s(fx_sub_s(tr, disc), FX_ONE / 2);
    let e1 = eigvec_s(s, l1);
    let e2 = Vector2 { x: fx(fx_neg_s(e1.y@)), y: e1.x };
    let v_t = Matrix2 { a: e1.x, b: e1.y, c: e2.x, d: e2.y };
    let u = m2_mul_s(r, m2_transpose_s(v_t));
    Svd2 { u, sig: Vector2 { x: fx(l1), y: fx(l2) }, v_t }
}

/// Compute the decomposition; each field is exactly its specified value.
pub fn svd2(f: Matrix2) -> (r: Svd2)
    ensures
        r.u == svd2_s(f).u,
        r.sig == svd2_s(f).sig,
        r.v_t == svd2_s(f).v_t,
{
    let half = Fx { raw: FX_ONE / 2 };
    let p = f.a.add(f.d);
    let q = f.b.sub(f.c);
    let w2 = p.mul(p).add(q.mul(q));
    proof {
        assert(w2@ >= 0) by (nonlinear_arith)
            requires
                w2@ == fx_add_s(fx_mul_s(p@, p@), fx_mul_s(q@, q@)),
                FX_ONE == 51539607552;
    }
    let w = fx_sqrt(w2);
    let rot = if w.raw != 0 {
        Matrix2::new(p.div(w), q.div(w), q.neg().div(w), p.div(w))
    } else {
        Matrix2::identity()
    };
    proof {
        assert(rot == polar_r_s(f));
    }
    let s = rot.transpose().mul(f);
    let tr = s.a.add(s.d);
    let diff = s.a.sub(s.d);
    let sq = s.b.add(s.c).mul(half);
    let four = Fx { raw: 4 * FX_ONE };
    let disc2 = diff.mul(diff).add(four.mul(sq.mul(sq)));
    proof {
        assert(disc2@ >= 0) by (nonlinear_arith)
            requires
                disc2@ == fx_add_s(fx_mul_s(diff@, diff@), fx_mul_s(4 * FX_ONE, fx_mul_s(sq@,
                sq@))),
                FX_ONE == 51539607552;
    }
    let disc = fx_sqrt(disc2);
    let l1 = tr.add(disc).mul(half);
    let l2 = tr.sub(disc).mul(half);
    let e1 = if sq.raw != 0 {
        let vx = sq;
        let vy = l1.sub(s.a);
        let n2 = vx.mul(vx).add(vy.mul(vy));
        proof {
            assert(n2@ >= 0) by (nonlinear_arith)
                requires
                    n2@ == fx_add_s(fx_mul_s(vx@, vx@), fx_mul_s(vy@, vy@)),
                    FX_ONE == 51539607552;
        }
        let n = fx_sqrt(n2);
        if n.raw != 0 {
            Vector2::new(vx.div(n), vy.div(n))
        } else {
            Vector2::new(Fx::one(), Fx::zero())
        }
    } else if s.a.raw >= s.d.raw {
        Vector2::new(Fx::one(), Fx::zero())
    } else {
        Vector2::new(Fx::zero(), Fx::one())
    };
    proof {
        assert(e1 == eigvec_s(s, l1@));
    }
    let e2 = Vector2::new(e1.y.neg(), e1.x);
    let v_t = Matrix2::new(e1.x, e1.y, e2.x, e2.y);
    let u = rot.mul(v_t.transpose());
    Svd2 { u, sig: Vector2::new(l1, l2), v_t }
}

} // verus!
