//! The cubic B-spline shape function, its derivative, and the small numeric
//! helpers shared by the transfer passes.
//!
//! Per axis the basis is `N(t) = 1/2|t|^3 - t^2 + 2/3` on `|t| in [0,1)`,
//! `N(t) = -1/6|t|^3 + t^2 - 2|t| + 4/3` on `|t| in [1,2)` and `0` beyond. In
//! raw fixed-point units (`t = x / FX_ONE`) the two branches are the integer
//! quotients `(3|x|^3 - 6|x|^2 S + 4 S^3) / (6 S^2)` and `(2S - |x|)^3 / (6 S^2)`
//! with `S = FX_ONE`; both numerators are nonnegative on their branch, so the
//! machine quotient is the Euclidean one.

use vstd::prelude::*;
use crate::fixed::{Fx, FX_ONE, iabs, tdiv, div_trunc, fx_mul_s, fx_div_s};
use crate::vector::{Vector3, Matrix3, fx, v3_outer_s};
use vstd::arithmetic::div_mod::{
    lemma_div_pos_is_pos,
    lemma_div_is_ordered,
    lemma_fundamental_div_mod,
    lemma_mod_bound,
};

verus! {

/// Sign of a mathematical integer.
pub open spec fn sgn(x: int) -> int {
    if x > 0 {
        1
    } else if x < 0 {
        -1
    } else {
        0
    }
}

/// Numerator of the inner branch of the basis, over raw units.
pub open spec fn num_inner(ax: int, s: int) -> int {
    3 * ax * ax * ax - 6 * ax * ax * s + 4 * s * s * s
}

/// The basis value at raw offset `x`, in raw units.
pub open spec fn bspline_raw(x: int) -> int {
    let ax = iabs(x);
    let s = FX_ONE as int;
    if ax < s {
        num_inner(ax, s) / (6 * s * s)
    } else if ax < 2 * s {
        let c = 2 * s - ax;
        (c * c * c) / (6 * s * s)
    } else {
        0
    }
}

/// The basis value with contributions below the activation epsilon snapped to zero.
pub open spec fn bspline_snapped(x: int, eps: int) -> int {
    if bspline_raw(x) < eps {
        0
    } else {
        bspline_raw(x)
    }
}

/// The basis derivative at raw offset `x`, in raw units.
pub open spec fn bspline_d_raw(x: int) -> int {
    let ax = iabs(x);
    let s = FX_ONE as int;
    if ax < s {
        tdiv(3 * x * ax, 2 * s) - 2 * x
    } else if ax < 2 * s {
        2 * x - tdiv(x * ax, 2 * s) - 2 * s * sgn(x)
    } else {
        0
    }
}

/// Literal values of the small powers of the scale, for a solver that does
/// not multiply symbols on its own.
pub proof fn lemma_fx_consts(s: int)
    by (nonlinear_arith)
    requires
        s == FX_ONE as int,
        FX_ONE == 51539607552,
    ensures
        s * s == 2656331146614175432704,
        s * s * s == 136906264824648775361643946180608,
        6 * s * s == 15937986879685052596224,
        4 * s * s * s == 547625059298595101446575784722432,
        3 * s * s == 7968993439842526298112,
{
}

/// Numerator bounds for the inner branch: on `0 <= a <= S` the cubic
/// `3a^3 - 6a^2 S + 4S^3` stays between `S^3` and `4S^3`.
proof fn lemma_num1_bounds(a: int, s: int)
    by (nonlinear_arith)
    requires
        0 <= a <= s,
        s >= 1,
    ensures
        s * s * s <= num_inner(a, s) <= 4 * s * s * s,
{
    assert(3 * a * a * a - 6 * a * a * s + 4 * s * s * s == 3 * (s - a) * ((s * s + s * a) - a
        * a) + s * s * s);
    assert((s * s + s * a) - a * a >= 0);
}

/// Squares and cubes of offsets below `2S` stay well within `i128`.
proof fn lemma_cube_small(a: int)
    by (nonlinear_arith)
    requires
        0 <= a <= 2 * FX_ONE,
    ensures
        0 <= a * a <= 4 * (FX_ONE as int) * (FX_ONE as int),
        0 <= a * a * a <= 8 * (FX_ONE as int) * (FX_ONE as int) * (FX_ONE as int),
{
}

/// The basis value is nonnegative and at most `2S/3`.
pub proof fn lemma_bspline_range(x: int)
    ensures
        0 <= bspline_raw(x) <= 2 * FX_ONE / 3,
{
    let ax = iabs(x);
    let s = FX_ONE as int;
    let d = 6 * s * s;
    lemma_fx_consts(s);
    if ax < s {
        let num = num_inner(ax, s);
        lemma_num1_bounds(ax, s);
        lemma_div_pos_is_pos(num, d);
        lemma_div_is_ordered(num, 4 * s * s * s, d);
    } else if ax < 2 * s {
        let c = 2 * s - ax;
        assert(0 < c * c * c <= s * s * s) by (nonlinear_arith)
            requires
                0 < c <= s;
        lemma_div_pos_is_pos(c * c * c, d);
        lemma_div_is_ordered(c * c * c, 4 * s * s * s, d);
        lemma_div_is_ordered(s * s * s, 4 * s * s * s, d);
    }
}

/// Sample values of the basis and its derivative, in raw units: `N(0) = 2/3`,
/// `N(1) = N(-1) = 1/6`, `N(2) = N(-2) = 0`, and at the piecewise boundary
/// `x = 1` the two branch formulas of `N` and of `N'` give the same value
/// (`1/6` and `-1/2` respectively), exactly.
pub proof fn lemma_basis_samples()
    ensures
        bspline_raw(0) == 2 * FX_ONE / 3,
        bspline_raw(FX_ONE as int) == FX_ONE / 6,
        bspline_raw(-(FX_ONE as int)) == FX_ONE / 6,
        bspline_raw(2 * FX_ONE) == 0,
        bspline_raw(-2 * (FX_ONE as int)) == 0,
        num_inner(FX_ONE as int, FX_ONE as int) / (6 * (FX_ONE as int) * (FX_ONE as int))
            == bspline_raw(FX_ONE as int),
        bspline_d_raw(FX_ONE as int) == -(FX_ONE as int) / 2,
        tdiv(3 * (FX_ONE as int) * (FX_ONE as int), 2 * FX_ONE) - 2 * FX_ONE == bspline_d_raw(
            FX_ONE as int),
{
    let s = FX_ONE as int;
    lemma_fx_consts(s);
    assert(num_inner(0, s) == 4 * s * s * s) by (nonlinear_arith)
        requires
            s == 51539607552;
    assert(bspline_raw(0) == 547625059298595101446575784722432int / 15937986879685052596224);
    assert(num_inner(s, s) == s * s * s) by (nonlinear_arith)
        requires
            s == 51539607552;
    assert(iabs(s) == s && iabs(-s) == s && iabs(2 * s) == 2 * s && iabs(-2 * s) == 2 * s);
    assert((2 * s - s) * (2 * s - s) * (2 * s - s) == s * s * s);
    assert(bspline_raw(s) == 136906264824648775361643946180608int / 15937986879685052596224);
    assert(bspline_raw(-s) == 136906264824648775361643946180608int / 15937986879685052596224);
    assert(tdiv(3 * s * s, 2 * s) == 77309411328) by (nonlinear_arith)
        requires
            s == 51539607552;
    assert(tdiv(s * s, 2 * s) == 25769803776) by (nonlinear_arith)
        requires
            s == 51539607552;
    assert(sgn(s) == 1);
}

/// One axis of an interior stencil: the four basis values at the offsets of a
/// particle from its four stencil nodes, where `u` is the particle's raw
/// offset within its cell. Their sum misses one by at most `3` raw units
/// (each of the four integer divisions discards less than one raw unit).
pub proof fn lemma_axis_partition(u: int)
    requires
        0 <= u < FX_ONE,
    ensures
        FX_ONE - 3 <= bspline_raw(u + FX_ONE) + bspline_raw(u) + bspline_raw(u - FX_ONE)
            + bspline_raw(u - 2 * FX_ONE) <= FX_ONE as int,
{
    let s = FX_ONE as int;
    let dd: int = 15937986879685052596224;
    lemma_fx_consts(s);
    let v = s - u;
    assert(iabs(u) == u && iabs(u + s) == u + s && iabs(u - s) == v && iabs(u - 2 * s) == 2 * s
        - u);
    let n0 = v * v * v;
    let n1 = num_inner(u, s);
    let n2 = num_inner(v, s);
    let n3 = u * u * u;
    assert(bspline_raw(u + s) == n0 / dd);
    assert(bspline_raw(u) == n1 / dd);
    if u == 0 {
        assert(n2 == s * s * s) by (nonlinear_arith)
            requires
                n2 == num_inner(v, s),
                v == s,
                s == 51539607552;
        assert((2 * s - iabs(u - s)) * (2 * s - iabs(u - s)) * (2 * s - iabs(u - s)) == n2);
        assert(bspline_raw(u - s) == n2 / dd);
        assert(bspline_raw(u - 2 * s) == 0);
        assert(n3 == 0);
        assert(n3 / dd == 0);
        assert(bspline_raw(u - 2 * s) == n3 / dd);
    } else {
        assert(bspline_raw(u - s) == n2 / dd);
        assert((2 * s - iabs(u - 2 * s)) == u);
        assert(bspline_raw(u - 2 * s) == n3 / dd);
    }
    assert(n0 + n1 + n2 + n3 == 821437588947892652169863677083648) by (nonlinear_arith)
        requires
            n0 == v * v * v,
            n1 == num_inner(u, s),
            n2 == num_inner(v, s),
            n3 == u * u * u,
            v == s - u,
            s == 51539607552;
    lemma_num1_bounds(u, s);
    lemma_num1_bounds(v, s);
    assert(n0 >= 0 && n3 >= 0) by (nonlinear_arith)
        requires
            n0 == v * v * v,
            n3 == u * u * u,
            0 <= v,
            0 <= u;
    lemma_fundamental_div_mod(n0, dd);
    lemma_fundamental_div_mod(n1, dd);
    lemma_fundamental_div_mod(n2, dd);
    lemma_fundamental_div_mod(n3, dd);
    lemma_mod_bound(n0, dd);
    lemma_mod_bound(n1, dd);
    lemma_mod_bound(n2, dd);
    lemma_mod_bound(n3, dd);
    assert(dd * (n0 / dd + n1 / dd + n2 / dd + n3 / dd) == 821437588947892652169863677083648 - (n0 % dd
        + n1 % dd + n2 % dd + n3 % dd));
    assert(821437588947892652169863677083648 == dd * s);
}

/// One row of the sixteen two-dimensional stencil weights of an interior
/// particle: the four x-axis basis values, each combined with one y-axis
/// basis value `wy` by the fixed-point product.
pub open spec fn stencil_row(ux: int, wy: int) -> int {
    fx_mul_s(bspline_raw(ux + FX_ONE), wy) + fx_mul_s(bspline_raw(ux), wy) + fx_mul_s(bspline_raw(
        ux - FX_ONE), wy) + fx_mul_s(bspline_raw(ux - 2 * FX_ONE), wy)
}

/// The sum of all sixteen two-dimensional stencil weights of an interior
/// particle whose raw in-cell offsets are `ux` and `uy`.
pub open spec fn stencil_sum(ux: int, uy: int) -> int {
    stencil_row(ux, bspline_raw(uy + FX_ONE)) + stencil_row(ux, bspline_raw(uy)) + stencil_row(ux,
        bspline_raw(uy - FX_ONE)) + stencil_row(ux, bspline_raw(uy - 2 * FX_ONE))
}

proof fn lemma_row_bounds(ux: int, wy: int)
    requires
        0 <= ux < FX_ONE,
        0 <= wy <= 2 * FX_ONE / 3,
    ensures
        0 <= stencil_row(ux, wy),
        (bspline_raw(ux + FX_ONE) + bspline_raw(ux) + bspline_raw(ux - FX_ONE) + bspline_raw(ux - 2
            * FX_ONE)) * wy - 4 * (FX_ONE - 1) <= FX_ONE * stencil_row(ux, wy) <= (bspline_raw(ux
            + FX_ONE) + bspline_raw(ux) + bspline_raw(ux - FX_ONE) + bspline_raw(ux - 2 * FX_ONE))
            * wy,
{
    let s = FX_ONE as int;
    lemma_fx_consts(s);
    let a0 = bspline_raw(ux + s);
    let a1 = bspline_raw(ux);
    let a2 = bspline_raw(ux - s);
    let a3 = bspline_raw(ux - 2 * s);
    lemma_bspline_range(ux + s);
    lemma_bspline_range(ux);
    lemma_bspline_range(ux - s);
    lemma_bspline_range(ux - 2 * s);
    lemma_term_decompose(a0, wy);
    lemma_term_decompose(a1, wy);
    lemma_term_decompose(a2, wy);
    lemma_term_decompose(a3, wy);
    assert(a0 * wy + a1 * wy + a2 * wy + a3 * wy == (a0 + a1 + a2 + a3) * wy) by (nonlinear_arith);
}

/// One fixed-point product of basis values is its exact quotient, and the
/// quotient's remainder is what the product loses.
pub proof fn lemma_term_decompose(a: int, wy: int)
    requires
        0 <= a <= 2 * FX_ONE / 3,
        0 <= wy <= 2 * FX_ONE / 3,
    ensures
        FX_ONE * fx_mul_s(a, wy) <= a * wy,
        a * wy - (FX_ONE - 1) <= FX_ONE * fx_mul_s(a, wy),
        0 <= fx_mul_s(a, wy) <= 22906492245,
{
    let s = FX_ONE as int;
    lemma_fx_consts(s);
    let p = a * wy;
    assert(0 <= p <= 1180591620717411303424) by (nonlinear_arith)
        requires
            p == a * wy,
            0 <= a <= 34359738368,
            0 <= wy <= 34359738368;
    assert(tdiv(p, s) == p / s);
    lemma_div_pos_is_pos(p, s);
    lemma_div_is_ordered(p, 1180591620717411303424, s);
    assert(1180591620717411303424int / 51539607552 == 22906492245);
    assert(fx_mul_s(a, wy) == p / s);
    lemma_fundamental_div_mod(p, s);
    lemma_mod_bound(p, s);
}

/// Partition of unity for an interior stencil: the sixteen cached weights of
/// a particle at raw in-cell offsets `ux`, `uy` sum to one within `21` raw
/// units, which is below `1e-6` of one.
pub proof fn lemma_partition_of_unity(ux: int, uy: int)
    requires
        0 <= ux < FX_ONE,
        0 <= uy < FX_ONE,
    ensures
        FX_ONE - 21 <= stencil_sum(ux, uy) <= FX_ONE as int,
{
    let s = FX_ONE as int;
    lemma_fx_consts(s);
    let b0 = bspline_raw(uy + s);
    let b1 = bspline_raw(uy);
    let b2 = bspline_raw(uy - s);
    let b3 = bspline_raw(uy - 2 * s);
    let a = bspline_raw(ux + s) + bspline_raw(ux) + bspline_raw(ux - s) + bspline_raw(ux - 2 * s);
    let b = b0 + b1 + b2 + b3;
    lemma_axis_partition(ux);
    lemma_axis_partition(uy);
    lemma_bspline_range(uy + s);
    lemma_bspline_range(uy);
    lemma_bspline_range(uy - s);
    lemma_bspline_range(uy - 2 * s);
    lemma_row_bounds(ux, b0);
    lemma_row_bounds(ux, b1);
    lemma_row_bounds(ux, b2);
    lemma_row_bounds(ux, b3);
    assert(a * b0 + a * b1 + a * b2 + a * b3 == a * b) by (nonlinear_arith)
        requires
            b == b0 + b1 + b2 + b3;
    assert((s - 3) * (s - 3) <= a * b <= s * s) by (nonlinear_arith)
        requires
            s == 51539607552,
            s - 3 <= a <= s,
            s - 3 <= b <= s;
    assert(s * stencil_sum(ux, uy) <= s * s);
    assert(s * stencil_sum(ux, uy) >= (s - 3) * (s - 3) - 16 * (s - 1));
    assert((s - 3) * (s - 3) - 16 * (s - 1) > s * (s - 22)) by (nonlinear_arith)
        requires
            s == 51539607552;
    assert(stencil_sum(ux, uy) > s - 22) by (nonlinear_arith)
        requires
            s * stencil_sum(ux, uy) > s * (s - 22),
            s == 51539607552;
    assert(stencil_sum(ux, uy) <= s) by (nonlinear_arith)
        requires
            s * stencil_sum(ux, uy) <= s * s,
            s == 51539607552;
}

/// An activation epsilon at or below zero leaves the basis value untouched.
pub proof fn lemma_snap_inactive(x: int, eps: int)
    requires
        eps <= 0,
    ensures
        bspline_snapped(x, eps) == bspline_raw(x),
{
    lemma_bspline_range(x);
}

/// Stateless shape-function and tensor helpers.
pub struct Helpers {}

impl Helpers {
    /// One-dimensional cubic B-spline basis.
    pub fn n(x: Fx) -> (r: Fx)
        ensures
            r@ == bspline_raw(x@),
    {
        let xi: i128 = x.raw as i128;
        let ax: i128 = if xi < 0 {
            -xi
        } else {
            xi
        };
        let s: i128 = FX_ONE as i128;
        // 6 * S^2, the common denominator of both branches.
        let d: i128 = 15937986879685052596224;
        proof {
            lemma_fx_consts(s as int);
        }
        if ax < s {
            proof {
                lemma_cube_small(ax as int);
            }
            let ax2: i128 = ax * ax;
            let ax3: i128 = ax2 * ax;
            // 3 * ax^3 - 6 * S * ax^2 + 4 * S^3 in raw units.
            let num: i128 = 3 * ax3 - 309237645312 * ax2 + 547625059298595101446575784722432;
            proof {
                lemma_num1_bounds(ax as int, s as int);
                assert(num as int == num_inner(ax as int, s as int)) by (nonlinear_arith)
                    requires
                        ax2 as int == (ax as int) * (ax as int),
                        ax3 as int == (ax2 as int) * (ax as int),
                        s as int == 51539607552,
                        num as int == 3 * (ax3 as int) - 309237645312 * (ax2 as int)
                            + 547625059298595101446575784722432;
                lemma_div_pos_is_pos(num as int, d as int);
                lemma_div_is_ordered(num as int, 4 * (s as int) * (s as int) * (s as int), d as int);
            }
            let w: i128 = num / d;
            Fx { raw: w as i64 }
        } else if ax < 2 * s {
            let c: i128 = 2 * s - ax;
            proof {
                lemma_cube_small(c as int);
            }
            let c2: i128 = c * c;
            let num: i128 = c2 * c;
            proof {
                assert(0 < num as int <= (s as int) * (s as int) * (s as int)) by (nonlinear_arith)
                    requires
                        0 < c as int <= s as int,
                        c2 as int == (c as int) * (c as int),
                        num as int == (c2 as int) * (c as int);
                assert(num as int == (c as int) * (c as int) * (c as int)) by (nonlinear_arith)
                    requires
                        c2 as int == (c as int) * (c as int),
                        num as int == (c2 as int) * (c as int);
                lemma_div_pos_is_pos(num as int, d as int);
                lemma_div_is_ordered(num as int, (s as int) * (s as int) * (s as int), d as int);
            }
            let w: i128 = num / d;
            Fx { raw: w as i64 }
        } else {
            Fx::zero()
        }
    }

    /// Basis with the activation-epsilon snap applied.
    pub fn n_snapped(x: Fx, eps: Fx) -> (r: Fx)
        ensures
            r@ == bspline_snapped(x@, eps@),
    {
        let w = Self::n(x);
        if w.lt(eps) {
            Fx::zero()
        } else {
            w
        }
    }

    /// Derivative of the one-dimensional basis.
    pub fn n_d(x: Fx) -> (r: Fx)
        ensures
            r@ == bspline_d_raw(x@),
    {
        let xi: i128 = x.raw as i128;
        let ax: i128 = if xi < 0 {
            -xi
        } else {
            xi
        };
        let s: i128 = FX_ONE as i128;
        if ax < s {
            proof {
                lemma_cube_small(ax as int);
                assert(iabs(3 * (xi as int) * (ax as int)) <= 3 * (s as int) * (s as int))
                    by (nonlinear_arith)
                    requires
                        iabs(xi as int) == ax as int,
                        0 <= ax as int <= s as int;
            }
            let p: i128 = 3 * xi * ax;
            let q: i128 = div_trunc(p, 2 * s);
            proof {
                lemma_div_is_ordered(iabs(p as int), 3 * (s as int) * (s as int), 2 * (s as int));
            }
            Fx { raw: (q - 2 * xi) as i64 }
        } else if ax < 2 * s {
            proof {
                assert(iabs((xi as int) * (ax as int)) <= 4 * (s as int) * (s as int))
                    by (nonlinear_arith)
                    requires
                        iabs(xi as int) == ax as int,
                        0 <= ax as int <= 2 * (s as int);
            }
            let p: i128 = xi * ax;
            let q: i128 = div_trunc(p, 2 * s);
            proof {
                lemma_div_is_ordered(iabs(p as int), 4 * (s as int) * (s as int), 2 * (s as int));
            }
            let g: i128 = if xi > 0 {
                2 * s
            } else {
                -(2 * s)
            };
            Fx { raw: (2 * xi - q - g) as i64 }
        } else {
            Fx::zero()
        }
    }

    /// Three-dimensional interpolation weight: the product of the per-axis bases.
    pub fn b_spline(scaled: Vector3) -> (r: Fx)
        ensures
            r@ == fx_mul_s(fx_mul_s(bspline_raw(scaled.x@), bspline_raw(scaled.y@)), bspline_raw(
                scaled.z@)),
    {
        Self::n(scaled.x).mul(Self::n(scaled.y)).mul(Self::n(scaled.z))
    }

    /// Gradient of the three-dimensional weight with respect to position, for
    /// cell size `h`.
    pub fn b_spline_d(scaled: Vector3, h: Fx) -> (r: Vector3)
        requires
            h@ != 0,
        ensures
            r.x@ == fx_div_s(fx_mul_s(fx_mul_s(bspline_raw(scaled.y@), bspline_raw(scaled.z@)),
                bspline_d_raw(scaled.x@)), h@),
            r.y@ == fx_div_s(fx_mul_s(fx_mul_s(bspline_raw(scaled.x@), bspline_raw(scaled.z@)),
                bspline_d_raw(scaled.y@)), h@),
            r.z@ == fx_div_s(fx_mul_s(fx_mul_s(bspline_raw(scaled.x@), bspline_raw(scaled.y@)),
                bspline_d_raw(scaled.z@)), h@),
    {
        let cx = Self::n(scaled.x);
        let cy = Self::n(scaled.y);
        let cz = Self::n(scaled.z);
        let dx = cy.mul(cz).mul(Self::n_d(scaled.x)).div(h);
        let dy = cx.mul(cz).mul(Self::n_d(scaled.y)).div(h);
        let dz = cx.mul(cy).mul(Self::n_d(scaled.z)).div(h);
        Vector3 { x: dx, y: dy, z: dz }
    }

    /// Outer product of a column vector and a row vector.
    pub fn outer_product(vec1: Vector3, vec2: Vector3) -> (r: Matrix3)
        ensures
            r == v3_outer_s(vec1, vec2),
    {
        Matrix3 {
            m00: vec1.x.mul(vec2.x),
            m01: vec1.x.mul(vec2.y),
            m02: vec1.x.mul(vec2.z),
            m10: vec1.y.mul(vec2.x),
            m11: vec1.y.mul(vec2.y),
            m12: vec1.y.mul(vec2.z),
            m20: vec1.z.mul(vec2.x),
            m21: vec1.z.mul(vec2.y),
            m22: vec1.z.mul(vec2.z),
        }
    }
}

} // verus!
