//! The fixed-point scalar operations, the square root and exponential, the
//! small decompositions, and the derived material constants.

use snow_mpm::fixed::{Fx, FX_ONE};
use snow_mpm::decomp::{fx_sqrt, fx_exp, svd2};
use snow_mpm::params::Params;
use snow_mpm::vector::Matrix2;

fn to_f(raw: i64) -> f64 {
    raw as f64 / FX_ONE as f64
}

#[test]
fn scalar_arithmetic_exact_cases() {
    let two = Fx::from_int(2);
    let three = Fx::from_int(3);
    assert_eq!(two.add(three).raw, 5 * FX_ONE);
    assert_eq!(two.sub(three).raw, -FX_ONE);
    assert_eq!(two.mul(three).raw, 6 * FX_ONE);
    assert_eq!(three.div(two).raw, 3 * FX_ONE / 2);
    assert_eq!(two.neg().raw, -2 * FX_ONE);
    assert_eq!(two.neg().abs().raw, 2 * FX_ONE);
    assert_eq!(Fx::ratio(2, 3).raw, 2 * FX_ONE / 3);
    assert!(two.lt(three) && !three.lt(two) && two.le(two));
}

#[test]
fn saturation_makes_overflow_total() {
    let big = Fx { raw: i64::MAX };
    assert_eq!(big.add(big).raw, i64::MAX);
    assert_eq!(big.neg().add(big.neg()).raw, i64::MIN);
    assert_eq!(big.mul(big).raw, i64::MAX);
}

#[test]
fn square_root_values() {
    assert_eq!(fx_sqrt(Fx::from_int(4)).raw, 2 * FX_ONE);
    assert_eq!(fx_sqrt(Fx::from_int(9)).raw, 3 * FX_ONE);
    assert_eq!(fx_sqrt(Fx::zero()).raw, 0);
    let r2 = to_f(fx_sqrt(Fx::from_int(2)).raw);
    assert!((r2 - 1.4142135623730951).abs() < 1e-9);
}

#[test]
fn exponential_values() {
    assert_eq!(fx_exp(Fx::zero()).raw, FX_ONE);
    let e1 = to_f(fx_exp(Fx::one()).raw);
    assert!((e1 - std::f64::consts::E).abs() < 1e-6, "e {}", e1);
    let em1 = to_f(fx_exp(Fx { raw: -FX_ONE }).raw);
    assert!((em1 - (-1.0f64).exp()).abs() < 1e-5, "1/e {}", em1);
    let eh = to_f(fx_exp(Fx::ratio(1, 2)).raw);
    assert!((eh - (0.5f64).exp()).abs() < 1e-5, "sqrt e {}", eh);
}

#[test]
fn svd_reconstructs_a_diagonal_matrix() {
    let f = Matrix2::new(Fx::from_int(2), Fx::zero(), Fx::zero(), Fx::from_int(3));
    let d = svd2(f);
    // Singular values are 3 and 2, in that order.
    assert_eq!(d.sig.x.raw, 3 * FX_ONE);
    assert_eq!(d.sig.y.raw, 2 * FX_ONE);
    let sigma = Matrix2::new(d.sig.x, Fx::zero(), Fx::zero(), d.sig.y);
    let back = d.u.mul(sigma).mul(d.v_t);
    assert_eq!(back.a.raw, f.a.raw);
    assert_eq!(back.b.raw, f.b.raw);
    assert_eq!(back.c.raw, f.c.raw);
    assert_eq!(back.d.raw, f.d.raw);
}

#[test]
fn svd_reconstructs_a_sheared_matrix() {
    let f = Matrix2::new(Fx::one(), Fx::ratio(1, 10), Fx::zero(), Fx::one());
    let d = svd2(f);
    let sigma = Matrix2::new(d.sig.x, Fx::zero(), Fx::zero(), d.sig.y);
    let back = d.u.mul(sigma).mul(d.v_t);
    for (got, want) in [
        (back.a.raw, f.a.raw),
        (back.b.raw, f.b.raw),
        (back.c.raw, f.c.raw),
        (back.d.raw, f.d.raw),
    ] {
        assert!((to_f(got) - to_f(want)).abs() < 1e-6);
    }
    // The rotations are orthogonal: U^T U is the identity within rounding.
    let utu = d.u.transpose().mul(d.u);
    assert!((to_f(utu.a.raw) - 1.0).abs() < 1e-6);
    assert!(to_f(utu.b.raw).abs() < 1e-6);
    assert!((to_f(utu.d.raw) - 1.0).abs() < 1e-6);
}

#[test]
fn derived_material_constants() {
    let p = Params::new();
    // mu0 = E / (2 (1 + nu)) = 62500, lambda0 = E nu / ((1+nu)(1-2 nu)).
    assert!((to_f(p.mu_0.raw) - 62500.0).abs() < 0.01);
    assert!((to_f(p.lambda_0.raw) - 41666.6666).abs() < 0.01);
    assert_eq!(p.dt.raw, 10307921);
    assert_eq!(p.bspline_epsilon.raw, 5153960);
    assert_eq!(p.bspline_radius.raw, 2 * FX_ONE);
    assert!((to_f(p.gravity.y.raw) - 9.81).abs() < 1e-9);
    assert!((to_f(p.critical_compression.raw) - 0.981).abs() < 1e-9);
    assert!((to_f(p.critical_stretch.raw) - 1.0075).abs() < 1e-9);
    assert!((to_f(p.particle_mass.raw) - 4.0e-4).abs() < 1e-8);
}
