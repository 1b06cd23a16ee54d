//! Sample values and partition of unity for the cubic B-spline basis.

use snow_mpm::fixed::{Fx, FX_ONE};
use snow_mpm::helpers::Helpers;
use snow_mpm::grid::Grid;
use snow_mpm::params::Params;
use snow_mpm::particle::Particle;
use snow_mpm::vector::Vector2;

fn to_f(raw: i64) -> f64 {
    raw as f64 / FX_ONE as f64
}

#[test]
fn basis_sample_values() {
    let n0 = Helpers::n(Fx::zero());
    assert_eq!(n0.raw, 2 * FX_ONE / 3);
    let n1 = Helpers::n(Fx::one());
    assert_eq!(n1.raw, FX_ONE / 6);
    let nm1 = Helpers::n(Fx { raw: -FX_ONE });
    assert_eq!(nm1.raw, FX_ONE / 6);
    let n2 = Helpers::n(Fx { raw: 2 * FX_ONE });
    assert_eq!(n2.raw, 0);
    let nm2 = Helpers::n(Fx { raw: -2 * FX_ONE });
    assert_eq!(nm2.raw, 0);
}

#[test]
fn basis_continuous_at_piecewise_boundary() {
    // Approach x = 1 from below and from above: the values meet at 1/6 and
    // the derivatives at -1/2.
    let step = 16i64;
    let below = Fx { raw: FX_ONE - step };
    let above = Fx { raw: FX_ONE + step };
    let v_below = to_f(Helpers::n(below).raw);
    let v_above = to_f(Helpers::n(above).raw);
    assert!((v_below - 1.0 / 6.0).abs() < 1e-6);
    assert!((v_above - 1.0 / 6.0).abs() < 1e-6);
    let d_below = to_f(Helpers::n_d(below).raw);
    let d_above = to_f(Helpers::n_d(above).raw);
    assert!((d_below + 0.5).abs() < 1e-6);
    assert!((d_above + 0.5).abs() < 1e-6);
    assert_eq!(Helpers::n_d(Fx::one()).raw, -(FX_ONE / 2));
}

#[test]
fn basis_derivative_is_odd_and_zero_at_origin() {
    assert_eq!(Helpers::n_d(Fx::zero()).raw, 0);
    let x = Fx { raw: FX_ONE / 2 };
    let mx = Fx { raw: -(FX_ONE / 2) };
    assert_eq!(Helpers::n_d(x).raw, -Helpers::n_d(mx).raw);
}

#[test]
fn basis_snap_zeroes_small_values() {
    // Just inside the outer cell the basis value is tiny; a large enough
    // epsilon snaps it to zero, a zero epsilon keeps it.
    let x = Fx { raw: 2 * FX_ONE - FX_ONE / 100 };
    let raw = Helpers::n(x);
    assert!(raw.raw > 0);
    let eps = Fx { raw: FX_ONE / 10000 };
    assert_eq!(Helpers::n_snapped(x, eps).raw, 0);
    assert_eq!(Helpers::n_snapped(x, Fx::zero()).raw, raw.raw);
}

fn params_without_snap() -> Params {
    Params::with_material(
        Fx::from_int(150000),
        Fx::ratio(1, 5),
        Fx::from_int(5),
        Fx::one().sub(Fx::ratio(19, 1000)),
        Fx::one().add(Fx::ratio(3, 400)),
        Fx::ratio(95, 100),
        Fx::ratio(1, 5000),
        Fx::zero(),
        Vector2::new(Fx::zero(), Fx::ratio(981, 100)),
        Fx::ratio(1, 500),
        Fx::from_int(100),
    )
}

#[test]
fn partition_of_unity_interior_particle() {
    // An interior particle's sixteen cached stencil weights sum to one
    // within 1e-6, for several positions inside its cell.
    let params = params_without_snap();
    for (px, py) in [(37, 53), (50, 50), (41, 62), (36, 64)] {
        let mut grid = Grid::new(16, params);
        let pos = Vector2::new(Fx::ratio(px, 100), Fx::ratio(py, 100));
        let p = Particle::new(pos, Vector2::zero(), Fx::one());
        grid.add_particle(p);
        grid.p2g_mass();
        let mut sum: i64 = 0;
        for k in 0..16 {
            sum += grid.particles[0].w[k].raw;
        }
        assert!((to_f(sum) - 1.0).abs() < 1e-6, "weight sum {}", to_f(sum));
    }
}
