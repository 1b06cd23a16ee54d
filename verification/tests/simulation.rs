//! The transfer passes and the full step: mass conservation, the one-shot
//! volume gate, the deformation split, free fall and determinism.

use snow_mpm::fixed::{Fx, FX_ONE};
use snow_mpm::grid::Grid;
use snow_mpm::params::Params;
use snow_mpm::particle::Particle;
use snow_mpm::vector::{Vector2, Matrix2};

fn to_f(raw: i64) -> f64 {
    raw as f64 / FX_ONE as f64
}

fn params_without_snap() -> Params {
    Params::with_material(
        Fx::from_int(150000),
        Fx::ratio(1, 5),
        Fx::from_int(5),
        Fx::one().sub(Fx::ratio(19, 1000)),
        Fx::one().add(Fx::ratio(3, 400)),
        Fx::ratio(95, 100),
        Fx::ratio(1, 5000),
        Fx::zero(),
        Vector2::new(Fx::zero(), Fx::ratio(981, 100)),
        Fx::ratio(1, 500),
        Fx::from_int(100),
    )
}

#[test]
fn mass_is_conserved_by_the_scatter() {
    // With no stencil crossing the boundary, the node masses sum to the
    // particle masses within tolerance.
    let mut grid = Grid::new(16, params_without_snap());
    let positions = [(31, 47), (52, 58), (64, 33), (45, 45)];
    let mut total_in: i128 = 0;
    for (px, py) in positions {
        let mass = Fx::ratio(1, 2);
        total_in += mass.raw as i128;
        grid.add_particle(Particle::new(
            Vector2::new(Fx::ratio(px, 100), Fx::ratio(py, 100)),
            Vector2::zero(),
            mass,
        ));
    }
    grid.p2g_mass();
    let mut total_out: i128 = 0;
    for nd in &grid.nodes {
        total_out += nd.mass.raw as i128;
    }
    assert!(total_out <= total_in);
    // Each particle may lose 21 parts in FX_ONE of its mass plus 17 raw units.
    let slack: i128 = positions.len() as i128 * (21 * (FX_ONE as i128 / 2) / FX_ONE as i128 + 17);
    assert!(total_in - total_out <= slack, "lost {}", total_in - total_out);
}

#[test]
fn volumes_are_computed_once() {
    let mut grid = Grid::new(16, Params::new());
    grid.add_particle(Particle::new(
        Vector2::new(Fx::ratio(1, 2), Fx::ratio(1, 2)),
        Vector2::zero(),
        Fx::one(),
    ));
    grid.p2g_mass();
    grid.p2g_velocity();
    assert!(!grid.volumes_computed);
    grid.calculate_volumes();
    assert!(grid.volumes_computed);
    let vol = grid.particles[0].vol.raw;
    assert!(vol > 0);
    // A second call is gated off and changes nothing.
    grid.calculate_volumes();
    assert_eq!(grid.particles[0].vol.raw, vol);
}

#[test]
fn rest_state_produces_no_force() {
    // A particle with identity deformation has zero stress: the force pass
    // leaves every node accumulator at zero.
    let mut grid = Grid::new(16, Params::new());
    grid.add_particle(Particle::new(
        Vector2::new(Fx::ratio(1, 2), Fx::ratio(1, 2)),
        Vector2::zero(),
        Fx::one(),
    ));
    grid.p2g_mass();
    grid.p2g_velocity();
    grid.calculate_volumes();
    grid.compute_grid_forces();
    for nd in &grid.nodes {
        assert_eq!(nd.vel_new.x.raw, 0);
        assert_eq!(nd.vel_new.y.raw, 0);
    }
}

#[test]
fn deformation_split_composes_without_clamping() {
    // A small velocity gradient keeps the singular values inside the clamp
    // envelope: the updated parts compose exactly to Fall.
    let mut grid = Grid::new(16, Params::new());
    let mut p = Particle::new(
        Vector2::new(Fx::ratio(1, 2), Fx::ratio(1, 2)),
        Vector2::zero(),
        Fx::one(),
    );
    p.vel_d = Matrix2::new(Fx::ratio(1, 1000), Fx::ratio(1, 5000), Fx::zero(), Fx::ratio(1, 2000));
    grid.add_particle(p);
    let dt = grid.params.dt;
    let vd = Matrix2::identity().add(
        Matrix2::new(Fx::ratio(1, 1000), Fx::ratio(1, 5000), Fx::zero(), Fx::ratio(1, 2000))
            .scale(dt),
    );
    let expected_ed = vd.mul(Matrix2::identity());
    let fall = expected_ed.mul(Matrix2::identity());
    grid.update_deformation_gradient();
    let q = &grid.particles[0];
    let composed = q.e_d.mul(q.e_p);
    assert_eq!(composed.a.raw, fall.a.raw);
    assert_eq!(composed.b.raw, fall.b.raw);
    assert_eq!(composed.c.raw, fall.c.raw);
    assert_eq!(composed.d.raw, fall.d.raw);
    assert_eq!(q.e_p.a.raw, FX_ONE);
    assert_eq!(q.e_p.d.raw, FX_ONE);
}

#[test]
fn clamping_moves_deformation_into_the_plastic_part() {
    // A large stretch pushes the singular values past the critical stretch:
    // the elastic part is clamped and the rest goes to the plastic part.
    let mut grid = Grid::new(16, Params::new());
    let mut p = Particle::new(
        Vector2::new(Fx::ratio(1, 2), Fx::ratio(1, 2)),
        Vector2::zero(),
        Fx::one(),
    );
    p.vel_d = Matrix2::new(Fx::from_int(100), Fx::zero(), Fx::zero(), Fx::from_int(100));
    grid.add_particle(p);
    grid.update_deformation_gradient();
    let q = &grid.particles[0];
    // Elastic part clamped near 1.0075 on the diagonal.
    assert!((to_f(q.e_d.a.raw) - 1.0075).abs() < 1e-5, "{}", to_f(q.e_d.a.raw));
    assert!((to_f(q.e_d.d.raw) - 1.0075).abs() < 1e-5);
    // Plastic part absorbed the rest: strictly above one.
    assert!(q.e_p.a.raw > FX_ONE);
    assert!(q.e_p.d.raw > FX_ONE);
    // The composition still matches Fall = 1.02 I within 1e-5.
    let composed = q.e_d.mul(q.e_p);
    assert!((to_f(composed.a.raw) - 1.02).abs() < 1e-5);
    assert!((to_f(composed.d.raw) - 1.02).abs() < 1e-5);
}

#[test]
fn free_fall_accelerates_by_gravity_each_step() {
    // A single particle at rest away from every boundary: gravity is applied
    // exactly once per step, on the grid, so after N steps the vertical
    // velocity is N dt g within 1e-6 relative.
    let mut grid = Grid::new(16, Params::new());
    grid.add_particle(Particle::new(
        Vector2::new(Fx::ratio(1, 2), Fx::ratio(3, 10)),
        Vector2::zero(),
        Fx::one(),
    ));
    let n = 10;
    for _ in 0..n {
        grid.simulate();
    }
    let dt = to_f(grid.params.dt.raw);
    let g = to_f(grid.params.gravity.y.raw);
    let expected = n as f64 * dt * g;
    let got = to_f(grid.particles[0].vel.y.raw);
    assert!(
        ((got - expected) / expected).abs() < 1e-6,
        "velocity {} expected {}",
        got,
        expected,
    );
    assert!(to_f(grid.particles[0].vel.x.raw).abs() < 1e-9);
}

#[test]
fn momentum_is_conserved_by_the_scatter() {
    // With interior stencils and no activation snap, the momentum the
    // particles scatter equals the momentum the nodes hold afterwards: the
    // scatter sums are exact, and the per-node normalization divide loses
    // under one raw velocity unit per node.
    let mut grid = Grid::new(16, params_without_snap());
    let setup = [(31i64, 47i64, 3i64, 0i64), (52, 58, -2, 1), (64, 33, 0, -4), (45, 45, 1, 2)];
    let mut px_in = 0.0;
    let mut py_in = 0.0;
    for (x, y, vx, vy) in setup {
        let mass = Fx::ratio(1, 2);
        let vel = Vector2::new(Fx::from_int(vx), Fx::from_int(vy));
        px_in += to_f(mass.raw) * to_f(vel.x.raw);
        py_in += to_f(mass.raw) * to_f(vel.y.raw);
        grid.add_particle(Particle::new(
            Vector2::new(Fx::ratio(x, 100), Fx::ratio(y, 100)),
            vel,
            mass,
        ));
    }
    grid.p2g_mass();
    grid.p2g_velocity();
    let mut px_out = 0.0;
    let mut py_out = 0.0;
    for nd in &grid.nodes {
        px_out += to_f(nd.mass.raw) * to_f(nd.vel.x.raw);
        py_out += to_f(nd.mass.raw) * to_f(nd.vel.y.raw);
    }
    assert!((px_in - px_out).abs() < 1e-5, "x momentum {} vs {}", px_in, px_out);
    assert!((py_in - py_out).abs() < 1e-5, "y momentum {} vs {}", py_in, py_out);
}

#[test]
fn identical_runs_stay_identical() {
    // Determinism: the same initial state stepped twice gives bit-identical
    // particle states.
    let build = || {
        let mut grid = Grid::new(16, Params::new());
        for (px, py, vx) in [(40, 50, 5), (60, 50, -5), (50, 40, 0)] {
            grid.add_particle(Particle::new(
                Vector2::new(Fx::ratio(px, 100), Fx::ratio(py, 100)),
                Vector2::new(Fx::from_int(vx), Fx::zero()),
                Fx::ratio(1, 2),
            ));
        }
        grid
    };
    let mut a = build();
    let mut b = build();
    for _ in 0..5 {
        a.simulate();
        b.simulate();
    }
    for i in 0..a.particles.len() {
        assert_eq!(a.particles[i].pos.x.raw, b.particles[i].pos.x.raw);
        assert_eq!(a.particles[i].pos.y.raw, b.particles[i].pos.y.raw);
        assert_eq!(a.particles[i].vel.x.raw, b.particles[i].vel.x.raw);
        assert_eq!(a.particles[i].vel.y.raw, b.particles[i].vel.y.raw);
        assert_eq!(a.particles[i].e_d.a.raw, b.particles[i].e_d.a.raw);
        assert_eq!(a.particles[i].e_p.a.raw, b.particles[i].e_p.a.raw);
    }
}

#[test]
fn positions_clamp_into_the_domain() {
    // A particle placed outside the domain is clamped before its stencil is
    // computed, so the scatter stays in bounds.
    let mut grid = Grid::new(16, params_without_snap());
    grid.add_particle(Particle::new(
        Vector2::new(Fx::from_int(2), Fx::from_int(-1)),
        Vector2::zero(),
        Fx::one(),
    ));
    grid.p2g_mass();
    let p = &grid.particles[0];
    assert!(p.pos.x.raw < FX_ONE);
    assert_eq!(p.pos.y.raw, 0);
    assert!(p.ox + 4 <= 16 && p.oy + 4 <= 16);
}
