//! The simulation constants: material law, timestep, gravity, basis
//! activation epsilon and particle sizing, together with the Lame parameters
//! derived once from Young's modulus and the Poisson ratio.

use vstd::prelude::*;
use crate::fixed::{Fx, FX_ONE, tdiv, sat64, fx_add_s, fx_sub_s, fx_mul_s, fx_div_s};
use crate::vector::Vector2;

verus! {

#[derive(Clone, Copy, Debug)]
pub struct Params {
    /// How much accumulated plastic deformation strengthens the material.
    pub hardening_coefficient: Fx,
    /// Lower clamp bound for singular values of the elastic deformation.
    pub critical_compression: Fx,
    /// Upper clamp bound for singular values of the elastic deformation.
    pub critical_stretch: Fx,
    /// Blend ratio between the FLIP and PIC velocity transfers.
    pub flip_pic_ration: Fx,
    /// First Lame parameter, from Young's modulus and the Poisson ratio.
    pub mu_0: Fx,
    /// Second Lame parameter, from Young's modulus and the Poisson ratio.
    pub lambda_0: Fx,
    /// Timestep of the fixed forward integration.
    pub dt: Fx,
    /// Basis values below this are snapped to zero.
    pub bspline_epsilon: Fx,
    /// Support radius of the basis, in cells.
    pub bspline_radius: Fx,
    pub particle_diam: Fx,
    pub density: Fx,
    pub gravity: Vector2,
    pub particle_area: Fx,
    pub particle_mass: Fx,
}

/// The derived first Lame parameter: `E / (2 (1 + nu))`, in fixed point.
pub open spec fn mu_0_s(young: int, poisson: int) -> int {
    fx_div_s(young, fx_mul_s(2 * FX_ONE, fx_add_s(FX_ONE as int, poisson)))
}

/// The derived second Lame parameter: `E nu / ((1 + nu)(1 - 2 nu))`, in fixed
/// point.
pub open spec fn lambda_0_s(young: int, poisson: int) -> int {
    fx_div_s(fx_mul_s(young, poisson), fx_mul_s(fx_add_s(FX_ONE as int, poisson), fx_sub_s(
        FX_ONE as int, fx_mul_s(2 * FX_ONE, poisson))))
}

impl Params {
    /// Derive a configuration from its primitive constants. The two Lame
    /// parameters are computed here, once; the divisor conditions exclude the
    /// degenerate Poisson ratios for which the material law is undefined.
    pub fn with_material(
        young_modulus: Fx,
        poisson_ration: Fx,
        hardening_coefficient: Fx,
        critical_compression: Fx,
        critical_stretch: Fx,
        flip_pic_ration: Fx,
        dt: Fx,
        bspline_epsilon: Fx,
        gravity: Vector2,
        particle_diam: Fx,
        density: Fx,
    ) -> (r: Params)
        requires
            fx_mul_s(2 * FX_ONE, fx_add_s(FX_ONE as int, poisson_ration@)) != 0,
            fx_mul_s(fx_add_s(FX_ONE as int, poisson_ration@), fx_sub_s(FX_ONE as int, fx_mul_s(2
                * FX_ONE, poisson_ration@))) != 0,
        ensures
            r.mu_0@ == mu_0_s(young_modulus@, poisson_ration@),
            r.lambda_0@ == lambda_0_s(young_modulus@, poisson_ration@),
            r.hardening_coefficient == hardening_coefficient,
            r.critical_compression == critical_compression,
            r.critical_stretch == critical_stretch,
            r.flip_pic_ration == flip_pic_ration,
            r.dt == dt,
            r.bspline_epsilon == bspline_epsilon,
            r.bspline_radius@ == 2 * FX_ONE,
            r.gravity == gravity,
            r.particle_diam == particle_diam,
            r.density == density,
            r.particle_area@ == fx_mul_s(particle_diam@, particle_diam@),
            r.particle_mass@ == fx_mul_s(density@, fx_mul_s(particle_diam@, particle_diam@)),
    {
        let two = Fx::from_int(2);
        let one = Fx::one();
        let mu_0 = young_modulus.div(two.mul(one.add(poisson_ration)));
        let lambda_0 = young_modulus.mul(poisson_ration).div(one.add(poisson_ration).mul(one.sub(
            two.mul(poisson_ration))));
        let particle_area = particle_diam.mul(particle_diam);
        let particle_mass = density.mul(particle_area);
        Params {
            hardening_coefficient,
            critical_compression,
            critical_stretch,
            flip_pic_ration,
            mu_0,
            lambda_0,
            dt,
            bspline_epsilon,
            bspline_radius: two,
            particle_diam,
            density,
            gravity,
            particle_area,
            particle_mass,
        }
    }

    /// The documented default configuration: Young's modulus `1.5e5`, Poisson
    /// ratio `0.2`, hardening `5`, critical compression `1 - 1.9e-2`, critical
    /// stretch `1 + 7.5e-3`, FLIP/PIC ratio `0.95`, timestep `2e-4`, basis
    /// epsilon `1e-4`, gravity `(0, 9.81)`, particle diameter `2e-3` and snow
    /// density `100`.
    pub fn new() -> (r: Params)
        ensures
            r.hardening_coefficient@ == 5 * FX_ONE,
            r.critical_compression@ == FX_ONE - tdiv(19 * FX_ONE, 1000),
            r.critical_stretch@ == FX_ONE + tdiv(3 * FX_ONE, 400),
            r.flip_pic_ration@ == tdiv(95 * FX_ONE, 100),
            r.mu_0@ == mu_0_s(150000 * FX_ONE, tdiv(FX_ONE as int, 5)),
            r.lambda_0@ == lambda_0_s(150000 * FX_ONE, tdiv(FX_ONE as int, 5)),
            r.dt@ == tdiv(FX_ONE as int, 5000),
            r.bspline_epsilon@ == tdiv(FX_ONE as int, 10000),
            r.bspline_radius@ == 2 * FX_ONE,
            r.gravity.x@ == 0,
            r.gravity.y@ == tdiv(981 * FX_ONE, 100),
            r.particle_diam@ == tdiv(FX_ONE as int, 500),
            r.density@ == 100 * FX_ONE,
            r.particle_area@ == fx_mul_s(tdiv(FX_ONE as int, 500), tdiv(FX_ONE as int, 500)),
            r.particle_mass@ == fx_mul_s(100 * FX_ONE, fx_mul_s(tdiv(FX_ONE as int, 500), tdiv(
                FX_ONE as int, 500))),
            0 < r.dt@,
            0 <= r.bspline_epsilon@,
            0 < r.critical_compression@ < FX_ONE < r.critical_stretch@,
            0 < r.particle_mass@,
    {
        proof {
            assert(tdiv(FX_ONE as int, 5) == 10307921510 && tdiv(FX_ONE as int, 500) == 103079215
                && tdiv(FX_ONE as int, 5000) == 10307921 && tdiv(19 * FX_ONE, 1000) == 979252543
                && tdiv(3 * FX_ONE, 400) == 386547056) by (nonlinear_arith)
                requires
                    FX_ONE == 51539607552;
            assert(fx_mul_s(2 * FX_ONE, fx_add_s(FX_ONE as int, 10307921510)) == 123695058124)
                by (nonlinear_arith)
                requires
                    FX_ONE == 51539607552;
            assert(fx_mul_s(2 * FX_ONE, 10307921510) == 20615843020) by (nonlinear_arith)
                requires
                    FX_ONE == 51539607552;
            assert(fx_mul_s(fx_add_s(FX_ONE as int, 10307921510), fx_sub_s(FX_ONE as int,
                20615843020)) == 37108517438) by (nonlinear_arith)
                requires
                    FX_ONE == 51539607552;
            assert(fx_mul_s(103079215, 103079215) == 206158) by (nonlinear_arith)
                requires
                    FX_ONE == 51539607552;
            assert(fx_mul_s(100 * FX_ONE, 206158) == 20615800) by (nonlinear_arith)
                requires
                    FX_ONE == 51539607552;
        }
        let young_modulus = Fx::from_int(150000);
        let poisson_ration = Fx::ratio(1, 5);
        let hardening_coefficient = Fx::from_int(5);
        let critical_compression = Fx::one().sub(Fx::ratio(19, 1000));
        let critical_stretch = Fx::one().add(Fx::ratio(3, 400));
        let flip_pic_ration = Fx::ratio(95, 100);
        let dt = Fx::ratio(1, 5000);
        let bspline_epsilon = Fx::ratio(1, 10000);
        let gravity = Vector2::new(Fx::zero(), Fx::ratio(981, 100));
        let particle_diam = Fx::ratio(1, 500);
        let density = Fx::from_int(100);
        Params::with_material(
            young_modulus,
            poisson_ration,
            hardening_coefficient,
            critical_compression,
            critical_stretch,
            flip_pic_ration,
            dt,
            bspline_epsilon,
            gravity,
            particle_diam,
            density,
        )
    }
}

} // verus!
