//! A Lagrangian material point: position, velocity, mass, rest volume, the
//! elastic/plastic split of its deformation gradient, and the interpolation
//! stencil cached for the current step.

use vstd::prelude::*;
use crate::fixed::{Fx, FX_ONE};
use crate::vector::{Vector2, Matrix2};

verus! {

/// The mathematical model of a particle: the stencil caches as sequences,
/// every scalar exact.
#[verifier::ext_equal]
pub struct ParticleModel {
    pub vol: Fx,
    pub mass: Fx,
    pub pos: Vector2,
    pub vel: Vector2,
    pub e_d: Matrix2,
    pub e_p: Matrix2,
    pub vel_d: Matrix2,
    pub w: Seq<Fx>,
    pub w_d_x: Seq<Fx>,
    pub w_d_y: Seq<Fx>,
    pub ox: int,
    pub oy: int,
}

pub struct Particle {
    /// Rest volume, computed once from the first mass scatter.
    pub vol: Fx,
    /// Mass; immutable after creation.
    pub mass: Fx,
    pub pos: Vector2,
    pub vel: Vector2,
    /// Elastic part of the deformation gradient.
    pub e_d: Matrix2,
    /// Plastic part of the deformation gradient.
    pub e_p: Matrix2,
    /// Velocity gradient gathered from the grid this step.
    pub vel_d: Matrix2,
    /// The sixteen stencil weights of the current step, row-major.
    pub w: Vec<Fx>,
    /// The matching weight-gradient x components.
    pub w_d_x: Vec<Fx>,
    /// The matching weight-gradient y components.
    pub w_d_y: Vec<Fx>,
    /// Stencil origin: the lowest grid index of the 4 x 4 neighborhood.
    pub ox: usize,
    pub oy: usize,
}

impl View for Particle {
    type V = ParticleModel;

    open spec fn view(&self) -> ParticleModel {
        ParticleModel {
            vol: self.vol,
            mass: self.mass,
            pos: self.pos,
            vel: self.vel,
            e_d: self.e_d,
            e_p: self.e_p,
            vel_d: self.vel_d,
            w: self.w@,
            w_d_x: self.w_d_x@,
            w_d_y: self.w_d_y@,
            ox: self.ox as int,
            oy: self.oy as int,
        }
    }
}

impl Particle {
    /// The stencil caches always hold one entry per neighborhood cell.
    pub open spec fn wf(&self) -> bool {
        self.w@.len() == 16 && self.w_d_x@.len() == 16 && self.w_d_y@.len() == 16
    }

    /// A fresh particle: empty stencil, identity deformation, no volume yet.
    pub fn new(pos: Vector2, vel: Vector2, mass: Fx) -> (r: Particle)
        ensures
            r.wf(),
            r.pos == pos,
            r.vel == vel,
            r.mass == mass,
            r.vol@ == 0,
            r.e_d.a@ == FX_ONE && r.e_d.b@ == 0 && r.e_d.c@ == 0 && r.e_d.d@ == FX_ONE,
            r.e_p.a@ == FX_ONE && r.e_p.b@ == 0 && r.e_p.c@ == 0 && r.e_p.d@ == FX_ONE,
            r.vel_d.a@ == 0 && r.vel_d.b@ == 0 && r.vel_d.c@ == 0 && r.vel_d.d@ == 0,
            forall|k: int| 0 <= k < 16 ==> r.w@[k]@ == 0,
            forall|k: int| 0 <= k < 16 ==> r.w_d_x@[k]@ == 0,
            forall|k: int| 0 <= k < 16 ==> r.w_d_y@[k]@ == 0,
            r.ox == 0 && r.oy == 0,
    {
        let z = Fx::zero();
        let w = zero_cache();
        let w_d_x = zero_cache();
        let w_d_y = zero_cache();
        Particle {
            vol: z,
            mass,
            pos,
            vel,
            e_d: Matrix2::identity(),
            e_p: Matrix2::identity(),
            vel_d: Matrix2::zero(),
            w,
            w_d_x,
            w_d_y,
            ox: 0,
            oy: 0,
        }
    }
}

/// A stencil cache holding sixteen zeroes.
pub fn zero_cache() -> (r: Vec<Fx>)
    ensures
        r@.len() == 16,
        forall|k: int| 0 <= k < 16 ==> r@[k]@ == 0,
        r@ == Seq::new(16, |k: int| crate::vector::fx(0)),
{
    let mut v: Vec<Fx> = Vec::new();
    let mut i: usize = 0;
    while i < 16
        invariant
            i <= 16,
            v@.len() == i as int,
            forall|k: int| 0 <= k < i as int ==> v@[k]@ == 0,
        decreases 16 - i,
    {
        v.push(Fx::zero());
        i = i + 1;
    }
    proof {
        assert(v@ =~= Seq::new(16, |k: int| crate::vector::fx(0)));
    }
    v
}

} // verus!
