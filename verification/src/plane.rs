//! Finite oriented collision planes and six-plane boxes.
//!
//! A plane is an origin and two orthogonal spanning vectors, with a friction
//! coefficient, an optional rigid velocity, and a placement shift. Its
//! `collide` corrects a velocity on contact: the normal component is
//! removed, and the tangential component is zeroed (sticking) or reduced
//! (Coulomb sliding) depending on the friction.

use vstd::prelude::*;
use crate::fixed::{Fx, FX_ONE, iabs, fx_mul_s, fx_neg_s, fx_sub_s, sat64};
use crate::vector::{
    Vector3,
    fx,
    v3_add_s,
    v3_sub_s,
    v3_scale_s,
    v3_neg_s,
    v3_dot_s,
    v3_cross_s,
    v3_zero,
};
use crate::decomp::{fx_sqrt, fx_sqrt_s, sqrt_floor};

verus! {

/// Spanning vectors whose inner product exceeds this are rejected as
/// non-orthogonal: one millionth, in raw units.
pub const ORTHO_TOL: i64 = 51539;

/// A current offset within this distance of the plane counts as contact.
pub const CONTACT_TOL: i64 = 51539607;

/// The squared length of a vector, a nonnegative fixed-point value.
pub open spec fn norm2_s(v: Vector3) -> int {
    v3_dot_s(v, v)
}

/// A vector scaled to unit length by its own norm; the zero vector where
/// the norm vanishes.
pub open spec fn normalize_s(v: Vector3) -> Vector3 {
    let n = fx_sqrt_s(norm2_s(v));
    if n != 0 {
        Vector3 {
            x: fx(crate::fixed::fx_div_s(v.x@, n)),
            y: fx(crate::fixed::fx_div_s(v.y@, n)),
            z: fx(crate::fixed::fx_div_s(v.z@, n)),
        }
    } else {
        v3_zero()
    }
}

pub struct Plane {
    /// Origin corner of the finite rectangle.
    pub o: Vector3,
    /// First spanning edge.
    pub u: Vector3,
    /// Second spanning edge, orthogonal to the first.
    pub v: Vector3,
    /// Unit normal, from the cross product of the spanning edges.
    pub normal: Vector3,
    /// Coulomb friction coefficient.
    pub mu: Fx,
    /// Rigid velocity of the plane itself.
    pub vel: Vector3,
    /// Placement shift applied to the origin.
    pub shift: Vector3,
}

/// Every square is nonnegative, so a dot product of a vector with itself is.
pub proof fn lemma_norm2_nonneg(v: Vector3)
    ensures
        norm2_s(v) >= 0,
{
    assert(fx_mul_s(v.x@, v.x@) >= 0 && fx_mul_s(v.y@, v.y@) >= 0 && fx_mul_s(v.z@, v.z@) >= 0)
        by (nonlinear_arith)
        requires
            FX_ONE == 51539607552;
}

/// The corrected velocity `collide` returns: on a contact event
/// whose predicted position lands inside the finite rectangle, the velocity
/// relative to the plane is split into normal and tangential parts; enough
/// friction sticks the tangential part to zero, otherwise it is reduced by
/// the Coulomb factor; the plane's own velocity is added back. Anywhere
/// else the velocity passes through unchanged.
#[verifier::opaque]
pub open spec fn collide_s(p: Plane, position: Vector3, velocity: Vector3, delta_t: Fx) -> Vector3 {
    let vel_rel = v3_sub_s(velocity, p.vel);
    let placed = v3_add_s(p.o, p.shift);
    let next_placed = v3_add_s(v3_add_s(p.o, v3_scale_s(p.vel, delta_t)), p.shift);
    let next_pos = v3_add_s(position, v3_scale_s(velocity, delta_t));
    let next_position_origin = v3_sub_s(next_pos, placed);
    let offset = v3_dot_s(v3_sub_s(position, placed), p.normal);
    let offset_next = v3_dot_s(v3_sub_s(next_pos, next_placed), p.normal);
    if iabs(offset) < CONTACT_TOL || (offset < 0 != (offset_next < 0)) && offset != 0
        && offset_next != 0 {
        let npp = v3_sub_s(
            next_position_origin,
            v3_scale_s(p.normal, fx(v3_dot_s(next_position_origin, p.normal))),
        );
        let proj_u = v3_dot_s(npp, p.u);
        let proj_v = v3_dot_s(npp, p.v);
        if 0 < proj_u < norm2_s(p.u) && 0 < proj_v < norm2_s(p.v) {
            let outward = if offset > 0 {
                p.normal
            } else {
                v3_neg_s(p.normal)
            };
            let v_n = v3_dot_s(vel_rel, outward);
            let tangent = v3_sub_s(vel_rel, v3_scale_s(outward, fx(v_n)));
            let mag = fx_sqrt_s(norm2_s(tangent));
            if mag <= fx_mul_s(fx_neg_s(p.mu@), v_n) {
                p.vel
            } else if mag != 0 {
                v3_add_s(
                    p.vel,
                    v3_scale_s(
                        tangent,
                        fx(
                            sat64(
                                FX_ONE + crate::fixed::fx_div_s(fx_mul_s(p.mu@, v_n), mag),
                            ),
                        ),
                    ),
                )
            } else {
                v3_add_s(p.vel, tangent)
            }
        } else {
            velocity
        }
    } else {
        velocity
    }
}

impl Plane {
    /// Build a finite plane. Non-orthogonal spanning vectors are a fatal
    /// configuration error and are excluded here; a degenerate (zero-area)
    /// span gets the zero normal, as `normalize_s` defines.
    pub fn new(o: Vector3, u: Vector3, v: Vector3, mu: Fx, vel: Vector3, shift: Vector3) -> (r:
        Plane)
        requires
            iabs(v3_dot_s(u, v)) <= ORTHO_TOL,
        ensures
            r.o == o,
            r.u == u,
            r.v == v,
            r.mu == mu,
            r.vel == vel,
            r.shift == shift,
            r.normal == normalize_s(v3_cross_s(u, v)),
    {
        let c = u.cross(v);
        proof {
            lemma_norm2_nonneg(c);
        }
        let n2 = c.dot(c);
        let n = fx_sqrt(n2);
        let normal = if n.raw != 0 {
            Vector3::new(c.x.div(n), c.y.div(n), c.z.div(n))
        } else {
            Vector3::zero()
        };
        Plane { o, u, v, normal, mu, vel, shift }
    }

    /// Correct a velocity against this plane; the result is exactly the
    /// specified contact response.
    pub fn collide(&self, position: Vector3, velocity: Vector3, delta_t: Fx) -> (r: Vector3)
        ensures
            r == collide_s(*self, position, velocity, delta_t),
    {
        proof {
            reveal(collide_s);
        }
        let vel_rel = velocity.sub(self.vel);
        let placed = self.o.add(self.shift);
        let next_placed = self.o.add(self.vel.scale(delta_t)).add(self.shift);
        let next_pos = position.add(velocity.scale(delta_t));
        let next_position_origin = next_pos.sub(placed);
        let offset = position.sub(placed).dot(self.normal);
        let offset_next = next_pos.sub(next_placed).dot(self.normal);
        let crossing = (offset.raw < 0) != (offset_next.raw < 0) && offset.raw != 0
            && offset_next.raw != 0;
        if offset.abs().raw < CONTACT_TOL || crossing {
            let npp = next_position_origin.sub(
                self.normal.scale(next_position_origin.dot(self.normal)),
            );
            let proj_u = npp.dot(self.u);
            let proj_v = npp.dot(self.v);
            let u2 = self.u.dot(self.u);
            let v2 = self.v.dot(self.v);
            if Fx::zero().lt(proj_u) && proj_u.lt(u2) && Fx::zero().lt(proj_v) && proj_v.lt(v2) {
                let outward = if Fx::zero().lt(offset) {
                    self.normal
                } else {
                    self.normal.neg()
                };
                let v_n = vel_rel.dot(outward);
                let tangent = vel_rel.sub(outward.scale(v_n));
                proof {
                    lemma_norm2_nonneg(tangent);
                }
                let mag = fx_sqrt(tangent.dot(tangent));
                if mag.le(self.mu.neg().mul(v_n)) {
                    self.vel
                } else if mag.raw != 0 {
                    let factor = Fx::one().add(self.mu.mul(v_n).div(mag));
                    self.vel.add(tangent.scale(factor))
                } else {
                    self.vel.add(tangent)
                }
            } else {
                velocity
            }
        } else {
            velocity
        }
    }

    /// Advect the plane rigidly by one timestep of its own velocity.
    pub fn update_position(&mut self, delta_t: Fx)
        ensures
            final(self).o == v3_add_s(old(self).o, v3_scale_s(old(self).vel, delta_t)),
            final(self).u == old(self).u,
            final(self).v == old(self).v,
            final(self).normal == old(self).normal,
            final(self).mu == old(self).mu,
            final(self).vel == old(self).vel,
            final(self).shift == old(self).shift,
    {
        self.o = self.o.add(self.vel.scale(delta_t));
    }
}

/// Collision scenario: a particle meeting a static, frictionless plane
/// head-on (no tangential velocity relative to the plane) on a triggered,
/// in-rectangle contact leaves with the zero velocity, so its normal
/// component is fully cancelled.
pub proof fn lemma_head_on_collision(p: Plane, position: Vector3, velocity: Vector3, delta_t: Fx)
    requires
        p.vel == v3_zero(),
        p.mu@ == 0,
        ({
            let placed = v3_add_s(p.o, p.shift);
            let next_pos = v3_add_s(position, v3_scale_s(velocity, delta_t));
            let offset = v3_dot_s(v3_sub_s(position, placed), p.normal);
            let next_position_origin = v3_sub_s(next_pos, placed);
            let npp = v3_sub_s(
                next_position_origin,
                v3_scale_s(p.normal, fx(v3_dot_s(next_position_origin, p.normal))),
            );
            let outward = if offset > 0 {
                p.normal
            } else {
                v3_neg_s(p.normal)
            };
            let v_n = v3_dot_s(velocity, outward);
            &&& iabs(offset) < CONTACT_TOL
        &&& 0 < v3_dot_s(npp, p.u) < norm2_s(p.u)
        &&& 0 < v3_dot_s(npp, p.v) < norm2_s(p.v)
        &&& v3_sub_s(velocity, v3_scale_s(outward, fx(v_n))) == v3_zero()
        }),
    ensures
        collide_s(p, position, velocity, delta_t) == v3_zero(),
{
    reveal(collide_s);
    let placed = v3_add_s(p.o, p.shift);
    let next_placed = v3_add_s(v3_add_s(p.o, v3_scale_s(p.vel, delta_t)), p.shift);
    let next_pos = v3_add_s(position, v3_scale_s(velocity, delta_t));
    let offset = v3_dot_s(v3_sub_s(position, placed), p.normal);
    let vel_rel = v3_sub_s(velocity, p.vel);
    assert(vel_rel == velocity) by {
        assert(fx_sub_s(velocity.x@, 0) == velocity.x@);
    };
    let outward = if offset > 0 {
        p.normal
    } else {
        v3_neg_s(p.normal)
    };
    let v_n = v3_dot_s(vel_rel, outward);
    let tangent = v3_sub_s(vel_rel, v3_scale_s(outward, fx(v_n)));
    assert(tangent == v3_zero());
    assert(norm2_s(tangent) == 0) by {
        assert(fx_mul_s(0, 0) == 0) by (nonlinear_arith);
    };
    assert(fx_sqrt_s(0) == 0) by {
        assert(0 * (FX_ONE as int) == 0) by (nonlinear_arith);
        assert(0 <= 0 && 0 * 0 <= 0 < (0 + 1) * (0 + 1)) by (nonlinear_arith);
        lemma_sqrt_floor_zero();
    };
    assert(fx_mul_s(fx_neg_s(p.mu@), v_n) == 0) by {
        assert(fx_mul_s(0, v_n) == 0) by (nonlinear_arith)
            requires
                FX_ONE == 51539607552;
    };
}

/// The integer square root of zero is zero.
proof fn lemma_sqrt_floor_zero()
    ensures
        sqrt_floor(0) == 0,
{
    assert(0 >= 0 && #[trigger] (0int * 0int) <= 0int < (0int + 1) * (0int + 1))
        by (nonlinear_arith);
    let r = sqrt_floor(0);
    assert(r >= 0 && r * r <= 0 < (r + 1) * (r + 1));
    assert(r == 0) by (nonlinear_arith)
        requires
            r >= 0,
            r * r <= 0,
            0 < (r + 1) * (r + 1);
}

/// A box: six planes sharing one frame, applied in sequence.
pub struct Cube {
    pub sides: [Plane; 6],
}

/// The velocity after the first `k` faces corrected it in order.
pub open spec fn cube_collide_s(
    sides: Seq<Plane>,
    position: Vector3,
    velocity: Vector3,
    delta_t: Fx,
    k: nat,
) -> Vector3
    decreases k,
{
    if k == 0 {
        velocity
    } else {
        collide_s(
            sides[k - 1],
            position,
            cube_collide_s(sides, position, velocity, delta_t, (k - 1) as nat),
            delta_t,
        )
    }
}

impl Cube {
    /// Build a box from an origin corner and three mutually orthogonal
    /// edges: six planes sharing the box's frame.
    pub fn new(
        o: Vector3,
        u: Vector3,
        v: Vector3,
        w: Vector3,
        mu: Fx,
        vel: Vector3,
        shift: Vector3,
    ) -> (r: Cube)
        requires
            iabs(v3_dot_s(u, v)) <= ORTHO_TOL,
            iabs(v3_dot_s(u, w)) <= ORTHO_TOL,
            iabs(v3_dot_s(v, w)) <= ORTHO_TOL,
        ensures
            r.sides@.len() == 6,
            r.sides@[0] == (Plane {
                o,
                u,
                v,
                normal: normalize_s(v3_cross_s(u, v)),
                mu,
                vel,
                shift,
            }),
            r.sides@[1] == (Plane {
                o,
                u,
                v: w,
                normal: normalize_s(v3_cross_s(u, w)),
                mu,
                vel,
                shift,
            }),
            r.sides@[2] == (Plane {
                o,
                u: v,
                v: w,
                normal: normalize_s(v3_cross_s(v, w)),
                mu,
                vel,
                shift,
            }),
            r.sides@[3] == (Plane {
                o: v3_add_s(o, u),
                u: v,
                v: w,
                normal: normalize_s(v3_cross_s(v, w)),
                mu,
                vel,
                shift,
            }),
            r.sides@[4] == (Plane {
                o: v3_add_s(o, v),
                u,
                v: w,
                normal: normalize_s(v3_cross_s(u, w)),
                mu,
                vel,
                shift,
            }),
            r.sides@[5] == (Plane {
                o: v3_add_s(o, w),
                u,
                v,
                normal: normalize_s(v3_cross_s(u, v)),
                mu,
                vel,
                shift,
            }),
    {
        let ou = o.add(u);
        let ov = o.add(v);
        let ow = o.add(w);
        let sides = [
            Plane::new(o, u, v, mu, vel, shift),
            Plane::new(o, u, w, mu, vel, shift),
            Plane::new(o, v, w, mu, vel, shift),
            Plane::new(ou, v, w, mu, vel, shift),
            Plane::new(ov, u, w, mu, vel, shift),
            Plane::new(ow, u, v, mu, vel, shift),
        ];
        Cube { sides }
    }

    /// Apply each face's correction to the same velocity, in order.
    pub fn collide(&self, position: Vector3, velocity: Vector3, delta_t: Fx) -> (r: Vector3)
        requires
            self.sides@.len() == 6,
        ensures
            r == cube_collide_s(self.sides@, position, velocity, delta_t, 6),
    {
        let v1 = self.sides[0].collide(position, velocity, delta_t);
        let v2 = self.sides[1].collide(position, v1, delta_t);
        let v3 = self.sides[2].collide(position, v2, delta_t);
        let v4 = self.sides[3].collide(position, v3, delta_t);
        let v5 = self.sides[4].collide(position, v4, delta_t);
        let v6 = self.sides[5].collide(position, v5, delta_t);
        proof {
            reveal_with_fuel(cube_collide_s, 7);
        }
        v6
    }

    /// Whether the box is pinned in place; these boxes advect freely.
    pub fn is_stationary(&self) -> (r: bool)
        ensures
            r == false,
    {
        false
    }

    /// Advect every face rigidly by one timestep.
    pub fn update_position(&mut self, delta_t: Fx)
        requires
            old(self).sides@.len() == 6,
        ensures
            final(self).sides@.len() == 6,
            forall|i: int|
                0 <= i < 6 ==> (#[trigger] final(self).sides@[i]).o == v3_add_s(
                    old(self).sides@[i].o,
                    v3_scale_s(old(self).sides@[i].vel, delta_t),
                ) && final(self).sides@[i].vel == old(self).sides@[i].vel,
    {
        let mut i: usize = 0;
        while i < 6
            invariant
                i <= 6,
                self.sides@.len() == 6,
                forall|k: int|
                    0 <= k < i as int ==> (#[trigger] self.sides@[k]).o == v3_add_s(
                        old(self).sides@[k].o,
                        v3_scale_s(old(self).sides@[k].vel, delta_t),
                    ) && self.sides@[k].vel == old(self).sides@[k].vel && self.sides@[k].u == old(
                        self,
                    ).sides@[k].u,
                forall|k: int| i as int <= k < 6 ==> self.sides@[k] == old(self).sides@[k],
            decreases 6 - i,
        {
            let p = &self.sides[i];
            let np = Plane {
                o: p.o.add(p.vel.scale(delta_t)),
                u: p.u,
                v: p.v,
                normal: p.normal,
                mu: p.mu,
                vel: p.vel,
                shift: p.shift,
            };
            self.sides[i] = np;
            i = i + 1;
        }
    }
}

} // verus!
