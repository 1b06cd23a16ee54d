//! The Eulerian background grid and the per-step transfer passes.
//!
//! The grid is a flat, bounds-checked array of nodes over the unit square,
//! rebuilt every step: masses and momenta are scattered from the particles,
//! forces are accumulated against the cached weight gradients, node momentum
//! is integrated and collided, and the particles gather back a blended
//! velocity, a velocity gradient and their new positions.
//!
//! Every pass is a total function of the grid state; its contract states the
//! resulting state exactly, so running a step twice from equal states
//! provably gives equal states.

use vstd::prelude::*;
use crate::fixed::{Fx, FX_ONE, fx_add_s, fx_sub_s, fx_mul_s, fx_div_s, iabs, sat64, tdiv};
use crate::vector::{
    Vector2,
    Matrix2,
    fx,
    v2_add_s,
    v2_sub_s,
    v2_scale_s,
    v2_div_scalar_s,
    v2_zero,
    m2_add_s,
    m2_zero,
    m2_identity,
    m2_mul_s,
    m2_mul_v2_s,
    m2_scale_s,
    m2_sub_s,
    m2_det_s,
    m2_transpose_s,
    v2_outer_s,
};
use crate::helpers::{Helpers, bspline_snapped, bspline_d_raw, bspline_raw};
use crate::decomp::{svd2, svd2_s, fx_exp, fx_exp_s};
use crate::params::Params;
use crate::particle::{Particle, ParticleModel, zero_cache};

verus! {

/// One node of the background grid, reset and refilled every step.
#[derive(Clone, Copy, Debug, PartialEq, Eq, Structural)]
pub struct GridNode {
    pub mass: Fx,
    pub vel: Vector2,
    pub vel_new: Vector2,
    pub active: bool,
}

impl GridNode {
    pub fn new() -> (r: GridNode)
        ensures
            r == zero_node(),
    {
        GridNode { mass: Fx::zero(), vel: Vector2::zero(), vel_new: Vector2::zero(), active: false }
    }
}

/// The node a reset produces: no mass, no momentum, inactive.
pub open spec fn zero_node() -> GridNode {
    GridNode { mass: fx(0), vel: v2_zero(), vel_new: v2_zero(), active: false }
}

/// The mathematical model of the whole simulation state.
#[verifier::ext_equal]
pub struct GridModel {
    pub cell_size: Fx,
    pub node_area: Fx,
    pub cell_count: int,
    pub nodes: Seq<GridNode>,
    pub particles: Seq<ParticleModel>,
    pub params: Params,
    pub volumes_computed: bool,
}

pub struct Grid {
    /// Size of each cell; the domain is the unit square.
    pub cell_size: Fx,
    /// Area of each cell.
    pub node_area: Fx,
    /// Nodes per axis.
    pub cell_count: usize,
    /// The nodes, row-major: node `(i, j)` lives at `i * cell_count + j`.
    pub nodes: Vec<GridNode>,
    pub particles: Vec<Particle>,
    pub params: Params,
    /// One-shot gate: particle volumes are computed at the first step only.
    pub volumes_computed: bool,
}

impl View for Grid {
    type V = GridModel;

    open spec fn view(&self) -> GridModel {
        GridModel {
            cell_size: self.cell_size,
            node_area: self.node_area,
            cell_count: self.cell_count as int,
            nodes: self.nodes@,
            particles: Seq::new(self.particles@.len(), |i: int| self.particles@[i]@),
            params: self.params,
            volumes_computed: self.volumes_computed,
        }
    }
}

impl Grid {
    /// Structural well-formedness: a flat node array of `cell_count^2` nodes
    /// over at least four cells per axis, and complete stencil caches.
    pub open spec fn wf(&self) -> bool {
        &&& 4 <= self.cell_count <= 1024
    &&& self.nodes@.len() == self.cell_count * self.cell_count
    &&& self.cell_size@ == sat64(tdiv(FX_ONE as int, self.cell_count as int))
    &&& self.node_area@ == fx_mul_s(self.cell_size@, self.cell_size@)
    &&& 0 < self.params.critical_compression@ <= self.params.critical_stretch@
    &&& forall|i: int| 0 <= i < self.particles@.len() ==> self.particles@[i].wf()
    }

    /// A grid of `cell_count` cells per axis over the unit square, with no
    /// particles yet.
    pub fn new(cell_count: usize, params: Params) -> (r: Grid)
        requires
            4 <= cell_count <= 1024,
            0 < params.critical_compression@ <= params.critical_stretch@,
        ensures
            r.wf(),
            r.cell_count == cell_count,
            r.cell_size@ == sat64(tdiv(FX_ONE as int, cell_count as int)),
            r.node_area@ == fx_mul_s(r.cell_size@, r.cell_size@),
            r.nodes@.len() == cell_count * cell_count,
            forall|i: int| 0 <= i < r.nodes@.len() ==> r.nodes@[i] == zero_node(),
            r.particles@.len() == 0,
            r.params == params,
            !r.volumes_computed,
    {
        let cell_size = Fx::ratio(1, cell_count as i64);
        proof {
            vstd::arithmetic::div_mod::lemma_div_is_ordered_by_denominator(
                FX_ONE as int,
                cell_count as int,
                1024,
            );
            assert(51539607552int / 1024 == 50331648) by (nonlinear_arith);
            vstd::arithmetic::div_mod::lemma_div_nonincreasing(FX_ONE as int, cell_count as int);
        }
        let node_area = cell_size.mul(cell_size);
        proof {
            assert(cell_count * cell_count <= 1048576) by (nonlinear_arith)
                requires
                    cell_count <= 1024;
        }
        let n = cell_count * cell_count;
        let nodes: Vec<GridNode> = vec![GridNode::new(); n];
        Grid {
            cell_size,
            node_area,
            cell_count,
            nodes,
            particles: Vec::new(),
            params,
            volumes_computed: false,
        }
    }

    pub fn add_particle(&mut self, particle: Particle)
        requires
            particle.wf(),
        ensures
            final(self).particles@ == old(self).particles@.push(particle),
            final(self).nodes == old(self).nodes,
            final(self).cell_size == old(self).cell_size,
            final(self).node_area == old(self).node_area,
            final(self).cell_count == old(self).cell_count,
            final(self).params == old(self).params,
            final(self).volumes_computed == old(self).volumes_computed,
            old(self).wf() ==> final(self).wf(),
    {
        self.particles.push(particle);
        proof {
            assert(forall|i: int|
                0 <= i < self.particles@.len() - 1 ==> self.particles@[i] == old(
                self).particles@[i]);
        }
    }

    /// Zero every node and every particle's stencil cache, before a step.
    pub fn reset_parameters(&mut self)
        requires
            old(self).wf(),
        ensures
            final(self).wf(),
            final(self)@.nodes =~= Seq::new(old(self)@.nodes.len(), |i: int| zero_node()),
            final(self)@.particles.len() == old(self)@.particles.len(),
            forall|i: int|
                0 <= i < final(self)@.particles.len() ==> final(self)@.particles[i]
                    =~= reset_stencil(old(self)@.particles[i]),
            final(self).cell_size == old(self).cell_size,
            final(self).node_area == old(self).node_area,
            final(self).cell_count == old(self).cell_count,
            final(self).params == old(self).params,
            final(self).volumes_computed == old(self).volumes_computed,
            final(self)@ == reset_s(old(self)@),
    {
        let mut i: usize = 0;
        while i < self.nodes.len()
            invariant
                self.nodes@.len() == old(self).nodes@.len(),
                i <= self.nodes@.len(),
                forall|k: int| 0 <= k < i as int ==> self.nodes@[k] == zero_node(),
                self.particles == old(self).particles,
                self.cell_size == old(self).cell_size,
                self.node_area == old(self).node_area,
                self.cell_count == old(self).cell_count,
                self.params == old(self).params,
                self.volumes_computed == old(self).volumes_computed,
            decreases self.nodes@.len() - i,
        {
            self.nodes[i] = GridNode::new();
            i = i + 1;
        }
        proof {
            assert(forall|k: int|
                0 <= k < self.particles@.len() ==> self.particles@[k] == old(
                self).particles@[k]);
            assert forall|k: int|
                0 <= k < self.particles@.len() implies #[trigger] self.particles@[k].wf() by {
                assert(old(self).particles@[k].wf());
            };
        }
        let mut j: usize = 0;
        while j < self.particles.len()
            invariant
                old(self).wf(),
                self.particles@.len() == old(self).particles@.len(),
                j <= self.particles@.len(),
                forall|k: int|
                    0 <= k < j as int ==> #[trigger] self.particles@[k]@ =~= reset_stencil(old(
                    self).particles@[k]@),
                forall|k: int|
                    j as int <= k < self.particles@.len() ==> self.particles@[k] == old(
                    self).particles@[k],
                forall|k: int| 0 <= k < self.particles@.len() ==> self.particles@[k].wf(),
                self.nodes@.len() == old(self).nodes@.len(),
                forall|k: int| 0 <= k < self.nodes@.len() ==> self.nodes@[k] == zero_node(),
                self.cell_size == old(self).cell_size,
                self.node_area == old(self).node_area,
                self.cell_count == old(self).cell_count,
                self.params == old(self).params,
                self.volumes_computed == old(self).volumes_computed,
            decreases self.particles@.len() - j,
        {
            let p = &self.particles[j];
            let np = Particle {
                vol: p.vol,
                mass: p.mass,
                pos: p.pos,
                vel: p.vel,
                e_d: p.e_d,
                e_p: p.e_p,
                vel_d: p.vel_d,
                w: zero_cache(),
                w_d_x: zero_cache(),
                w_d_y: zero_cache(),
                ox: p.ox,
                oy: p.oy,
            };
            self.particles[j] = np;
            proof {
                assert(self.particles@[j as int]@ =~= reset_stencil(old(
                    self).particles@[j as int]@));
            }
            j = j + 1;
        }
        proof {
            assert(self@.nodes =~= Seq::new(old(self)@.nodes.len(), |i: int| zero_node()));
            assert forall|i: int|
                0 <= i < self@.particles.len() implies self@.particles[i] =~= reset_stencil(old(
                self)@.particles[i]) by {
                assert(self.particles@[i]@ =~= reset_stencil(old(self).particles@[i]@));
            };
            assert(self@ =~= reset_s(old(self)@));
        }
    }

    /// Every cached stencil origin leaves its whole 4 x 4 neighborhood inside
    /// the grid.
    pub open spec fn stencils_in_range(&self) -> bool {
        forall|i: int|
            0 <= i < self.particles@.len() ==> (#[trigger] self.particles@[i]).ox + 4
                <= self.cell_count && self.particles@[i].oy + 4 <= self.cell_count
    }

    /// Rasterize particle mass to the grid: recompute and cache every
    /// particle's stencil from its clamped position, then add each cell's
    /// `weight * mass` share to the node it covers.
    pub fn p2g_mass(&mut self)
        requires
            old(self).wf(),
        ensures
            final(self).wf(),
            final(self).stencils_in_range(),
            final(self)@ == p2g_mass_s(old(self)@),
    {
        let ghost g0 = self@;
        let cc = self.cell_count;
        let cs = self.cell_size;
        let eps = self.params.bspline_epsilon;
        proof {
            lemma_cell_size_bounds(cc as int);
        }
        let mut pi: usize = 0;
        while pi < self.particles.len()
            invariant
                old(self).wf(),
                g0 == old(self)@,
                cc == self.cell_count,
                cs == self.cell_size,
                eps == self.params.bspline_epsilon,
                50331648 <= cs@ <= 12884901888,
                self.cell_count == old(self).cell_count,
                self.cell_size == old(self).cell_size,
                self.node_area == old(self).node_area,
                self.params == old(self).params,
                self.volumes_computed == old(self).volumes_computed,
                self.particles@.len() == old(self).particles@.len(),
                self.nodes@.len() == old(self).nodes@.len(),
                forall|i: int| 0 <= i < self.particles@.len() ==> self.particles@[i].wf(),
                forall|i: int|
                    pi as int <= i < self.particles@.len() ==> self.particles@[i] == old(
                    self).particles@[i],
                forall|i: int|
                    0 <= i < pi as int ==> (#[trigger] self.particles@[i]).ox + 4
                        <= self.cell_count && self.particles@[i].oy + 4 <= self.cell_count,
                pi <= self.particles@.len(),
                self@ == p2g_mass_upto(g0, pi as nat),
            decreases self.particles@.len() - pi,
        {
            let ghost m_pre = self@;
            let p = &self.particles[pi];
            let vol = p.vol;
            let mass = p.mass;
            let vel = p.vel;
            let e_d = p.e_d;
            let e_p = p.e_p;
            let vel_d = p.vel_d;
            let cpx = clamp_coord(p.pos.x);
            let cpy = clamp_coord(p.pos.y);
            let sx = scaled_coord(cpx, cs);
            let sy = scaled_coord(cpy, cs);
            let ox = origin_coord(sx, cc);
            let oy = origin_coord(sy, cc);
            let ghost nodes0 = self.nodes@;
            let ghost pvec0 = self.particles@;
            let mut neww: Vec<Fx> = Vec::new();
            let mut newdx: Vec<Fx> = Vec::new();
            let mut newdy: Vec<Fx> = Vec::new();
            let mut k: usize = 0;
            while k < 16
                invariant
                    k <= 16,
                    cc == self.cell_count,
                    4 <= cc <= 1024,
                    50331648 <= cs@ <= 12884901888,
                    0 <= sx@ <= 1024 * FX_ONE,
                    0 <= sy@ <= 1024 * FX_ONE,
                    ox + 4 <= cc,
                    oy + 4 <= cc,
                    self.nodes@.len() == nodes0.len(),
                    nodes0.len() == cc * cc,
                    neww@.len() == k as int,
                    newdx@.len() == k as int,
                    newdy@.len() == k as int,
                    forall|t: int|
                        0 <= t < k as int ==> neww@[t] == fx(
                            weight_s(sx@, sy@, ox as int, oy as int, t / 4, t % 4, eps@),
                        ),
                    forall|t: int|
                        0 <= t < k as int ==> newdx@[t] == fx(
                            grad_x_s(sx@, sy@, ox as int, oy as int, t / 4, t % 4, eps@, cs@),
                        ),
                    forall|t: int|
                        0 <= t < k as int ==> newdy@[t] == fx(
                            grad_y_s(sx@, sy@, ox as int, oy as int, t / 4, t % 4, eps@, cs@),
                        ),
                    self.nodes@ == scatter_mass_cells(
                        nodes0,
                        sx@,
                        sy@,
                        ox as int,
                        oy as int,
                        mass,
                        eps@,
                        cc as int,
                        k as nat,
                    ),
                    self.particles@ == pvec0,
                    self.cell_count == old(self).cell_count,
                    self.cell_size == old(self).cell_size,
                    self.node_area == old(self).node_area,
                    self.params == old(self).params,
                    self.volumes_computed == old(self).volumes_computed,
                decreases 16 - k,
            {
                let ci = k / 4;
                let cj = k % 4;
                let node_i = ox + ci;
                let node_j = oy + cj;
                let idx = node_index(node_i, node_j, cc);
                let dxf = sx.sub(Fx::from_int(node_i as i64));
                let dyf = sy.sub(Fx::from_int(node_j as i64));
                proof {
                    assert(dxf@ == sx@ - (ox as int + ci as int) * FX_ONE);
                    assert(dyf@ == sy@ - (oy as int + cj as int) * FX_ONE);
                }
                let wx = Helpers::n_snapped(dxf, eps);
                let wy = Helpers::n_snapped(dyf, eps);
                let wgt = wx.mul(wy);
                let ndx = Helpers::n_d(dxf);
                let ndy = Helpers::n_d(dyf);
                let gx = ndx.mul(wy).div(cs);
                let gy = wx.mul(ndy).div(cs);
                neww.push(wgt);
                newdx.push(gx);
                newdy.push(gy);
                let mut nd = self.nodes[idx];
                nd.mass = nd.mass.add(wgt.mul(mass));
                let ghost before = self.nodes@;
                self.nodes[idx] = nd;
                proof {
                    reveal(weight_s);
                    reveal(grad_x_s);
                    reveal(grad_y_s);
                    let cii = ci as int;
                    let cjj = cj as int;
                    assert(cii == k as int / 4 && cjj == k as int % 4);
                    assert(idx as int == node_at(ox as int, oy as int, cii, cjj, cc as int));
                    assert(self.nodes@ == scatter_mass_cells(
                        nodes0,
                        sx@,
                        sy@,
                        ox as int,
                        oy as int,
                        mass,
                        eps@,
                        cc as int,
                        (k + 1) as nat,
                    ));
                }
                k = k + 1;
            }
            let np = Particle {
                vol,
                mass,
                pos: Vector2 { x: cpx, y: cpy },
                vel,
                e_d,
                e_p,
                vel_d,
                w: neww,
                w_d_x: newdx,
                w_d_y: newdy,
                ox,
                oy,
            };
            self.particles[pi] = np;
            proof {
                let ghost np_m = with_stencil(
                    m_pre.particles[pi as int],
                    g0.cell_size,
                    g0.cell_count,
                    g0.params.bspline_epsilon,
                );
                assert(np.w@ =~= np_m.w);
                assert(np.w_d_x@ =~= np_m.w_d_x);
                assert(np.w_d_y@ =~= np_m.w_d_y);
                assert(self.particles@[pi as int]@ =~= np_m);
                assert(self@.particles =~= m_pre.particles.update(pi as int, np_m));
                assert(self@ =~= p2g_mass_upto(g0, (pi + 1) as nat));
            }
            pi = pi + 1;
        }
    }

    /// Rasterize particle momentum to the grid over the cached stencils, then
    /// normalize every active node's momentum to a velocity; massless nodes
    /// are skipped, never divided.
    pub fn p2g_velocity(&mut self)
        requires
            old(self).wf(),
            old(self).stencils_in_range(),
        ensures
            final(self).wf(),
            final(self).stencils_in_range(),
            final(self).particles == old(self).particles,
            final(self)@ == p2g_velocity_s(old(self)@),
    {
        let ghost g0 = self@;
        let cc = self.cell_count;
        let eps = self.params.bspline_epsilon;
        let mut pi: usize = 0;
        while pi < self.particles.len()
            invariant
                old(self).wf(),
                old(self).stencils_in_range(),
                g0 == old(self)@,
                cc == self.cell_count,
                eps == self.params.bspline_epsilon,
                self.particles == old(self).particles,
                self.cell_size == old(self).cell_size,
                self.node_area == old(self).node_area,
                self.cell_count == old(self).cell_count,
                self.params == old(self).params,
                self.volumes_computed == old(self).volumes_computed,
                self.nodes@.len() == old(self).nodes@.len(),
                pi <= self.particles@.len(),
                self.nodes@ == p2g_vel_upto(g0, pi as nat),
            decreases self.particles@.len() - pi,
        {
            let ghost nodes_pre = self.nodes@;
            let mass = self.particles[pi].mass;
            let vel = self.particles[pi].vel;
            let ox = self.particles[pi].ox;
            let oy = self.particles[pi].oy;
            proof {
                assert(self.particles@[pi as int].wf());
                assert(self.particles@[pi as int].ox + 4 <= cc);
                assert(g0.particles[pi as int] == self.particles@[pi as int]@);
            }
            let mut k: usize = 0;
            while k < 16
                invariant
                    k <= 16,
                    pi < self.particles@.len(),
                    cc == self.cell_count,
                    4 <= cc <= 1024,
                    ox == self.particles@[pi as int].ox,
                    oy == self.particles@[pi as int].oy,
                    mass == self.particles@[pi as int].mass,
                    vel == self.particles@[pi as int].vel,
                    ox + 4 <= cc,
                    oy + 4 <= cc,
                    self.particles@[pi as int].wf(),
                    g0.particles[pi as int] == self.particles@[pi as int]@,
                    self.nodes@.len() == nodes_pre.len(),
                    nodes_pre.len() == cc * cc,
                    self.nodes@ == scatter_vel_cells(
                        nodes_pre,
                        g0.particles[pi as int],
                        eps@,
                        cc as int,
                        k as nat,
                    ),
                    self.particles == old(self).particles,
                    self.cell_size == old(self).cell_size,
                    self.node_area == old(self).node_area,
                    self.params == old(self).params,
                    self.volumes_computed == old(self).volumes_computed,
                decreases 16 - k,
            {
                let w = self.particles[pi].w[k];
                if eps.lt(w) {
                    let ci = k / 4;
                    let cj = k % 4;
                    let idx = node_index(ox + ci, oy + cj, cc);
                    let mut nd = self.nodes[idx];
                    nd.vel = nd.vel.add(vel.scale(w.mul(mass)));
                    nd.active = true;
                    self.nodes[idx] = nd;
                }
                k = k + 1;
            }
            pi = pi + 1;
        }
        let ghost scattered = self.nodes@;
        let mut ni: usize = 0;
        while ni < self.nodes.len()
            invariant
                ni <= self.nodes@.len(),
                self.nodes@.len() == scattered.len(),
                scattered == p2g_vel_upto(g0, g0.particles.len()),
                g0 == old(self)@,
                g0.particles.len() == self.particles@.len(),
                self.nodes@ == normalize_upto(scattered, ni as nat),
                forall|t: int| ni as int <= t < scattered.len() ==> self.nodes@[t] == scattered[t],
                self.particles == old(self).particles,
                self.cell_size == old(self).cell_size,
                self.node_area == old(self).node_area,
                self.cell_count == old(self).cell_count,
                self.params == old(self).params,
                self.volumes_computed == old(self).volumes_computed,
            decreases self.nodes@.len() - ni,
        {
            let nd = self.nodes[ni];
            if nd.active && nd.mass.raw != 0 {
                let mut n2 = nd;
                n2.vel = nd.vel.div_scalar(nd.mass);
                self.nodes[ni] = n2;
            }
            ni = ni + 1;
        }
        proof {
            assert(self@ =~= p2g_velocity_s(g0));
        }
    }

    /// Compute every particle's rest volume from the freshly scattered node
    /// masses: a one-shot pass, gated to run at the first step only.
    pub fn calculate_volumes(&mut self)
        requires
            old(self).wf(),
            old(self).stencils_in_range(),
        ensures
            final(self).wf(),
            final(self).stencils_in_range(),
            final(self)@ == calculate_volumes_s(old(self)@),
    {
        let ghost g0 = self@;
        if self.volumes_computed {
            return ;
        }
        let cc = self.cell_count;
        let eps = self.params.bspline_epsilon;
        let area = self.node_area;
        proof {
            lemma_cell_size_bounds(cc as int);
            lemma_node_area_positive(self.cell_size@);
        }
        let mut pi: usize = 0;
        while pi < self.particles.len()
            invariant
                old(self).wf(),
                old(self).stencils_in_range(),
                !old(self).volumes_computed,
                g0 == old(self)@,
                cc == self.cell_count,
                eps == self.params.bspline_epsilon,
                area == self.node_area,
                area@ != 0,
                self.nodes == old(self).nodes,
                self.cell_size == old(self).cell_size,
                self.node_area == old(self).node_area,
                self.cell_count == old(self).cell_count,
                self.params == old(self).params,
                self.volumes_computed == old(self).volumes_computed,
                self.particles@.len() == old(self).particles@.len(),
                pi <= self.particles@.len(),
                forall|i: int| 0 <= i < self.particles@.len() ==> self.particles@[i].wf(),
                forall|i: int|
                    0 <= i < self.particles@.len() ==> (#[trigger] self.particles@[i]).ox == old(
                    self).particles@[i].ox && self.particles@[i].oy == old(self).particles@[i].oy,
                forall|i: int|
                    pi as int <= i < self.particles@.len() ==> self.particles@[i] == old(
                    self).particles@[i],
                forall|i: int|
                    0 <= i < pi as int ==> #[trigger] self.particles@[i]@ =~= (ParticleModel {
                        vol: volume_of(g0, i),
                        ..g0.particles[i]
                    }),
            decreases self.particles@.len() - pi,
        {
            let ghost pvec0 = self.particles@;
            let mass = self.particles[pi].mass;
            let ox = self.particles[pi].ox;
            let oy = self.particles[pi].oy;
            proof {
                assert(self.particles@[pi as int].wf());
                assert(old(self).particles@[pi as int].ox + 4 <= cc);
                assert(g0.particles[pi as int] == self.particles@[pi as int]@);
            }
            let mut acc = Fx::zero();
            let mut k: usize = 0;
            while k < 16
                invariant
                    k <= 16,
                    pi < self.particles@.len(),
                    cc == self.cell_count,
                    4 <= cc <= 1024,
                    ox == self.particles@[pi as int].ox,
                    oy == self.particles@[pi as int].oy,
                    ox + 4 <= cc,
                    oy + 4 <= cc,
                    self.particles@[pi as int].wf(),
                    g0.particles[pi as int] == self.particles@[pi as int]@,
                    self.nodes == old(self).nodes,
                    self.nodes@.len() == cc * cc,
                    g0.nodes == self.nodes@,
                    eps == self.params.bspline_epsilon,
                    self.particles@ == pvec0,
                    acc@ == density_cells(
                        g0.nodes,
                        g0.particles[pi as int],
                        eps@,
                        cc as int,
                        k as nat,
                    ),
                decreases 16 - k,
            {
                let w = self.particles[pi].w[k];
                if eps.lt(w) {
                    let ci = k / 4;
                    let cj = k % 4;
                    let idx = node_index(ox + ci, oy + cj, cc);
                    let nm = self.nodes[idx].mass;
                    acc = acc.add(w.mul(nm));
                }
                k = k + 1;
            }
            let density = acc.div(area);
            let p = &self.particles[pi];
            let newvol = if density.raw != 0 {
                mass.div(density)
            } else {
                p.vol
            };
            let np = Particle {
                vol: newvol,
                mass: p.mass,
                pos: p.pos,
                vel: p.vel,
                e_d: p.e_d,
                e_p: p.e_p,
                vel_d: p.vel_d,
                w: clone_cache(&p.w),
                w_d_x: clone_cache(&p.w_d_x),
                w_d_y: clone_cache(&p.w_d_y),
                ox: p.ox,
                oy: p.oy,
            };
            self.particles[pi] = np;
            proof {
                assert(self.particles@[pi as int]@ =~= (ParticleModel {
                    vol: volume_of(g0, pi as int),
                    ..g0.particles[pi as int]
                }));
            }
            pi = pi + 1;
        }
        self.volumes_computed = true;
        proof {
            assert(self@ =~= calculate_volumes_s(g0));
        }
    }

    /// Integrate every touched node's velocity: gravity plus the accumulated
    /// internal force divided by the node's mass, times the timestep.
    pub fn update_grid_velocities(&mut self)
        requires
            old(self).wf(),
        ensures
            final(self).wf(),
            final(self).particles == old(self).particles,
            old(self).stencils_in_range() ==> final(self).stencils_in_range(),
            final(self)@ == update_grid_velocities_s(old(self)@),
    {
        let ghost g0 = self@;
        let gravity = self.params.gravity;
        let dt = self.params.dt;
        let mut ni: usize = 0;
        while ni < self.nodes.len()
            invariant
                ni <= self.nodes@.len(),
                self.nodes@.len() == old(self).nodes@.len(),
                g0 == old(self)@,
                gravity == self.params.gravity,
                dt == self.params.dt,
                self.nodes@ == integrate_upto(g0.nodes, gravity, dt, ni as nat),
                forall|t: int|
                    ni as int <= t < self.nodes@.len() ==> self.nodes@[t] == g0.nodes[t],
                self.particles == old(self).particles,
                self.cell_size == old(self).cell_size,
                self.node_area == old(self).node_area,
                self.cell_count == old(self).cell_count,
                self.params == old(self).params,
                self.volumes_computed == old(self).volumes_computed,
            decreases self.nodes@.len() - ni,
        {
            let nd = self.nodes[ni];
            if nd.active && nd.mass.raw != 0 {
                let mut n2 = nd;
                n2.vel_new = nd.vel.add(gravity.add(nd.vel_new.div_scalar(nd.mass)).scale(dt));
                self.nodes[ni] = n2;
            }
            ni = ni + 1;
        }
        proof {
            assert(self@ =~= update_grid_velocities_s(g0));
        }
    }

    /// Keep every touched node's next velocity inside the domain: an axis
    /// whose predicted position leaves the boundary margin is zeroed, and the
    /// other axis damped.
    pub fn collision_grid(&mut self)
        requires
            old(self).wf(),
        ensures
            final(self).wf(),
            final(self).particles == old(self).particles,
            old(self).stencils_in_range() ==> final(self).stencils_in_range(),
            final(self)@ == collision_grid_s(old(self)@),
    {
        let ghost g0 = self@;
        let cc = self.cell_count;
        let dt = self.params.dt;
        let cs = self.cell_size;
        let radius = self.params.bspline_radius;
        proof {
            lemma_cell_size_bounds(cc as int);
        }
        let damp = Fx { raw: BOUNDARY_DAMP };
        let ccf = Fx::from_int(cc as i64);
        let one = Fx::one();
        let hi = ccf.sub(radius).sub(one);
        let scalef = dt.div(cs);
        let mut ni: usize = 0;
        while ni < self.nodes.len()
            invariant
                ni <= self.nodes@.len(),
                self.nodes@.len() == old(self).nodes@.len(),
                self.nodes@.len() == cc * cc,
                g0 == old(self)@,
                cc == self.cell_count,
                4 <= cc <= 1024,
                dt == self.params.dt,
                cs == self.cell_size,
                radius == self.params.bspline_radius,
                damp.raw == BOUNDARY_DAMP,
                ccf@ == sat64(cc * FX_ONE),
                hi@ == fx_sub_s(fx_sub_s(sat64(cc as int * FX_ONE), radius@), FX_ONE as int),
                scalef@ == fx_div_s(dt@, cs@),
                self.nodes@ == collide_upto(g0.nodes, cc as int, dt, cs, radius, ni as nat),
                forall|t: int|
                    ni as int <= t < self.nodes@.len() ==> self.nodes@[t] == g0.nodes[t],
                self.particles == old(self).particles,
                self.cell_size == old(self).cell_size,
                self.node_area == old(self).node_area,
                self.cell_count == old(self).cell_count,
                self.params == old(self).params,
                self.volumes_computed == old(self).volumes_computed,
            decreases self.nodes@.len() - ni,
        {
            let nd = self.nodes[ni];
            if nd.active && nd.mass.raw != 0 {
                let i = ni / cc;
                let j = ni % cc;
                proof {
                    assert(i < cc) by (nonlinear_arith)
                        requires
                            i == ni as int / cc as int,
                            ni < cc * cc,
                            4 <= cc;
                    assert(j < cc) by (nonlinear_arith)
                        requires
                            j == ni as int % cc as int,
                            4 <= cc;
                }
                let np = nd.vel_new.scale(scalef).add(
                    Vector2::new(Fx::from_int(i as i64), Fx::from_int(j as i64)),
                );
                let v1 = if np.x.lt(radius) || hi.lt(np.x) {
                    Vector2 { x: Fx::zero(), y: nd.vel_new.y.mul(damp) }
                } else {
                    nd.vel_new
                };
                let v2r = if np.y.lt(radius) || hi.lt(np.y) {
                    Vector2 { x: v1.x.mul(damp), y: Fx::zero() }
                } else {
                    v1
                };
                let mut n2 = nd;
                n2.vel_new = v2r;
                self.nodes[ni] = n2;
                proof {
                    assert(self.nodes@[ni as int] == collide_node(
                        g0.nodes[ni as int],
                        ni as int / cc as int,
                        ni as int % cc as int,
                        cc as int,
                        dt,
                        cs,
                        radius,
                    ));
                }
            }
            ni = ni + 1;
        }
        proof {
            assert(self@ =~= collision_grid_s(g0));
        }
    }

    /// Gather every particle's new velocity from the grid: the FLIP/PIC
    /// blend over its cached stencil, and the velocity gradient used by the
    /// deformation update. Gravity is not applied here: the grid integration
    /// already applied it once this step.
    pub fn update_velocity(&mut self)
        requires
            old(self).wf(),
            old(self).stencils_in_range(),
        ensures
            final(self).wf(),
            final(self).stencils_in_range(),
            final(self)@ == update_velocity_s(old(self)@),
    {
        let ghost g0 = self@;
        let cc = self.cell_count;
        let eps = self.params.bspline_epsilon;
        let alpha = self.params.flip_pic_ration;
        let one_minus = Fx::one().sub(alpha);
        let mut pi: usize = 0;
        while pi < self.particles.len()
            invariant
                old(self).wf(),
                old(self).stencils_in_range(),
                g0 == old(self)@,
                cc == self.cell_count,
                eps == self.params.bspline_epsilon,
                alpha == self.params.flip_pic_ration,
                one_minus@ == fx_sub_s(FX_ONE as int, alpha@),
                self.nodes == old(self).nodes,
                self.cell_size == old(self).cell_size,
                self.node_area == old(self).node_area,
                self.cell_count == old(self).cell_count,
                self.params == old(self).params,
                self.volumes_computed == old(self).volumes_computed,
                self.particles@.len() == old(self).particles@.len(),
                pi <= self.particles@.len(),
                forall|i: int| 0 <= i < self.particles@.len() ==> self.particles@[i].wf(),
                forall|i: int|
                    0 <= i < self.particles@.len() ==> (#[trigger] self.particles@[i]).ox == old(
                    self).particles@[i].ox && self.particles@[i].oy == old(self).particles@[i].oy,
                forall|i: int|
                    pi as int <= i < self.particles@.len() ==> self.particles@[i] == old(
                    self).particles@[i],
                forall|i: int|
                    0 <= i < pi as int ==> #[trigger] self.particles@[i]@ =~= gathered_particle(
                        g0,
                        i,
                    ),
            decreases self.particles@.len() - pi,
        {
            let ghost pvec0 = self.particles@;
            let pvel = self.particles[pi].vel;
            let ox = self.particles[pi].ox;
            let oy = self.particles[pi].oy;
            proof {
                assert(self.particles@[pi as int].wf());
                assert(old(self).particles@[pi as int].ox + 4 <= cc);
                assert(g0.particles[pi as int] == self.particles@[pi as int]@);
            }
            let mut pic = Vector2::zero();
            let mut flip = pvel;
            let mut vd = Matrix2::zero();
            let mut k: usize = 0;
            while k < 16
                invariant
                    k <= 16,
                    pi < self.particles@.len(),
                    cc == self.cell_count,
                    4 <= cc <= 1024,
                    ox == self.particles@[pi as int].ox,
                    oy == self.particles@[pi as int].oy,
                    pvel == self.particles@[pi as int].vel,
                    ox + 4 <= cc,
                    oy + 4 <= cc,
                    self.particles@[pi as int].wf(),
                    g0.particles[pi as int] == self.particles@[pi as int]@,
                    self.nodes == old(self).nodes,
                    self.nodes@.len() == cc * cc,
                    g0.nodes == self.nodes@,
                    eps == self.params.bspline_epsilon,
                    self.particles@ == pvec0,
                    (pic, flip, vd) == gather_cells(
                        g0.nodes,
                        g0.particles[pi as int],
                        eps@,
                        cc as int,
                        k as nat,
                    ),
                decreases 16 - k,
            {
                let w = self.particles[pi].w[k];
                if eps.lt(w) {
                    let ci = k / 4;
                    let cj = k % 4;
                    let idx = node_index(ox + ci, oy + cj, cc);
                    let nd = self.nodes[idx];
                    let gx = self.particles[pi].w_d_x[k];
                    let gy = self.particles[pi].w_d_y[k];
                    pic = pic.add(nd.vel_new.scale(w));
                    flip = flip.add(nd.vel_new.sub(nd.vel).scale(w));
                    vd = vd.add(nd.vel_new.outer(Vector2::new(gx, gy)));
                }
                k = k + 1;
            }
            let newv = flip.scale(alpha).add(pic.scale(one_minus));
            let p = &self.particles[pi];
            let np = Particle {
                vol: p.vol,
                mass: p.mass,
                pos: p.pos,
                vel: newv,
                e_d: p.e_d,
                e_p: p.e_p,
                vel_d: vd,
                w: clone_cache(&p.w),
                w_d_x: clone_cache(&p.w_d_x),
                w_d_y: clone_cache(&p.w_d_y),
                ox: p.ox,
                oy: p.oy,
            };
            self.particles[pi] = np;
            proof {
                assert(self.particles@[pi as int]@ =~= gathered_particle(g0, pi as int));
            }
            pi = pi + 1;
        }
        proof {
            assert(self@ =~= update_velocity_s(g0));
        }
    }

    /// Scatter every particle's stress-derived force onto the grid: the
    /// energy tensor projected on each cached weight gradient is subtracted
    /// from the node's force accumulator. A particle whose plastic
    /// determinant is zero contributes nothing rather than dividing by it.
    #[verifier::rlimit(80)]
    pub fn compute_grid_forces(&mut self)
        requires
            old(self).wf(),
            old(self).stencils_in_range(),
        ensures
            final(self).wf(),
            final(self).stencils_in_range(),
            final(self).particles == old(self).particles,
            final(self)@ == compute_grid_forces_s(old(self)@),
    {
        let ghost g0 = self@;
        let cc = self.cell_count;
        let eps = self.params.bspline_epsilon;
        let hardening = self.params.hardening_coefficient;
        let mu_0 = self.params.mu_0;
        let lambda_0 = self.params.lambda_0;
        let one = Fx::one();
        let two = Fx::from_int(2);
        let mut pi: usize = 0;
        while pi < self.particles.len()
            invariant
                old(self).wf(),
                old(self).stencils_in_range(),
                g0 == old(self)@,
                cc == self.cell_count,
                eps == self.params.bspline_epsilon,
                hardening == self.params.hardening_coefficient,
                mu_0 == self.params.mu_0,
                lambda_0 == self.params.lambda_0,
                one@ == FX_ONE as int,
                two@ == 2 * FX_ONE,
                self.particles == old(self).particles,
                self.cell_size == old(self).cell_size,
                self.node_area == old(self).node_area,
                self.cell_count == old(self).cell_count,
                self.params == old(self).params,
                self.volumes_computed == old(self).volumes_computed,
                self.nodes@.len() == old(self).nodes@.len(),
                pi <= self.particles@.len(),
                self.nodes@ == forces_upto(g0, pi as nat),
            decreases self.particles@.len() - pi,
        {
            let ghost nodes_pre = self.nodes@;
            let e_d = self.particles[pi].e_d;
            let e_p = self.particles[pi].e_p;
            let vol = self.particles[pi].vol;
            let ox = self.particles[pi].ox;
            let oy = self.particles[pi].oy;
            proof {
                assert(self.particles@[pi as int].wf());
                assert(self.particles@[pi as int].ox + 4 <= cc);
                assert(g0.particles[pi as int] == self.particles@[pi as int]@);
            }
            let jp = e_p.determinant();
            if jp.raw != 0 {
                let je = e_d.determinant();
                let svd = svd2(e_d);
                let re = svd.u.mul(svd.v_t);
                let ex = fx_exp(hardening.mul(one.sub(jp)));
                let mu = mu_0.mul(ex);
                let lambda = lambda_0.mul(ex);
                let s1 = two.mul(mu).div(jp);
                let term1 = e_d.sub(re).scale(s1).mul(e_d.transpose());
                let s2 = lambda.div(jp).mul(je.sub(one)).mul(je);
                let sigma = term1.add(Matrix2::identity().scale(s2));
                let jn = e_d.mul(e_p).determinant();
                let vn = jn.mul(vol);
                let energy = sigma.scale(vn);
                proof {
                    assert(energy == energy_of(g0.particles[pi as int], g0.params));
                }
                let mut k: usize = 0;
                while k < 16
                    invariant
                        k <= 16,
                        pi < self.particles@.len(),
                        cc == self.cell_count,
                        4 <= cc <= 1024,
                        ox == self.particles@[pi as int].ox,
                        oy == self.particles@[pi as int].oy,
                        ox + 4 <= cc,
                        oy + 4 <= cc,
                        self.particles@[pi as int].wf(),
                        g0.particles[pi as int] == self.particles@[pi as int]@,
                        energy == energy_of(g0.particles[pi as int], g0.params),
                        eps == self.params.bspline_epsilon,
                        self.nodes@.len() == nodes_pre.len(),
                        nodes_pre.len() == cc * cc,
                        self.nodes@ == force_cells(
                            nodes_pre,
                            g0.particles[pi as int],
                            energy,
                            eps@,
                            cc as int,
                            k as nat,
                        ),
                        self.particles == old(self).particles,
                        self.cell_size == old(self).cell_size,
                        self.node_area == old(self).node_area,
                        self.params == old(self).params,
                        self.volumes_computed == old(self).volumes_computed,
                    decreases 16 - k,
                {
                    let w = self.particles[pi].w[k];
                    if eps.lt(w) {
                        let ci = k / 4;
                        let cj = k % 4;
                        let idx = node_index(ox + ci, oy + cj, cc);
                        let gx = self.particles[pi].w_d_x[k];
                        let gy = self.particles[pi].w_d_y[k];
                        let mut nd = self.nodes[idx];
                        nd.vel_new = nd.vel_new.sub(energy.mul_vec(Vector2::new(gx, gy)));
                        self.nodes[idx] = nd;
                    }
                    k = k + 1;
                }
            }
            pi = pi + 1;
        }
        proof {
            assert(self@ =~= compute_grid_forces_s(g0));
        }
    }

    /// Update every particle's elastoplastic split: build the candidate
    /// elastic part from the gathered velocity gradient, clamp its singular
    /// values into the critical envelope, and push whatever the clamp
    /// rejected into the plastic part.
    #[verifier::rlimit(80)]
    pub fn update_deformation_gradient(&mut self)
        requires
            old(self).wf(),
        ensures
            final(self).wf(),
            old(self).stencils_in_range() ==> final(self).stencils_in_range(),
            final(self)@ == update_deformation_gradient_s(old(self)@),
    {
        let ghost g0 = self@;
        let dt = self.params.dt;
        let lo = self.params.critical_compression;
        let hi = self.params.critical_stretch;
        let one = Fx::one();
        let mut pi: usize = 0;
        while pi < self.particles.len()
            invariant
                old(self).wf(),
                g0 == old(self)@,
                dt == self.params.dt,
                lo == self.params.critical_compression,
                hi == self.params.critical_stretch,
                0 < lo@ <= hi@,
                one@ == FX_ONE as int,
                self.nodes == old(self).nodes,
                self.cell_size == old(self).cell_size,
                self.node_area == old(self).node_area,
                self.cell_count == old(self).cell_count,
                self.params == old(self).params,
                self.volumes_computed == old(self).volumes_computed,
                self.particles@.len() == old(self).particles@.len(),
                pi <= self.particles@.len(),
                forall|i: int| 0 <= i < self.particles@.len() ==> self.particles@[i].wf(),
                forall|i: int|
                    0 <= i < self.particles@.len() ==> (#[trigger] self.particles@[i]).ox == old(
                    self).particles@[i].ox && self.particles@[i].oy == old(self).particles@[i].oy,
                forall|i: int|
                    pi as int <= i < self.particles@.len() ==> self.particles@[i] == old(
                    self).particles@[i],
                forall|i: int|
                    0 <= i < pi as int ==> #[trigger] self.particles@[i]@ =~= deformed_particle(
                        g0.particles[i],
                        g0.params,
                    ),
            decreases self.particles@.len() - pi,
        {
            let p_vel_d = self.particles[pi].vel_d;
            let p_e_d = self.particles[pi].e_d;
            let p_e_p = self.particles[pi].e_p;
            let vd = Matrix2::identity().add(p_vel_d.scale(dt));
            let ed = vd.mul(p_e_d);
            let fall = ed.mul(p_e_p);
            let svd = svd2(ed);
            let sx = svd.sig.x;
            let sy = svd.sig.y;
            let in_range = !sx.lt(lo) && !hi.lt(sx) && !sy.lt(lo) && !hi.lt(sy);
            let (ned, nep) = if in_range {
                (ed, p_e_p)
            } else {
                let s1 = clamp_fx(sx, lo, hi);
                let s2 = clamp_fx(sy, lo, hi);
                let sm = Matrix2::new(s1, Fx::zero(), Fx::zero(), s2);
                let sinv = Matrix2::new(one.div(s1), Fx::zero(), Fx::zero(), one.div(s2));
                let ep2 = svd.v_t.transpose().mul(sinv).mul(svd.u.transpose()).mul(fall);
                let ed2 = svd.u.mul(sm).mul(svd.v_t);
                (ed2, ep2)
            };
            let p = &self.particles[pi];
            let np = Particle {
                vol: p.vol,
                mass: p.mass,
                pos: p.pos,
                vel: p.vel,
                e_d: ned,
                e_p: nep,
                vel_d: vd,
                w: clone_cache(&p.w),
                w_d_x: clone_cache(&p.w_d_x),
                w_d_y: clone_cache(&p.w_d_y),
                ox: p.ox,
                oy: p.oy,
            };
            self.particles[pi] = np;
            proof {
                assert(self.particles@[pi as int]@ =~= deformed_particle(
                    g0.particles[pi as int],
                    g0.params,
                ));
            }
            pi = pi + 1;
        }
        proof {
            assert(self@ =~= update_deformation_gradient_s(g0));
        }
    }

    /// Advance the simulation by one full step: the fixed sequence of
    /// transfer, integration, collision, gather, plasticity and advection
    /// passes. The resulting state is exactly `simulate_s` of the old state,
    /// so the whole step is a function of the state alone.
    pub fn simulate(&mut self)
        requires
            old(self).wf(),
        ensures
            final(self).wf(),
            final(self).stencils_in_range(),
            final(self)@ == simulate_s(old(self)@),
    {
        let ghost g0 = self@;
        self.reset_parameters();
        self.p2g_mass();
        self.p2g_velocity();
        self.calculate_volumes();
        self.compute_grid_forces();
        self.update_grid_velocities();
        self.collision_grid();
        self.update_velocity();
        self.update_deformation_gradient();
        self.update_particle_positions();
        proof {
            assert(self@ == simulate_s(g0));
        }
    }

    /// Advect every particle by one timestep of its velocity.
    pub fn update_particle_positions(&mut self)
        requires
            old(self).wf(),
        ensures
            final(self).wf(),
            old(self).stencils_in_range() ==> final(self).stencils_in_range(),
            final(self)@ == update_particle_positions_s(old(self)@),
    {
        let ghost g0 = self@;
        let dt = self.params.dt;
        let mut pi: usize = 0;
        while pi < self.particles.len()
            invariant
                old(self).wf(),
                g0 == old(self)@,
                dt == self.params.dt,
                self.nodes == old(self).nodes,
                self.cell_size == old(self).cell_size,
                self.node_area == old(self).node_area,
                self.cell_count == old(self).cell_count,
                self.params == old(self).params,
                self.volumes_computed == old(self).volumes_computed,
                self.particles@.len() == old(self).particles@.len(),
                pi <= self.particles@.len(),
                forall|i: int| 0 <= i < self.particles@.len() ==> self.particles@[i].wf(),
                forall|i: int|
                    0 <= i < self.particles@.len() ==> (#[trigger] self.particles@[i]).ox == old(
                    self).particles@[i].ox && self.particles@[i].oy == old(self).particles@[i].oy,
                forall|i: int|
                    pi as int <= i < self.particles@.len() ==> self.particles@[i] == old(
                    self).particles@[i],
                forall|i: int|
                    0 <= i < pi as int ==> #[trigger] self.particles@[i]@ =~= advected_particle(
                        g0.particles[i],
                        dt,
                    ),
            decreases self.particles@.len() - pi,
        {
            let p = &self.particles[pi];
            let newpos = p.pos.add(p.vel.scale(dt));
            let np = Particle {
                vol: p.vol,
                mass: p.mass,
                pos: newpos,
                vel: p.vel,
                e_d: p.e_d,
                e_p: p.e_p,
                vel_d: p.vel_d,
                w: clone_cache(&p.w),
                w_d_x: clone_cache(&p.w_d_x),
                w_d_y: clone_cache(&p.w_d_y),
                ox: p.ox,
                oy: p.oy,
            };
            self.particles[pi] = np;
            proof {
                assert(self.particles@[pi as int]@ =~= advected_particle(
                    g0.particles[pi as int],
                    dt,
                ));
            }
            pi = pi + 1;
        }
        proof {
            assert(self@ =~= update_particle_positions_s(g0));
        }
    }
}

/// The cell area derived from any admissible cell size is positive.
pub proof fn lemma_node_area_positive(cs: int)
    requires
        50331648 <= cs <= 12884901888,
    ensures
        49152 <= fx_mul_s(cs, cs) <= 3221225472,
{
    let p = cs * cs;
    assert(2533274790395904 <= p <= 166020696663385964544) by (nonlinear_arith)
        requires
            50331648 <= cs <= 12884901888,
            p == cs * cs;
    vstd::arithmetic::div_mod::lemma_div_is_ordered(2533274790395904, p, FX_ONE as int);
    vstd::arithmetic::div_mod::lemma_div_is_ordered(p, 166020696663385964544, FX_ONE as int);
    assert(2533274790395904int / 51539607552 == 49152 && 166020696663385964544int / 51539607552
        == 3221225472) by (nonlinear_arith);
}

/// A fixed-point value clamped into `[lo, hi]`.
fn clamp_fx(v: Fx, lo: Fx, hi: Fx) -> (r: Fx)
    ensures
        r@ == clamp_sv(v@, lo@, hi@),
{
    if v.lt(lo) {
        lo
    } else if hi.lt(v) {
        hi
    } else {
        v
    }
}

/// A copy of a cached stencil vector.
fn clone_cache(v: &Vec<Fx>) -> (r: Vec<Fx>)
    ensures
        r@ == v@,
{
    let mut r: Vec<Fx> = Vec::new();
    let mut i: usize = 0;
    while i < v.len()
        invariant
            i <= v@.len(),
            r@.len() == i as int,
            forall|k: int| 0 <= k < i as int ==> r@[k] == v@[k],
        decreases v@.len() - i,
    {
        r.push(v[i]);
        i = i + 1;
    }
    proof {
        assert(r@ =~= v@);
    }
    r
}

/// The reset pass: every node zeroed, every stencil cache zeroed.
pub open spec fn reset_s(g: GridModel) -> GridModel {
    GridModel {
        nodes: Seq::new(g.nodes.len(), |i: int| zero_node()),
        particles: Seq::new(g.particles.len(), |i: int| reset_stencil(g.particles[i])),
        ..g
    }
}

/// One full step of the simulation: reset, scatter mass and momentum,
/// compute the one-shot volumes, scatter forces, integrate and collide the
/// grid, gather velocities, update the elastoplastic split, advect.
pub open spec fn simulate_s(g: GridModel) -> GridModel {
    let g1 = reset_s(g);
    let g2 = p2g_mass_s(g1);
    let g3 = p2g_velocity_s(g2);
    let g4 = calculate_volumes_s(g3);
    let g5 = compute_grid_forces_s(g4);
    let g6 = update_grid_velocities_s(g5);
    let g7 = collision_grid_s(g6);
    let g8 = update_velocity_s(g7);
    let g9 = update_deformation_gradient_s(g8);
    update_particle_positions_s(g9)
}

/// The state after `n` full steps.
pub open spec fn run_s(g: GridModel, n: nat) -> GridModel
    decreases n,
{
    if n == 0 {
        g
    } else {
        simulate_s(run_s(g, (n - 1) as nat))
    }
}

/// Determinism: a full step is a function of the state alone, so two runs
/// from equal initial states stay equal after any number of steps. The
/// substance of this law is carried by `Grid::simulate`, whose contract pins
/// the entire resulting state to `simulate_s` of the old state.
pub proof fn lemma_determinism(a: GridModel, b: GridModel, n: nat)
    requires
        a == b,
    ensures
        run_s(a, n) == run_s(b, n),
{
}

/// A particle after a stencil reset: caches zeroed, everything else kept.
pub open spec fn reset_stencil(p: ParticleModel) -> ParticleModel {
    ParticleModel {
        w: Seq::new(16, |k: int| fx(0)),
        w_d_x: Seq::new(16, |k: int| fx(0)),
        w_d_y: Seq::new(16, |k: int| fx(0)),
        ..p
    }
}

/// Margin kept between a clamped position and the upper domain boundary:
/// one hundred-thousandth of the domain.
pub const POS_EPS: i64 = 515396;

/// A coordinate clamped into the interior of the unit-square domain, so a
/// stencil never indexes outside the grid.
pub open spec fn clamp_pos_s(x: Fx) -> Fx {
    if x@ < 0 {
        fx(0)
    } else if x@ > FX_ONE - POS_EPS {
        fx(FX_ONE - POS_EPS)
    } else {
        x
    }
}

/// Stencil origin for a scaled coordinate `s`: one cell below the cell that
/// holds the particle, kept inside `[0, cell_count - 4]`.
pub open spec fn origin_s(s: int, cc: int) -> int {
    let c = s / (FX_ONE as int) - 1;
    if c < 0 {
        0
    } else if c > cc - 4 {
        cc - 4
    } else {
        c
    }
}

/// Basis value along one axis for the stencil node `o + c`, with the
/// activation snap applied.
pub open spec fn wx_at(s: int, o: int, c: int, eps: int) -> int {
    bspline_snapped(s - (o + c) * FX_ONE, eps)
}

/// Basis derivative along one axis for the stencil node `o + c`.
pub open spec fn dx_at(s: int, o: int, c: int) -> int {
    bspline_d_raw(s - (o + c) * FX_ONE)
}

/// The cached two-dimensional stencil weight for cell `(ci, cj)`.
#[verifier::opaque]
pub open spec fn weight_s(sx: int, sy: int, ox: int, oy: int, ci: int, cj: int, eps: int) -> int {
    fx_mul_s(wx_at(sx, ox, ci, eps), wx_at(sy, oy, cj, eps))
}

/// The cached weight-gradient x component for cell `(ci, cj)`.
#[verifier::opaque]
pub open spec fn grad_x_s(
    sx: int,
    sy: int,
    ox: int,
    oy: int,
    ci: int,
    cj: int,
    eps: int,
    cs: int,
) -> int {
    fx_div_s(fx_mul_s(dx_at(sx, ox, ci), wx_at(sy, oy, cj, eps)), cs)
}

/// The cached weight-gradient y component for cell `(ci, cj)`.
#[verifier::opaque]
pub open spec fn grad_y_s(
    sx: int,
    sy: int,
    ox: int,
    oy: int,
    ci: int,
    cj: int,
    eps: int,
    cs: int,
) -> int {
    fx_div_s(fx_mul_s(wx_at(sx, ox, ci, eps), dx_at(sy, oy, cj)), cs)
}

/// A particle with its position clamped into the domain and its stencil
/// recomputed and cached from it, as the mass scatter leaves it.
pub open spec fn with_stencil(p: ParticleModel, cs: Fx, cc: int, eps: Fx) -> ParticleModel {
    let cp = Vector2 { x: clamp_pos_s(p.pos.x), y: clamp_pos_s(p.pos.y) };
    let sx = fx_div_s(cp.x@, cs@);
    let sy = fx_div_s(cp.y@, cs@);
    let ox = origin_s(sx, cc);
    let oy = origin_s(sy, cc);
    ParticleModel {
        pos: cp,
        ox: ox,
        oy: oy,
        w: Seq::new(16, |k: int| fx(weight_s(sx, sy, ox, oy, k / 4, k % 4, eps@))),
        w_d_x: Seq::new(16, |k: int| fx(grad_x_s(sx, sy, ox, oy, k / 4, k % 4, eps@, cs@))),
        w_d_y: Seq::new(16, |k: int| fx(grad_y_s(sx, sy, ox, oy, k / 4, k % 4, eps@, cs@))),
        ..p
    }
}

/// The flat index of node `(i, j)`.
pub open spec fn node_at(ox: int, oy: int, ci: int, cj: int, cc: int) -> int {
    (ox + ci) * cc + oy + cj
}

/// Node masses after the first `k` of the sixteen cells of one particle's
/// stencil have received their share `weight * mass` of the particle's mass.
pub open spec fn scatter_mass_cells(
    nodes: Seq<GridNode>,
    sx: int,
    sy: int,
    ox: int,
    oy: int,
    mass: Fx,
    eps: int,
    cc: int,
    k: nat,
) -> Seq<GridNode>
    decreases k,
{
    if k == 0 {
        nodes
    } else {
        let prev = scatter_mass_cells(nodes, sx, sy, ox, oy, mass, eps, cc, (k - 1) as nat);
        let ci = (k - 1) as int / 4;
        let cj = (k - 1) as int % 4;
        let idx = node_at(ox, oy, ci, cj, cc);
        let nd = prev[idx];
        prev.update(
            idx,
            GridNode {
                mass: fx(fx_add_s(nd.mass@, fx_mul_s(weight_s(sx, sy, ox, oy, ci, cj, eps), mass@))),
                ..nd
            },
        )
    }
}

/// The state after the mass scatter has processed the first `k` particles:
/// each got its stencil recomputed and cached, and spread its mass over it.
pub open spec fn p2g_mass_upto(g: GridModel, k: nat) -> GridModel
    decreases k,
{
    if k == 0 {
        g
    } else {
        let prev = p2g_mass_upto(g, (k - 1) as nat);
        let p0 = prev.particles[k - 1];
        let np = with_stencil(p0, g.cell_size, g.cell_count, g.params.bspline_epsilon);
        GridModel {
            nodes: scatter_mass_cells(
                prev.nodes,
                fx_div_s(np.pos.x@, g.cell_size@),
                fx_div_s(np.pos.y@, g.cell_size@),
                np.ox,
                np.oy,
                np.mass,
                g.params.bspline_epsilon@,
                g.cell_count,
                16,
            ),
            particles: prev.particles.update(k - 1, np),
            ..prev
        }
    }
}

/// The whole mass scatter: every particle's stencil recomputed, every node's
/// mass the sum of the stencil shares that reach it.
pub open spec fn p2g_mass_s(g: GridModel) -> GridModel {
    p2g_mass_upto(g, g.particles.len())
}

/// Node momenta after the first `k` cells of one particle's cached stencil
/// added their `weight * mass` share of the particle's momentum. A cell
/// contributes only where its weight exceeds the activation epsilon, and
/// marks its node active.
pub open spec fn scatter_vel_cells(
    nodes: Seq<GridNode>,
    p: ParticleModel,
    eps: int,
    cc: int,
    k: nat,
) -> Seq<GridNode>
    decreases k,
{
    if k == 0 {
        nodes
    } else {
        let prev = scatter_vel_cells(nodes, p, eps, cc, (k - 1) as nat);
        let t = (k - 1) as int;
        if p.w[t]@ > eps {
            let idx = node_at(p.ox, p.oy, t / 4, t % 4, cc);
            let nd = prev[idx];
            prev.update(
                idx,
                GridNode {
                    vel: v2_add_s(nd.vel, v2_scale_s(p.vel, fx(fx_mul_s(p.w[t]@, p.mass@)))),
                    active: true,
                    ..nd
                },
            )
        } else {
            prev
        }
    }
}

/// Node momenta after the first `k` particles scattered theirs.
pub open spec fn p2g_vel_upto(g: GridModel, k: nat) -> Seq<GridNode>
    decreases k,
{
    if k == 0 {
        g.nodes
    } else {
        scatter_vel_cells(
            p2g_vel_upto(g, (k - 1) as nat),
            g.particles[k - 1],
            g.params.bspline_epsilon@,
            g.cell_count,
            16,
        )
    }
}

/// The first `k` nodes normalized: each active node's accumulated momentum
/// divided by its accumulated mass; a massless node is skipped, never divided.
pub open spec fn normalize_upto(nodes: Seq<GridNode>, k: nat) -> Seq<GridNode>
    decreases k,
{
    if k == 0 {
        nodes
    } else {
        let prev = normalize_upto(nodes, (k - 1) as nat);
        let t = (k - 1) as int;
        let nd = nodes[t];
        if nd.active && nd.mass@ != 0 {
            prev.update(t, GridNode { vel: v2_div_scalar_s(nd.vel, nd.mass), ..nd })
        } else {
            prev
        }
    }
}

/// The momentum scatter: every particle's momentum spread over its cached
/// stencil, then every active node normalized to a velocity.
pub open spec fn p2g_velocity_s(g: GridModel) -> GridModel {
    let scattered = p2g_vel_upto(g, g.particles.len());
    GridModel { nodes: normalize_upto(scattered, scattered.len()), ..g }
}

/// The density one particle gathers from the first `k` cells of its cached
/// stencil: the weighted node masses, for weights above the epsilon.
pub open spec fn density_cells(
    nodes: Seq<GridNode>,
    p: ParticleModel,
    eps: int,
    cc: int,
    k: nat,
) -> int
    decreases k,
{
    if k == 0 {
        0
    } else {
        let prev = density_cells(nodes, p, eps, cc, (k - 1) as nat);
        let t = (k - 1) as int;
        if p.w[t]@ > eps {
            fx_add_s(prev, fx_mul_s(p.w[t]@, nodes[node_at(p.ox, p.oy, t / 4, t % 4, cc)].mass@))
        } else {
            prev
        }
    }
}

/// The rest volume of particle `i`: its mass over the density its stencil
/// gathers, per cell area. A degenerate zero density leaves the volume as it
/// was rather than dividing by it.
pub open spec fn volume_of(g: GridModel, i: int) -> Fx {
    let p = g.particles[i];
    let gathered = density_cells(g.nodes, p, g.params.bspline_epsilon@, g.cell_count, 16);
    if g.node_area@ != 0 {
        let density = fx_div_s(gathered, g.node_area@);
        if density != 0 {
            fx(fx_div_s(p.mass@, density))
        } else {
            p.vol
        }
    } else {
        p.vol
    }
}

/// The volume pass: a one-shot computation of every particle's rest volume,
/// gated so it runs at the first step only.
pub open spec fn calculate_volumes_s(g: GridModel) -> GridModel {
    if g.volumes_computed {
        g
    } else {
        GridModel {
            particles: Seq::new(
                g.particles.len(),
                |i: int| ParticleModel { vol: volume_of(g, i), ..g.particles[i] },
            ),
            volumes_computed: true,
            ..g
        }
    }
}

/// One node integrated: the next velocity becomes the current velocity plus
/// `dt` times gravity and the mass-normalized accumulated force. Inactive and
/// massless nodes are left alone.
pub open spec fn integrate_node(nd: GridNode, gravity: Vector2, dt: Fx) -> GridNode {
    if nd.active && nd.mass@ != 0 {
        GridNode {
            vel_new: v2_add_s(
                nd.vel,
                v2_scale_s(v2_add_s(gravity, v2_div_scalar_s(nd.vel_new, nd.mass)), dt),
            ),
            ..nd
        }
    } else {
        nd
    }
}

/// The first `k` nodes integrated.
pub open spec fn integrate_upto(nodes: Seq<GridNode>, gravity: Vector2, dt: Fx, k: nat) -> Seq<
    GridNode,
>
    decreases k,
{
    if k == 0 {
        nodes
    } else {
        let prev = integrate_upto(nodes, gravity, dt, (k - 1) as nat);
        let t = (k - 1) as int;
        prev.update(t, integrate_node(nodes[t], gravity, dt))
    }
}

/// The grid velocity update: every touched node integrated with gravity and
/// its accumulated internal force.
pub open spec fn update_grid_velocities_s(g: GridModel) -> GridModel {
    GridModel {
        nodes: integrate_upto(g.nodes, g.params.gravity, g.params.dt, g.nodes.len()),
        ..g
    }
}

/// Tangential damping applied at a domain boundary: `0.9` in raw units.
pub const BOUNDARY_DAMP: i64 = 46385646796;

/// One node's boundary response: if the node's predicted position (in grid
/// units) leaves the interior margin of `bspline_radius` cells along an axis,
/// the velocity along that axis is zeroed and the other axis is damped.
/// Inactive and massless nodes are left alone.
pub open spec fn collide_node(
    nd: GridNode,
    i: int,
    j: int,
    cc: int,
    dt: Fx,
    cs: Fx,
    radius: Fx,
) -> GridNode {
    if nd.active && nd.mass@ != 0 {
        let scalef = fx(fx_div_s(dt@, cs@));
        let np = v2_add_s(
            v2_scale_s(nd.vel_new, scalef),
            Vector2 { x: fx(sat64(i * FX_ONE)), y: fx(sat64(j * FX_ONE)) },
        );
        let hi = fx_sub_s(fx_sub_s(sat64(cc * FX_ONE), radius@), FX_ONE as int);
        let v1 = if np.x@ < radius@ || np.x@ > hi {
            Vector2 { x: fx(0), y: fx(fx_mul_s(nd.vel_new.y@, BOUNDARY_DAMP as int)) }
        } else {
            nd.vel_new
        };
        let v2r = if np.y@ < radius@ || np.y@ > hi {
            Vector2 { x: fx(fx_mul_s(v1.x@, BOUNDARY_DAMP as int)), y: fx(0) }
        } else {
            v1
        };
        GridNode { vel_new: v2r, ..nd }
    } else {
        nd
    }
}

/// The first `k` nodes with their boundary response applied.
pub open spec fn collide_upto(
    nodes: Seq<GridNode>,
    cc: int,
    dt: Fx,
    cs: Fx,
    radius: Fx,
    k: nat,
) -> Seq<GridNode>
    decreases k,
{
    if k == 0 {
        nodes
    } else {
        let prev = collide_upto(nodes, cc, dt, cs, radius, (k - 1) as nat);
        let t = (k - 1) as int;
        prev.update(t, collide_node(nodes[t], t / cc, t % cc, cc, dt, cs, radius))
    }
}

/// The grid boundary collision pass.
pub open spec fn collision_grid_s(g: GridModel) -> GridModel {
    GridModel {
        nodes: collide_upto(
            g.nodes,
            g.cell_count,
            g.params.dt,
            g.cell_size,
            g.params.bspline_radius,
            g.nodes.len(),
        ),
        ..g
    }
}

/// What one particle gathers from the first `k` cells of its cached stencil:
/// the PIC velocity, the FLIP velocity (seeded with the particle's own
/// velocity) and the velocity gradient, each over weights above the epsilon.
pub open spec fn gather_cells(
    nodes: Seq<GridNode>,
    p: ParticleModel,
    eps: int,
    cc: int,
    k: nat,
) -> (Vector2, Vector2, Matrix2)
    decreases k,
{
    if k == 0 {
        (v2_zero(), p.vel, m2_zero())
    } else {
        let prev = gather_cells(nodes, p, eps, cc, (k - 1) as nat);
        let t = (k - 1) as int;
        if p.w[t]@ > eps {
            let nd = nodes[node_at(p.ox, p.oy, t / 4, t % 4, cc)];
            (
                v2_add_s(prev.0, v2_scale_s(nd.vel_new, p.w[t])),
                v2_add_s(prev.1, v2_scale_s(v2_sub_s(nd.vel_new, nd.vel), p.w[t])),
                m2_add_s(prev.2, v2_outer_s(nd.vel_new, Vector2 { x: p.w_d_x[t], y: p.w_d_y[t] })),
            )
        } else {
            prev
        }
    }
}

/// Particle `i` after the velocity gather: its velocity is the FLIP/PIC blend
/// of what its stencil gathers, and its velocity gradient is the gathered
/// one. Gravity enters each step exactly once, in the grid integration, so
/// the gather adds none.
pub open spec fn gathered_particle(g: GridModel, i: int) -> ParticleModel {
    let p = g.particles[i];
    let acc = gather_cells(g.nodes, p, g.params.bspline_epsilon@, g.cell_count, 16);
    let alpha = g.params.flip_pic_ration;
    ParticleModel {
        vel: v2_add_s(
            v2_scale_s(acc.1, alpha),
            v2_scale_s(acc.0, fx(fx_sub_s(FX_ONE as int, alpha@))),
        ),
        vel_d: acc.2,
        ..p
    }
}

/// The velocity gather pass over all particles.
pub open spec fn update_velocity_s(g: GridModel) -> GridModel {
    GridModel {
        particles: Seq::new(g.particles.len(), |i: int| gathered_particle(g, i)),
        ..g
    }
}

/// A particle advected by one timestep.
pub open spec fn advected_particle(p: ParticleModel, dt: Fx) -> ParticleModel {
    ParticleModel { pos: v2_add_s(p.pos, v2_scale_s(p.vel, dt)), ..p }
}

/// The advection pass over all particles.
pub open spec fn update_particle_positions_s(g: GridModel) -> GridModel {
    GridModel {
        particles: Seq::new(
            g.particles.len(),
            |i: int| advected_particle(g.particles[i], g.params.dt),
        ),
        ..g
    }
}

/// The stress-derived energy tensor of one particle: Lame parameters
/// hardened by the exponential of the plastic determinant's deviation from
/// one, the rotational part taken from the singular value decomposition of
/// the elastic part, the two-term Kirchhoff stress, scaled by the particle's
/// rest volume and total determinant.
pub open spec fn energy_of(p: ParticleModel, params: Params) -> Matrix2 {
    let jp = m2_det_s(p.e_p);
    let je = m2_det_s(p.e_d);
    let svd = svd2_s(p.e_d);
    let re = m2_mul_s(svd.u, svd.v_t);
    let ex = fx_exp_s(fx_mul_s(params.hardening_coefficient@, fx_sub_s(FX_ONE as int, jp)));
    let mu = fx_mul_s(params.mu_0@, ex);
    let lambda = fx_mul_s(params.lambda_0@, ex);
    let s1 = fx_div_s(fx_mul_s(2 * FX_ONE, mu), jp);
    let term1 = m2_mul_s(m2_scale_s(m2_sub_s(p.e_d, re), fx(s1)), m2_transpose_s(p.e_d));
    let s2 = fx_mul_s(fx_mul_s(fx_div_s(lambda, jp), fx_sub_s(je, FX_ONE as int)), je);
    let sigma = m2_add_s(term1, m2_scale_s(m2_identity(), fx(s2)));
    let jn = m2_det_s(m2_mul_s(p.e_d, p.e_p));
    let vn = fx_mul_s(jn, p.vol@);
    m2_scale_s(sigma, fx(vn))
}

/// Node force accumulators after the first `k` cells of one particle's
/// stencil subtracted the energy projected on their weight gradients, for
/// weights above the epsilon.
pub open spec fn force_cells(
    nodes: Seq<GridNode>,
    p: ParticleModel,
    energy: Matrix2,
    eps: int,
    cc: int,
    k: nat,
) -> Seq<GridNode>
    decreases k,
{
    if k == 0 {
        nodes
    } else {
        let prev = force_cells(nodes, p, energy, eps, cc, (k - 1) as nat);
        let t = (k - 1) as int;
        if p.w[t]@ > eps {
            let idx = node_at(p.ox, p.oy, t / 4, t % 4, cc);
            let nd = prev[idx];
            prev.update(
                idx,
                GridNode {
                    vel_new: v2_sub_s(
                        nd.vel_new,
                        m2_mul_v2_s(energy, Vector2 { x: p.w_d_x[t], y: p.w_d_y[t] }),
                    ),
                    ..nd
                },
            )
        } else {
            prev
        }
    }
}

/// Node force accumulators after the first `k` particles scattered their
/// stress contribution; a particle with a degenerate (zero) plastic
/// determinant contributes no force rather than dividing by it.
pub open spec fn forces_upto(g: GridModel, k: nat) -> Seq<GridNode>
    decreases k,
{
    if k == 0 {
        g.nodes
    } else {
        let prev = forces_upto(g, (k - 1) as nat);
        let p = g.particles[k - 1];
        if m2_det_s(p.e_p) != 0 {
            force_cells(
                prev,
                p,
                energy_of(p, g.params),
                g.params.bspline_epsilon@,
                g.cell_count,
                16,
            )
        } else {
            prev
        }
    }
}

/// The force scatter pass.
pub open spec fn compute_grid_forces_s(g: GridModel) -> GridModel {
    GridModel { nodes: forces_upto(g, g.particles.len()), ..g }
}

/// A value clamped into `[lo, hi]`.
pub open spec fn clamp_sv(v: int, lo: int, hi: int) -> int {
    if v < lo {
        lo
    } else if v > hi {
        hi
    } else {
        v
    }
}

/// One particle's deformation update: the gathered velocity gradient builds
/// the candidate elastic part, whose singular values are clamped into the
/// critical compression/stretch envelope; whatever the clamp rejects is
/// redistributed into the plastic part so the product of both parts stays
/// the total deformation. When no singular value is clamped the split is
/// left as computed: recomposing from the unclamped factors is the identity
/// in exact arithmetic and would only add rounding.
pub open spec fn deformed_particle(p: ParticleModel, params: Params) -> ParticleModel {
    let vd = m2_add_s(m2_identity(), m2_scale_s(p.vel_d, params.dt));
    let ed = m2_mul_s(vd, p.e_d);
    let fall = m2_mul_s(ed, p.e_p);
    let svd = svd2_s(ed);
    let lo = params.critical_compression@;
    let hi = params.critical_stretch@;
    if lo <= svd.sig.x@ <= hi && lo <= svd.sig.y@ <= hi {
        ParticleModel { vel_d: vd, e_d: ed, ..p }
    } else {
        let s1 = clamp_sv(svd.sig.x@, lo, hi);
        let s2 = clamp_sv(svd.sig.y@, lo, hi);
        let sm = Matrix2 { a: fx(s1), b: fx(0), c: fx(0), d: fx(s2) };
        let sinv = Matrix2 {
            a: fx(fx_div_s(FX_ONE as int, s1)),
            b: fx(0),
            c: fx(0),
            d: fx(fx_div_s(FX_ONE as int, s2)),
        };
        let ep2 = m2_mul_s(
            m2_mul_s(m2_mul_s(m2_transpose_s(svd.v_t), sinv), m2_transpose_s(svd.u)),
            fall,
        );
        let ed2 = m2_mul_s(m2_mul_s(svd.u, sm), svd.v_t);
        ParticleModel { vel_d: vd, e_d: ed2, e_p: ep2, ..p }
    }
}

/// The deformation update pass over all particles.
pub open spec fn update_deformation_gradient_s(g: GridModel) -> GridModel {
    GridModel {
        particles: Seq::new(
            g.particles.len(),
            |i: int| deformed_particle(g.particles[i], g.params),
        ),
        ..g
    }
}

/// Deformation split invariant: when no singular value of the candidate
/// elastic part leaves the clamp envelope, the updated elastic and plastic
/// parts compose exactly, in fixed point, to the total deformation the
/// update started from.
pub proof fn lemma_deformation_split(p: ParticleModel, params: Params)
    requires
        ({
            let vd = m2_add_s(m2_identity(), m2_scale_s(p.vel_d, params.dt));
            let svd = svd2_s(m2_mul_s(vd, p.e_d));
            params.critical_compression@ <= svd.sig.x@ <= params.critical_stretch@
                && params.critical_compression@ <= svd.sig.y@ <= params.critical_stretch@
        }),
    ensures
        ({
            let vd = m2_add_s(m2_identity(), m2_scale_s(p.vel_d, params.dt));
            let fall = m2_mul_s(m2_mul_s(vd, p.e_d), p.e_p);
            let q = deformed_particle(p, params);
            m2_mul_s(q.e_d, q.e_p) == fall
        }),
{
}

/// Clamp envelope: the singular values `deformed_particle` keeps (the
/// unclamped branch runs only when they already lie inside the envelope) or
/// rebuilds the elastic part from (the clamped branch uses `clamp_sv`) lie in
/// `[critical_compression, critical_stretch]`. Stated of the clamped factors:
/// in fixed point, recomposing `U * S * V^T` rounds, so the recomposed
/// matrix's own singular values can sit just outside the envelope.
pub proof fn lemma_clamp_envelope(p: ParticleModel, params: Params)
    requires
        params.critical_compression@ <= params.critical_stretch@,
    ensures
        ({
            let vd = m2_add_s(m2_identity(), m2_scale_s(p.vel_d, params.dt));
            let svd = svd2_s(m2_mul_s(vd, p.e_d));
            let lo = params.critical_compression@;
            let hi = params.critical_stretch@;
            &&& lo <= clamp_sv(svd.sig.x@, lo, hi) <= hi
        &&& lo <= clamp_sv(svd.sig.y@, lo, hi) <= hi
        &&& (lo <= svd.sig.x@ <= hi ==> clamp_sv(svd.sig.x@, lo, hi) == svd.sig.x@)
        &&& (lo <= svd.sig.y@ <= hi ==> clamp_sv(svd.sig.y@, lo, hi) == svd.sig.y@)
        }),
{
}

/// The total mass one particle's scatter hands the grid: the sum of the
/// first `k` of its sixteen node contributions `weight * mass`.
pub open spec fn stencil_mass_share(
    sx: int,
    sy: int,
    ox: int,
    oy: int,
    mass: Fx,
    eps: int,
    k: nat,
) -> int
    decreases k,
{
    if k == 0 {
        0
    } else {
        stencil_mass_share(sx, sy, ox, oy, mass, eps, (k - 1) as nat) + fx_mul_s(
            weight_s(sx, sy, ox, oy, ((k - 1) as int) / 4, ((k - 1) as int) % 4, eps),
            mass@,
        )
    }
}

/// One scatter term `weight * mass` loses less than one raw unit against the
/// exact product, and never exceeds the mass.
proof fn lemma_share_term(w: int, m: int)
    requires
        0 <= w <= 22906492245,
        0 <= m,
        m <= i64::MAX as int,
    ensures
        0 <= fx_mul_s(w, m) <= m,
        FX_ONE * fx_mul_s(w, m) <= w * m,
        w * m - (FX_ONE - 1) <= FX_ONE * fx_mul_s(w, m),
{
    let s = FX_ONE as int;
    let p = w * m;
    assert(0 <= p <= s * m) by (nonlinear_arith)
        requires
            p == w * m,
            0 <= w <= 22906492245,
            0 <= m,
            s == 51539607552;
    assert(tdiv(p, s) == p / s);
    vstd::arithmetic::div_mod::lemma_div_pos_is_pos(p, s);
    vstd::arithmetic::div_mod::lemma_div_is_ordered(p, s * m, s);
    vstd::arithmetic::div_mod::lemma_div_multiples_vanish(m, s);
    vstd::arithmetic::div_mod::lemma_fundamental_div_mod(p, s);
    vstd::arithmetic::div_mod::lemma_mod_bound(p, s);
}

/// The sum of the first sixteen scatter terms, written out.
proof fn lemma_share_expand(sx: int, sy: int, ox: int, oy: int, mass: Fx, eps: int)
    ensures
        stencil_mass_share(sx, sy, ox, oy, mass, eps, 16) == fx_mul_s(
            weight_s(sx, sy, ox, oy, 0, 0, eps),
            mass@,
        ) + fx_mul_s(weight_s(sx, sy, ox, oy, 0, 1, eps), mass@) + fx_mul_s(
            weight_s(sx, sy, ox, oy, 0, 2, eps),
            mass@,
        ) + fx_mul_s(weight_s(sx, sy, ox, oy, 0, 3, eps), mass@) + fx_mul_s(
            weight_s(sx, sy, ox, oy, 1, 0, eps),
            mass@,
        ) + fx_mul_s(weight_s(sx, sy, ox, oy, 1, 1, eps), mass@) + fx_mul_s(
            weight_s(sx, sy, ox, oy, 1, 2, eps),
            mass@,
        ) + fx_mul_s(weight_s(sx, sy, ox, oy, 1, 3, eps), mass@) + fx_mul_s(
            weight_s(sx, sy, ox, oy, 2, 0, eps),
            mass@,
        ) + fx_mul_s(weight_s(sx, sy, ox, oy, 2, 1, eps), mass@) + fx_mul_s(
            weight_s(sx, sy, ox, oy, 2, 2, eps),
            mass@,
        ) + fx_mul_s(weight_s(sx, sy, ox, oy, 2, 3, eps), mass@) + fx_mul_s(
            weight_s(sx, sy, ox, oy, 3, 0, eps),
            mass@,
        ) + fx_mul_s(weight_s(sx, sy, ox, oy, 3, 1, eps), mass@) + fx_mul_s(
            weight_s(sx, sy, ox, oy, 3, 2, eps),
            mass@,
        ) + fx_mul_s(weight_s(sx, sy, ox, oy, 3, 3, eps), mass@),
{
    reveal_with_fuel(stencil_mass_share, 17);
}

/// For an interior, snap-free stencil the sixteen weights are the partition
/// terms: each is a product of basis values in range, and they sum to one
/// within 21 raw units. The snap-free hypothesis `eps <= 0` matters: with a
/// positive activation epsilon the snap zeroes every axis value below it, and
/// that alone can cost the sum up to the epsilon itself, far above 21 raw
/// units at the default setting.
pub proof fn lemma_weights_partition(sx: int, sy: int, ox: int, oy: int, eps: int)
    requires
        eps <= 0,
        sx >= FX_ONE as int,
        sy >= FX_ONE as int,
        ox == sx / (FX_ONE as int) - 1,
        oy == sy / (FX_ONE as int) - 1,
    ensures
        forall|ci: int, cj: int|
            0 <= ci < 4 && 0 <= cj < 4 ==> 0 <= #[trigger] weight_s(sx, sy, ox, oy, ci, cj, eps)
                <= 22906492245,
        FX_ONE - 21 <= weight_s(sx, sy, ox, oy, 0, 0, eps) + weight_s(sx, sy, ox, oy, 0, 1, eps)
            + weight_s(sx, sy, ox, oy, 0, 2, eps) + weight_s(sx, sy, ox, oy, 0, 3, eps) + weight_s(
            sx,
            sy,
            ox,
            oy,
            1,
            0,
            eps,
        ) + weight_s(sx, sy, ox, oy, 1, 1, eps) + weight_s(sx, sy, ox, oy, 1, 2, eps) + weight_s(
            sx,
            sy,
            ox,
            oy,
            1,
            3,
            eps,
        ) + weight_s(sx, sy, ox, oy, 2, 0, eps) + weight_s(sx, sy, ox, oy, 2, 1, eps) + weight_s(
            sx,
            sy,
            ox,
            oy,
            2,
            2,
            eps,
        ) + weight_s(sx, sy, ox, oy, 2, 3, eps) + weight_s(sx, sy, ox, oy, 3, 0, eps) + weight_s(
            sx,
            sy,
            ox,
            oy,
            3,
            1,
            eps,
        ) + weight_s(sx, sy, ox, oy, 3, 2, eps) + weight_s(sx, sy, ox, oy, 3, 3, eps)
            <= FX_ONE as int,
{
    reveal(weight_s);
    let s = FX_ONE as int;
    let ux = sx % s;
    let uy = sy % s;
    vstd::arithmetic::div_mod::lemma_fundamental_div_mod(sx, s);
    vstd::arithmetic::div_mod::lemma_fundamental_div_mod(sy, s);
    vstd::arithmetic::div_mod::lemma_mod_bound(sx, s);
    vstd::arithmetic::div_mod::lemma_mod_bound(sy, s);
    assert forall|c: int| 0 <= c < 4 implies wx_at(sx, ox, c, eps) == bspline_raw(
        ux + (1 - c) * s,
    ) && wx_at(sy, oy, c, eps) == bspline_raw(uy + (1 - c) * s) by {
        crate::helpers::lemma_snap_inactive(sx - (ox + c) * FX_ONE, eps);
        crate::helpers::lemma_snap_inactive(sy - (oy + c) * FX_ONE, eps);
        assert(sx - (ox + c) * s == ux + (1 - c) * s) by (nonlinear_arith)
            requires
                sx == s * (sx / s) + ux,
                ox == sx / s - 1;
        assert(sy - (oy + c) * s == uy + (1 - c) * s) by (nonlinear_arith)
            requires
                sy == s * (sy / s) + uy,
                oy == sy / s - 1;
    };
    crate::helpers::lemma_partition_of_unity(ux, uy);
    assert forall|ci: int, cj: int| 0 <= ci < 4 && 0 <= cj < 4 implies 0 <= #[trigger] weight_s(
        sx,
        sy,
        ox,
        oy,
        ci,
        cj,
        eps,
    ) <= 22906492245 by {
        crate::helpers::lemma_bspline_range(ux + (1 - ci) * s);
        crate::helpers::lemma_bspline_range(uy + (1 - cj) * s);
        crate::helpers::lemma_term_decompose(
            bspline_raw(ux + (1 - ci) * s),
            bspline_raw(uy + (1 - cj) * s),
        );
    };
}

/// Sixteen scatter terms against their weight sum: the share stays between
/// the weighted mass less one lost raw unit per term, and the mass itself.
proof fn lemma_share_sum(ws: Seq<int>, m: int, share: int, wsum: int)
    requires
        ws.len() == 16,
        forall|i: int| 0 <= i < 16 ==> 0 <= #[trigger] ws[i] <= 22906492245,
        share == fx_mul_s(ws[0], m) + fx_mul_s(ws[1], m) + fx_mul_s(ws[2], m) + fx_mul_s(ws[3], m)
            + fx_mul_s(ws[4], m) + fx_mul_s(ws[5], m) + fx_mul_s(ws[6], m) + fx_mul_s(ws[7], m)
            + fx_mul_s(ws[8], m) + fx_mul_s(ws[9], m) + fx_mul_s(ws[10], m) + fx_mul_s(ws[11], m)
            + fx_mul_s(ws[12], m) + fx_mul_s(ws[13], m) + fx_mul_s(ws[14], m) + fx_mul_s(
            ws[15],
            m,
        ),
        wsum == ws[0] + ws[1] + ws[2] + ws[3] + ws[4] + ws[5] + ws[6] + ws[7] + ws[8] + ws[9]
            + ws[10] + ws[11] + ws[12] + ws[13] + ws[14] + ws[15],
        FX_ONE - 21 <= wsum <= FX_ONE as int,
        0 <= m <= i64::MAX as int,
    ensures
        share <= m,
        m - tdiv(21 * m, FX_ONE as int) - 17 <= share,
{
    let s = FX_ONE as int;
    assert forall|i: int| 0 <= i < 16 implies {
        0 <= fx_mul_s(#[trigger] ws[i], m) <= m && FX_ONE * fx_mul_s(ws[i], m) <= ws[i] * m && ws[i]
            * m - (FX_ONE - 1) <= FX_ONE * fx_mul_s(ws[i], m)
    } by {
        lemma_share_term(ws[i], m);
    };
    assert(ws[0] * m + ws[1] * m + ws[2] * m + ws[3] * m + ws[4] * m + ws[5] * m + ws[6] * m
        + ws[7] * m + ws[8] * m + ws[9] * m + ws[10] * m + ws[11] * m + ws[12] * m + ws[13] * m
        + ws[14] * m + ws[15] * m == wsum * m) by (nonlinear_arith)
        requires
            wsum == ws[0] + ws[1] + ws[2] + ws[3] + ws[4] + ws[5] + ws[6] + ws[7] + ws[8] + ws[9]
                + ws[10] + ws[11] + ws[12] + ws[13] + ws[14] + ws[15];
    assert(wsum * m <= FX_ONE * m) by (nonlinear_arith)
        requires
            0 <= wsum <= FX_ONE as int,
            0 <= m,
            FX_ONE == 51539607552;
    assert((FX_ONE - 21) * m <= wsum * m) by (nonlinear_arith)
        requires
            FX_ONE - 21 <= wsum,
            0 <= m,
            FX_ONE == 51539607552;
    let t21 = tdiv(21 * m, s);
    assert(t21 == (21 * m) / s);
    vstd::arithmetic::div_mod::lemma_fundamental_div_mod(21 * m, s);
    vstd::arithmetic::div_mod::lemma_mod_bound(21 * m, s);
    assert(s * (m - t21 - 17) <= FX_ONE * share) by (nonlinear_arith)
        requires
            s == 51539607552,
            FX_ONE == 51539607552,
            s * t21 + (21 * m) % s == 21 * m,
            0 <= (21 * m) % s < s,
            (FX_ONE - 21) * m - 16 * (FX_ONE - 1) <= FX_ONE * share;
    assert(share <= m) by (nonlinear_arith)
        requires
            FX_ONE * share <= FX_ONE * m,
            FX_ONE == 51539607552;
    assert(m - t21 - 17 <= share) by (nonlinear_arith)
        requires
            s * (m - t21 - 17) <= FX_ONE * share,
            s == 51539607552,
            FX_ONE == 51539607552;
}

/// Mass conservation of one scatter: for an interior stencil (origin not
/// clamped) with the activation snap disabled, the sum of the sixteen node
/// contributions of a particle equals the particle's own mass up to `21`
/// parts in `FX_ONE` relative and `17` raw units absolute, and never exceeds
/// it.
pub proof fn lemma_mass_conservation_share(sx: int, sy: int, ox: int, oy: int, mass: Fx, eps: int)
    requires
        eps <= 0,
        sx >= FX_ONE as int,
        sy >= FX_ONE as int,
        ox == sx / (FX_ONE as int) - 1,
        oy == sy / (FX_ONE as int) - 1,
        0 <= mass@,
    ensures
        stencil_mass_share(sx, sy, ox, oy, mass, eps, 16) <= mass@,
        mass@ - tdiv(21 * mass@, FX_ONE as int) - 17 <= stencil_mass_share(
            sx,
            sy,
            ox,
            oy,
            mass,
            eps,
            16,
        ),
{
    lemma_share_expand(sx, sy, ox, oy, mass, eps);
    lemma_weights_partition(sx, sy, ox, oy, eps);
    let ws = Seq::new(16, |t: int| weight_s(sx, sy, ox, oy, t / 4, t % 4, eps));
    let wsum = ws[0] + ws[1] + ws[2] + ws[3] + ws[4] + ws[5] + ws[6] + ws[7] + ws[8] + ws[9]
        + ws[10] + ws[11] + ws[12] + ws[13] + ws[14] + ws[15];
    lemma_share_sum(ws, mass@, stencil_mass_share(sx, sy, ox, oy, mass, eps, 16), wsum);
}

/// The total mass held by a node sequence.
pub open spec fn nodes_mass_total(nodes: Seq<GridNode>) -> int
    decreases nodes.len(),
{
    if nodes.len() == 0 {
        0
    } else {
        nodes_mass_total(nodes.drop_last()) + nodes.last().mass@
    }
}

proof fn lemma_total_update(s: Seq<GridNode>, i: int, v: GridNode)
    requires
        0 <= i < s.len(),
    ensures
        nodes_mass_total(s.update(i, v)) == nodes_mass_total(s) - s[i].mass@ + v.mass@,
    decreases s.len(),
{
    if i == s.len() - 1 {
        assert(s.update(i, v).drop_last() =~= s.drop_last());
    } else {
        assert(s.update(i, v).drop_last() =~= s.drop_last().update(i, v));
        lemma_total_update(s.drop_last(), i, v);
    }
}

proof fn lemma_total_nonneg(s: Seq<GridNode>)
    requires
        forall|k: int| 0 <= k < s.len() ==> (#[trigger] s[k]).mass@ >= 0,
    ensures
        nodes_mass_total(s) >= 0,
    decreases s.len(),
{
    if s.len() > 0 {
        lemma_total_nonneg(s.drop_last());
    }
}

proof fn lemma_total_element_bound(s: Seq<GridNode>, i: int)
    requires
        0 <= i < s.len(),
        forall|k: int| 0 <= k < s.len() ==> (#[trigger] s[k]).mass@ >= 0,
    ensures
        s[i].mass@ <= nodes_mass_total(s),
    decreases s.len(),
{
    if i == s.len() - 1 {
        lemma_total_nonneg(s.drop_last());
    } else {
        lemma_total_element_bound(s.drop_last(), i);
    }
}

/// A cached stencil weight is a product of basis values: nonnegative and
/// less than half of one.
pub proof fn lemma_weight_range(sx: int, sy: int, ox: int, oy: int, ci: int, cj: int, eps: int)
    ensures
        0 <= weight_s(sx, sy, ox, oy, ci, cj, eps) <= 22906492245,
{
    reveal(weight_s);
    crate::helpers::lemma_bspline_range(sx - (ox + ci) * FX_ONE);
    crate::helpers::lemma_bspline_range(sy - (oy + cj) * FX_ONE);
    crate::helpers::lemma_term_decompose(
        bspline_snapped(sx - (ox + ci) * FX_ONE, eps),
        bspline_snapped(sy - (oy + cj) * FX_ONE, eps),
    );
}

/// A partial stencil share lies between zero and one mass per cell counted.
proof fn lemma_share_bounds(sx: int, sy: int, ox: int, oy: int, mass: Fx, eps: int, k: nat)
    requires
        k <= 16,
        0 <= mass@,
    ensures
        0 <= stencil_mass_share(sx, sy, ox, oy, mass, eps, k) <= k * mass@,
    decreases k,
{
    if k > 0 {
        lemma_share_bounds(sx, sy, ox, oy, mass, eps, (k - 1) as nat);
        let ci = (k - 1) as int / 4;
        let cj = (k - 1) as int % 4;
        lemma_weight_range(sx, sy, ox, oy, ci, cj, eps);
        lemma_share_term(weight_s(sx, sy, ox, oy, ci, cj, eps), mass@);
        assert((k - 1) * mass@ + mass@ == k * mass@) by (nonlinear_arith);
    }
}

/// One particle's sixteen-cell mass scatter adds exactly its stencil share
/// to the total node mass, and keeps every node mass nonnegative.
proof fn lemma_scatter_total(
    nodes: Seq<GridNode>,
    sx: int,
    sy: int,
    ox: int,
    oy: int,
    mass: Fx,
    eps: int,
    cc: int,
    k: nat,
)
    requires
        k <= 16,
        0 <= ox,
        0 <= oy,
        ox + 4 <= cc,
        oy + 4 <= cc,
        4 <= cc <= 1024,
        nodes.len() == cc * cc,
        0 <= mass@ <= 0x100_0000_0000,
        forall|t: int| 0 <= t < nodes.len() ==> (#[trigger] nodes[t]).mass@ >= 0,
        nodes_mass_total(nodes) + 16 * 0x100_0000_0000 <= i64::MAX as int,
    ensures
        ({
            let r = scatter_mass_cells(nodes, sx, sy, ox, oy, mass, eps, cc, k);
            &&& r.len() == nodes.len()
        &&& forall|t: int| 0 <= t < r.len() ==> (#[trigger] r[t]).mass@ >= 0
        &&& nodes_mass_total(r) == nodes_mass_total(nodes) + stencil_mass_share(
                sx,
                sy,
                ox,
                oy,
                mass,
                eps,
                k,
            )
        }),
    decreases k,
{
    lemma_total_nonneg(nodes);
    if k > 0 {
        lemma_scatter_total(nodes, sx, sy, ox, oy, mass, eps, cc, (k - 1) as nat);
        lemma_share_bounds(sx, sy, ox, oy, mass, eps, (k - 1) as nat);
        let prev = scatter_mass_cells(nodes, sx, sy, ox, oy, mass, eps, cc, (k - 1) as nat);
        let ci = (k - 1) as int / 4;
        let cj = (k - 1) as int % 4;
        let idx = node_at(ox, oy, ci, cj, cc);
        assert(0 <= idx < cc * cc) by (nonlinear_arith)
            requires
                idx == (ox + ci) * cc + oy + cj,
                0 <= ox,
                0 <= oy,
                0 <= ci < 4,
                0 <= cj < 4,
                ox + 4 <= cc,
                oy + 4 <= cc,
                4 <= cc;
        lemma_weight_range(sx, sy, ox, oy, ci, cj, eps);
        let w = weight_s(sx, sy, ox, oy, ci, cj, eps);
        lemma_share_term(w, mass@);
        lemma_total_element_bound(prev, idx);
        assert(stencil_mass_share(sx, sy, ox, oy, mass, eps, (k - 1) as nat) <= 15
            * 0x100_0000_0000) by (nonlinear_arith)
            requires
                stencil_mass_share(sx, sy, ox, oy, mass, eps, (k - 1) as nat) <= (k - 1) * mass@,
                k <= 16,
                0 <= mass@ <= 0x100_0000_0000;
        assert(fx_add_s(prev[idx].mass@, fx_mul_s(w, mass@)) == prev[idx].mass@ + fx_mul_s(
            w,
            mass@,
        ));
        let nd = prev[idx];
        lemma_total_update(
            prev,
            idx,
            GridNode { mass: fx(fx_add_s(nd.mass@, fx_mul_s(w, mass@))), ..nd },
        );
    }
}

/// The stencil share of particle `i` of a state, as the mass scatter
/// computes it: from the clamped position, the derived scaled coordinates
/// and the clamped origin.
pub open spec fn particle_share(g: GridModel, i: int) -> int {
    let p = g.particles[i];
    let sx = fx_div_s(clamp_pos_s(p.pos.x)@, g.cell_size@);
    let sy = fx_div_s(clamp_pos_s(p.pos.y)@, g.cell_size@);
    stencil_mass_share(
        sx,
        sy,
        origin_s(sx, g.cell_count),
        origin_s(sy, g.cell_count),
        p.mass,
        g.params.bspline_epsilon@,
        16,
    )
}

/// The stencil shares of the first `k` particles.
pub open spec fn shares_upto(g: GridModel, k: nat) -> int
    decreases k,
{
    if k == 0 {
        0
    } else {
        shares_upto(g, (k - 1) as nat) + particle_share(g, k - 1)
    }
}

proof fn lemma_p2g_mass_total_upto(g: GridModel, k: nat)
    requires
        k <= g.particles.len(),
        4 <= g.cell_count <= 1024,
        g.nodes.len() == g.cell_count * g.cell_count,
        forall|t: int| 0 <= t < g.nodes.len() ==> (#[trigger] g.nodes[t]).mass@ == 0,
        forall|i: int|
            0 <= i < g.particles.len() ==> 0 <= (#[trigger] g.particles[i]).mass@
                <= 0x100_0000_0000,
        g.particles.len() <= 0x20000,
    ensures
        ({
            let r = p2g_mass_upto(g, k);
            &&& r.nodes.len() == g.nodes.len()
        &&& r.particles.len() == g.particles.len()
        &&& forall|i: int| k <= i < g.particles.len() ==> r.particles[i] == g.particles[i]
        &&& forall|t: int| 0 <= t < r.nodes.len() ==> (#[trigger] r.nodes[t]).mass@ >= 0
        &&& nodes_mass_total(r.nodes) == shares_upto(g, k)
        &&& 0 <= shares_upto(g, k) <= 16 * k * 0x100_0000_0000
        }),
    decreases k,
{
    if k == 0 {
        lemma_zero_total(g.nodes);
    } else {
        lemma_p2g_mass_total_upto(g, (k - 1) as nat);
        let prev = p2g_mass_upto(g, (k - 1) as nat);
        let p0 = prev.particles[k - 1];
        assert(p0 == g.particles[k - 1]);
        let np = with_stencil(p0, g.cell_size, g.cell_count, g.params.bspline_epsilon);
        let sx = fx_div_s(clamp_pos_s(p0.pos.x)@, g.cell_size@);
        let sy = fx_div_s(clamp_pos_s(p0.pos.y)@, g.cell_size@);
        assert(np.ox == origin_s(sx, g.cell_count) && np.oy == origin_s(sy, g.cell_count));
        assert(0 <= np.ox <= g.cell_count - 4 && 0 <= np.oy <= g.cell_count - 4);
        lemma_share_bounds(sx, sy, np.ox, np.oy, np.mass, g.params.bspline_epsilon@, 16);
        assert(nodes_mass_total(prev.nodes) + 16 * 0x100_0000_0000 <= i64::MAX as int)
            by (nonlinear_arith)
            requires
                nodes_mass_total(prev.nodes) == shares_upto(g, (k - 1) as nat),
                0 <= shares_upto(g, (k - 1) as nat) <= 16 * (k - 1) * 0x100_0000_0000,
                k <= 0x20000;
        lemma_scatter_total(
            prev.nodes,
            sx,
            sy,
            np.ox,
            np.oy,
            np.mass,
            g.params.bspline_epsilon@,
            g.cell_count,
            16,
        );
        assert(0 <= shares_upto(g, k) <= 16 * k * 0x100_0000_0000) by (nonlinear_arith)
            requires
                shares_upto(g, k) == shares_upto(g, (k - 1) as nat) + particle_share(g, k - 1),
                0 <= shares_upto(g, (k - 1) as nat) <= 16 * (k - 1) * 0x100_0000_0000,
                0 <= particle_share(g, k - 1) <= 16 * 0x100_0000_0000,
                1 <= k;
    }
}

proof fn lemma_zero_total(s: Seq<GridNode>)
    requires
        forall|t: int| 0 <= t < s.len() ==> (#[trigger] s[t]).mass@ == 0,
    ensures
        nodes_mass_total(s) == 0,
    decreases s.len(),
{
    if s.len() > 0 {
        lemma_zero_total(s.drop_last());
    }
}

/// Mass conservation of the whole scatter pass: starting from zeroed nodes,
/// the node masses after `p2g_mass` sum exactly to the particles' stencil
/// shares, and each interior particle's share is its own mass within
/// tolerance (`lemma_mass_conservation_share`).
pub proof fn lemma_p2g_mass_conserves(g: GridModel)
    requires
        4 <= g.cell_count <= 1024,
        g.nodes.len() == g.cell_count * g.cell_count,
        forall|t: int| 0 <= t < g.nodes.len() ==> (#[trigger] g.nodes[t]).mass@ == 0,
        forall|i: int|
            0 <= i < g.particles.len() ==> 0 <= (#[trigger] g.particles[i]).mass@
                <= 0x100_0000_0000,
        g.particles.len() <= 0x20000,
    ensures
        nodes_mass_total(p2g_mass_s(g).nodes) == shares_upto(g, g.particles.len()),
{
    lemma_p2g_mass_total_upto(g, g.particles.len());
}

/// The total momentum held by a node sequence, per axis: the exact integer
/// sums of the nodes' velocity accumulators.
pub open spec fn nodes_momentum_total(nodes: Seq<GridNode>) -> (int, int)
    decreases nodes.len(),
{
    if nodes.len() == 0 {
        (0, 0)
    } else {
        let prev = nodes_momentum_total(nodes.drop_last());
        (prev.0 + nodes.last().vel.x@, prev.1 + nodes.last().vel.y@)
    }
}

/// The summed magnitudes of the node velocity accumulators, which bound any
/// single accumulator and so rule saturation out.
spec fn nodes_momentum_abs(nodes: Seq<GridNode>) -> int
    decreases nodes.len(),
{
    if nodes.len() == 0 {
        0
    } else {
        nodes_momentum_abs(nodes.drop_last()) + iabs(nodes.last().vel.x@) + iabs(
            nodes.last().vel.y@,
        )
    }
}

/// The momentum one particle's scatter hands the grid from the first `k`
/// cells of its cached stencil: per contributing cell, its velocity scaled
/// by `weight * mass`, per axis.
pub open spec fn stencil_momentum_share(p: ParticleModel, eps: int, k: nat) -> (int, int)
    decreases k,
{
    if k == 0 {
        (0, 0)
    } else {
        let prev = stencil_momentum_share(p, eps, (k - 1) as nat);
        let t = (k - 1) as int;
        if p.w[t]@ > eps {
            let wm = fx_mul_s(p.w[t]@, p.mass@);
            (prev.0 + fx_mul_s(p.vel.x@, wm), prev.1 + fx_mul_s(p.vel.y@, wm))
        } else {
            prev
        }
    }
}

/// The momentum shares of the first `k` particles, per axis.
pub open spec fn momentum_shares_upto(g: GridModel, k: nat) -> (int, int)
    decreases k,
{
    if k == 0 {
        (0, 0)
    } else {
        let prev = momentum_shares_upto(g, (k - 1) as nat);
        let s = stencil_momentum_share(g.particles[k - 1], g.params.bspline_epsilon@, 16);
        (prev.0 + s.0, prev.1 + s.1)
    }
}

/// Largest magnitude of one momentum scatter term under the stated mass and
/// velocity bounds.
pub const MOM_TERM_BOUND: i64 = 23456248059221;

proof fn lemma_momentum_update(s: Seq<GridNode>, i: int, v: GridNode)
    requires
        0 <= i < s.len(),
    ensures
        nodes_momentum_total(s.update(i, v)).0 == nodes_momentum_total(s).0 - s[i].vel.x@
            + v.vel.x@,
        nodes_momentum_total(s.update(i, v)).1 == nodes_momentum_total(s).1 - s[i].vel.y@
            + v.vel.y@,
        nodes_momentum_abs(s.update(i, v)) == nodes_momentum_abs(s) - iabs(s[i].vel.x@) - iabs(
            s[i].vel.y@,
        ) + iabs(v.vel.x@) + iabs(v.vel.y@),
    decreases s.len(),
{
    if i == s.len() - 1 {
        assert(s.update(i, v).drop_last() =~= s.drop_last());
    } else {
        assert(s.update(i, v).drop_last() =~= s.drop_last().update(i, v));
        lemma_momentum_update(s.drop_last(), i, v);
    }
}

proof fn lemma_momentum_abs_nonneg(s: Seq<GridNode>)
    ensures
        nodes_momentum_abs(s) >= 0,
    decreases s.len(),
{
    if s.len() > 0 {
        lemma_momentum_abs_nonneg(s.drop_last());
    }
}

proof fn lemma_momentum_element_bound(s: Seq<GridNode>, i: int)
    requires
        0 <= i < s.len(),
    ensures
        iabs(s[i].vel.x@) + iabs(s[i].vel.y@) <= nodes_momentum_abs(s),
    decreases s.len(),
{
    if i == s.len() - 1 {
        lemma_momentum_abs_nonneg(s.drop_last());
    } else {
        lemma_momentum_element_bound(s.drop_last(), i);
    }
}

/// One momentum scatter term `vel * (weight * mass)` stays within
/// `MOM_TERM_BOUND` raw units in magnitude.
proof fn lemma_momentum_term(v: int, w: int, m: int)
    requires
        0 <= w <= 22906492245,
        0 <= m <= 0x100_0000_0000,
        iabs(v) <= 0x100_0000_0000,
    ensures
        iabs(fx_mul_s(v, fx_mul_s(w, m))) <= MOM_TERM_BOUND as int,
        fx_mul_s(v, fx_mul_s(w, m)) == tdiv(v * fx_mul_s(w, m), FX_ONE as int),
{
    lemma_share_term(w, m);
    let wm = fx_mul_s(w, m);
    let p = v * wm;
    assert(iabs(p) <= 0x100_0000_0000 * 0x100_0000_0000) by (nonlinear_arith)
        requires
            iabs(v) <= 0x100_0000_0000,
            0 <= wm <= 0x100_0000_0000,
            p == v * wm;
    let q = tdiv(p, FX_ONE as int);
    vstd::arithmetic::div_mod::lemma_div_pos_is_pos(iabs(p), FX_ONE as int);
    assert(iabs(q) == iabs(p) / (FX_ONE as int));
    vstd::arithmetic::div_mod::lemma_div_is_ordered(
        iabs(p),
        0x100_0000_0000int * 0x100_0000_0000,
        FX_ONE as int,
    );
    assert((0x100_0000_0000int * 0x100_0000_0000) / 51539607552 == 23456248059221)
        by (nonlinear_arith);
}

/// One particle's sixteen-cell momentum scatter adds exactly its stencil
/// momentum share to the total node momentum, growing the summed magnitudes
/// by at most two term bounds per cell.
proof fn lemma_scatter_vel_total(nodes: Seq<GridNode>, p: ParticleModel, eps: int, cc: int, k: nat)
    requires
        k <= 16,
        0 <= p.ox,
        0 <= p.oy,
        p.ox + 4 <= cc,
        p.oy + 4 <= cc,
        4 <= cc <= 1024,
        nodes.len() == cc * cc,
        forall|t: int| 0 <= t < 16 ==> 0 <= (#[trigger] p.w[t])@ <= 22906492245,
        0 <= p.mass@ <= 0x100_0000_0000,
        iabs(p.vel.x@) <= 0x100_0000_0000,
        iabs(p.vel.y@) <= 0x100_0000_0000,
        nodes_momentum_abs(nodes) + 32 * (MOM_TERM_BOUND as int) <= i64::MAX as int,
    ensures
        ({
            let r = scatter_vel_cells(nodes, p, eps, cc, k);
            &&& r.len() == nodes.len()
        &&& nodes_momentum_abs(r) <= nodes_momentum_abs(nodes) + 2 * k * (MOM_TERM_BOUND as int)
        &&& nodes_momentum_total(r).0 == nodes_momentum_total(nodes).0 + stencil_momentum_share(
                p,
                eps,
                k,
            ).0
        &&& nodes_momentum_total(r).1 == nodes_momentum_total(nodes).1 + stencil_momentum_share(
                p,
                eps,
                k,
            ).1
        }),
    decreases k,
{
    if k > 0 {
        lemma_scatter_vel_total(nodes, p, eps, cc, (k - 1) as nat);
        let prev = scatter_vel_cells(nodes, p, eps, cc, (k - 1) as nat);
        let t = (k - 1) as int;
        if p.w[t]@ > eps {
            let idx = node_at(p.ox, p.oy, t / 4, t % 4, cc);
            assert(0 <= idx < cc * cc) by (nonlinear_arith)
                requires
                    idx == (p.ox + t / 4) * cc + p.oy + t % 4,
                    0 <= p.ox,
                    0 <= p.oy,
                    0 <= t / 4 < 4,
                    0 <= t % 4 < 4,
                    p.ox + 4 <= cc,
                    p.oy + 4 <= cc,
                    4 <= cc;
            let wm = fx_mul_s(p.w[t]@, p.mass@);
            lemma_share_term(p.w[t]@, p.mass@);
            assert(fx(wm)@ == wm);
            lemma_momentum_term(p.vel.x@, p.w[t]@, p.mass@);
            lemma_momentum_term(p.vel.y@, p.w[t]@, p.mass@);
            let tx = fx_mul_s(p.vel.x@, wm);
            let ty = fx_mul_s(p.vel.y@, wm);
            lemma_momentum_element_bound(prev, idx);
            lemma_momentum_abs_nonneg(prev);
            let nd = prev[idx];
            assert(fx_add_s(nd.vel.x@, tx) == nd.vel.x@ + tx);
            assert(fx_add_s(nd.vel.y@, ty) == nd.vel.y@ + ty);
            let nv = GridNode {
                vel: v2_add_s(nd.vel, v2_scale_s(p.vel, fx(wm))),
                active: true,
                ..nd
            };
            lemma_momentum_update(prev, idx, nv);
        }
    }
}

proof fn lemma_zero_momentum(s: Seq<GridNode>)
    requires
        forall|t: int| 0 <= t < s.len() ==> (#[trigger] s[t]).vel == v2_zero(),
    ensures
        nodes_momentum_total(s).0 == 0,
        nodes_momentum_total(s).1 == 0,
        nodes_momentum_abs(s) == 0,
    decreases s.len(),
{
    if s.len() > 0 {
        lemma_zero_momentum(s.drop_last());
    }
}

proof fn lemma_p2g_vel_total_upto(g: GridModel, k: nat)
    requires
        k <= g.particles.len(),
        4 <= g.cell_count <= 1024,
        g.nodes.len() == g.cell_count * g.cell_count,
        forall|t: int| 0 <= t < g.nodes.len() ==> (#[trigger] g.nodes[t]).vel == v2_zero(),
        forall|i: int|
            0 <= i < g.particles.len() ==> {
                let p = #[trigger] g.particles[i];
                &&& 0 <= p.ox
            &&& 0 <= p.oy
            &&& p.ox + 4 <= g.cell_count
            &&& p.oy + 4 <= g.cell_count
            &&& 0 <= p.mass@ <= 0x100_0000_0000
            &&& iabs(p.vel.x@) <= 0x100_0000_0000
            &&& iabs(p.vel.y@) <= 0x100_0000_0000
            &&& forall|t: int| 0 <= t < 16 ==> 0 <= (#[trigger] p.w[t])@ <= 22906492245
            },
        g.particles.len() <= 0x2000,
    ensures
        ({
            let r = p2g_vel_upto(g, k);
            &&& r.len() == g.nodes.len()
        &&& nodes_momentum_abs(r) <= 32 * k * (MOM_TERM_BOUND as int)
        &&& nodes_momentum_total(r).0 == momentum_shares_upto(g, k).0
        &&& nodes_momentum_total(r).1 == momentum_shares_upto(g, k).1
        }),
    decreases k,
{
    if k == 0 {
        lemma_zero_momentum(g.nodes);
    } else {
        lemma_p2g_vel_total_upto(g, (k - 1) as nat);
        let prev = p2g_vel_upto(g, (k - 1) as nat);
        assert(nodes_momentum_abs(prev) + 32 * (MOM_TERM_BOUND as int) <= i64::MAX as int)
            by (nonlinear_arith)
            requires
                nodes_momentum_abs(prev) <= 32 * (k - 1) * (MOM_TERM_BOUND as int),
                k <= 0x2000,
                MOM_TERM_BOUND == 23456248059221;
        lemma_scatter_vel_total(
            prev,
            g.particles[k - 1],
            g.params.bspline_epsilon@,
            g.cell_count,
            16,
        );
        assert(32 * (k - 1) * (MOM_TERM_BOUND as int) + 2 * 16 * (MOM_TERM_BOUND as int) == 32 * k
            * (MOM_TERM_BOUND as int)) by (nonlinear_arith);
    }
}

/// Momentum conservation of the scatter phase of `p2g_velocity`: starting
/// from nodes whose velocity accumulators are zeroed (as the reset leaves
/// them and the mass scatter keeps them), the node momenta after every
/// particle's scatter sum exactly, per axis, to the particles' stencil
/// momentum shares. The pass then normalizes each active node by dividing
/// its momentum by its mass, so the node velocities thereafter carry the
/// same momentum up to that division's rounding.
pub proof fn lemma_p2g_velocity_scatter_conserves(g: GridModel)
    requires
        4 <= g.cell_count <= 1024,
        g.nodes.len() == g.cell_count * g.cell_count,
        forall|t: int| 0 <= t < g.nodes.len() ==> (#[trigger] g.nodes[t]).vel == v2_zero(),
        forall|i: int|
            0 <= i < g.particles.len() ==> {
                let p = #[trigger] g.particles[i];
                &&& 0 <= p.ox
            &&& 0 <= p.oy
            &&& p.ox + 4 <= g.cell_count
            &&& p.oy + 4 <= g.cell_count
            &&& 0 <= p.mass@ <= 0x100_0000_0000
            &&& iabs(p.vel.x@) <= 0x100_0000_0000
            &&& iabs(p.vel.y@) <= 0x100_0000_0000
            &&& forall|t: int| 0 <= t < 16 ==> 0 <= (#[trigger] p.w[t])@ <= 22906492245
            },
        g.particles.len() <= 0x2000,
    ensures
        nodes_momentum_total(p2g_vel_upto(g, g.particles.len())).0 == momentum_shares_upto(
            g,
            g.particles.len(),
        ).0,
        nodes_momentum_total(p2g_vel_upto(g, g.particles.len())).1 == momentum_shares_upto(
            g,
            g.particles.len(),
        ).1,
{
    lemma_p2g_vel_total_upto(g, g.particles.len());
}

/// The cell size derived from any admissible cell count stays within
/// `[S/1024, S/4]` raw units.
pub proof fn lemma_cell_size_bounds(cc: int)
    requires
        4 <= cc <= 1024,
    ensures
        50331648 <= sat64(tdiv(FX_ONE as int, cc)) <= 12884901888,
{
    vstd::arithmetic::div_mod::lemma_div_is_ordered_by_denominator(FX_ONE as int, cc, 1024);
    vstd::arithmetic::div_mod::lemma_div_is_ordered_by_denominator(FX_ONE as int, 4, cc);
    assert(51539607552int / 1024 == 50331648 && 51539607552int / 4 == 12884901888)
        by (nonlinear_arith);
}

/// Clamp one coordinate into the interior of the domain.
fn clamp_coord(x: Fx) -> (r: Fx)
    ensures
        r == clamp_pos_s(x),
        0 <= r@ <= FX_ONE - POS_EPS,
{
    if x.raw < 0 {
        Fx::zero()
    } else if x.raw > FX_ONE - POS_EPS {
        Fx { raw: FX_ONE - POS_EPS }
    } else {
        x
    }
}

/// A clamped coordinate divided by the cell size: the particle's position in
/// grid units, at most the grid extent.
fn scaled_coord(x: Fx, cs: Fx) -> (r: Fx)
    requires
        0 <= x@ <= FX_ONE as int,
        50331648 <= cs@,
    ensures
        r@ == fx_div_s(x@, cs@),
        0 <= r@ <= 1024 * FX_ONE,
{
    proof {
        let p = x@ * (FX_ONE as int);
        assert(0 <= p <= (FX_ONE as int) * (FX_ONE as int)) by (nonlinear_arith)
            requires
                0 <= x@ <= FX_ONE as int,
                p == x@ * (FX_ONE as int);
        vstd::arithmetic::div_mod::lemma_div_pos_is_pos(p, cs@);
        vstd::arithmetic::div_mod::lemma_div_is_ordered_by_denominator(p, 50331648, cs@);
        vstd::arithmetic::div_mod::lemma_div_is_ordered(
            p,
            (FX_ONE as int) * (FX_ONE as int),
            50331648,
        );
        crate::helpers::lemma_fx_consts(FX_ONE as int);
        assert(2656331146614175432704int / 50331648 == 52776558133248) by (nonlinear_arith);
    }
    x.div(cs)
}

/// Stencil origin along one axis.
fn origin_coord(s: Fx, cc: usize) -> (o: usize)
    requires
        0 <= s@,
        4 <= cc <= 1024,
    ensures
        o as int == origin_s(s@, cc as int),
        o + 4 <= cc,
{
    let cell: i64 = s.raw / FX_ONE;
    let c: i64 = cell - 1;
    if c < 0 {
        0
    } else if c > (cc - 4) as i64 {
        cc - 4
    } else {
        c as usize
    }
}

/// Flat index of node `(i, j)`, in bounds for a grid of `cc * cc` nodes.
fn node_index(i: usize, j: usize, cc: usize) -> (r: usize)
    requires
        i < cc,
        j < cc,
        cc <= 1024,
    ensures
        r == i * cc + j,
        r < cc * cc,
{
    proof {
        assert(i * cc + j < cc * cc) by (nonlinear_arith)
            requires
                i < cc,
                j < cc;
        assert(cc * cc <= 1048576) by (nonlinear_arith)
            requires
                cc <= 1024;
    }
    i * cc + j
}

} // verus!
