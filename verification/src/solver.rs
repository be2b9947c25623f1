//! Constraint solvers: semi-implicit integration with ground contact, one
//! Gauss-Seidel sweep over the edge constraints, and one over the volume
//! constraints. Each exec function's `ensures` equates the new particle
//! state with a spec-level fold of the per-constraint update.

use vstd::prelude::*;

verus! {

use crate::fx::{
    divt, mulfx, lclamp, FX_ONE, POS_LIMIT, LAMBDA_LIMIT, div_t, mul_i, sat_i, lclamp_i,
    lemma_mul_bound, lemma_divt_bound,
};
use crate::vec3::{
    Vec3, V3, T3, vbounded, vadd, vsub, vneg, vscalefx, vdotfx, vcrossfx, vmagfx, vsat, vdivt,
    views, all_bounded, lemma_views_update, t_sub, t_dot_fx, t_cross_fx, t_scale_fx, t_mag_fx,
    t_div, apply_delta,
};
use crate::body::{Edge, Tet, SoftBody, tet_vol_fx, edge_wf, tet_wf};

/// Height of the ground plane (0.1 world units, raw).
pub const GROUND_Y: i64 = 100_000;

/// Height of the restoring-force anchor (2 world units, raw).
pub const ANCHOR_Y: i64 = 2_000_000;

/// Velocity factor kept on ground contact (0.1, raw).
pub const CONTACT_DAMPING: i64 = 100_000;

/// Smallest accepted sub-step (0.001 s, raw).
pub const DT_MIN: i64 = 1_000;

/// Largest accepted sub-step (1 s, raw).
pub const DT_MAX: i64 = 1_000_000;

/// Largest accepted compliance value (raw).
pub const COMPLIANCE_MAX: i64 = 1_000_000_000_000;

/// The weak linear restoring force toward the anchor `(0, 2, 0)`:
/// one hundredth of the offset. It stands in for gravity.
pub open spec fn grav_force(p: V3) -> V3 {
    V3 { x: divt(-p.x, 100), y: divt(ANCHOR_Y - p.y, 100), z: divt(-p.z, 100) }
}

/// One semi-implicit Euler step for a single particle, then the ground
/// clamp: if the new height falls below `GROUND_Y`, the position update is
/// rejected, the height is pinned to `GROUND_Y`, the vertical velocity is
/// zeroed and the rest is damped by `CONTACT_DAMPING`.
pub open spec fn grav_step(p: V3, v: V3, dt: int) -> (V3, V3) {
    let v1 = vsat(vadd(v, vscalefx(dt, grav_force(p))));
    let p1 = vsat(vadd(p, vscalefx(dt, v1)));
    if p1.y < GROUND_Y {
        (
            V3 { x: p.x, y: GROUND_Y as int, z: p.z },
            V3 {
                x: mulfx(v1.x, CONTACT_DAMPING as int),
                y: 0,
                z: mulfx(v1.z, CONTACT_DAMPING as int),
            },
        )
    } else {
        (p1, v1)
    }
}

/// Positions after the integration/ground pass.
pub open spec fn grav_pass_pos(pos: Seq<V3>, spd: Seq<V3>, dt: int) -> Seq<V3> {
    Seq::new(pos.len(), |i: int| grav_step(pos[i], spd[i], dt).0)
}

/// Velocities after the integration/ground pass.
pub open spec fn grav_pass_vel(pos: Seq<V3>, spd: Seq<V3>, dt: int) -> Seq<V3> {
    Seq::new(pos.len(), |i: int| grav_step(pos[i], spd[i], dt).1)
}

/// Integration plus ground contact, applied once to every particle.
pub fn gravity_and_ground(body: &mut SoftBody, dt: i64)
    requires
        old(body).topo_wf(),
        old(body).sim_ready(),
        DT_MIN <= dt <= DT_MAX,
    ensures
        final(body).topo_wf(),
        final(body).sim_ready(),
        final(body).edges@ == old(body).edges@,
        final(body).tetras@ == old(body).tetras@,
        final(body).indices@ == old(body).indices@,
        final(body).speeds@.len() == old(body).speeds@.len(),
        views(final(body).positions@) == grav_pass_pos(
            views(old(body).positions@),
            views(old(body).speeds@),
            dt as int,
        ),
        views(final(body).speeds@) == grav_pass_vel(
            views(old(body).positions@),
            views(old(body).speeds@),
            dt as int,
        ),
{
    let ghost pos0 = views(old(body).positions@);
    let ghost spd0 = views(old(body).speeds@);
    let n = body.positions.len();
    let mut i: usize = 0;
    while i < n
        invariant
            i <= n,
            n == pos0.len(),
            body.positions@.len() == n,
            body.speeds@.len() == n,
            body.edges@ == old(body).edges@,
            body.tetras@ == old(body).tetras@,
            body.indices@ == old(body).indices@,
            body.topo_wf(),
            all_bounded(views(body.positions@), POS_LIMIT as int),
            DT_MIN <= dt <= DT_MAX,
            forall|k: int| i <= k < n ==> views(body.positions@)[k] == pos0[k],
            forall|k: int| i <= k < n ==> views(body.speeds@)[k] == spd0[k],
            forall|k: int|
                0 <= k < i ==> views(body.positions@)[k] == grav_step(pos0[k], spd0[k], dt as int).0,
            forall|k: int|
                0 <= k < i ==> views(body.speeds@)[k] == grav_step(pos0[k], spd0[k], dt as int).1,
        decreases n - i,
    {
        let p = body.positions[i];
        let v = body.speeds[i];
        proof {
            assert(views(body.positions@)[i as int] == pos0[i as int]);
            assert(views(body.speeds@)[i as int] == spd0[i as int]);
            assert(vbounded(p@, POS_LIMIT as int));
            assert(vbounded(v@, POS_LIMIT as int));
        }
        let f = T3 {
            x: div_t(-(p.x as i128), 100),
            y: div_t(ANCHOR_Y as i128 - p.y as i128, 100),
            z: div_t(-(p.z as i128), 100),
        };
        proof {
            assert(f@ == grav_force(p@));
        }
        let dv = t_scale_fx(dt as i128, &f);
        let v1 = apply_delta(&v, &dv);
        let dp = t_scale_fx(dt as i128, &v1.wide());
        let p1 = apply_delta(&p, &dp);
        if p1.y < GROUND_Y {
            proof {
                lemma_mul_bound(v1.x as int, CONTACT_DAMPING as int, POS_LIMIT as int, CONTACT_DAMPING as int);
                lemma_mul_bound(v1.z as int, CONTACT_DAMPING as int, POS_LIMIT as int, CONTACT_DAMPING as int);
                lemma_divt_bound(v1.x as int * CONTACT_DAMPING as int, FX_ONE as int, 100_000_000_000);
                lemma_divt_bound(v1.z as int * CONTACT_DAMPING as int, FX_ONE as int, 100_000_000_000);
            }
            let vx = sat_i(div_t(mul_i(v1.x as i128, CONTACT_DAMPING as i128), FX_ONE));
            let vz = sat_i(div_t(mul_i(v1.z as i128, CONTACT_DAMPING as i128), FX_ONE));
            let newp = Vec3 { x: p.x, y: GROUND_Y, z: p.z };
            let newv = Vec3 { x: vx, y: 0, z: vz };
            proof {
                assert(newp@ == grav_step(pos0[i as int], spd0[i as int], dt as int).0);
                assert(newv@ == grav_step(pos0[i as int], spd0[i as int], dt as int).1);
                lemma_views_update(body.positions@, i as int, newp);
                lemma_views_update(body.speeds@, i as int, newv);
            }
            body.positions.set(i, newp);
            body.speeds.set(i, newv);
        } else {
            proof {
                assert(p1@ == grav_step(pos0[i as int], spd0[i as int], dt as int).0);
                assert(v1@ == grav_step(pos0[i as int], spd0[i as int], dt as int).1);
                lemma_views_update(body.positions@, i as int, p1);
                lemma_views_update(body.speeds@, i as int, v1);
            }
            body.positions.set(i, p1);
            body.speeds.set(i, v1);
        }
        i = i + 1;
    }
    proof {
        assert(views(body.positions@) =~= grav_pass_pos(pos0, spd0, dt as int));
        assert(views(body.speeds@) =~= grav_pass_vel(pos0, spd0, dt as int));
    }
}


/// The effective compliance term `compliance / dt^2` in raw fixed point.
pub open spec fn alpha_fx(comp: int, dt: int) -> int {
    divt(comp * FX_ONE, mulfx(dt, dt))
}

/// The velocity change matching a position correction within one sub-step:
/// the displacement divided by `dt`.
pub open spec fn vel_of_dp(dp: V3, dt: int) -> V3 {
    V3 {
        x: divt(dp.x * FX_ONE, dt),
        y: divt(dp.y * FX_ONE, dt),
        z: divt(dp.z * FX_ONE, dt),
    }
}

/// One projection of a single edge constraint. A degenerate edge (distance
/// below one tick) or a non-positive denominator leaves the state alone;
/// otherwise both endpoints move along the constraint gradient by the
/// clamped Lagrange multiplier, and their velocities absorb the same
/// displacement over `dt`.
pub open spec fn edge_step(pos: Seq<V3>, spd: Seq<V3>, e: Edge, dt: int, comp: int) -> (
    Seq<V3>,
    Seq<V3>,
) {
    let p0 = pos[e.a as int];
    let p1 = pos[e.b as int];
    let d = vsub(p0, p1);
    let dist = vmagfx(d);
    if dist < 1 {
        (pos, spd)
    } else {
        let g0 = V3 {
            x: divt(d.x * FX_ONE, dist),
            y: divt(d.y * FX_ONE, dist),
            z: divt(d.z * FX_ONE, dist),
        };
        let g1 = vneg(g0);
        let denom = vdotfx(g0, g0) + vdotfx(g1, g1) + mulfx(
            alpha_fx(comp, dt),
            e.rest_len as int,
        );
        if denom < 1 {
            (pos, spd)
        } else {
            let lambda = lclamp(divt((e.rest_len - dist) * FX_ONE, denom));
            let dp0 = vscalefx(lambda, g0);
            let dp1 = vscalefx(lambda, g1);
            let pos1 = pos.update(e.a as int, vsat(vadd(pos[e.a as int], dp0)));
            let pos2 = pos1.update(e.b as int, vsat(vadd(pos1[e.b as int], dp1)));
            let spd1 = spd.update(e.a as int, vsat(vadd(spd[e.a as int], vel_of_dp(dp0, dt))));
            let spd2 = spd1.update(e.b as int, vsat(vadd(spd1[e.b as int], vel_of_dp(dp1, dt))));
            (pos2, spd2)
        }
    }
}

/// State after projecting the first `n` edges in list order.
pub open spec fn edges_pass(
    pos: Seq<V3>,
    spd: Seq<V3>,
    edges: Seq<Edge>,
    n: int,
    dt: int,
    comp: int,
) -> (Seq<V3>, Seq<V3>)
    decreases n,
{
    if n <= 0 {
        (pos, spd)
    } else {
        let prev = edges_pass(pos, spd, edges, n - 1, dt, comp);
        edge_step(prev.0, prev.1, edges[n - 1], dt, comp)
    }
}

/// The effective compliance term, computed in raw fixed point.
fn alpha_of(comp: i64, dt: i64) -> (r: i128)
    requires
        0 <= comp <= COMPLIANCE_MAX,
        DT_MIN <= dt <= DT_MAX,
    ensures
        r == alpha_fx(comp as int, dt as int),
        0 <= r <= 1_000_000_000_000_000_000,
{
    let dt2 = div_t(mul_i(dt as i128, dt as i128), FX_ONE);
    proof {
        assert(dt as int * dt as int >= 1_000_000) by (nonlinear_arith)
            requires
                dt >= 1000,
        ;
        assert(dt as int * dt as int >= 0) by (nonlinear_arith);
        vstd::arithmetic::div_mod::lemma_div_is_ordered(
            1_000_000,
            dt as int * dt as int,
            1_000_000,
        );
        assert(dt2 >= 1);
    }
    div_t(mul_i(comp as i128, FX_ONE), dt2)
}

/// The velocity delta matching a position delta within one sub-step.
fn vel_delta(dp: &T3, dt: i64) -> (r: T3)
    requires
        DT_MIN <= dt <= DT_MAX,
        vbounded(dp@, 100_000_000_000_000_000_000_000_000_000_000),
    ensures
        r@ == vel_of_dp(dp@, dt as int),
        vbounded(r@, 100_000_000_000_000_000_000_000_000_000_000_000),
{
    proof {
        lemma_mul_bound(
            dp.x as int,
            FX_ONE as int,
            100_000_000_000_000_000_000_000_000_000_000,
            FX_ONE as int,
        );
        lemma_mul_bound(
            dp.y as int,
            FX_ONE as int,
            100_000_000_000_000_000_000_000_000_000_000,
            FX_ONE as int,
        );
        lemma_mul_bound(
            dp.z as int,
            FX_ONE as int,
            100_000_000_000_000_000_000_000_000_000_000,
            FX_ONE as int,
        );
        assert(100_000_000_000_000_000_000_000_000_000_000_000int * dt as int
            >= 100_000_000_000_000_000_000_000_000_000_000_000_000) by (nonlinear_arith)
            requires
                dt >= 1000,
        ;
        lemma_divt_bound(
            dp.x as int * FX_ONE as int,
            dt as int,
            100_000_000_000_000_000_000_000_000_000_000_000,
        );
        lemma_divt_bound(
            dp.y as int * FX_ONE as int,
            dt as int,
            100_000_000_000_000_000_000_000_000_000_000_000,
        );
        lemma_divt_bound(
            dp.z as int * FX_ONE as int,
            dt as int,
            100_000_000_000_000_000_000_000_000_000_000_000,
        );
    }
    T3 {
        x: div_t(mul_i(dp.x, FX_ONE), dt as i128),
        y: div_t(mul_i(dp.y, FX_ONE), dt as i128),
        z: div_t(mul_i(dp.z, FX_ONE), dt as i128),
    }
}

/// One Gauss-Seidel sweep over all edge constraints, in list order.
pub fn solve_edges(body: &mut SoftBody, dt: i64, comp: i64)
    requires
        old(body).topo_wf(),
        old(body).sim_ready(),
        DT_MIN <= dt <= DT_MAX,
        0 <= comp <= COMPLIANCE_MAX,
    ensures
        final(body).topo_wf(),
        final(body).sim_ready(),
        final(body).edges@ == old(body).edges@,
        final(body).tetras@ == old(body).tetras@,
        final(body).indices@ == old(body).indices@,
        final(body).speeds@.len() == old(body).speeds@.len(),
        views(final(body).positions@) == edges_pass(
            views(old(body).positions@),
            views(old(body).speeds@),
            old(body).edges@,
            old(body).edges@.len() as int,
            dt as int,
            comp as int,
        ).0,
        views(final(body).speeds@) == edges_pass(
            views(old(body).positions@),
            views(old(body).speeds@),
            old(body).edges@,
            old(body).edges@.len() as int,
            dt as int,
            comp as int,
        ).1,
{
    let ghost pos0 = views(old(body).positions@);
    let ghost spd0 = views(old(body).speeds@);
    let ghost edges0 = old(body).edges@;
    let m = body.edges.len();
    let mut j: usize = 0;
    while j < m
        invariant
            j <= m,
            m == edges0.len(),
            body.edges@ == edges0,
            body.tetras@ == old(body).tetras@,
            body.indices@ == old(body).indices@,
            body.positions@.len() == old(body).positions@.len(),
            body.speeds@.len() == old(body).speeds@.len(),
            old(body).positions@.len() == old(body).speeds@.len(),
            body.topo_wf(),
            body.sim_ready(),
            DT_MIN <= dt <= DT_MAX,
            0 <= comp <= COMPLIANCE_MAX,
            views(body.positions@) == edges_pass(pos0, spd0, edges0, j as int, dt as int, comp as int).0,
            views(body.speeds@) == edges_pass(pos0, spd0, edges0, j as int, dt as int, comp as int).1,
        decreases m - j,
    {
        let ghost pcur = views(body.positions@);
        let ghost scur = views(body.speeds@);
        let e = body.edges[j];
        proof {
            assert(edge_wf(edges0[j as int], body.pcount()));
        }
        let p0 = body.positions[e.a];
        let p1 = body.positions[e.b];
        proof {
            assert(pcur[e.a as int] == p0@);
            assert(pcur[e.b as int] == p1@);
            assert(vbounded(p0@, POS_LIMIT as int));
            assert(vbounded(p1@, POS_LIMIT as int));
        }
        let d = t_sub(&p0.wide(), &p1.wide());
        let dist = t_mag_fx(&d);
        if dist < 1 {
            proof {
                assert(edge_step(pcur, scur, e, dt as int, comp as int) == (pcur, scur));
                assert(edges_pass(pos0, spd0, edges0, j as int + 1, dt as int, comp as int)
                    == edge_step(pcur, scur, e, dt as int, comp as int));
            }
        } else {
            let gx = div_t(mul_i(d.x, FX_ONE), dist);
            let gy = div_t(mul_i(d.y, FX_ONE), dist);
            let gz = div_t(mul_i(d.z, FX_ONE), dist);
            let g0 = T3 { x: gx, y: gy, z: gz };
            let g1 = T3 { x: -gx, y: -gy, z: -gz };
            proof {
                assert(vbounded(g0@, 2_000_000_000_000_000_000));
                assert(g1@ == vneg(g0@));
            }
            let tmp = t_dot_fx(&g0, &g0) + t_dot_fx(&g1, &g1);
            let alpha = alpha_of(comp, dt);
            let art = div_t(mul_i(alpha, e.rest_len as i128), FX_ONE);
            let denom = tmp + art;
            if denom < 1 {
                proof {
                    assert(edge_step(pcur, scur, e, dt as int, comp as int) == (pcur, scur));
                    assert(edges_pass(pos0, spd0, edges0, j as int + 1, dt as int, comp as int)
                        == edge_step(pcur, scur, e, dt as int, comp as int));
                }
            } else {
                let num = mul_i(e.rest_len as i128 - dist, FX_ONE);
                let lambda = lclamp_i(div_t(num, denom));
                proof {
                    assert(-LAMBDA_LIMIT <= lambda <= LAMBDA_LIMIT);
                }
                let dp0 = t_scale_fx(lambda, &g0);
                let dp1 = t_scale_fx(lambda, &g1);
                let dv0 = vel_delta(&dp0, dt);
                let dv1 = vel_delta(&dp1, dt);
                let ghost spec_out = edge_step(pcur, scur, e, dt as int, comp as int);
                let pa = body.positions[e.a];
                let na = apply_delta(&pa, &dp0);
                proof {
                    lemma_views_update(body.positions@, e.a as int, na);
                }
                body.positions.set(e.a, na);
                let pb = body.positions[e.b];
                let nb = apply_delta(&pb, &dp1);
                proof {
                    lemma_views_update(body.positions@, e.b as int, nb);
                }
                body.positions.set(e.b, nb);
                let va = body.speeds[e.a];
                let sa = apply_delta(&va, &dv0);
                proof {
                    lemma_views_update(body.speeds@, e.a as int, sa);
                }
                body.speeds.set(e.a, sa);
                let vb = body.speeds[e.b];
                let sb = apply_delta(&vb, &dv1);
                proof {
                    lemma_views_update(body.speeds@, e.b as int, sb);
                }
                body.speeds.set(e.b, sb);
                proof {
                    assert(views(body.positions@) == spec_out.0);
                    assert(views(body.speeds@) == spec_out.1);
                    assert(edges_pass(pos0, spd0, edges0, j as int + 1, dt as int, comp as int)
                        == edge_step(pcur, scur, e, dt as int, comp as int));
                }
            }
        }
        j = j + 1;
    }
}


/// The four volume-constraint gradients: closed-form partial derivatives of
/// the signed volume with respect to each corner.
pub open spec fn tet_grads(p0: V3, p1: V3, p2: V3, p3: V3) -> (V3, V3, V3, V3) {
    (
        vdivt(vcrossfx(vsub(p3, p1), vsub(p2, p1)), 6),
        vdivt(vcrossfx(vsub(p2, p0), vsub(p3, p0)), 6),
        vdivt(vcrossfx(vsub(p3, p0), vsub(p1, p0)), 6),
        vdivt(vcrossfx(vsub(p1, p0), vsub(p2, p0)), 6),
    )
}

/// One projection of a single tetrahedron constraint. A non-positive
/// denominator (degenerate tetrahedron) leaves the state alone; otherwise
/// all four corners move along their gradients by the clamped Lagrange
/// multiplier, and their velocities absorb the same displacement over `dt`.
pub open spec fn vol_step(pos: Seq<V3>, spd: Seq<V3>, t: Tet, dt: int, comp: int) -> (
    Seq<V3>,
    Seq<V3>,
) {
    let p0 = pos[t.a as int];
    let p1 = pos[t.b as int];
    let p2 = pos[t.c as int];
    let p3 = pos[t.d as int];
    let gs = tet_grads(p0, p1, p2, p3);
    let vol = tet_vol_fx(p0, p1, p2, p3);
    let denom = vdotfx(gs.0, gs.0) + vdotfx(gs.1, gs.1) + vdotfx(gs.2, gs.2) + vdotfx(
        gs.3,
        gs.3,
    ) + mulfx(alpha_fx(comp, dt), t.rest_vol as int);
    if denom < 1 {
        (pos, spd)
    } else {
        let lambda = lclamp(divt((t.rest_vol - vol) * FX_ONE, denom));
        let dp0 = vscalefx(lambda, gs.0);
        let dp1 = vscalefx(lambda, gs.1);
        let dp2 = vscalefx(lambda, gs.2);
        let dp3 = vscalefx(lambda, gs.3);
        let pos1 = pos.update(t.a as int, vsat(vadd(pos[t.a as int], dp0)));
        let pos2 = pos1.update(t.b as int, vsat(vadd(pos1[t.b as int], dp1)));
        let pos3 = pos2.update(t.c as int, vsat(vadd(pos2[t.c as int], dp2)));
        let pos4 = pos3.update(t.d as int, vsat(vadd(pos3[t.d as int], dp3)));
        let spd1 = spd.update(t.a as int, vsat(vadd(spd[t.a as int], vel_of_dp(dp0, dt))));
        let spd2 = spd1.update(t.b as int, vsat(vadd(spd1[t.b as int], vel_of_dp(dp1, dt))));
        let spd3 = spd2.update(t.c as int, vsat(vadd(spd2[t.c as int], vel_of_dp(dp2, dt))));
        let spd4 = spd3.update(t.d as int, vsat(vadd(spd3[t.d as int], vel_of_dp(dp3, dt))));
        (pos4, spd4)
    }
}

/// State after projecting the first `n` tetrahedra in list order.
pub open spec fn vols_pass(
    pos: Seq<V3>,
    spd: Seq<V3>,
    tets: Seq<Tet>,
    n: int,
    dt: int,
    comp: int,
) -> (Seq<V3>, Seq<V3>)
    decreases n,
{
    if n <= 0 {
        (pos, spd)
    } else {
        let prev = vols_pass(pos, spd, tets, n - 1, dt, comp);
        vol_step(prev.0, prev.1, tets[n - 1], dt, comp)
    }
}

/// One sixth of a cross product, with the bound the volume solver needs.
fn grad_div6(cr: &T3) -> (r: T3)
    requires
        vbounded(cr@, 10_000_000_000_000_000_000),
    ensures
        r@ == vdivt(cr@, 6),
        vbounded(r@, 1_700_000_000_000_000_000),
{
    proof {
        lemma_divt_bound(cr.x as int, 6, 1_700_000_000_000_000_000);
        lemma_divt_bound(cr.y as int, 6, 1_700_000_000_000_000_000);
        lemma_divt_bound(cr.z as int, 6, 1_700_000_000_000_000_000);
    }
    t_div(cr, 6)
}

/// Projection of the single tetrahedron constraint `tets[tid]`.
#[verifier::rlimit(100)]
fn vol_project(body: &mut SoftBody, tid: usize, dt: i64, comp: i64)
    requires
        old(body).topo_wf(),
        old(body).sim_ready(),
        tid < old(body).tetras@.len(),
        DT_MIN <= dt <= DT_MAX,
        0 <= comp <= COMPLIANCE_MAX,
    ensures
        final(body).topo_wf(),
        final(body).sim_ready(),
        final(body).edges@ == old(body).edges@,
        final(body).tetras@ == old(body).tetras@,
        final(body).indices@ == old(body).indices@,
        final(body).positions@.len() == old(body).positions@.len(),
        final(body).speeds@.len() == old(body).speeds@.len(),
        views(final(body).positions@) == vol_step(
            views(old(body).positions@),
            views(old(body).speeds@),
            old(body).tetras@[tid as int],
            dt as int,
            comp as int,
        ).0,
        views(final(body).speeds@) == vol_step(
            views(old(body).positions@),
            views(old(body).speeds@),
            old(body).tetras@[tid as int],
            dt as int,
            comp as int,
        ).1,
{
    let ghost pcur = views(old(body).positions@);
    let ghost scur = views(old(body).speeds@);
    let t = body.tetras[tid];
    proof {
        assert(tet_wf(old(body).tetras@[tid as int], body.pcount()));
    }
    let p0 = body.positions[t.a];
    let p1 = body.positions[t.b];
    let p2 = body.positions[t.c];
    let p3 = body.positions[t.d];
    proof {
        assert(pcur[t.a as int] == p0@);
        assert(pcur[t.b as int] == p1@);
        assert(pcur[t.c as int] == p2@);
        assert(pcur[t.d as int] == p3@);
        assert(vbounded(p0@, POS_LIMIT as int));
        assert(vbounded(p1@, POS_LIMIT as int));
        assert(vbounded(p2@, POS_LIMIT as int));
        assert(vbounded(p3@, POS_LIMIT as int));
    }
    let w0 = p0.wide();
    let w1 = p1.wide();
    let w2 = p2.wide();
    let w3 = p3.wide();
    let g0 = grad_div6(&t_cross_fx(&t_sub(&w3, &w1), &t_sub(&w2, &w1)));
    let g1 = grad_div6(&t_cross_fx(&t_sub(&w2, &w0), &t_sub(&w3, &w0)));
    let g2 = grad_div6(&t_cross_fx(&t_sub(&w3, &w0), &t_sub(&w1, &w0)));
    let g3 = grad_div6(&t_cross_fx(&t_sub(&w1, &w0), &t_sub(&w2, &w0)));
    let ghost gs = tet_grads(p0@, p1@, p2@, p3@);
    proof {
        assert(g0@ == gs.0);
        assert(g1@ == gs.1);
        assert(g2@ == gs.2);
        assert(g3@ == gs.3);
    }
    let tmp = t_dot_fx(&g0, &g0) + t_dot_fx(&g1, &g1) + t_dot_fx(&g2, &g2) + t_dot_fx(&g3, &g3);
    let vol = crate::body::tetra_vol(&p0, &p1, &p2, &p3);
    let alpha = alpha_of(comp, dt);
    let art = div_t(mul_i(alpha, t.rest_vol as i128), FX_ONE);
    let denom = tmp + art;
    if denom < 1 {
        proof {
            assert(vol_step(pcur, scur, t, dt as int, comp as int) == (pcur, scur));
        }
    } else {
        let num = mul_i(t.rest_vol as i128 - vol, FX_ONE);
        let lambda = lclamp_i(div_t(num, denom));
        proof {
            assert(-LAMBDA_LIMIT <= lambda <= LAMBDA_LIMIT);
        }
        let dp0 = t_scale_fx(lambda, &g0);
        let dp1 = t_scale_fx(lambda, &g1);
        let dp2 = t_scale_fx(lambda, &g2);
        let dp3 = t_scale_fx(lambda, &g3);
        let dv0 = vel_delta(&dp0, dt);
        let dv1 = vel_delta(&dp1, dt);
        let dv2 = vel_delta(&dp2, dt);
        let dv3 = vel_delta(&dp3, dt);
        let ghost lam = lclamp(divt((t.rest_vol - tet_vol_fx(p0@, p1@, p2@, p3@)) * FX_ONE, denom as int));
        proof {
            assert(lambda == lam);
            assert(dp0@ == vscalefx(lam, gs.0));
            assert(dp1@ == vscalefx(lam, gs.1));
            assert(dp2@ == vscalefx(lam, gs.2));
            assert(dp3@ == vscalefx(lam, gs.3));
        }
        let pa = body.positions[t.a];
        let na = apply_delta(&pa, &dp0);
        proof {
            lemma_views_update(body.positions@, t.a as int, na);
        }
        body.positions.set(t.a, na);
        let ghost pos1 = pcur.update(t.a as int, vsat(vadd(pcur[t.a as int], dp0@)));
        proof {
            assert(views(body.positions@) == pos1);
        }
        let pb = body.positions[t.b];
        let nb = apply_delta(&pb, &dp1);
        proof {
            lemma_views_update(body.positions@, t.b as int, nb);
        }
        body.positions.set(t.b, nb);
        let ghost pos2 = pos1.update(t.b as int, vsat(vadd(pos1[t.b as int], dp1@)));
        proof {
            assert(views(body.positions@) == pos2);
        }
        let pc = body.positions[t.c];
        let nc = apply_delta(&pc, &dp2);
        proof {
            lemma_views_update(body.positions@, t.c as int, nc);
        }
        body.positions.set(t.c, nc);
        let ghost pos3 = pos2.update(t.c as int, vsat(vadd(pos2[t.c as int], dp2@)));
        proof {
            assert(views(body.positions@) == pos3);
        }
        let pd = body.positions[t.d];
        let nd = apply_delta(&pd, &dp3);
        proof {
            lemma_views_update(body.positions@, t.d as int, nd);
        }
        body.positions.set(t.d, nd);
        let ghost pos4 = pos3.update(t.d as int, vsat(vadd(pos3[t.d as int], dp3@)));
        proof {
            assert(views(body.positions@) == pos4);
        }
        let va = body.speeds[t.a];
        let sa = apply_delta(&va, &dv0);
        proof {
            lemma_views_update(body.speeds@, t.a as int, sa);
        }
        body.speeds.set(t.a, sa);
        let ghost spd1 = scur.update(t.a as int, vsat(vadd(scur[t.a as int], vel_of_dp(dp0@, dt as int))));
        proof {
            assert(views(body.speeds@) == spd1);
        }
        let vb = body.speeds[t.b];
        let sb = apply_delta(&vb, &dv1);
        proof {
            lemma_views_update(body.speeds@, t.b as int, sb);
        }
        body.speeds.set(t.b, sb);
        let ghost spd2 = spd1.update(t.b as int, vsat(vadd(spd1[t.b as int], vel_of_dp(dp1@, dt as int))));
        proof {
            assert(views(body.speeds@) == spd2);
        }
        let vc = body.speeds[t.c];
        let sc = apply_delta(&vc, &dv2);
        proof {
            lemma_views_update(body.speeds@, t.c as int, sc);
        }
        body.speeds.set(t.c, sc);
        let ghost spd3 = spd2.update(t.c as int, vsat(vadd(spd2[t.c as int], vel_of_dp(dp2@, dt as int))));
        proof {
            assert(views(body.speeds@) == spd3);
        }
        let vd = body.speeds[t.d];
        let sd = apply_delta(&vd, &dv3);
        proof {
            lemma_views_update(body.speeds@, t.d as int, sd);
        }
        body.speeds.set(t.d, sd);
        let ghost spd4 = spd3.update(t.d as int, vsat(vadd(spd3[t.d as int], vel_of_dp(dp3@, dt as int))));
        proof {
            assert(views(body.speeds@) == spd4);
            assert(vol_step(pcur, scur, t, dt as int, comp as int).0 == pos4);
            assert(vol_step(pcur, scur, t, dt as int, comp as int).1 == spd4);
        }
    }
}

/// One Gauss-Seidel sweep over all tetrahedron constraints, in list order.
pub fn solve_volumes(body: &mut SoftBody, dt: i64, comp: i64)
    requires
        old(body).topo_wf(),
        old(body).sim_ready(),
        DT_MIN <= dt <= DT_MAX,
        0 <= comp <= COMPLIANCE_MAX,
    ensures
        final(body).topo_wf(),
        final(body).sim_ready(),
        final(body).edges@ == old(body).edges@,
        final(body).tetras@ == old(body).tetras@,
        final(body).indices@ == old(body).indices@,
        final(body).speeds@.len() == old(body).speeds@.len(),
        views(final(body).positions@) == vols_pass(
            views(old(body).positions@),
            views(old(body).speeds@),
            old(body).tetras@,
            old(body).tetras@.len() as int,
            dt as int,
            comp as int,
        ).0,
        views(final(body).speeds@) == vols_pass(
            views(old(body).positions@),
            views(old(body).speeds@),
            old(body).tetras@,
            old(body).tetras@.len() as int,
            dt as int,
            comp as int,
        ).1,
{
    let ghost pos0 = views(old(body).positions@);
    let ghost spd0 = views(old(body).speeds@);
    let ghost tets0 = old(body).tetras@;
    let m = body.tetras.len();
    let mut j: usize = 0;
    while j < m
        invariant
            j <= m,
            m == tets0.len(),
            body.edges@ == old(body).edges@,
            body.tetras@ == tets0,
            body.indices@ == old(body).indices@,
            body.positions@.len() == old(body).positions@.len(),
            body.speeds@.len() == old(body).speeds@.len(),
            old(body).positions@.len() == old(body).speeds@.len(),
            body.topo_wf(),
            body.sim_ready(),
            DT_MIN <= dt <= DT_MAX,
            0 <= comp <= COMPLIANCE_MAX,
            views(body.positions@) == vols_pass(pos0, spd0, tets0, j as int, dt as int, comp as int).0,
            views(body.speeds@) == vols_pass(pos0, spd0, tets0, j as int, dt as int, comp as int).1,
        decreases m - j,
    {
        let ghost pcur = views(body.positions@);
        let ghost scur = views(body.speeds@);
        vol_project(body, j, dt, comp);
        proof {
            assert(vols_pass(pos0, spd0, tets0, j as int + 1, dt as int, comp as int)
                == vol_step(pcur, scur, tets0[j as int], dt as int, comp as int));
        }
        j = j + 1;
    }
}

/// One complete sub-step: integration and ground contact, then one edge
/// sweep, then one volume sweep.
pub open spec fn substep(
    pos: Seq<V3>,
    spd: Seq<V3>,
    edges: Seq<Edge>,
    tets: Seq<Tet>,
    dt: int,
    e_comp: int,
    v_comp: int,
) -> (Seq<V3>, Seq<V3>) {
    let g = (grav_pass_pos(pos, spd, dt), grav_pass_vel(pos, spd, dt));
    let e = edges_pass(g.0, g.1, edges, edges.len() as int, dt, e_comp);
    vols_pass(e.0, e.1, tets, tets.len() as int, dt, v_comp)
}

/// Advances the body by one sub-step of length `dt`.
pub fn update_softbody(body: &mut SoftBody, dt: i64, e_comp: i64, v_comp: i64)
    requires
        old(body).topo_wf(),
        old(body).sim_ready(),
        DT_MIN <= dt <= DT_MAX,
        0 <= e_comp <= COMPLIANCE_MAX,
        0 <= v_comp <= COMPLIANCE_MAX,
    ensures
        final(body).topo_wf(),
        final(body).sim_ready(),
        final(body).edges@ == old(body).edges@,
        final(body).tetras@ == old(body).tetras@,
        final(body).indices@ == old(body).indices@,
        final(body).speeds@.len() == old(body).speeds@.len(),
        views(final(body).positions@) == substep(
            views(old(body).positions@),
            views(old(body).speeds@),
            old(body).edges@,
            old(body).tetras@,
            dt as int,
            e_comp as int,
            v_comp as int,
        ).0,
        views(final(body).speeds@) == substep(
            views(old(body).positions@),
            views(old(body).speeds@),
            old(body).edges@,
            old(body).tetras@,
            dt as int,
            e_comp as int,
            v_comp as int,
        ).1,
{
    gravity_and_ground(body, dt);
    solve_edges(body, dt, e_comp);
    solve_volumes(body, dt, v_comp);
}


/// State after `n` complete sub-steps.
pub open spec fn steps(
    pos: Seq<V3>,
    spd: Seq<V3>,
    edges: Seq<Edge>,
    tets: Seq<Tet>,
    dt: int,
    e_comp: int,
    v_comp: int,
    n: int,
) -> (Seq<V3>, Seq<V3>)
    decreases n,
{
    if n <= 0 {
        (pos, spd)
    } else {
        let prev = steps(pos, spd, edges, tets, dt, e_comp, v_comp, n - 1);
        substep(prev.0, prev.1, edges, tets, dt, e_comp, v_comp)
    }
}

} // verus!
