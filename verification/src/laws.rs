//! Global laws of the solver, stated and proved over the step relations.

use vstd::prelude::*;

verus! {

use vstd::arithmetic::div_mod::lemma_div_of0;
use crate::fx::{divt, mulfx, lclamp, FX_ONE, POS_LIMIT};
use crate::vec3::{V3, vbounded, vsub, vmagfx, all_bounded};
use crate::body::{Edge, Tet, tet_vol_fx, edge_wf, tet_wf};
use crate::solver::{edge_step, edges_pass, vol_step, vols_pass, steps, tet_grads, vel_of_dp};

/// The edge currently sits exactly at its rest length.
pub open spec fn edge_at_rest(pos: Seq<V3>, e: Edge) -> bool {
    vmagfx(vsub(pos[e.a as int], pos[e.b as int])) == e.rest_len
}

/// The tetrahedron currently has exactly its rest volume.
pub open spec fn tet_at_rest(pos: Seq<V3>, t: Tet) -> bool {
    tet_vol_fx(pos[t.a as int], pos[t.b as int], pos[t.c as int], pos[t.d as int]) == t.rest_vol
}

proof fn lemma_edge_step_at_rest(pos: Seq<V3>, spd: Seq<V3>, e: Edge, dt: int, comp: int)
    requires
        all_bounded(pos, POS_LIMIT as int),
        all_bounded(spd, POS_LIMIT as int),
        spd.len() == pos.len(),
        edge_wf(e, pos.len() as int),
        edge_at_rest(pos, e),
        1 <= dt,
    ensures
        edge_step(pos, spd, e, dt, comp) == (pos, spd),
{
    let d = vsub(pos[e.a as int], pos[e.b as int]);
    let dist = vmagfx(d);
    if dist >= 1 {
        let g0 = V3 {
            x: divt(d.x * FX_ONE, dist),
            y: divt(d.y * FX_ONE, dist),
            z: divt(d.z * FX_ONE, dist),
        };
        let denom = edge_step_denom(pos, e, dt, comp);
        if denom >= 1 {
            lemma_div_of0(denom);
            assert((e.rest_len - dist) * FX_ONE == 0);
            assert(lclamp(divt(0, denom)) == 0);
            lemma_zero_correction(pos, spd, e.a as int, g0, dt);
            lemma_zero_correction(pos, spd, e.b as int, crate::vec3::vneg(g0), dt);
        }
    }
}

/// The denominator the edge projection divides by.
spec fn edge_step_denom(pos: Seq<V3>, e: Edge, dt: int, comp: int) -> int {
    let d = vsub(pos[e.a as int], pos[e.b as int]);
    let dist = vmagfx(d);
    let g0 = V3 {
        x: divt(d.x * FX_ONE, dist),
        y: divt(d.y * FX_ONE, dist),
        z: divt(d.z * FX_ONE, dist),
    };
    let g1 = crate::vec3::vneg(g0);
    crate::vec3::vdotfx(g0, g0) + crate::vec3::vdotfx(g1, g1) + mulfx(
        crate::solver::alpha_fx(comp, dt),
        e.rest_len as int,
    )
}

/// A zero Lagrange multiplier moves neither positions nor velocities.
proof fn lemma_zero_correction(pos: Seq<V3>, spd: Seq<V3>, a: int, g: V3, dt: int)
    requires
        all_bounded(pos, POS_LIMIT as int),
        all_bounded(spd, POS_LIMIT as int),
        spd.len() == pos.len(),
        0 <= a < pos.len(),
        1 <= dt,
    ensures
        crate::vec3::vscalefx(0, g) == (V3 { x: 0int, y: 0int, z: 0int }),
        vel_of_dp(V3 { x: 0int, y: 0int, z: 0int }, dt) == (V3 { x: 0int, y: 0int, z: 0int }),
        pos.update(a, crate::vec3::vsat(crate::vec3::vadd(pos[a], crate::vec3::vscalefx(0, g))))
            == pos,
        spd.update(
            a,
            crate::vec3::vsat(crate::vec3::vadd(spd[a], vel_of_dp(crate::vec3::vscalefx(0, g), dt))),
        ) == spd,
{
    lemma_div_of0(FX_ONE as int);
    lemma_div_of0(dt);
    assert(crate::vec3::vscalefx(0, g) == (V3 { x: 0int, y: 0int, z: 0int }));
    assert(vel_of_dp(V3 { x: 0int, y: 0int, z: 0int }, dt) == (V3 { x: 0int, y: 0int, z: 0int }));
    assert(vbounded(pos[a], POS_LIMIT as int));
    assert(vbounded(spd[a], POS_LIMIT as int));
    assert(crate::vec3::vsat(crate::vec3::vadd(pos[a], crate::vec3::vscalefx(0, g))) == pos[a]);
    assert(pos.update(a, pos[a]) =~= pos);
    assert(crate::vec3::vsat(
        crate::vec3::vadd(spd[a], vel_of_dp(crate::vec3::vscalefx(0, g), dt)),
    ) == spd[a]);
    assert(spd.update(a, spd[a]) =~= spd);
}

proof fn lemma_vol_step_at_rest(pos: Seq<V3>, spd: Seq<V3>, t: Tet, dt: int, comp: int)
    requires
        all_bounded(pos, POS_LIMIT as int),
        all_bounded(spd, POS_LIMIT as int),
        spd.len() == pos.len(),
        tet_wf(t, pos.len() as int),
        tet_at_rest(pos, t),
        1 <= dt,
    ensures
        vol_step(pos, spd, t, dt, comp) == (pos, spd),
{
    let p0 = pos[t.a as int];
    let p1 = pos[t.b as int];
    let p2 = pos[t.c as int];
    let p3 = pos[t.d as int];
    let gs = tet_grads(p0, p1, p2, p3);
    let vol = tet_vol_fx(p0, p1, p2, p3);
    let denom = crate::vec3::vdotfx(gs.0, gs.0) + crate::vec3::vdotfx(gs.1, gs.1)
        + crate::vec3::vdotfx(gs.2, gs.2) + crate::vec3::vdotfx(gs.3, gs.3) + mulfx(
        crate::solver::alpha_fx(comp, dt),
        t.rest_vol as int,
    );
    if denom >= 1 {
        lemma_div_of0(denom);
        assert((t.rest_vol - vol) * FX_ONE == 0);
        assert(lclamp(divt(0, denom)) == 0);
        lemma_zero_correction(pos, spd, t.a as int, gs.0, dt);
        lemma_zero_correction(pos, spd, t.b as int, gs.1, dt);
        lemma_zero_correction(pos, spd, t.c as int, gs.2, dt);
        lemma_zero_correction(pos, spd, t.d as int, gs.3, dt);
    }
}

proof fn lemma_edges_pass_at_rest(
    pos: Seq<V3>,
    spd: Seq<V3>,
    edges: Seq<Edge>,
    n: int,
    dt: int,
    comp: int,
)
    requires
        all_bounded(pos, POS_LIMIT as int),
        all_bounded(spd, POS_LIMIT as int),
        spd.len() == pos.len(),
        forall|i: int| 0 <= i < edges.len() ==> edge_wf(#[trigger] edges[i], pos.len() as int),
        forall|i: int| 0 <= i < edges.len() ==> edge_at_rest(pos, #[trigger] edges[i]),
        0 <= n <= edges.len(),
        1 <= dt,
    ensures
        edges_pass(pos, spd, edges, n, dt, comp) == (pos, spd),
    decreases n,
{
    if n > 0 {
        lemma_edges_pass_at_rest(pos, spd, edges, n - 1, dt, comp);
        lemma_edge_step_at_rest(pos, spd, edges[n - 1], dt, comp);
    }
}

proof fn lemma_vols_pass_at_rest(
    pos: Seq<V3>,
    spd: Seq<V3>,
    tets: Seq<Tet>,
    n: int,
    dt: int,
    comp: int,
)
    requires
        all_bounded(pos, POS_LIMIT as int),
        all_bounded(spd, POS_LIMIT as int),
        spd.len() == pos.len(),
        forall|i: int| 0 <= i < tets.len() ==> tet_wf(#[trigger] tets[i], pos.len() as int),
        forall|i: int| 0 <= i < tets.len() ==> tet_at_rest(pos, #[trigger] tets[i]),
        0 <= n <= tets.len(),
        1 <= dt,
    ensures
        vols_pass(pos, spd, tets, n, dt, comp) == (pos, spd),
    decreases n,
{
    if n > 0 {
        lemma_vols_pass_at_rest(pos, spd, tets, n - 1, dt, comp);
        lemma_vol_step_at_rest(pos, spd, tets[n - 1], dt, comp);
    }
}

/// Rest-state stability: a body whose positions satisfy every edge and
/// volume constraint exactly is a fixed point of both constraint sweeps —
/// the projections move nothing at all, whatever the compliances. (The
/// integration pass is not covered: it always applies the anchor restoring
/// force, which is an external force.)
pub proof fn lemma_rest_state_stability(
    pos: Seq<V3>,
    spd: Seq<V3>,
    edges: Seq<Edge>,
    tets: Seq<Tet>,
    dt: int,
    e_comp: int,
    v_comp: int,
)
    requires
        all_bounded(pos, POS_LIMIT as int),
        all_bounded(spd, POS_LIMIT as int),
        spd.len() == pos.len(),
        forall|i: int| 0 <= i < edges.len() ==> edge_wf(#[trigger] edges[i], pos.len() as int),
        forall|i: int| 0 <= i < tets.len() ==> tet_wf(#[trigger] tets[i], pos.len() as int),
        forall|i: int| 0 <= i < edges.len() ==> edge_at_rest(pos, #[trigger] edges[i]),
        forall|i: int| 0 <= i < tets.len() ==> tet_at_rest(pos, #[trigger] tets[i]),
        1 <= dt,
    ensures
        edges_pass(pos, spd, edges, edges.len() as int, dt, e_comp) == (pos, spd),
        vols_pass(pos, spd, tets, tets.len() as int, dt, v_comp) == (pos, spd),
{
    lemma_edges_pass_at_rest(pos, spd, edges, edges.len() as int, dt, e_comp);
    lemma_vols_pass_at_rest(pos, spd, tets, tets.len() as int, dt, v_comp);
}

/// Determinism: the whole update is a mathematical function of the particle
/// state, the topology and the parameters — equal inputs give equal
/// trajectories, with no hidden state or randomness anywhere in a step.
pub proof fn lemma_update_deterministic(
    pos1: Seq<V3>,
    spd1: Seq<V3>,
    pos2: Seq<V3>,
    spd2: Seq<V3>,
    edges: Seq<Edge>,
    tets: Seq<Tet>,
    dt: int,
    e_comp: int,
    v_comp: int,
    n: int,
)
    requires
        pos1 == pos2,
        spd1 == spd2,
    ensures
        steps(pos1, spd1, edges, tets, dt, e_comp, v_comp, n) == steps(
            pos2,
            spd2,
            edges,
            tets,
            dt,
            e_comp,
            v_comp,
            n,
        ),
{
}

} // verus!
