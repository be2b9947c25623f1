//! The soft-body data model: particles, edge constraints, tetrahedron
//! constraints, and their well-formedness.

use vstd::prelude::*;

verus! {

use crate::fx::{
    divt, FX_ONE, POS_LIMIT, div_t, lemma_mul_bound, lemma_divt_bound, lemma_sqrt_bounds,
};
use crate::vec3::{
    Vec3, V3, vbounded, vsub, vdotfx, vcrossfx, vmagfx, vnormsq, views, all_bounded, t_sub,
    t_cross_fx, t_dot_fx, t_mag_fx,
};

/// Coordinates handed to construction must stay within this raw bound, so
/// that rest lengths and rest volumes fit their stored range.
pub const BUILD_COORD_LIMIT: i64 = 1_000_000_000;

/// Every rest length a well-formed body stores fits this raw bound.
pub const REST_LEN_LIMIT: i64 = 4_000_000_000;

/// Every rest volume a well-formed body stores fits this raw bound.
pub const REST_VOL_LIMIT: i64 = 10_000_000_000_000_000;

/// A distance constraint between two particles, with the rest separation
/// recorded once at construction.
#[derive(Clone, Copy, PartialEq, Eq, Structural, Debug)]
pub struct Edge {
    pub a: usize,
    pub b: usize,
    pub rest_len: i64,
}

/// A volume constraint over four particles, with the signed rest volume
/// recorded once at construction.
#[derive(Clone, Copy, PartialEq, Eq, Structural, Debug)]
pub struct Tet {
    pub a: usize,
    pub b: usize,
    pub c: usize,
    pub d: usize,
    pub rest_vol: i64,
}

/// Why construction of a body refused its input.
#[derive(Clone, Copy, PartialEq, Eq, Structural, Debug)]
pub enum TopologyError {
    /// A vertex coordinate exceeds `BUILD_COORD_LIMIT`.
    VertexOutOfBounds { index: usize },
    /// A surface-triangle index does not name a vertex.
    SurfaceIndexOutOfRange { index: usize },
    /// An edge endpoint does not name a vertex.
    EdgeIndexOutOfRange { edge: usize },
    /// A tetrahedron corner does not name a vertex.
    TetIndexOutOfRange { tet: usize },
}

/// Signed fixed-point volume of a tetrahedron: one sixth of the scalar
/// triple product of the three edge vectors leaving the first vertex.
pub open spec fn tet_vol_fx(p0: V3, p1: V3, p2: V3, p3: V3) -> int {
    divt(vdotfx(vcrossfx(vsub(p1, p0), vsub(p2, p0)), vsub(p3, p0)), 6)
}

pub open spec fn edge_wf(e: Edge, n: int) -> bool {
    e.a < n && e.b < n && 0 <= e.rest_len <= REST_LEN_LIMIT
}

pub open spec fn tet_wf(t: Tet, n: int) -> bool {
    t.a < n && t.b < n && t.c < n && t.d < n && -REST_VOL_LIMIT <= t.rest_vol <= REST_VOL_LIMIT
}

/// The deformable body: particle state plus immutable topology. While the
/// body is being rendered, `positions` and `indices` are empty — their
/// storage then lives in the render mesh (see `RenderSoftBody`).
pub struct SoftBody {
    pub positions: Vec<Vec3>,
    pub speeds: Vec<Vec3>,
    pub indices: Vec<u32>,
    pub edges: Vec<Edge>,
    pub tetras: Vec<Tet>,
}

impl SoftBody {
    /// Number of particles; the velocity array always owns one entry each.
    pub open spec fn pcount(&self) -> int {
        self.speeds@.len() as int
    }

    /// The topology names only real particles, rest values are in range,
    /// and velocities are bounded. Constraint lists never change after
    /// construction, so this is invariant across the body's lifetime.
    pub open spec fn topo_wf(&self) -> bool {
        &&& forall|i: int| 0 <= i < self.edges@.len() ==> edge_wf(#[trigger] self.edges@[i], self.pcount())
        &&& forall|i: int| 0 <= i < self.tetras@.len() ==> tet_wf(#[trigger] self.tetras@[i], self.pcount())
        &&& all_bounded(views(self.speeds@), POS_LIMIT as int)
    }

    /// The position buffer is in place and bounded: the body can simulate.
    pub open spec fn sim_ready(&self) -> bool {
        &&& self.positions@.len() == self.speeds@.len()
        &&& all_bounded(views(self.positions@), POS_LIMIT as int)
    }
}

/// Fixed-point distance between two stored points.
pub fn edge_len_fx(p0: &Vec3, p1: &Vec3) -> (r: i128)
    requires
        vbounded(p0@, POS_LIMIT as int),
        vbounded(p1@, POS_LIMIT as int),
    ensures
        r == vmagfx(vsub(p0@, p1@)),
        0 <= r <= 6_000_000_000_000,
{
    let d = t_sub(&p0.wide(), &p1.wide());
    t_mag_fx(&d)
}

/// Signed fixed-point volume of a tetrahedron given its four corners.
pub fn tetra_vol(p0: &Vec3, p1: &Vec3, p2: &Vec3, p3: &Vec3) -> (r: i128)
    requires
        vbounded(p0@, POS_LIMIT as int),
        vbounded(p1@, POS_LIMIT as int),
        vbounded(p2@, POS_LIMIT as int),
        vbounded(p3@, POS_LIMIT as int),
    ensures
        r == tet_vol_fx(p0@, p1@, p2@, p3@),
        -12_000_000_000_000_000_000_000_000_000_000 <= r
            <= 12_000_000_000_000_000_000_000_000_000_000,
{
    let w0 = p0.wide();
    let ea = t_sub(&p1.wide(), &w0);
    let eb = t_sub(&p2.wide(), &w0);
    let ec = t_sub(&p3.wide(), &w0);
    let cr = t_cross_fx(&ea, &eb);
    let dot = t_dot_fx(&cr, &ec);
    div_t(dot, 6)
}

/// At construction scale (`BUILD_COORD_LIMIT`), a computed rest length fits
/// its stored range.
pub proof fn lemma_build_len_bound(p0: V3, p1: V3)
    requires
        vbounded(p0, BUILD_COORD_LIMIT as int),
        vbounded(p1, BUILD_COORD_LIMIT as int),
    ensures
        0 <= vmagfx(vsub(p0, p1)) <= REST_LEN_LIMIT,
{
    let d = vsub(p0, p1);
    lemma_mul_bound(d.x, d.x, 2_000_000_000, 2_000_000_000);
    lemma_mul_bound(d.y, d.y, 2_000_000_000, 2_000_000_000);
    lemma_mul_bound(d.z, d.z, 2_000_000_000, 2_000_000_000);
    assert(d.x * d.x >= 0) by (nonlinear_arith);
    assert(d.y * d.y >= 0) by (nonlinear_arith);
    assert(d.z * d.z >= 0) by (nonlinear_arith);
    lemma_sqrt_bounds(vnormsq(d));
    let r = vmagfx(d);
    assert(r <= REST_LEN_LIMIT) by (nonlinear_arith)
        requires
            0 <= r,
            r * r <= vnormsq(d),
            vnormsq(d) <= 12_000_000_000_000_000_000,
            REST_LEN_LIMIT == 4_000_000_000,
    ;
}

/// At construction scale, a computed rest volume fits its stored range.
pub proof fn lemma_build_vol_bound(p0: V3, p1: V3, p2: V3, p3: V3)
    requires
        vbounded(p0, BUILD_COORD_LIMIT as int),
        vbounded(p1, BUILD_COORD_LIMIT as int),
        vbounded(p2, BUILD_COORD_LIMIT as int),
        vbounded(p3, BUILD_COORD_LIMIT as int),
    ensures
        -REST_VOL_LIMIT <= tet_vol_fx(p0, p1, p2, p3) <= REST_VOL_LIMIT,
{
    let ea = vsub(p1, p0);
    let eb = vsub(p2, p0);
    let ec = vsub(p3, p0);
    let cr = vcrossfx(ea, eb);
    lemma_mul_bound(ea.y, eb.z, 2_000_000_000, 2_000_000_000);
    lemma_mul_bound(ea.z, eb.y, 2_000_000_000, 2_000_000_000);
    lemma_mul_bound(ea.z, eb.x, 2_000_000_000, 2_000_000_000);
    lemma_mul_bound(ea.x, eb.z, 2_000_000_000, 2_000_000_000);
    lemma_mul_bound(ea.x, eb.y, 2_000_000_000, 2_000_000_000);
    lemma_mul_bound(ea.y, eb.x, 2_000_000_000, 2_000_000_000);
    lemma_divt_bound(ea.y * eb.z - ea.z * eb.y, FX_ONE as int, 8_000_000_000_000);
    lemma_divt_bound(ea.z * eb.x - ea.x * eb.z, FX_ONE as int, 8_000_000_000_000);
    lemma_divt_bound(ea.x * eb.y - ea.y * eb.x, FX_ONE as int, 8_000_000_000_000);
    lemma_mul_bound(cr.x, ec.x, 8_000_000_000_000, 2_000_000_000);
    lemma_mul_bound(cr.y, ec.y, 8_000_000_000_000, 2_000_000_000);
    lemma_mul_bound(cr.z, ec.z, 8_000_000_000_000, 2_000_000_000);
    lemma_divt_bound(
        cr.x * ec.x + cr.y * ec.y + cr.z * ec.z,
        FX_ONE as int,
        48_000_000_000_000_000,
    );
    lemma_divt_bound(vdotfx(cr, ec), 6, 8_000_000_000_000_000);
}

} // verus!
