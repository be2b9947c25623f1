//! The render/simulation buffer toggle: a soft body paired with its render
//! mesh, sharing the position and surface-index storage by moving it between
//! the two representations around each physics update — never by copying it.

use vstd::prelude::*;

verus! {

use crate::fx::{divt, POS_LIMIT, div_t};
use crate::vec3::{Vec3, V3, vbounded, vsub, vmagfx, views, all_bounded};
use crate::body::{
    Edge, Tet, SoftBody, TopologyError, tet_vol_fx, edge_wf, tet_wf, edge_len_fx, tetra_vol,
    lemma_build_len_bound, lemma_build_vol_bound, BUILD_COORD_LIMIT,
};
use crate::solver::{update_softbody, steps, DT_MIN, DT_MAX, COMPLIANCE_MAX};

/// A soft body together with the render-mesh representation of its surface.
/// Outside an update, the mesh owns the position and index storage and the
/// body's buffers are empty; during an update the ownership is reversed.
pub struct RenderSoftBody {
    pub softbody: SoftBody,
    pub mesh_positions: Vec<Vec3>,
    pub mesh_indices: Vec<u32>,
}

/// All vertex coordinates are within the construction bound.
pub open spec fn verts_ok(v: Seq<Vec3>) -> bool {
    forall|i: int| 0 <= i < v.len() ==> vbounded(#[trigger] v[i]@, BUILD_COORD_LIMIT as int)
}

/// All surface-triangle indices name vertices.
pub open spec fn surface_ok(s: Seq<u32>, n: int) -> bool {
    forall|i: int| 0 <= i < s.len() ==> (#[trigger] s[i]) < n
}

/// All edge endpoints name vertices.
pub open spec fn pairs_ok(p: Seq<(usize, usize)>, n: int) -> bool {
    forall|i: int| 0 <= i < p.len() ==> (#[trigger] p[i]).0 < n && p[i].1 < n
}

/// All tetrahedron corners name vertices.
pub open spec fn quads_ok(q: Seq<(usize, usize, usize, usize)>, n: int) -> bool {
    forall|i: int|
        0 <= i < q.len() ==> (#[trigger] q[i]).0 < n && q[i].1 < n && q[i].2 < n && q[i].3 < n
}

/// The input as a whole is well-formed.
pub open spec fn topo_ok(
    v: Seq<Vec3>,
    s: Seq<u32>,
    p: Seq<(usize, usize)>,
    q: Seq<(usize, usize, usize, usize)>,
) -> bool {
    verts_ok(v) && surface_ok(s, v.len() as int) && pairs_ok(p, v.len() as int) && quads_ok(
        q,
        v.len() as int,
    )
}

/// A construction error names a real offender in the input.
pub open spec fn names_offender(
    e: TopologyError,
    v: Seq<Vec3>,
    s: Seq<u32>,
    p: Seq<(usize, usize)>,
    q: Seq<(usize, usize, usize, usize)>,
) -> bool {
    match e {
        TopologyError::VertexOutOfBounds { index } => index < v.len() && !vbounded(
            v[index as int]@,
            BUILD_COORD_LIMIT as int,
        ),
        TopologyError::SurfaceIndexOutOfRange { index } => index < s.len() && s[index as int]
            >= v.len(),
        TopologyError::EdgeIndexOutOfRange { edge } => edge < p.len() && (p[edge as int].0
            >= v.len() || p[edge as int].1 >= v.len()),
        TopologyError::TetIndexOutOfRange { tet } => tet < q.len() && (q[tet as int].0 >= v.len()
            || q[tet as int].1 >= v.len() || q[tet as int].2 >= v.len() || q[tet as int].3
            >= v.len()),
    }
}

impl RenderSoftBody {
    /// Outside an update: the mesh owns one position per particle and the
    /// surface indices; the body's own buffers are empty.
    pub open spec fn wf(&self) -> bool {
        &&& self.softbody.topo_wf()
        &&& self.softbody.positions@.len() == 0
        &&& self.softbody.indices@.len() == 0
        &&& self.mesh_positions@.len() == self.softbody.speeds@.len()
        &&& all_bounded(views(self.mesh_positions@), POS_LIMIT as int)
        &&& forall|i: int|
            0 <= i < self.mesh_indices@.len() ==> ((#[trigger] self.mesh_indices@[i]) as int)
                < self.softbody.pcount()
    }

    /// Builds a body from raw topology: vertex positions, surface-triangle
    /// indices, edge index pairs and tetrahedron index quadruples. Rest
    /// lengths and rest volumes are computed here, velocities start at zero,
    /// and the mesh keeps the initial positions. Malformed input is refused
    /// with the offending index.
    pub fn build_body(
        vertices: Vec<Vec3>,
        surface_indices: Vec<u32>,
        edge_pairs: Vec<(usize, usize)>,
        tet_quads: Vec<(usize, usize, usize, usize)>,
    ) -> (r: Result<RenderSoftBody, TopologyError>)
        ensures
            (r is Ok) == topo_ok(vertices@, surface_indices@, edge_pairs@, tet_quads@),
            r matches Err(e) ==> names_offender(
                e,
                vertices@,
                surface_indices@,
                edge_pairs@,
                tet_quads@,
            ),
            r matches Ok(b) ==> {
                &&& b.wf()
                &&& b.mesh_positions@ == vertices@
                &&& b.mesh_indices@ == surface_indices@
                &&& b.softbody.speeds@.len() == vertices@.len()
                &&& forall|i: int|
                    0 <= i < vertices@.len() ==> (#[trigger] b.softbody.speeds@[i])@ == (V3 {
                        x: 0int,
                        y: 0int,
                        z: 0int,
                    })
                &&& b.softbody.edges@.len() == edge_pairs@.len()
                &&& forall|i: int|
                    0 <= i < edge_pairs@.len() ==> (#[trigger] b.softbody.edges@[i]) == (Edge {
                        a: edge_pairs@[i].0,
                        b: edge_pairs@[i].1,
                        rest_len: vmagfx(
                            vsub(
                                vertices@[edge_pairs@[i].1 as int]@,
                                vertices@[edge_pairs@[i].0 as int]@,
                            ),
                        ) as i64,
                    })
                &&& b.softbody.tetras@.len() == tet_quads@.len()
                &&& forall|i: int|
                    0 <= i < tet_quads@.len() ==> (#[trigger] b.softbody.tetras@[i]) == (Tet {
                        a: tet_quads@[i].0,
                        b: tet_quads@[i].1,
                        c: tet_quads@[i].2,
                        d: tet_quads@[i].3,
                        rest_vol: tet_vol_fx(
                            vertices@[tet_quads@[i].0 as int]@,
                            vertices@[tet_quads@[i].1 as int]@,
                            vertices@[tet_quads@[i].2 as int]@,
                            vertices@[tet_quads@[i].3 as int]@,
                        ) as i64,
                    })
            },
    {
        let n = vertices.len();
        let mut i: usize = 0;
        while i < n
            invariant
                i <= n,
                n == vertices@.len(),
                forall|k: int| 0 <= k < i ==> vbounded(#[trigger] vertices@[k]@, BUILD_COORD_LIMIT as int),
            decreases n - i,
        {
            let v = vertices[i];
            if v.x < -BUILD_COORD_LIMIT || v.x > BUILD_COORD_LIMIT || v.y < -BUILD_COORD_LIMIT
                || v.y > BUILD_COORD_LIMIT || v.z < -BUILD_COORD_LIMIT || v.z > BUILD_COORD_LIMIT {
                proof {
                    assert(!vbounded(vertices@[i as int]@, BUILD_COORD_LIMIT as int));
                    assert(!verts_ok(vertices@));
                }
                return Err(TopologyError::VertexOutOfBounds { index: i });
            }
            i = i + 1;
        }
        let mut i: usize = 0;
        while i < surface_indices.len()
            invariant
                i <= surface_indices@.len(),
                n == vertices@.len(),
                forall|k: int| 0 <= k < i ==> (#[trigger] surface_indices@[k]) < n,
            decreases surface_indices@.len() - i,
        {
            if surface_indices[i] as usize >= n {
                proof {
                    assert(surface_indices@[i as int] >= n);
                    assert(!surface_ok(surface_indices@, n as int));
                }
                return Err(TopologyError::SurfaceIndexOutOfRange { index: i });
            }
            i = i + 1;
        }
        let mut edges: Vec<Edge> = Vec::new();
        let mut i: usize = 0;
        while i < edge_pairs.len()
            invariant
                i <= edge_pairs@.len(),
                n == vertices@.len(),
                verts_ok(vertices@),
                edges@.len() == i,
                forall|k: int| 0 <= k < i ==> (#[trigger] edge_pairs@[k]).0 < n && edge_pairs@[k].1 < n,
                forall|k: int|
                    0 <= k < i ==> (#[trigger] edges@[k]) == (Edge {
                        a: edge_pairs@[k].0,
                        b: edge_pairs@[k].1,
                        rest_len: vmagfx(
                            vsub(
                                vertices@[edge_pairs@[k].1 as int]@,
                                vertices@[edge_pairs@[k].0 as int]@,
                            ),
                        ) as i64,
                    }),
                forall|k: int| 0 <= k < i ==> edge_wf(#[trigger] edges@[k], n as int),
            decreases edge_pairs@.len() - i,
        {
            let pr = edge_pairs[i];
            if pr.0 >= n || pr.1 >= n {
                proof {
                    assert(edge_pairs@[i as int].0 >= n || edge_pairs@[i as int].1 >= n);
                    assert(!pairs_ok(edge_pairs@, n as int));
                }
                return Err(TopologyError::EdgeIndexOutOfRange { edge: i });
            }
            proof {
                lemma_build_len_bound(vertices@[pr.1 as int]@, vertices@[pr.0 as int]@);
            }
            let rest = edge_len_fx(&vertices[pr.1], &vertices[pr.0]);
            edges.push(Edge { a: pr.0, b: pr.1, rest_len: rest as i64 });
            i = i + 1;
        }
        let mut tetras: Vec<Tet> = Vec::new();
        let mut i: usize = 0;
        while i < tet_quads.len()
            invariant
                i <= tet_quads@.len(),
                n == vertices@.len(),
                verts_ok(vertices@),
                tetras@.len() == i,
                forall|k: int|
                    0 <= k < i ==> (#[trigger] tet_quads@[k]).0 < n && tet_quads@[k].1 < n
                        && tet_quads@[k].2 < n && tet_quads@[k].3 < n,
                forall|k: int|
                    0 <= k < i ==> (#[trigger] tetras@[k]) == (Tet {
                        a: tet_quads@[k].0,
                        b: tet_quads@[k].1,
                        c: tet_quads@[k].2,
                        d: tet_quads@[k].3,
                        rest_vol: tet_vol_fx(
                            vertices@[tet_quads@[k].0 as int]@,
                            vertices@[tet_quads@[k].1 as int]@,
                            vertices@[tet_quads@[k].2 as int]@,
                            vertices@[tet_quads@[k].3 as int]@,
                        ) as i64,
                    }),
                forall|k: int| 0 <= k < i ==> tet_wf(#[trigger] tetras@[k], n as int),
            decreases tet_quads@.len() - i,
        {
            let qd = tet_quads[i];
            if qd.0 >= n || qd.1 >= n || qd.2 >= n || qd.3 >= n {
                proof {
                    assert(tet_quads@[i as int].0 >= n || tet_quads@[i as int].1 >= n
                        || tet_quads@[i as int].2 >= n || tet_quads@[i as int].3 >= n);
                    assert(!quads_ok(tet_quads@, n as int));
                }
                return Err(TopologyError::TetIndexOutOfRange { tet: i });
            }
            proof {
                lemma_build_vol_bound(
                    vertices@[qd.0 as int]@,
                    vertices@[qd.1 as int]@,
                    vertices@[qd.2 as int]@,
                    vertices@[qd.3 as int]@,
                );
            }
            let vol = tetra_vol(&vertices[qd.0], &vertices[qd.1], &vertices[qd.2], &vertices[qd.3]);
            tetras.push(Tet { a: qd.0, b: qd.1, c: qd.2, d: qd.3, rest_vol: vol as i64 });
            i = i + 1;
        }
        let mut speeds: Vec<Vec3> = Vec::new();
        let mut i: usize = 0;
        while i < n
            invariant
                i <= n,
                speeds@.len() == i,
                forall|k: int|
                    0 <= k < i ==> (#[trigger] speeds@[k])@ == (V3 { x: 0int, y: 0int, z: 0int }),
            decreases n - i,
        {
            speeds.push(Vec3::zero());
            i = i + 1;
        }
        Ok(
            RenderSoftBody {
                softbody: SoftBody {
                    positions: Vec::new(),
                    speeds,
                    indices: Vec::new(),
                    edges,
                    tetras,
                },
                mesh_positions: vertices,
                mesh_indices: surface_indices,
            },
        )
    }

    /// Moves the position and surface-index storage between the render mesh
    /// and the simulation body — the buffers change owner, nothing is copied.
    fn swap_buffers(&mut self)
        ensures
            final(self).softbody.positions@ == old(self).mesh_positions@,
            final(self).mesh_positions@ == old(self).softbody.positions@,
            final(self).softbody.indices@ == old(self).mesh_indices@,
            final(self).mesh_indices@ == old(self).softbody.indices@,
            final(self).softbody.speeds@ == old(self).softbody.speeds@,
            final(self).softbody.edges@ == old(self).softbody.edges@,
            final(self).softbody.tetras@ == old(self).softbody.tetras@,
    {
        core::mem::swap(&mut self.softbody.positions, &mut self.mesh_positions);
        core::mem::swap(&mut self.softbody.indices, &mut self.mesh_indices);
    }

    /// One rendered frame's worth of physics: moves the buffers into the
    /// body, runs `n_iters` sub-steps of length `frame_dt / n_iters`, and
    /// moves the buffers back. Afterwards the body's buffers are empty again
    /// and the mesh holds the stepped positions and the unchanged indices.
    ///
    /// The sub-step must be at least `DT_MIN` ticks (so the compliance
    /// term's divisor stays positive) and the frame at most `DT_MAX`.
    pub fn update_physics(
        &mut self,
        frame_dt: i64,
        n_iters: usize,
        edge_compliance: i64,
        volume_compliance: i64,
    )
        requires
            old(self).wf(),
            1 <= n_iters,
            DT_MIN * n_iters <= frame_dt <= DT_MAX,
            0 <= edge_compliance <= COMPLIANCE_MAX,
            0 <= volume_compliance <= COMPLIANCE_MAX,
        ensures
            final(self).wf(),
            final(self).softbody.positions@.len() == 0,
            final(self).softbody.indices@.len() == 0,
            final(self).mesh_indices@ == old(self).mesh_indices@,
            final(self).mesh_positions@.len() == old(self).mesh_positions@.len(),
            final(self).softbody.edges@ == old(self).softbody.edges@,
            final(self).softbody.tetras@ == old(self).softbody.tetras@,
            views(final(self).mesh_positions@) == steps(
                views(old(self).mesh_positions@),
                views(old(self).softbody.speeds@),
                old(self).softbody.edges@,
                old(self).softbody.tetras@,
                divt(frame_dt as int, n_iters as int),
                edge_compliance as int,
                volume_compliance as int,
                n_iters as int,
            ).0,
            views(final(self).softbody.speeds@) == steps(
                views(old(self).mesh_positions@),
                views(old(self).softbody.speeds@),
                old(self).softbody.edges@,
                old(self).softbody.tetras@,
                divt(frame_dt as int, n_iters as int),
                edge_compliance as int,
                volume_compliance as int,
                n_iters as int,
            ).1,
    {
        proof {
            vstd::arithmetic::div_mod::lemma_div_multiples_vanish(
                DT_MIN as int,
                n_iters as int,
            );
            vstd::arithmetic::div_mod::lemma_div_is_ordered(
                n_iters as int * DT_MIN as int,
                frame_dt as int,
                n_iters as int,
            );
        }
        let dt = div_t(frame_dt as i128, n_iters as i128) as i64;
        let ghost pos0 = views(old(self).mesh_positions@);
        let ghost spd0 = views(old(self).softbody.speeds@);
        let ghost edges0 = old(self).softbody.edges@;
        let ghost tets0 = old(self).softbody.tetras@;
        self.swap_buffers();
        let mut k: usize = 0;
        while k < n_iters
            invariant
                k <= n_iters,
                DT_MIN <= dt <= DT_MAX,
                dt == divt(frame_dt as int, n_iters as int),
                0 <= edge_compliance <= COMPLIANCE_MAX,
                0 <= volume_compliance <= COMPLIANCE_MAX,
                self.softbody.topo_wf(),
                self.softbody.sim_ready(),
                self.softbody.edges@ == edges0,
                self.softbody.tetras@ == tets0,
                self.softbody.indices@ == old(self).mesh_indices@,
                self.softbody.positions@.len() == pos0.len(),
                self.softbody.speeds@.len() == spd0.len(),
                self.mesh_positions@ == old(self).softbody.positions@,
                self.mesh_indices@ == old(self).softbody.indices@,
                views(self.softbody.positions@) == steps(
                    pos0,
                    spd0,
                    edges0,
                    tets0,
                    dt as int,
                    edge_compliance as int,
                    volume_compliance as int,
                    k as int,
                ).0,
                views(self.softbody.speeds@) == steps(
                    pos0,
                    spd0,
                    edges0,
                    tets0,
                    dt as int,
                    edge_compliance as int,
                    volume_compliance as int,
                    k as int,
                ).1,
            decreases n_iters - k,
        {
            update_softbody(&mut self.softbody, dt, edge_compliance, volume_compliance);
            k = k + 1;
        }
        self.swap_buffers();
    }
}

} // verus!
