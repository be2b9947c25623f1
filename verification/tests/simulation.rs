use softbody::body::{Edge, SoftBody, Tet, TopologyError, tetra_vol};
use softbody::render::RenderSoftBody;
use softbody::solver::{gravity_and_ground, solve_edges, solve_volumes, update_softbody};
use softbody::vec3::Vec3;

// One world unit in raw fixed-point ticks.
const ONE: i64 = 1_000_000;
// 1/30 of a second, in raw ticks.
const DT_FRAME: i64 = 33_333;

fn distance(a: Vec3, b: Vec3) -> f64 {
    let dx = (a.x - b.x) as f64;
    let dy = (a.y - b.y) as f64;
    let dz = (a.z - b.z) as f64;
    (dx * dx + dy * dy + dz * dz).sqrt()
}

fn single_edge_body(x0: i64, x1: i64, rest_len: i64) -> SoftBody {
    SoftBody {
        positions: vec![Vec3::new(x0, 0, 0), Vec3::new(x1, 0, 0)],
        speeds: vec![Vec3::zero(), Vec3::zero()],
        indices: vec![],
        edges: vec![Edge { a: 0, b: 1, rest_len }],
        tetras: vec![],
    }
}

fn unit_tet_positions(scale: i64) -> Vec<Vec3> {
    vec![
        Vec3::new(0, 0, 0),
        Vec3::new(scale, 0, 0),
        Vec3::new(0, scale, 0),
        Vec3::new(0, 0, scale),
    ]
}

fn single_tet_body(positions: Vec<Vec3>, rest_vol: i64) -> SoftBody {
    SoftBody {
        positions,
        speeds: vec![Vec3::zero(); 4],
        indices: vec![],
        edges: vec![],
        tetras: vec![Tet { a: 0, b: 1, c: 2, d: 3, rest_vol }],
    }
}

#[test]
fn tetra_vol_unit_tet_exact() {
    let p = unit_tet_positions(ONE);
    // One sixth of the unit cube, truncated to raw ticks.
    assert_eq!(tetra_vol(&p[0], &p[1], &p[2], &p[3]), 166_666);
}

#[test]
fn rest_state_edge_sweep_moves_nothing() {
    let mut body = single_edge_body(0, ONE, ONE);
    let before = body.positions.clone();
    let speeds_before = body.speeds.clone();
    solve_edges(&mut body, DT_FRAME, 0);
    assert_eq!(body.positions, before);
    assert_eq!(body.speeds, speeds_before);
}

#[test]
fn rest_state_volume_sweep_moves_nothing() {
    let p = unit_tet_positions(ONE);
    let rest = tetra_vol(&p[0], &p[1], &p[2], &p[3]) as i64;
    let mut body = single_tet_body(p, rest);
    let before = body.positions.clone();
    solve_volumes(&mut body, DT_FRAME, 0);
    assert_eq!(body.positions, before);
    assert_eq!(body.speeds, vec![Vec3::zero(); 4]);
}

#[test]
fn edge_convergence_from_double_stretch() {
    // A single edge stretched to twice its rest length converges under
    // repeated rigid sweeps.
    let mut body = single_edge_body(0, 2 * ONE, ONE);
    for _ in 0..20 {
        solve_edges(&mut body, DT_FRAME, 0);
    }
    let d = distance(body.positions[0], body.positions[1]);
    assert!((d - ONE as f64).abs() <= 100.0, "distance {} raw ticks", d);
}

#[test]
fn volume_convergence_from_expansion() {
    let rest_positions = unit_tet_positions(ONE);
    let rest = tetra_vol(
        &rest_positions[0],
        &rest_positions[1],
        &rest_positions[2],
        &rest_positions[3],
    ) as i64;
    let mut body = single_tet_body(unit_tet_positions(13 * ONE / 10), rest);
    for _ in 0..40 {
        solve_volumes(&mut body, DT_FRAME, 0);
    }
    let vol = tetra_vol(
        &body.positions[0],
        &body.positions[1],
        &body.positions[2],
        &body.positions[3],
    );
    assert!(
        (vol - rest as i128).abs() <= 100,
        "volume {} vs rest {}",
        vol,
        rest
    );
}

#[test]
fn volume_convergence_from_compression() {
    let rest_positions = unit_tet_positions(ONE);
    let rest = tetra_vol(
        &rest_positions[0],
        &rest_positions[1],
        &rest_positions[2],
        &rest_positions[3],
    ) as i64;
    let mut body = single_tet_body(unit_tet_positions(7 * ONE / 10), rest);
    for _ in 0..40 {
        solve_volumes(&mut body, DT_FRAME, 0);
    }
    let vol = tetra_vol(
        &body.positions[0],
        &body.positions[1],
        &body.positions[2],
        &body.positions[3],
    );
    assert!(
        (vol - rest as i128).abs() <= 100,
        "volume {} vs rest {}",
        vol,
        rest
    );
}

#[test]
fn ground_clamp_pins_height_and_zeroes_vertical_velocity() {
    let mut body = SoftBody {
        positions: vec![Vec3::new(0, -5 * ONE, 0)],
        speeds: vec![Vec3::new(0, -10 * ONE, 0)],
        indices: vec![],
        edges: vec![],
        tetras: vec![],
    };
    gravity_and_ground(&mut body, DT_FRAME);
    assert_eq!(body.positions[0].y, 100_000);
    assert_eq!(body.speeds[0].y, 0);
}

#[test]
fn gravity_step_above_ground_is_exact() {
    // One particle one unit below the anchor, one full second: the restoring
    // force is 0.01 units, so velocity and position each gain 10_000 ticks.
    let mut body = SoftBody {
        positions: vec![Vec3::new(0, ONE, 0)],
        speeds: vec![Vec3::zero()],
        indices: vec![],
        edges: vec![],
        tetras: vec![],
    };
    gravity_and_ground(&mut body, 1_000_000);
    assert_eq!(body.speeds[0], Vec3::new(0, 10_000, 0));
    assert_eq!(body.positions[0], Vec3::new(0, ONE + 10_000, 0));
}

#[test]
fn scenario_single_edge_thirty_sweeps() {
    // Particles at (0,0,0) and (3,0,0), rest length 1, rigid constraint,
    // thirty sweeps: the distance settles at the rest length.
    let mut body = single_edge_body(0, 3 * ONE, ONE);
    for _ in 0..30 {
        solve_edges(&mut body, DT_FRAME, 0);
    }
    let d = distance(body.positions[0], body.positions[1]);
    assert!((d - ONE as f64).abs() <= 1_000.0, "distance {} raw ticks", d);
}

#[test]
fn update_softbody_runs_all_three_passes() {
    let mut body = single_edge_body(0, 2 * ONE, ONE);
    update_softbody(&mut body, DT_FRAME, 30_000, 0);
    // The edge sweep pulled the stretched endpoints toward each other.
    let d = distance(body.positions[0], body.positions[1]);
    assert!(d < 2.0 * ONE as f64);
}

fn tet_render_body() -> RenderSoftBody {
    RenderSoftBody::build_body(
        unit_tet_positions(ONE),
        vec![0, 1, 2, 0, 1, 3, 0, 2, 3, 1, 2, 3],
        vec![(0, 1), (0, 2), (0, 3), (1, 2), (1, 3), (2, 3)],
        vec![(0, 1, 2, 3)],
    )
    .unwrap()
}

#[test]
fn buffer_toggle_invariant_after_update() {
    let mut rb = tet_render_body();
    let indices_before = rb.mesh_indices.clone();
    rb.update_physics(DT_FRAME, 4, 30_000, 0);
    assert!(rb.softbody.positions.is_empty());
    assert!(rb.softbody.indices.is_empty());
    assert_eq!(rb.mesh_positions.len(), 4);
    assert_eq!(rb.mesh_indices, indices_before);
}

#[test]
fn update_is_deterministic() {
    let mut a = tet_render_body();
    let mut b = tet_render_body();
    for _ in 0..5 {
        a.update_physics(DT_FRAME, 4, 30_000, 10);
        b.update_physics(DT_FRAME, 4, 30_000, 10);
    }
    assert_eq!(a.mesh_positions, b.mesh_positions);
    assert_eq!(a.softbody.speeds, b.softbody.speeds);
}

#[test]
fn build_computes_rest_lengths() {
    // A 3-4-5 right triangle gives an exact rest length of five units.
    let rb = RenderSoftBody::build_body(
        vec![Vec3::new(0, 0, 0), Vec3::new(3 * ONE, 4 * ONE, 0)],
        vec![],
        vec![(0, 1)],
        vec![],
    )
    .unwrap();
    assert_eq!(rb.softbody.edges[0].rest_len, 5 * ONE);
    assert_eq!(rb.softbody.edges[0].a, 0);
    assert_eq!(rb.softbody.edges[0].b, 1);
    assert_eq!(rb.softbody.speeds, vec![Vec3::zero(), Vec3::zero()]);
}

#[test]
fn build_computes_rest_volumes() {
    let rb = tet_render_body();
    assert_eq!(rb.softbody.tetras[0].rest_vol, 166_666);
}

#[test]
fn build_rejects_edge_index_out_of_range() {
    let r = RenderSoftBody::build_body(
        vec![Vec3::new(0, 0, 0), Vec3::new(ONE, 0, 0)],
        vec![],
        vec![(0, 2)],
        vec![],
    );
    assert_eq!(r.err(), Some(TopologyError::EdgeIndexOutOfRange { edge: 0 }));
}

#[test]
fn build_rejects_tet_index_out_of_range() {
    let r = RenderSoftBody::build_body(unit_tet_positions(ONE), vec![], vec![], vec![(0, 1, 2, 4)]);
    assert_eq!(r.err(), Some(TopologyError::TetIndexOutOfRange { tet: 0 }));
}

#[test]
fn build_rejects_surface_index_out_of_range() {
    let r = RenderSoftBody::build_body(unit_tet_positions(ONE), vec![0, 1, 9], vec![], vec![]);
    assert_eq!(
        r.err(),
        Some(TopologyError::SurfaceIndexOutOfRange { index: 2 })
    );
}

#[test]
fn build_rejects_oversized_vertex() {
    let r = RenderSoftBody::build_body(
        vec![Vec3::new(0, 0, 0), Vec3::new(2_000_000_000, 0, 0)],
        vec![],
        vec![],
        vec![],
    );
    assert_eq!(r.err(), Some(TopologyError::VertexOutOfBounds { index: 1 }));
}

#[test]
fn empty_body_updates_without_effect() {
    let mut rb = RenderSoftBody::build_body(vec![], vec![], vec![], vec![]).unwrap();
    rb.update_physics(DT_FRAME, 2, 0, 0);
    assert!(rb.mesh_positions.is_empty());
    assert!(rb.mesh_indices.is_empty());
    assert!(rb.softbody.positions.is_empty());
}

#[test]
fn degenerate_edge_is_skipped() {
    // Two coincident particles have no defined gradient; the sweep leaves
    // them alone instead of dividing by a zero distance.
    let mut body = single_edge_body(0, 0, ONE);
    solve_edges(&mut body, DT_FRAME, 0);
    assert_eq!(body.positions[0], Vec3::zero());
    assert_eq!(body.positions[1], Vec3::zero());
}
