use scarefire::fixed::{isqrt, isqrt_ceil, FP_ONE};
use scarefire::mesh::{normalized, Bounds, EmptyInputError, Extent, StaticMesh, Vec3F, Vertex};

fn fx(v: f64) -> i64 {
    (v * FP_ONE as f64) as i64
}

fn unit_quad_vertices() -> Vec<Vertex> {
    let positions = [
        Vec3F { x: -FP_ONE, y: -FP_ONE, z: 0 },
        Vec3F { x: -FP_ONE, y: FP_ONE, z: 0 },
        Vec3F { x: FP_ONE, y: FP_ONE, z: 0 },
        Vec3F { x: FP_ONE, y: -FP_ONE, z: 0 },
    ];
    positions
        .iter()
        .map(|&position| Vertex {
            position,
            normal: Vec3F { x: 0, y: 0, z: FP_ONE },
            color: Vec3F { x: FP_ONE, y: FP_ONE, z: FP_ONE },
        })
        .collect()
}

#[test]
fn unit_quad_bounding_sphere() {
    let vertices = unit_quad_vertices();
    let indices = vec![0u32, 1, 2, 2, 3, 0];
    let mesh = StaticMesh::new(vertices, indices).unwrap();
    let sphere = mesh.bounds();
    assert_eq!(sphere.center, Vec3F { x: 0, y: 0, z: 0 });
    // radius is sqrt(2), rounded up to the next fixed-point unit
    assert_eq!(sphere.radius, 6074001000);
    let r = sphere.radius as f64 / FP_ONE as f64;
    assert!((r - std::f64::consts::SQRT_2).abs() < 1e-6);
}

#[test]
fn every_vertex_within_radius() {
    let vertices = vec![
        Vertex {
            position: Vec3F { x: fx(3.5), y: fx(-1.25), z: fx(0.75) },
            normal: Vec3F { x: 0, y: FP_ONE, z: 0 },
            color: Vec3F { x: FP_ONE, y: FP_ONE, z: FP_ONE },
        },
        Vertex {
            position: Vec3F { x: fx(-2.0), y: fx(4.0), z: fx(1.0) },
            normal: Vec3F { x: 0, y: FP_ONE, z: 0 },
            color: Vec3F { x: FP_ONE, y: FP_ONE, z: FP_ONE },
        },
        Vertex {
            position: Vec3F { x: fx(0.25), y: fx(0.5), z: fx(-6.0) },
            normal: Vec3F { x: 0, y: FP_ONE, z: 0 },
            color: Vec3F { x: FP_ONE, y: FP_ONE, z: FP_ONE },
        },
    ];
    let mesh = StaticMesh::new(vertices.clone(), vec![0, 1, 2]).unwrap();
    let sphere = mesh.bounds();
    let one = FP_ONE as f64;
    let r = sphere.radius as f64 / one;
    for v in vertices.iter() {
        let dx = (v.position.x - sphere.center.x) as f64 / one;
        let dy = (v.position.y - sphere.center.y) as f64 / one;
        let dz = (v.position.z - sphere.center.z) as f64 / one;
        let d = (dx * dx + dy * dy + dz * dz).sqrt();
        assert!(d <= r + 1e-9);
    }
}

#[test]
fn empty_mesh_is_rejected() {
    let r = StaticMesh::new(Vec::new(), Vec::new());
    assert_eq!(r.err(), Some(EmptyInputError));
}

#[test]
fn bounds_track_min_max_center() {
    let positions = vec![
        Vec3F { x: fx(1.0), y: fx(2.0), z: fx(3.0) },
        Vec3F { x: fx(-1.0), y: fx(5.0), z: fx(0.0) },
        Vec3F { x: fx(0.5), y: fx(-2.0), z: fx(9.0) },
    ];
    let b = Bounds::new(&positions).unwrap();
    assert_eq!(b.get_min(), Vec3F { x: fx(-1.0), y: fx(-2.0), z: fx(0.0) });
    assert_eq!(b.get_max(), Vec3F { x: fx(1.0), y: fx(5.0), z: fx(9.0) });
    let c = b.get_center();
    assert_eq!(c.x, fx(0.0));
    assert_eq!(c.y, fx(1.5));
    assert_eq!(c.z, fx(4.5));
}

#[test]
fn bounds_of_empty_input_fail() {
    assert!(Bounds::new(&Vec::new()).is_err());
}

#[test]
fn extent_stretches_both_ways() {
    let mut e = Extent::of(10);
    e.stretch_to(4);
    assert_eq!(e, Extent { min: 4, max: 10 });
    e.stretch_to(25);
    assert_eq!(e, Extent { min: 4, max: 25 });
    e.stretch_to(12);
    assert_eq!(e, Extent { min: 4, max: 25 });
}

#[test]
fn isqrt_matches_floor_and_ceiling() {
    assert_eq!(isqrt(0), 0);
    assert_eq!(isqrt(15), 3);
    assert_eq!(isqrt(16), 4);
    assert_eq!(isqrt(17), 4);
    assert_eq!(isqrt_ceil(16), 4);
    assert_eq!(isqrt_ceil(17), 5);
}

#[test]
fn normalized_vector_has_unit_length() {
    let v = Vec3F { x: FP_ONE, y: FP_ONE, z: FP_ONE };
    let n = normalized(v);
    let one = FP_ONE as f64;
    let expect = 1.0 / 3f64.sqrt();
    assert!((n.x as f64 / one - expect).abs() < 1e-6);
    assert!((n.y as f64 / one - expect).abs() < 1e-6);
    assert!((n.z as f64 / one - expect).abs() < 1e-6);
}
