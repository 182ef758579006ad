use stl_thumb::mesh::{Mesh, Vec3, load};
use stl_thumb::normalize::{ModelTransform, bounding_box, choose_scale};
use stl_thumb::scalar::{ONE_BITS, ZERO_BITS};

fn v(x: f32, y: f32, z: f32) -> Vec3 {
    Vec3 { x: x.to_bits(), y: y.to_bits(), z: z.to_bits() }
}

fn mesh_of(vertices: Vec<Vec3>) -> Mesh {
    let normals = vec![v(0.0, 0.0, 1.0); vertices.len()];
    Mesh { vertices, normals }
}

#[test]
fn bbox_of_simple_mesh() {
    let m = mesh_of(vec![
        v(-1.0, 2.0, 0.5),
        v(3.0, -4.0, 0.25),
        v(0.0, 0.0, 9.0),
    ]);
    let bb = bounding_box(&m);
    assert_eq!(bb.min.x, (-1.0f32).to_bits());
    assert_eq!(bb.min.y, (-4.0f32).to_bits());
    assert_eq!(bb.min.z, 0.25f32.to_bits());
    assert_eq!(bb.max.x, 3.0f32.to_bits());
    assert_eq!(bb.max.y, 2.0f32.to_bits());
    assert_eq!(bb.max.z, 9.0f32.to_bits());
    assert!(!bb.is_degenerate());
}

#[test]
fn bbox_orders_negative_values() {
    let m = mesh_of(vec![v(-0.5, -2.0, -8.0), v(-3.5, -0.125, -1.0)]);
    let bb = bounding_box(&m);
    assert_eq!(bb.min.x, (-3.5f32).to_bits());
    assert_eq!(bb.max.x, (-0.5f32).to_bits());
    assert_eq!(bb.min.z, (-8.0f32).to_bits());
    assert_eq!(bb.max.z, (-1.0f32).to_bits());
}

#[test]
fn bbox_of_empty_mesh_is_origin() {
    let m = mesh_of(vec![]);
    let bb = bounding_box(&m);
    assert_eq!(bb.min.x, ZERO_BITS);
    assert_eq!(bb.max.z, ZERO_BITS);
    assert!(bb.is_degenerate());
}

#[test]
fn degenerate_point_mesh_falls_back_to_unit_scale() {
    let m = mesh_of(vec![v(5.0, 5.0, 5.0), v(5.0, 5.0, 5.0), v(5.0, 5.0, 5.0)]);
    let bb = bounding_box(&m);
    assert!(bb.is_degenerate());
    // whatever quotient the caller computed, a degenerate box
    // falls back to a scale of exactly one
    let q = (2.0f32 / 0.0001f32).to_bits();
    assert_eq!(choose_scale(&bb, q), ONE_BITS);
    assert_eq!(ONE_BITS, 1.0f32.to_bits());
}

#[test]
fn non_degenerate_box_keeps_quotient() {
    let m = mesh_of(vec![v(0.0, 0.0, 0.0), v(4.0, 1.0, 1.0)]);
    let bb = bounding_box(&m);
    assert!(!bb.is_degenerate());
    let q = (2.0f32 / 4.0f32).to_bits();
    assert_eq!(choose_scale(&bb, q), q);
}

#[test]
fn transform_centers_and_scales_cube() {
    // numeric check of the normalization contract on a cube spanning
    // [1,3]^3: center (2,2,2), largest dimension 2, target extent 2
    let bytes = cube_bytes();
    let m = load(&bytes).unwrap();
    let bb = bounding_box(&m);
    let min = [
        f32::from_bits(bb.min.x),
        f32::from_bits(bb.min.y),
        f32::from_bits(bb.min.z),
    ];
    let max = [
        f32::from_bits(bb.max.x),
        f32::from_bits(bb.max.y),
        f32::from_bits(bb.max.z),
    ];
    let extent = [max[0] - min[0], max[1] - min[1], max[2] - min[2]];
    let max_dim = extent[0].max(extent[1]).max(extent[2]);
    assert_eq!(max_dim, 2.0);
    let target = 2.0f32;
    let q = (target / max_dim).to_bits();
    let scale_bits = choose_scale(&bb, q);
    let scale = f32::from_bits(scale_bits);
    let center = [
        (min[0] + max[0]) / 2.0,
        (min[1] + max[1]) / 2.0,
        (min[2] + max[2]) / 2.0,
    ];
    let t = ModelTransform {
        scale: scale_bits,
        translate: Vec3 {
            x: (-center[0] * scale).to_bits(),
            y: (-center[1] * scale).to_bits(),
            z: (-center[2] * scale).to_bits(),
        },
    };
    let cols = t.to_columns();
    // the transform maps the box center to the origin ...
    for a in 0..3 {
        let mapped = scale * center[a] + f32::from_bits(cols[12 + a]);
        assert!(mapped.abs() <= f32::EPSILON);
    }
    // ... and the largest dimension to exactly the target extent
    assert_eq!(scale * max_dim, target);
}

#[test]
fn transform_columns_layout() {
    let t = ModelTransform {
        scale: 2.0f32.to_bits(),
        translate: v(3.0, 4.0, 5.0),
    };
    let cols = t.to_columns();
    assert_eq!(cols.len(), 16);
    let want: [f32; 16] = [
        2.0, 0.0, 0.0, 0.0, //
        0.0, 2.0, 0.0, 0.0, //
        0.0, 0.0, 2.0, 0.0, //
        3.0, 4.0, 5.0, 1.0,
    ];
    for i in 0..16 {
        assert_eq!(cols[i], want[i].to_bits(), "entry {}", i);
    }
}

fn cube_bytes() -> Vec<u8> {
    // a cube spanning [1,3]^3, as a binary stream
    let c = [
        [1.0f32, 1.0, 1.0],
        [3.0, 1.0, 1.0],
        [1.0, 3.0, 1.0],
        [3.0, 3.0, 1.0],
        [1.0, 1.0, 3.0],
        [3.0, 1.0, 3.0],
        [1.0, 3.0, 3.0],
        [3.0, 3.0, 3.0],
    ];
    let faces: [([usize; 4], [f32; 3]); 6] = [
        ([0, 2, 3, 1], [0.0, 0.0, -1.0]),
        ([4, 5, 7, 6], [0.0, 0.0, 1.0]),
        ([0, 1, 5, 4], [0.0, -1.0, 0.0]),
        ([2, 6, 7, 3], [0.0, 1.0, 0.0]),
        ([0, 4, 6, 2], [-1.0, 0.0, 0.0]),
        ([1, 3, 7, 5], [1.0, 0.0, 0.0]),
    ];
    let mut out = vec![0u8; 80];
    out.extend_from_slice(&12u32.to_le_bytes());
    for (q, n) in faces.iter() {
        for tri in [[q[0], q[1], q[2]], [q[0], q[2], q[3]]] {
            for r in n.iter() {
                out.extend_from_slice(&r.to_bits().to_le_bytes());
            }
            for idx in tri {
                for r in c[idx].iter() {
                    out.extend_from_slice(&r.to_bits().to_le_bytes());
                }
            }
            out.extend_from_slice(&[0u8, 0u8]);
        }
    }
    out
}
