use stl_thumb::ParseError;
use stl_thumb::mesh::{Mesh, load};

fn push_f32(out: &mut Vec<u8>, v: f32) {
    for b in v.to_bits().to_le_bytes() {
        out.push(b);
    }
}

fn binary_stl(tris: &[[[f32; 3]; 4]]) -> Vec<u8> {
    // each entry: [normal, v0, v1, v2]
    let mut out = vec![0u8; 80];
    for b in (tris.len() as u32).to_le_bytes() {
        out.push(b);
    }
    for t in tris {
        for row in t {
            for c in row {
                push_f32(&mut out, *c);
            }
        }
        out.push(0);
        out.push(0);
    }
    out
}

fn unit_cube() -> Vec<[[f32; 3]; 4]> {
    let c = [
        [0.0f32, 0.0, 0.0],
        [1.0, 0.0, 0.0],
        [0.0, 1.0, 0.0],
        [1.0, 1.0, 0.0],
        [0.0, 0.0, 1.0],
        [1.0, 0.0, 1.0],
        [0.0, 1.0, 1.0],
        [1.0, 1.0, 1.0],
    ];
    // 12 triangles, right-handed winding, with face normals
    let faces: [([usize; 4], [f32; 3]); 6] = [
        ([0, 2, 3, 1], [0.0, 0.0, -1.0]),
        ([4, 5, 7, 6], [0.0, 0.0, 1.0]),
        ([0, 1, 5, 4], [0.0, -1.0, 0.0]),
        ([2, 6, 7, 3], [0.0, 1.0, 0.0]),
        ([0, 4, 6, 2], [-1.0, 0.0, 0.0]),
        ([1, 3, 7, 5], [1.0, 0.0, 0.0]),
    ];
    let mut tris = Vec::new();
    for (q, n) in faces.iter() {
        tris.push([*n, c[q[0]], c[q[1]], c[q[2]]]);
        tris.push([*n, c[q[0]], c[q[2]], c[q[3]]]);
    }
    tris
}

fn mesh_ok(bytes: &Vec<u8>) -> Mesh {
    match load(bytes) {
        Ok(m) => m,
        Err(e) => panic!("expected a mesh, got {:?}", e),
    }
}

#[test]
fn binary_cube_parses() {
    let bytes = binary_stl(&unit_cube());
    let m = mesh_ok(&bytes);
    assert_eq!(m.vertices.len(), 36);
    assert_eq!(m.normals.len(), 36);
    assert_eq!(m.vertices.len() % 3, 0);
    // first triangle: bottom face, normal -z duplicated to each vertex
    let nz = (-1.0f32).to_bits();
    for i in 0..3 {
        assert_eq!(m.normals[i].z, nz);
        assert_eq!(m.normals[i].x, 0u32);
    }
    assert_eq!(m.vertices[1].y, 1.0f32.to_bits());
}

#[test]
fn binary_empty_mesh() {
    let bytes = binary_stl(&[]);
    assert_eq!(bytes.len(), 84);
    let m = mesh_ok(&bytes);
    assert_eq!(m.vertices.len(), 0);
    assert_eq!(m.normals.len(), 0);
}

#[test]
fn binary_header_too_short() {
    let bytes: Vec<u8> = vec![0u8; 10];
    assert_eq!(load(&bytes), Err(ParseError::HeaderTooShort));
}

#[test]
fn binary_truncated_count() {
    let mut bytes = binary_stl(&unit_cube());
    // declare more triangles than the stream holds
    let declared = (100u32).to_le_bytes();
    bytes[80..84].copy_from_slice(&declared);
    assert_eq!(load(&bytes), Err(ParseError::Truncated));
}

#[test]
fn binary_trailing_bytes_ignored() {
    let mut bytes = binary_stl(&unit_cube());
    bytes.extend_from_slice(&[7u8; 30]);
    let m = mesh_ok(&bytes);
    assert_eq!(m.vertices.len(), 36);
}

#[test]
fn binary_non_finite_rejected() {
    let tris = vec![[[0.0f32, 0.0, 1.0], [0.0, 0.0, 0.0], [1.0, 0.0, 0.0], [0.0, f32::NAN, 0.0]]];
    let bytes = binary_stl(&tris);
    assert_eq!(load(&bytes), Err(ParseError::NonFinite));
    let tris = vec![[
        [0.0f32, 0.0, 1.0],
        [0.0, 0.0, 0.0],
        [f32::INFINITY, 0.0, 0.0],
        [0.0, 1.0, 0.0],
    ]];
    let bytes = binary_stl(&tris);
    assert_eq!(load(&bytes), Err(ParseError::NonFinite));
}

#[test]
fn binary_exact_bit_patterns() {
    let tris = vec![[
        [0.25f32, -0.5, 1.5],
        [-2.25, 100.0, 0.0],
        [3.5, -0.0, 8.0],
        [0.125, 7.0, -1.0],
    ]];
    let bytes = binary_stl(&tris);
    let m = mesh_ok(&bytes);
    assert_eq!(m.vertices[0].x, (-2.25f32).to_bits());
    assert_eq!(m.vertices[0].y, 100.0f32.to_bits());
    assert_eq!(m.vertices[1].y, (-0.0f32).to_bits());
    assert_eq!(m.vertices[2].z, (-1.0f32).to_bits());
    assert_eq!(m.normals[0].x, 0.25f32.to_bits());
    assert_eq!(m.normals[2].z, 1.5f32.to_bits());
}

#[test]
fn text_single_facet() {
    let s = "solid demo\n facet normal 0 0 1\n  outer loop\n   vertex 0 0 0\n   vertex 1.5 0 0\n   vertex 0 2.25 0\n  endloop\n endfacet\nendsolid demo\n";
    let bytes: Vec<u8> = s.as_bytes().to_vec();
    let m = mesh_ok(&bytes);
    assert_eq!(m.vertices.len(), 3);
    assert_eq!(m.vertices[1].x, 1.5f32.to_bits());
    assert_eq!(m.vertices[2].y, 2.25f32.to_bits());
    assert_eq!(m.normals[0].z, 1.0f32.to_bits());
    assert_eq!(m.normals[2].z, 1.0f32.to_bits());
}

#[test]
fn text_multi_word_name_skipped() {
    let s = "solid a very long name\nfacet normal 0 0 1 outer loop vertex 0 0 0 vertex 1 0 0 vertex 0 1 0 endloop endfacet\nendsolid a very long name";
    let m = mesh_ok(&s.as_bytes().to_vec());
    assert_eq!(m.vertices.len(), 3);
}

#[test]
fn text_empty_solid() {
    let s = "solid nothing\nendsolid nothing\n";
    let m = mesh_ok(&s.as_bytes().to_vec());
    assert_eq!(m.vertices.len(), 0);
}

#[test]
fn text_whitespace_tolerant() {
    let s = "solid\tt\r\nfacet\tnormal\t0\t0\t1\r\nouter\tloop\r\nvertex\t0\t0\t0\r\nvertex\t1\t0\t0\r\nvertex\t0\t1\t0\r\nendloop\r\nendfacet\r\nendsolid\tt\r\n";
    let m = mesh_ok(&s.as_bytes().to_vec());
    assert_eq!(m.vertices.len(), 3);
}

#[test]
fn text_malformed_missing_vertex() {
    let s = "solid x facet normal 0 0 1 outer loop vertex 0 0 0 vertex 1 0 0 endloop endfacet endsolid x";
    assert_eq!(load(&s.as_bytes().to_vec()), Err(ParseError::Malformed));
}

#[test]
fn text_malformed_missing_endsolid() {
    let s = "solid x facet normal 0 0 1 outer loop vertex 0 0 0 vertex 1 0 0 vertex 0 1 0 endloop endfacet";
    assert_eq!(load(&s.as_bytes().to_vec()), Err(ParseError::Malformed));
}

#[test]
fn text_bad_number_token() {
    let s = "solid x facet normal 0 0 1 outer loop vertex 0 0 0 vertex 1q 0 0 vertex 0 1 0 endloop endfacet endsolid x";
    assert_eq!(load(&s.as_bytes().to_vec()), Err(ParseError::Malformed));
}

#[test]
fn text_overflowing_number() {
    let s = "solid x facet normal 0 0 1 outer loop vertex 1e99 0 0 vertex 1 0 0 vertex 0 1 0 endloop endfacet endsolid x";
    assert_eq!(load(&s.as_bytes().to_vec()), Err(ParseError::NonFinite));
}

#[test]
fn text_numbers_match_reference_parser() {
    let cases = [
        "0", "1", "-1", "1.5", "-2.25", "100", "0.1", "3.14159", "-0.00125", "6.02e5", "2.5e-1",
        "-1.0E2", "+4.75", "123456789", "0.333333333", "9e-8", "-0", ".5", "1.", "16777217",
        "33554431", "123456.789e-3", "1e38", "-3.3e38", "1e-37", "0.000001", "987654321098765432",
        "1e-41", "-1e-41", "1.4e-45", "1e-45", "7e-46", "1e-44", "1.1754942e-38",
        "1.17549435e-38", "-2.5e-44",
    ];
    for c in cases.iter() {
        let s = format!(
            "solid x facet normal 0 0 1 outer loop vertex {} 0 0 vertex 1 0 0 vertex 0 1 0 endloop endfacet endsolid x",
            c
        );
        let m = mesh_ok(&s.as_bytes().to_vec());
        let want = c.parse::<f32>().unwrap().to_bits();
        assert_eq!(m.vertices[0].x, want, "literal {}", c);
    }
}

#[test]
fn text_magnitude_beyond_largest_finite() {
    let s = "solid x facet normal 0 0 1 outer loop vertex 3.5e38 0 0 vertex 1 0 0 vertex 0 1 0 endloop endfacet endsolid x";
    assert_eq!(load(&s.as_bytes().to_vec()), Err(ParseError::NonFinite));
}

#[test]
fn binary_huge_declared_count() {
    let mut bytes = vec![0u8; 84];
    bytes[80..84].copy_from_slice(&u32::MAX.to_le_bytes());
    assert_eq!(load(&bytes), Err(ParseError::Truncated));
}

#[test]
fn detection_prefers_text_keyword() {
    // a stream that starts with `solid` is parsed as text, and this
    // one is not a valid text solid
    let mut bytes: Vec<u8> = b"solidXY".to_vec();
    bytes.resize(200, 0u8);
    assert_eq!(load(&bytes), Err(ParseError::Malformed));
}
