//! Mesh ingestion: the triangle-soup mesh format in both of its
//! encodings.
//!
//! A mesh file is either binary -- an 80-byte free-form header, a
//! 4-byte little-endian triangle count, then one 50-byte record per
//! triangle -- or text, a `solid`/`endsolid` block of facet records.
//! The stream is text exactly when it begins with the keyword
//! `solid`.
//!
//! The loader trusts the declared triangle count of a binary stream
//! and fails when fewer bytes remain than that count requires; bytes
//! past the declared records are ignored.

use vstd::prelude::*;

use crate::ParseError;
use crate::scalar::finite_bits;

verus! {

/// Three binary32 components, as bit patterns.
#[derive(Clone, Copy, Debug, PartialEq, Eq, Structural)]
pub struct Vec3 {
    pub x: u32,
    pub y: u32,
    pub z: u32,
}

/// All three components are finite.
pub open spec fn vec3_finite(v: Vec3) -> bool {
    finite_bits(v.x) && finite_bits(v.y) && finite_bits(v.z)
}

/// Whether all three components of `v` are finite.
pub fn vec3_is_finite(v: &Vec3) -> (r: bool)
    ensures
        r == vec3_finite(*v),
{
    crate::scalar::is_finite(v.x) && crate::scalar::is_finite(v.y)
        && crate::scalar::is_finite(v.z)
}

/// A triangle list, flattened for flat shading: vertex `i` carries
/// the facet normal of its triangle at the same index of `normals`.
#[derive(Debug, PartialEq, Eq)]
pub struct Mesh {
    pub vertices: Vec<Vec3>,
    pub normals: Vec<Vec3>,
}

impl Mesh {
    /// The mesh invariant: the two arrays run in parallel, hold
    /// whole triangles, every coordinate is finite, and the facet
    /// normal is duplicated across each triangle's three vertices
    /// (flat shading).
    pub open spec fn wf(self) -> bool {
        &&& self.vertices@.len() == self.normals@.len()
        &&& self.vertices@.len() % 3 == 0
        &&& forall|i: int|
            0 <= i < self.vertices@.len() ==> vec3_finite(#[trigger] self.vertices@[i])
                && vec3_finite(self.normals@[i])
        &&& forall|i: int|
            0 <= i < self.normals@.len() ==> #[trigger] self.normals@[i] == self.normals@[3 * (i
                / 3)]
    }

}

/// The little-endian 32-bit word at offset `i` of `b`.
pub open spec fn le32(b: Seq<u8>, i: int) -> u32 {
    (b[i] as int + b[i + 1] as int * 0x100 + b[i + 2] as int * 0x1_0000 + b[i + 3] as int
        * 0x100_0000) as u32
}

/// The triangle count a binary stream declares.
pub open spec fn bin_count(b: Seq<u8>) -> int {
    le32(b, 80) as int
}

/// Where the record of triangle `t` begins: 80 header bytes, the
/// 4-byte count, then 50 bytes per earlier triangle.
pub open spec fn tri_base(t: int) -> int {
    84 + 50 * t
}

/// The facet normal of triangle `t` of a binary stream.
pub open spec fn bin_normal(b: Seq<u8>, t: int) -> Vec3 {
    Vec3 { x: le32(b, tri_base(t)), y: le32(b, tri_base(t) + 4), z: le32(b, tri_base(t) + 8) }
}

/// Vertex `j` of triangle `t` of a binary stream.
pub open spec fn bin_vertex(b: Seq<u8>, t: int, j: int) -> Vec3 {
    Vec3 {
        x: le32(b, tri_base(t) + 12 + 12 * j),
        y: le32(b, tri_base(t) + 16 + 12 * j),
        z: le32(b, tri_base(t) + 20 + 12 * j),
    }
}

/// Every coordinate of triangle `t` is finite.
pub open spec fn bin_tri_finite(b: Seq<u8>, t: int) -> bool {
    &&& vec3_finite(bin_normal(b, t))
    &&& vec3_finite(bin_vertex(b, t, 0))
    &&& vec3_finite(bin_vertex(b, t, 1))
    &&& vec3_finite(bin_vertex(b, t, 2))
}

/// Enough bytes remain for the declared triangle count.
pub open spec fn bin_len_ok(b: Seq<u8>) -> bool {
    b.len() >= 84 + 50 * bin_count(b)
}

/// Every declared triangle has only finite coordinates.
pub open spec fn bin_all_finite(b: Seq<u8>) -> bool {
    forall|t: int| 0 <= t < bin_count(b) ==> #[trigger] bin_tri_finite(b, t)
}

/// The mesh is exactly the triangle list of the binary stream:
/// vertex `i` is vertex `i % 3` of triangle `i / 3`, and carries
/// that triangle's facet normal.
pub open spec fn mesh_matches_binary(m: Mesh, b: Seq<u8>) -> bool {
    &&& m.vertices@.len() == 3 * bin_count(b)
    &&& m.normals@.len() == 3 * bin_count(b)
    &&& forall|i: int|
        0 <= i < m.vertices@.len() ==> #[trigger] m.vertices@[i] == bin_vertex(b, i / 3, i % 3)
            && m.normals@[i] == bin_normal(b, i / 3)
}

/// What loading a binary stream must return, case by case.
pub open spec fn binary_load_result(b: Seq<u8>, r: Result<Mesh, ParseError>) -> bool {
    match r {
        Ok(m) => {
            &&& b.len() >= 84
            &&& bin_len_ok(b)
            &&& bin_all_finite(b)
            &&& m.wf()
            &&& mesh_matches_binary(m, b)
        },
        Err(e) => match e {
            ParseError::HeaderTooShort => b.len() < 84,
            ParseError::Truncated => b.len() >= 84 && !bin_len_ok(b),
            ParseError::NonFinite => b.len() >= 84 && bin_len_ok(b) && !bin_all_finite(b),
            ParseError::Malformed => false,
        },
    }
}

/// The little-endian 32-bit word at offset `i` of `b`.
fn read_le32(b: &Vec<u8>, i: usize) -> (r: u32)
    requires
        i + 4 <= b.len(),
    ensures
        r == le32(b@, i as int),
{
    b[i] as u32 + b[i + 1] as u32 * 0x100 + b[i + 2] as u32 * 0x1_0000 + b[i + 3] as u32
        * 0x100_0000
}

/// The three consecutive little-endian words at offset `i` of `b`.
fn read_vec3(b: &Vec<u8>, i: usize) -> (r: Vec3)
    requires
        i + 12 <= b.len(),
    ensures
        r.x == le32(b@, i as int),
        r.y == le32(b@, i as int + 4),
        r.z == le32(b@, i as int + 8),
{
    Vec3 { x: read_le32(b, i), y: read_le32(b, i + 4), z: read_le32(b, i + 8) }
}

/// Parses a binary stream: header, declared count, then the
/// declared number of 50-byte records, each a facet normal, three
/// vertices and an ignored 2-byte attribute.
#[verifier::rlimit(80)]
pub fn parse_binary(b: &Vec<u8>) -> (r: Result<Mesh, ParseError>)
    ensures
        binary_load_result(b@, r),
{
    if b.len() < 84 {
        return Err(ParseError::HeaderTooShort);
    }
    let count = read_le32(b, 80);
    let need: u64 = 84 + 50u64 * (count as u64);
    if (b.len() as u64) < need {
        return Err(ParseError::Truncated);
    }
    let count_us = count as usize;
    let mut vertices: Vec<Vec3> = Vec::new();
    let mut normals: Vec<Vec3> = Vec::new();
    let mut t: usize = 0;
    let mut base: usize = 84;
    while t < count_us
        invariant
            count_us == bin_count(b@),
            base == 84 + 50 * t,
            t <= count_us,
            84 + 50 * bin_count(b@) <= b.len(),
            vertices@.len() == 3 * t,
            normals@.len() == 3 * t,
            forall|u: int| 0 <= u < t ==> #[trigger] bin_tri_finite(b@, u),
            forall|i: int|
                0 <= i < 3 * t ==> #[trigger] vertices@[i] == bin_vertex(b@, i / 3, i % 3)
                    && normals@[i] == bin_normal(b@, i / 3),
        decreases count_us - t,
    {
        proof {
            assert(50 * (t as int) < 50 * bin_count(b@)) by (nonlinear_arith)
                requires t < bin_count(b@);
        }
        let n = read_vec3(b, base);
        let v0 = read_vec3(b, base + 12);
        let v1 = read_vec3(b, base + 24);
        let v2 = read_vec3(b, base + 36);
        if !(vec3_is_finite(&n) && vec3_is_finite(&v0) && vec3_is_finite(&v1) && vec3_is_finite(
            &v2,
        )) {
            proof {
                assert(!bin_tri_finite(b@, t as int));
            }
            return Err(ParseError::NonFinite);
        }
        let ghost old_vertices = vertices@;
        let ghost old_normals = normals@;
        vertices.push(v0);
        vertices.push(v1);
        vertices.push(v2);
        normals.push(n);
        normals.push(n);
        normals.push(n);
        proof {
            let ti = t as int;
            assert((3 * ti) / 3 == ti && (3 * ti) % 3 == 0) by (nonlinear_arith);
            assert((3 * ti + 1) / 3 == ti && (3 * ti + 1) % 3 == 1) by (nonlinear_arith);
            assert((3 * ti + 2) / 3 == ti && (3 * ti + 2) % 3 == 2) by (nonlinear_arith);
            assert(v0 == bin_vertex(b@, ti, 0) && v1 == bin_vertex(b@, ti, 1) && v2
                == bin_vertex(b@, ti, 2) && n == bin_normal(b@, ti));
            assert forall|i: int| 0 <= i < 3 * (ti + 1) implies #[trigger] vertices@[i]
                == bin_vertex(b@, i / 3, i % 3) && normals@[i] == bin_normal(b@, i / 3) by {
                if i < 3 * ti {
                    assert(vertices@[i] == old_vertices[i]);
                    assert(normals@[i] == old_normals[i]);
                } else {
                    assert(i == 3 * ti || i == 3 * ti + 1 || i == 3 * ti + 2);
                }
            }
        }
        t = t + 1;
        base = base + 50;
    }
    proof {
        assert(vertices@.len() % 3 == 0) by (nonlinear_arith)
            requires vertices@.len() == 3 * bin_count(b@), bin_count(b@) >= 0;
        assert forall|i: int| 0 <= i < vertices@.len() implies vec3_finite(
            #[trigger] vertices@[i],
        ) && vec3_finite(normals@[i]) by {
            let t = i / 3;
            let j = i % 3;
            assert(0 <= t < bin_count(b@) && (j == 0 || j == 1 || j == 2)) by (nonlinear_arith)
                requires 0 <= i < 3 * bin_count(b@), t == i / 3, j == i % 3;
            assert(bin_tri_finite(b@, t));
            assert(vertices@[i] == bin_vertex(b@, t, j));
            assert(normals@[i] == bin_normal(b@, t));
        }
        assert forall|i: int| 0 <= i < normals@.len() implies #[trigger] normals@[i] == normals@[3
            * (i / 3)] by {
            let t = i / 3;
            assert(0 <= t && 0 <= 3 * t <= i && (3 * t) / 3 == t && (3 * t) % 3 == 0)
                by (nonlinear_arith)
                requires 0 <= i, t == i / 3;
            assert(vertices@[i] == bin_vertex(b@, i / 3, i % 3));
            assert(vertices@[3 * t] == bin_vertex(b@, (3 * t) / 3, (3 * t) % 3));
            assert(normals@[i] == bin_normal(b@, i / 3));
            assert(normals@[3 * t] == bin_normal(b@, (3 * t) / 3));
        }
    }
    Ok(Mesh { vertices, normals })
}

/// The stream is the text encoding: it begins with the keyword
/// `solid`.
pub open spec fn is_text_stl(b: Seq<u8>) -> bool {
    b.len() >= 5 && b[0] == 115u8 && b[1] == 111u8 && b[2] == 108u8 && b[3] == 105u8 && b[4]
        == 100u8
}

/// Loads a mesh stream in either encoding, deciding by whether the
/// stream begins with the text keyword.
pub fn load(b: &Vec<u8>) -> (r: Result<Mesh, ParseError>)
    ensures
        is_text_stl(b@) ==> crate::text::text_load_result(b@, r),
        !is_text_stl(b@) ==> binary_load_result(b@, r),
        r matches Ok(m) ==> m.wf(),
{
    if b.len() >= 5 && b[0] == 115 && b[1] == 111 && b[2] == 108 && b[3] == 105 && b[4] == 100 {
        crate::text::parse_text(b)
    } else {
        parse_binary(b)
    }
}

} // verus!
