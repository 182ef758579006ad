//! Geometric normalization: the minimal axis-aligned bounding box of
//! a mesh, and the model transform that centers the mesh and scales
//! it into the fixed viewing volume.
//!
//! Box computation and the degenerate-mesh fallback are exact
//! integer logic on the bit patterns; the two quotient and product
//! values that need binary32 arithmetic (target extent over largest
//! dimension, scale times negated center) are taken as inputs and
//! placed, so that every decision and every placement is proved.

use vstd::prelude::*;

use crate::mesh::{Mesh, Vec3, vec3_finite};
use crate::scalar::{ONE_BITS, ZERO_BITS, order_key, same_value};

verus! {

/// Per-axis minimum and maximum of a mesh's vertex positions.
#[derive(Clone, Copy, Debug, PartialEq, Eq, Structural)]
pub struct BoundingBox {
    pub min: Vec3,
    pub max: Vec3,
}

/// The position `v` lies between `mn` and `mx` on every axis, in
/// the value order of the patterns.
pub open spec fn covers(mn: Vec3, mx: Vec3, v: Vec3) -> bool {
    &&& order_key(mn.x) <= order_key(v.x) <= order_key(mx.x)
    &&& order_key(mn.y) <= order_key(v.y) <= order_key(mx.y)
    &&& order_key(mn.z) <= order_key(v.z) <= order_key(mx.z)
}

impl BoundingBox {
    /// The box contains the position `v`.
    pub open spec fn contains(self, v: Vec3) -> bool {
        covers(self.min, self.max, v)
    }

    /// Zero extent on every axis: a point (or empty) mesh.
    pub open spec fn degenerate(self) -> bool {
        &&& same_value(self.min.x, self.max.x)
        &&& same_value(self.min.y, self.max.y)
        &&& same_value(self.min.z, self.max.z)
    }

    /// Whether the box has zero extent on every axis.
    pub fn is_degenerate(&self) -> (r: bool)
        ensures
            r == self.degenerate(),
    {
        crate::scalar::key_le(self.min.x, self.max.x) && crate::scalar::key_le(
            self.max.x,
            self.min.x,
        ) && crate::scalar::key_le(self.min.y, self.max.y) && crate::scalar::key_le(
            self.max.y,
            self.min.y,
        ) && crate::scalar::key_le(self.min.z, self.max.z) && crate::scalar::key_le(
            self.max.z,
            self.min.z,
        )
    }
}

/// The minimal bounding box of the mesh's vertices: it contains
/// every vertex, and each of its six bounds is attained by some
/// vertex. An empty mesh gets the degenerate box at the origin.
pub fn bounding_box(m: &Mesh) -> (r: BoundingBox)
    ensures
        forall|i: int| 0 <= i < m.vertices@.len() ==> r.contains(#[trigger] m.vertices@[i]),
        m.vertices@.len() == 0 ==> r.min == (Vec3 { x: ZERO_BITS, y: ZERO_BITS, z: ZERO_BITS })
            && r.max == r.min,
        m.vertices@.len() > 0 ==> {
            &&& (exists|i: int| 0 <= i < m.vertices@.len() && r.min.x == (#[trigger] m.vertices@[i]).x)
            &&& (exists|i: int| 0 <= i < m.vertices@.len() && r.min.y == (#[trigger] m.vertices@[i]).y)
            &&& (exists|i: int| 0 <= i < m.vertices@.len() && r.min.z == (#[trigger] m.vertices@[i]).z)
            &&& (exists|i: int| 0 <= i < m.vertices@.len() && r.max.x == (#[trigger] m.vertices@[i]).x)
            &&& (exists|i: int| 0 <= i < m.vertices@.len() && r.max.y == (#[trigger] m.vertices@[i]).y)
            &&& (exists|i: int| 0 <= i < m.vertices@.len() && r.max.z == (#[trigger] m.vertices@[i]).z)
        },
        m.wf() ==> vec3_finite(r.min) && vec3_finite(r.max),
{
    let n = m.vertices.len();
    if n == 0 {
        let o = Vec3 { x: ZERO_BITS, y: ZERO_BITS, z: ZERO_BITS };
        return BoundingBox { min: o, max: o };
    }
    let first = m.vertices[0];
    let mut mn = first;
    let mut mx = first;
    let mut i: usize = 1;
    while i < n
        invariant
            n == m.vertices@.len(),
            1 <= i <= n,
            forall|j: int| 0 <= j < i ==> covers(mn, mx, #[trigger] m.vertices@[j]),
            exists|j: int| 0 <= j < i && mn.x == (#[trigger] m.vertices@[j]).x,
            exists|j: int| 0 <= j < i && mn.y == (#[trigger] m.vertices@[j]).y,
            exists|j: int| 0 <= j < i && mn.z == (#[trigger] m.vertices@[j]).z,
            exists|j: int| 0 <= j < i && mx.x == (#[trigger] m.vertices@[j]).x,
            exists|j: int| 0 <= j < i && mx.y == (#[trigger] m.vertices@[j]).y,
            exists|j: int| 0 <= j < i && mx.z == (#[trigger] m.vertices@[j]).z,
        decreases n - i,
    {
        let v = m.vertices[i];
        let new_mn = Vec3 {
            x: crate::scalar::key_min(mn.x, v.x),
            y: crate::scalar::key_min(mn.y, v.y),
            z: crate::scalar::key_min(mn.z, v.z),
        };
        let new_mx = Vec3 {
            x: crate::scalar::key_max(mx.x, v.x),
            y: crate::scalar::key_max(mx.y, v.y),
            z: crate::scalar::key_max(mx.z, v.z),
        };
        mn = new_mn;
        mx = new_mx;
        i = i + 1;
    }
    proof {
        if m.wf() {
            let jx = choose|j: int| 0 <= j < n && mn.x == (#[trigger] m.vertices@[j]).x;
            let jy = choose|j: int| 0 <= j < n && mn.y == (#[trigger] m.vertices@[j]).y;
            let jz = choose|j: int| 0 <= j < n && mn.z == (#[trigger] m.vertices@[j]).z;
            let kx = choose|j: int| 0 <= j < n && mx.x == (#[trigger] m.vertices@[j]).x;
            let ky = choose|j: int| 0 <= j < n && mx.y == (#[trigger] m.vertices@[j]).y;
            let kz = choose|j: int| 0 <= j < n && mx.z == (#[trigger] m.vertices@[j]).z;
            assert(vec3_finite(m.vertices@[jx]) && vec3_finite(m.vertices@[jy]) && vec3_finite(
                m.vertices@[jz],
            ) && vec3_finite(m.vertices@[kx]) && vec3_finite(m.vertices@[ky]) && vec3_finite(
                m.vertices@[kz],
            ));
        }
    }
    BoundingBox { min: mn, max: mx }
}

/// The model scale: the quotient, computed upstream, of the target
/// extent by the largest box dimension -- unless the box has zero
/// extent on every axis, where dividing would be meaningless and
/// the scale falls back to one.
pub fn choose_scale(bb: &BoundingBox, quotient: u32) -> (r: u32)
    ensures
        r == (if bb.degenerate() { ONE_BITS } else { quotient }),
{
    if bb.is_degenerate() {
        ONE_BITS
    } else {
        quotient
    }
}

/// A uniform scale followed by nothing but a translation: the whole
/// model transform, held as its two ingredients.
#[derive(Clone, Copy, Debug, PartialEq, Eq, Structural)]
pub struct ModelTransform {
    /// Uniform scale, applied first to positions already translated.
    pub scale: u32,
    /// Translation entries of the combined matrix (scale times the
    /// negated box center, computed upstream).
    pub translate: Vec3,
}

impl ModelTransform {
    /// The sixteen entries of the combined 4x4 matrix, column-major:
    /// the scale on the diagonal, the translation in the last
    /// column, a unit last element, zeros elsewhere.
    pub fn to_columns(&self) -> (r: Vec<u32>)
        ensures
            r@.len() == 16,
            r@[0] == self.scale,
            r@[1] == ZERO_BITS,
            r@[2] == ZERO_BITS,
            r@[3] == ZERO_BITS,
            r@[4] == ZERO_BITS,
            r@[5] == self.scale,
            r@[6] == ZERO_BITS,
            r@[7] == ZERO_BITS,
            r@[8] == ZERO_BITS,
            r@[9] == ZERO_BITS,
            r@[10] == self.scale,
            r@[11] == ZERO_BITS,
            r@[12] == self.translate.x,
            r@[13] == self.translate.y,
            r@[14] == self.translate.z,
            r@[15] == ONE_BITS,
    {
        let mut r: Vec<u32> = Vec::new();
        r.push(self.scale);
        r.push(ZERO_BITS);
        r.push(ZERO_BITS);
        r.push(ZERO_BITS);
        r.push(ZERO_BITS);
        r.push(self.scale);
        r.push(ZERO_BITS);
        r.push(ZERO_BITS);
        r.push(ZERO_BITS);
        r.push(ZERO_BITS);
        r.push(self.scale);
        r.push(ZERO_BITS);
        r.push(self.translate.x);
        r.push(self.translate.y);
        r.push(self.translate.z);
        r.push(ONE_BITS);
        r
    }
}

} // verus!
