//! Text as triangles: how the vertices and indices of a tessellated line of
//! text are grouped into faces.

use vstd::prelude::*;
use crate::math::Vec2;
use crate::math::saturate;
use crate::math::saturate_i64;

verus! {

/// The primitive a tessellated vertex belongs to.
#[derive(Clone, Copy, Debug, PartialEq, Eq, Structural)]
pub struct WithId(pub u32);

/// A vertex as the screen has it: the tessellator's y points down.
pub open spec fn flipped(v: Vec2) -> Vec2 {
    Vec2 { x: v.x, y: saturate(-v.y) as i32 }
}

/// Whether `face` is the `k`-th triangle of the mesh: the vertices that the
/// `k`-th three indices name, flipped.
pub open spec fn is_face(vertices: Seq<Vec2>, indices: Seq<u16>, k: int, face: Seq<Vec2>) -> bool {
    &&& face.len() == 3
    &&& face[0] == flipped(vertices[indices[3 * k] as int])
    &&& face[1] == flipped(vertices[indices[3 * k + 1] as int])
    &&& face[2] == flipped(vertices[indices[3 * k + 2] as int])
}

/// The triangles of a tessellated mesh, in the order of the indices: one
/// for every full three indices; what is left over is dropped.
pub fn mesh(vertices: &Vec<Vec2>, indices: &Vec<u16>) -> (r: Vec<Vec<Vec2>>)
    requires
        forall|i: int| 0 <= i < indices@.len() ==> (#[trigger] indices@[i]) < vertices@.len(),
    ensures
        r@.len() == indices@.len() / 3,
        forall|k: int| 0 <= k < r@.len() ==> is_face(vertices@, indices@, k, (#[trigger] r@[k])@),
{
    let mut positions: Vec<Vec<Vec2>> = Vec::new();
    let mut face: Vec<Vec2> = Vec::new();
    let mut i: usize = 0;
    while i < indices.len()
        invariant
            i <= indices@.len(),
            forall|j: int| 0 <= j < indices@.len() ==> (#[trigger] indices@[j]) < vertices@.len(),
            positions@.len() == i / 3,
            face@.len() == i % 3,
            forall|j: int|
                0 <= j < face@.len() ==> (#[trigger] face@[j]) == flipped(
                    vertices@[indices@[3 * (i as int / 3) + j] as int],
                ),
            forall|k: int|
                0 <= k < positions@.len() ==> is_face(
                    vertices@,
                    indices@,
                    k,
                    (#[trigger] positions@[k])@,
                ),
        decreases indices@.len() - i,
    {
        let vertex = vertices[indices[i] as usize];
        face.push(Vec2 { x: vertex.x, y: saturate_i64(-(vertex.y as i64)) });
        if face.len() == 3 {
            let mut done: Vec<Vec2> = Vec::new();
            std::mem::swap(&mut done, &mut face);
            positions.push(done);
        }
        i += 1;
    }
    positions
}

} // verus!
