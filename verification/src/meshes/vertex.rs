//! The vertices of a mesh, before and after quantisation, as bit patterns.

use crate::meshes::adjacency::pack_w;
use crate::meshes::optimise::{MeshElementOffset, VertexBits};
use vstd::prelude::*;

verus! {

/// A mesh whose tangents are being generated.
pub struct RawMeshVertices {
    pub vertices: Vec<VertexBits>,
    pub indices: Vec<u32>,
}

impl RawMeshVertices {
    /// The corner `vert` of the triangle `face` exists.
    pub open spec fn has_corner(self, face: int, vert: int) -> bool {
        &&& 0 <= face
        &&& 0 <= vert
        &&& face * 3 + vert < self.indices.len()
        &&& self.indices@[face * 3 + vert] < self.vertices.len()
    }

    /// The number of triangles.
    pub fn num_faces(&self) -> (n: usize)
        ensures
            n == self.indices.len() / 3,
    {
        self.indices.len() / 3
    }

    /// Every face is a triangle.
    pub fn num_vertices_of_face(&self, face: usize) -> (n: usize)
        ensures
            n == 3,
    {
        3
    }

    /// The vertex at the corner `vert` of the triangle `face`.
    pub fn index_for_face_vertex(&self, face: usize, vert: usize) -> (index: usize)
        requires
            face * 3 + vert < self.indices.len(),
        ensures
            index == self.indices@[face * 3 + vert],
    {
        self.indices[face * 3 + vert] as usize
    }

    /// The position at a corner.
    pub fn position(&self, face: usize, vert: usize) -> (bits: [u32; 3])
        requires
            self.has_corner(face as int, vert as int),
        ensures
            bits@ == self.vertices@[self.indices@[face * 3 + vert] as int]@.subrange(0, 3),
    {
        let vertex: VertexBits = self.vertices[self.index_for_face_vertex(face, vert)];
        let bits: [u32; 3] = [vertex[0], vertex[1], vertex[2]];
        assert(bits@ =~= vertex@.subrange(0, 3));
        bits
    }

    /// The normal at a corner.
    pub fn normal(&self, face: usize, vert: usize) -> (bits: [u32; 3])
        requires
            self.has_corner(face as int, vert as int),
        ensures
            bits@ == self.vertices@[self.indices@[face * 3 + vert] as int]@.subrange(3, 6),
    {
        let vertex: VertexBits = self.vertices[self.index_for_face_vertex(face, vert)];
        let bits: [u32; 3] = [vertex[3], vertex[4], vertex[5]];
        assert(bits@ =~= vertex@.subrange(3, 6));
        bits
    }

    /// The texture coordinate at a corner.
    pub fn tex_coord(&self, face: usize, vert: usize) -> (bits: [u32; 2])
        requires
            self.has_corner(face as int, vert as int),
        ensures
            bits@ == self.vertices@[self.indices@[face * 3 + vert] as int]@.subrange(6, 8),
    {
        let vertex: VertexBits = self.vertices[self.index_for_face_vertex(face, vert)];
        let bits: [u32; 2] = [vertex[6], vertex[7]];
        assert(bits@ =~= vertex@.subrange(6, 8));
        bits
    }

    /// Stores the tangent and the handedness at a corner.
    pub fn set_tangent(&mut self, tangent: [u32; 3], handedness: u32, face: usize, vert: usize)
        requires
            old(self).has_corner(face as int, vert as int),
        ensures
            final(self).indices@ == old(self).indices@,
            ({
                let v = old(self).indices@[face * 3 + vert] as int;
                &&& final(self).vertices@ == old(self).vertices@.update(v, final(self).vertices@[v])
                &&& final(self).vertices@[v]@ == old(self).vertices@[v]@.subrange(0, 8) + tangent@
                    + seq![handedness]
            }),
    {
        let v: usize = self.index_for_face_vertex(face, vert);
        let old_vertex: VertexBits = self.vertices[v];
        let vertex: VertexBits = [
            old_vertex[0],
            old_vertex[1],
            old_vertex[2],
            old_vertex[3],
            old_vertex[4],
            old_vertex[5],
            old_vertex[6],
            old_vertex[7],
            tangent[0],
            tangent[1],
            tangent[2],
            handedness,
        ];
        assert(vertex@ =~= old_vertex@.subrange(0, 8) + tangent@ + seq![handedness]);
        self.vertices.set(v, vertex);
    }
}

/// The bit pattern of a single precision number greater than zero.
pub open spec fn bits_positive(bits: u32) -> bool {
    0 < bits <= 0x7f80_0000
}

/// A vertex as the shaders read it.
#[derive(Clone, Copy, Debug)]
pub struct MeshVertex {
    pub position: [u32; 3],
    pub qtangent: [u8; 4],
    pub tex_coord: [u32; 2],
}

/// Packs a vertex and its tangent frame, given as a quaternion quantised to eight bits per
/// component.
pub fn pack_vertex(raw: &VertexBits, quaternion: [u8; 4]) -> (vertex: MeshVertex)
    ensures
        vertex.position@ == raw@.subrange(0, 3),
        vertex.tex_coord@ == raw@.subrange(6, 8),
        vertex.qtangent@ == quaternion@.update(
            3,
            ((if bits_positive(raw@[11]) {
                128int
            } else {
                0
            }) + quaternion@[3] / 2) as u8,
        ),
{
    let standard: bool = 0 < raw[11] && raw[11] <= 0x7f80_0000;
    let vertex = MeshVertex {
        position: [raw[0], raw[1], raw[2]],
        qtangent: [
            quaternion[0],
            quaternion[1],
            quaternion[2],
            pack_w(quaternion[3], standard),
        ],
        tex_coord: [raw[6], raw[7]],
    };
    proof {
        assert(vertex.position@ =~= raw@.subrange(0, 3));
        assert(vertex.tex_coord@ =~= raw@.subrange(6, 8));
        assert(vertex.qtangent@ =~= quaternion@.update(3, vertex.qtangent@[3]));
    }
    vertex
}

/// A mesh as it is uploaded.
pub struct MeshData {
    pub vertices: Vec<MeshVertex>,
    pub indices: Vec<u32>,
    pub elements: Vec<MeshElementOffset>,
}

} // verus!
