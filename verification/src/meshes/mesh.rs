//! The meshes of a level.

use crate::meshes::buffer::MeshBuffer;
use crate::meshes::optimise::MeshElementOffset;
use vstd::prelude::*;

verus! {

/// A mesh of a level.
#[derive(Debug)]
pub struct Mesh {
    buffer: MeshBuffer,
    level_index: u32,
    level_element_offset: u32,
    elements: Vec<MeshElementOffset>,
}

impl Mesh {
    pub closed spec fn spec_buffer(self) -> MeshBuffer {
        self.buffer
    }

    pub closed spec fn spec_level_index(self) -> u32 {
        self.level_index
    }

    pub closed spec fn spec_level_element_offset(self) -> u32 {
        self.level_element_offset
    }

    pub closed spec fn spec_elements(self) -> Seq<MeshElementOffset> {
        self.elements@
    }

    /// The elements of the mesh can be numbered in its level.
    pub open spec fn wf(self) -> bool {
        &&& self.spec_buffer().wf()
        &&& self.spec_level_element_offset() + self.spec_elements().len() <= u32::MAX
    }

    /// A mesh with index `level_index` in its level, whose first element has the index
    /// `level_element_offset`.
    pub fn new(
        buffer: MeshBuffer,
        elements: Vec<MeshElementOffset>,
        level_index: u32,
        level_element_offset: u32,
    ) -> (mesh: Self)
        requires
            buffer.wf(),
            level_element_offset + elements.len() <= u32::MAX,
        ensures
            mesh.wf(),
            mesh.spec_buffer() == buffer,
            mesh.spec_elements() == elements@,
            mesh.spec_level_index() == level_index,
            mesh.spec_level_element_offset() == level_element_offset,
    {
        Mesh { buffer, level_index, level_element_offset, elements }
    }

    /// The number of vertices.
    pub fn num_vertices(&self) -> (n: u32)
        ensures
            n == self.spec_buffer().spec_num_vertices(),
    {
        self.buffer.num_vertices()
    }

    /// The number of indices.
    pub fn num_indices(&self) -> (n: u32)
        ensures
            n == self.spec_buffer().spec_num_indices(),
    {
        self.buffer.num_indices()
    }

    /// The number of elements.
    pub fn num_elements(&self) -> (n: u32)
        requires
            self.wf(),
        ensures
            n == self.spec_elements().len(),
    {
        self.elements.len() as u32
    }

    /// An element.
    pub fn element(&self, index: usize) -> (element: MeshElementOffset)
        requires
            index < self.spec_elements().len(),
        ensures
            element == self.spec_elements()[index as int],
    {
        self.elements[index]
    }

    /// The index of the mesh in its level.
    pub fn level_index(&self) -> (index: u32)
        ensures
            index == self.spec_level_index(),
    {
        self.level_index
    }

    /// The indices of the elements in the level: the first one, and the one behind the last.
    pub fn level_element_range(&self) -> (range: (usize, usize))
        requires
            self.wf(),
        ensures
            range.0 == self.spec_level_element_offset(),
            range.1 == self.spec_level_element_offset() + self.spec_elements().len(),
    {
        let start: usize = self.level_element_offset as usize;
        (start, start + self.elements.len())
    }

    /// The buffer of the mesh.
    pub fn buffer(&self) -> (buffer: &MeshBuffer)
        ensures
            *buffer == self.spec_buffer(),
    {
        &self.buffer
    }
}

} // verus!
