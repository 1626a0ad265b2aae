//! Buffers that hold the vertices and the indices of a mesh.

use crate::utils::layout::round_up;
#[allow(unused_imports)]
use crate::utils::layout::{aligned, aligned_is_least};
use crate::vk::IndexType;
use vstd::prelude::*;

verus! {

/// A type of index.
pub trait IndexTypeTrait {
    spec fn spec_index_type() -> IndexType;

    /// The size and the alignment of an index.
    spec fn spec_size() -> usize;

    fn index_type() -> (index_type: IndexType)
        ensures
            index_type == Self::spec_index_type(),
    ;

    fn size() -> (size: usize)
        ensures
            size == Self::spec_size(),
            1 <= size <= 4,
    ;
}

impl IndexTypeTrait for u16 {
    open spec fn spec_index_type() -> IndexType {
        IndexType::Uint16
    }

    open spec fn spec_size() -> usize {
        2
    }

    fn index_type() -> (index_type: IndexType) {
        IndexType::Uint16
    }

    fn size() -> (size: usize) {
        2
    }
}

impl IndexTypeTrait for u32 {
    open spec fn spec_index_type() -> IndexType {
        IndexType::Uint32
    }

    open spec fn spec_size() -> usize {
        4
    }

    fn index_type() -> (index_type: IndexType) {
        IndexType::Uint32
    }

    fn size() -> (size: usize) {
        4
    }
}

/// A buffer that holds vertices followed by indices.
#[derive(Debug)]
pub struct MeshBuffer {
    device_address: u64,
    size: u64,
    num_vertices: u32,
    num_indices: u32,
    index_type: IndexType,
    indices_offset: u64,
}

/// The size of some vertices, padded so that indices can follow.
pub open spec fn padded_vertices_size(vertices_size: int, index_size: int) -> int {
    aligned(vertices_size, index_size)
}

impl MeshBuffer {
    pub closed spec fn spec_device_address(self) -> u64 {
        self.device_address
    }

    pub closed spec fn spec_num_vertices(self) -> u32 {
        self.num_vertices
    }

    pub closed spec fn spec_num_indices(self) -> u32 {
        self.num_indices
    }

    pub closed spec fn spec_index_type(self) -> IndexType {
        self.index_type
    }

    pub closed spec fn spec_indices_offset(self) -> u64 {
        self.indices_offset
    }

    pub closed spec fn spec_size(self) -> u64 {
        self.size
    }

    /// The addresses in the buffer can be computed.
    pub open spec fn wf(self) -> bool {
        self.spec_device_address() + self.spec_indices_offset() <= u64::MAX
    }

    /// Pads the size of some vertices so that indices can follow.
    pub fn pad_vertices_size<I: IndexTypeTrait>(vertices_size: usize) -> (size: usize)
        requires
            vertices_size + I::spec_size() - 1 <= isize::MAX,
            I::spec_size() >= 1,
        ensures
            size == padded_vertices_size(vertices_size as int, I::spec_size() as int),
    {
        round_up(vertices_size, I::size())
    }

    /// The offset of the indices and the size of a buffer for the given vertices and indices.
    pub fn buffer_layout<I: IndexTypeTrait>(vertices_size: usize, num_indices: usize) -> (layout: (
        u64,
        u64,
    ))
        requires
            I::spec_size() >= 1,
            vertices_size + I::spec_size() - 1 + num_indices * I::spec_size() <= isize::MAX,
        ensures
            layout.0 == padded_vertices_size(vertices_size as int, I::spec_size() as int),
            layout.1 == layout.0 + num_indices * I::spec_size(),
            vertices_size <= layout.0,
            layout.0 % (I::spec_size() as u64) == 0,
    {
        let index_size: usize = I::size();
        assert(num_indices * index_size >= 0) by (nonlinear_arith);
        let indices_offset: usize = Self::pad_vertices_size::<I>(vertices_size);
        proof {
            aligned_is_least(vertices_size as int, index_size as int);
        }
        (indices_offset as u64, (indices_offset + num_indices * index_size) as u64)
    }

    /// Describes a buffer at `device_address` that was filled with the given vertices and
    /// indices.
    pub fn new<I: IndexTypeTrait>(
        device_address: u64,
        vertices_size: usize,
        num_vertices: usize,
        num_indices: usize,
    ) -> (buffer: Self)
        requires
            I::spec_size() >= 1,
            vertices_size + I::spec_size() - 1 + num_indices * I::spec_size() <= isize::MAX,
            device_address + padded_vertices_size(vertices_size as int, I::spec_size() as int)
                <= u64::MAX,
        ensures
            buffer.wf(),
            buffer.spec_device_address() == device_address,
            buffer.spec_num_vertices() == num_vertices as u32,
            buffer.spec_num_indices() == num_indices as u32,
            buffer.spec_index_type() == I::spec_index_type(),
            buffer.spec_indices_offset() == padded_vertices_size(
                vertices_size as int,
                I::spec_size() as int,
            ),
            buffer.spec_size() == buffer.spec_indices_offset() + num_indices * I::spec_size(),
    {
        let (indices_offset, size) = Self::buffer_layout::<I>(vertices_size, num_indices);
        MeshBuffer {
            device_address,
            size,
            num_vertices: num_vertices as u32,
            num_indices: num_indices as u32,
            index_type: I::index_type(),
            indices_offset,
        }
    }

    /// The number of vertices.
    pub fn num_vertices(&self) -> (n: u32)
        ensures
            n == self.spec_num_vertices(),
    {
        self.num_vertices
    }

    /// The number of indices.
    pub fn num_indices(&self) -> (n: u32)
        ensures
            n == self.spec_num_indices(),
    {
        self.num_indices
    }

    /// The size of the buffer.
    pub fn size(&self) -> (size: u64)
        ensures
            size == self.spec_size(),
    {
        self.size
    }

    /// The address of the vertices.
    pub fn vertices_addr(&self) -> (addr: u64)
        ensures
            addr == self.spec_device_address(),
    {
        self.device_address
    }

    /// The address of the indices.
    pub fn indices_addr(&self) -> (addr: u64)
        requires
            self.wf(),
        ensures
            addr == self.spec_device_address() + self.spec_indices_offset(),
    {
        self.device_address + self.indices_offset
    }

    /// What to bind to draw from the buffer: the offset of the vertices, and the offset and the
    /// type of the indices.
    pub fn bind(&self) -> (binding: (u64, u64, IndexType))
        ensures
            binding == (0u64, self.spec_indices_offset(), self.spec_index_type()),
    {
        (0, self.indices_offset, self.index_type)
    }
}

/// The offset of the vertices and the size of a buffer that holds indices followed by vertices.
pub fn layout_after_indices(
    indices_size: usize,
    index_align: usize,
    vertices_size: usize,
    vertex_align: usize,
) -> (layout: (u64, u64))
    requires
        index_align >= 1,
        vertex_align >= 1,
        indices_size + index_align + vertex_align + vertices_size <= isize::MAX,
    ensures
        layout.0 == aligned(
            indices_size as int,
            if index_align >= vertex_align {
                index_align as int
            } else {
                vertex_align as int
            },
        ),
        layout.1 == layout.0 + vertices_size,
        indices_size <= layout.0,
{
    let align: usize = if index_align >= vertex_align {
        index_align
    } else {
        vertex_align
    };
    let offset: usize = round_up(indices_size, align);
    proof {
        aligned_is_least(indices_size as int, align as int);
    }
    (offset as u64, (offset + vertices_size) as u64)
}

/// Indices of two bytes and of four bytes are told apart by their type.
pub proof fn index_types_have_their_sizes()
    ensures
        <u16 as IndexTypeTrait>::spec_size() == 2,
        <u16 as IndexTypeTrait>::spec_index_type() is Uint16,
        <u32 as IndexTypeTrait>::spec_size() == 4,
        <u32 as IndexTypeTrait>::spec_index_type() is Uint32,
{
}

/// Indices start at the first place behind the vertices that is a multiple of their size.
pub proof fn indices_follow_the_vertices(vertices_size: int, index_size: int, place: int)
    requires
        0 <= vertices_size,
        0 < index_size,
    ensures
        ({
            let start = padded_vertices_size(vertices_size, index_size);
            &&& vertices_size <= start < vertices_size + index_size
            &&& start % index_size == 0
            &&& vertices_size <= place && place % index_size == 0 ==> start <= place
        }),
{
    aligned_is_least(vertices_size, index_size);
}

} // verus!
