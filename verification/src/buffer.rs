//! Buffers, and where their memory is.

use crate::descriptors::MAX_FRAMES_IN_FLIGHT;
use crate::vk::{BUFFER_TRANSFER_DST, BUFFER_TRANSFER_SRC, BUFFER_UNIFORM};
use vstd::prelude::*;

verus! {

/// Where memory is.
#[derive(Clone, Copy, PartialEq, Eq, Structural, Debug)]
pub enum MemoryLocation {
    Unknown,
    GpuOnly,
    CpuToGpu,
    GpuToCpu,
}

/// A type that stands for a place of memory.
pub trait MemLocation {
    spec fn spec_location() -> MemoryLocation;

    fn location() -> (location: MemoryLocation)
        ensures
            location == Self::spec_location(),
    ;
}

/// Memory in an unknown place.
pub struct Unknown;

/// Memory that only the graphics card uses.
pub struct GpuOnly;

/// Memory that is written for the graphics card.
pub struct CpuToGpu;

/// Memory that the graphics card writes.
pub struct GpuToCpu;

impl MemLocation for Unknown {
    open spec fn spec_location() -> MemoryLocation {
        MemoryLocation::Unknown
    }

    fn location() -> (location: MemoryLocation) {
        MemoryLocation::Unknown
    }
}

impl MemLocation for GpuOnly {
    open spec fn spec_location() -> MemoryLocation {
        MemoryLocation::GpuOnly
    }

    fn location() -> (location: MemoryLocation) {
        MemoryLocation::GpuOnly
    }
}

impl MemLocation for CpuToGpu {
    open spec fn spec_location() -> MemoryLocation {
        MemoryLocation::CpuToGpu
    }

    fn location() -> (location: MemoryLocation) {
        MemoryLocation::CpuToGpu
    }
}

impl MemLocation for GpuToCpu {
    open spec fn spec_location() -> MemoryLocation {
        MemoryLocation::GpuToCpu
    }

    fn location() -> (location: MemoryLocation) {
        MemoryLocation::GpuToCpu
    }
}

/// A range of a buffer.
#[derive(Clone, Copy, PartialEq, Eq, Structural, Debug)]
pub struct BufferRange {
    pub offset: u64,
    pub size: u64,
}

/// The extent of a buffer with elements of one size.
#[derive(Clone, Copy, PartialEq, Eq, Structural, Debug)]
pub struct BufferExtent {
    length: u32,
    element_size: u64,
}

impl BufferExtent {
    /// The number of elements.
    pub closed spec fn spec_len(self) -> u32 {
        self.length
    }

    /// The size in bytes.
    pub closed spec fn spec_size(self) -> int {
        self.element_size * self.length
    }

    /// The size in bytes can be stored.
    pub open spec fn wf(self) -> bool {
        0 <= self.spec_size() <= u64::MAX
    }

    /// A buffer of `length` elements.
    pub fn new(length: u32, element_size: u64) -> (extent: Self)
        requires
            length * element_size <= u64::MAX,
        ensures
            extent.wf(),
            extent.spec_len() == length,
            extent.spec_size() == length * element_size,
    {
        assert(length * element_size == element_size * length) by (nonlinear_arith);
        assert(0 <= element_size * length) by (nonlinear_arith);
        BufferExtent { length, element_size }
    }

    /// The size in bytes.
    pub fn size(&self) -> (size: u64)
        requires
            self.wf(),
        ensures
            size == self.spec_size(),
    {
        self.element_size * self.length as u64
    }

    /// The number of elements.
    pub fn len(&self) -> (len: u32)
        ensures
            len == self.spec_len(),
    {
        self.length
    }

    /// The whole buffer.
    pub fn descriptor_range(&self) -> (range: BufferRange)
        requires
            self.wf(),
        ensures
            range == (BufferRange { offset: 0, size: self.spec_size() as u64 }),
    {
        BufferRange { offset: 0, size: self.size() }
    }
}

/// A uniform buffer that is written anew for each frame: a staging buffer has a place for each
/// frame, from which the buffer on the graphics card is filled.
#[derive(Clone, Copy, PartialEq, Eq, Structural, Debug)]
pub struct VolatileUniformBuffer {
    size: u32,
}

impl VolatileUniformBuffer {
    /// The size of the contents.
    pub closed spec fn spec_size(self) -> u32 {
        self.size
    }

    /// The places of all frames can be counted.
    pub open spec fn wf(self) -> bool {
        self.spec_size() <= u32::MAX / 2
    }

    /// A buffer for `size` bytes.
    pub fn new(size: u32) -> (buffer: Self)
        requires
            size <= u32::MAX / 2,
        ensures
            buffer.wf(),
            buffer.spec_size() == size,
    {
        VolatileUniformBuffer { size }
    }

    /// The size and the usage of the staging buffer.
    pub fn staging_buffer(&self) -> (buffer: (u32, u32))
        requires
            self.wf(),
        ensures
            buffer.0 == self.spec_size() * MAX_FRAMES_IN_FLIGHT,
            buffer.1 == BUFFER_TRANSFER_SRC,
    {
        (self.size * MAX_FRAMES_IN_FLIGHT as u32, BUFFER_TRANSFER_SRC)
    }

    /// The size and the usage of the buffer on the graphics card.
    pub fn gpu_buffer(&self) -> (buffer: (u32, u32))
        ensures
            buffer.0 == self.spec_size(),
            buffer.1 == BUFFER_TRANSFER_DST | BUFFER_UNIFORM,
    {
        (self.size, BUFFER_TRANSFER_DST | BUFFER_UNIFORM)
    }

    /// Where the contents for a frame are in the staging buffer.
    pub fn frame_offset(&self, frame: usize) -> (offset: u64)
        requires
            frame < MAX_FRAMES_IN_FLIGHT,
        ensures
            offset == self.spec_size() * frame,
    {
        assert(self.size * frame <= u32::MAX) by (nonlinear_arith)
            requires
                self.size <= u32::MAX,
                frame <= 1,
        ;
        self.size as u64 * frame as u64
    }

    /// The copy for a frame to the buffer on the graphics card.
    pub fn copy_region(&self, frame: usize) -> (region: BufferRange)
        requires
            frame < MAX_FRAMES_IN_FLIGHT,
        ensures
            region.offset == self.spec_size() * frame,
            region.size == self.spec_size(),
    {
        BufferRange { offset: self.frame_offset(frame), size: self.size as u64 }
    }

    /// The whole buffer on the graphics card.
    pub fn descriptor_range(&self) -> (range: BufferRange)
        ensures
            range == (BufferRange { offset: 0, size: self.spec_size() as u64 }),
    {
        BufferRange { offset: 0, size: self.size as u64 }
    }
}

/// The frames do not share a place in the staging buffer, and each has one in it.
pub proof fn frame_places_disjoint(buffer: VolatileUniformBuffer, a: nat, b: nat)
    requires
        a < b < MAX_FRAMES_IN_FLIGHT,
    ensures
        buffer.spec_size() * a + buffer.spec_size() <= buffer.spec_size() * b,
        buffer.spec_size() * b + buffer.spec_size() <= buffer.spec_size() * MAX_FRAMES_IN_FLIGHT,
{
    let size = buffer.spec_size() as int;
    assert(size * a + size <= size * b) by (nonlinear_arith)
        requires
            a < b,
            size >= 0,
    ;
    assert(size * b + size <= size * 2) by (nonlinear_arith)
        requires
            b < 2,
            size >= 0,
    ;
}

} // verus!
