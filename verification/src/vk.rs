//! The numbers that Vulkan gives to formats, layouts, flags and the like.

use vstd::prelude::*;

verus! {

pub const FORMAT_R8G8B8A8_UNORM: i32 = 37;

pub const FORMAT_R8G8B8A8_SRGB: i32 = 43;

pub const FORMAT_B8G8R8A8_SRGB: i32 = 50;

pub const FORMAT_R32G32_SFLOAT: i32 = 103;

pub const FORMAT_R32G32B32_SFLOAT: i32 = 106;

pub const FORMAT_R32G32B32A32_SFLOAT: i32 = 109;

pub const FORMAT_D16_UNORM: i32 = 124;

pub const FORMAT_D32_SFLOAT: i32 = 126;

pub const FORMAT_S8_UINT: i32 = 127;

pub const FORMAT_D16_UNORM_S8_UINT: i32 = 128;

pub const FORMAT_D24_UNORM_S8_UINT: i32 = 129;

pub const FORMAT_D32_SFLOAT_S8_UINT: i32 = 130;

pub const FORMAT_BC5_UNORM_BLOCK: i32 = 141;

pub const FORMAT_BC7_SRGB_BLOCK: i32 = 146;

pub const ASPECT_COLOR: u32 = 1;

pub const ASPECT_DEPTH: u32 = 2;

pub const ASPECT_STENCIL: u32 = 4;

pub const DESCRIPTOR_COMBINED_IMAGE_SAMPLER: i32 = 1;

pub const DESCRIPTOR_UNIFORM_BUFFER: i32 = 6;

pub const DESCRIPTOR_STORAGE_BUFFER: i32 = 7;

pub const STAGE_VERTEX: u32 = 0x1;

pub const STAGE_FRAGMENT: u32 = 0x10;

pub const STAGE_COMPUTE: u32 = 0x20;

pub const STAGE_ALL: u32 = 0x7fff_ffff;

pub const QUEUE_GRAPHICS: u32 = 0x1;

pub const QUEUE_TRANSFER: u32 = 0x4;

pub const COLOR_SPACE_SRGB_NONLINEAR: i32 = 0;

pub const PRESENT_MODE_MAILBOX: i32 = 1;

pub const PRESENT_MODE_FIFO: i32 = 2;

pub const DEVICE_TYPE_DISCRETE_GPU: i32 = 2;

pub const BUFFER_TRANSFER_SRC: u32 = 0x1;

pub const BUFFER_TRANSFER_DST: u32 = 0x2;

pub const BUFFER_UNIFORM: u32 = 0x10;

pub const BUFFER_STORAGE: u32 = 0x20;

pub const BUFFER_VERTEX: u32 = 0x80;

pub const BUFFER_INDIRECT: u32 = 0x100;

pub const SAMPLES_1: u32 = 1;

pub const SAMPLES_4: u32 = 4;

pub const SAMPLES_8: u32 = 8;

pub const LAYOUT_UNDEFINED: i32 = 0;

pub const LAYOUT_COLOR_ATTACHMENT_OPTIMAL: i32 = 2;

pub const LAYOUT_DEPTH_STENCIL_ATTACHMENT_OPTIMAL: i32 = 3;

pub const LAYOUT_SHADER_READ_ONLY_OPTIMAL: i32 = 5;

pub const LAYOUT_TRANSFER_DST_OPTIMAL: i32 = 7;

pub const LAYOUT_PRESENT_SRC: i32 = 1_000_001_002;

pub const SHARING_EXCLUSIVE: i32 = 0;

pub const SHARING_CONCURRENT: i32 = 1;

pub const FORMAT_FEATURE_DEPTH_STENCIL_ATTACHMENT: u32 = 0x200;

pub const IMAGE_TYPE_1D: i32 = 0;

pub const IMAGE_TYPE_2D: i32 = 1;

pub const IMAGE_TYPE_3D: i32 = 2;

pub const VIEW_TYPE_1D: i32 = 0;

pub const VIEW_TYPE_2D: i32 = 1;

pub const VIEW_TYPE_3D: i32 = 2;

pub const VIEW_TYPE_1D_ARRAY: i32 = 4;

pub const VIEW_TYPE_2D_ARRAY: i32 = 5;

pub const IMAGE_USAGE_TRANSFER_DST: u32 = 0x2;

pub const IMAGE_USAGE_SAMPLED: u32 = 0x4;

pub const IMAGE_USAGE_COLOR_ATTACHMENT: u32 = 0x10;

pub const IMAGE_USAGE_DEPTH_STENCIL_ATTACHMENT: u32 = 0x20;

pub const IMAGE_USAGE_TRANSIENT_ATTACHMENT: u32 = 0x40;

pub const QUEUE_FAMILY_IGNORED: u32 = 0xffff_ffff;

pub const SUBOPTIMAL: i32 = 1_000_001_003;

pub const ERROR_OUT_OF_DATE: i32 = -1_000_001_004;

pub const COMPARE_GREATER: i32 = 4;

pub const SEVERITY_VERBOSE: u32 = 0x1;

pub const SEVERITY_INFO: u32 = 0x10;

pub const SEVERITY_WARNING: u32 = 0x100;

pub const SEVERITY_ERROR: u32 = 0x1000;

pub const FILTER_NEAREST: i32 = 0;

pub const FILTER_LINEAR: i32 = 1;

pub const MIPMAP_MODE_NEAREST: i32 = 0;

pub const MIPMAP_MODE_LINEAR: i32 = 1;

pub const ADDRESS_MODE_REPEAT: i32 = 0;

pub const ADDRESS_MODE_MIRRORED_REPEAT: i32 = 1;

pub const ADDRESS_MODE_CLAMP_TO_EDGE: i32 = 2;

pub const BORDER_COLOR_INT_OPAQUE_BLACK: i32 = 3;

pub const ACCESS_NONE: u64 = 0;

pub const ACCESS_SHADER_READ: u64 = 0x20;

pub const ACCESS_COLOR_ATTACHMENT_WRITE: u64 = 0x100;

pub const ACCESS_DEPTH_STENCIL_ATTACHMENT_READ: u64 = 0x200;

pub const ACCESS_DEPTH_STENCIL_ATTACHMENT_WRITE: u64 = 0x400;

pub const ACCESS_TRANSFER_WRITE: u64 = 0x1000;

pub const PIPELINE_STAGE_TOP_OF_PIPE: u64 = 0x1;

pub const PIPELINE_STAGE_FRAGMENT_SHADER: u64 = 0x80;

pub const PIPELINE_STAGE_EARLY_FRAGMENT_TESTS: u64 = 0x100;

pub const PIPELINE_STAGE_COLOR_ATTACHMENT_OUTPUT: u64 = 0x400;

pub const PIPELINE_STAGE_TRANSFER: u64 = 0x1000;

pub const PIPELINE_STAGE_BOTTOM_OF_PIPE: u64 = 0x2000;

/// The type of the indices in an index buffer.
#[derive(Clone, Copy, PartialEq, Eq, Structural, Debug)]
pub enum IndexType {
    Uint16,
    Uint32,
}

/// A number of descriptors of one type.
#[derive(Clone, Copy, PartialEq, Eq, Structural, Debug)]
pub struct DescriptorPoolSize {
    pub ty: i32,
    pub descriptor_count: u32,
}

/// A rectangle of pixels.
#[derive(Clone, Copy, PartialEq, Eq, Structural, Debug)]
pub struct Rect2D {
    pub x: i32,
    pub y: i32,
    pub width: u32,
    pub height: u32,
}

/// A width, a height and a depth in pixels.
#[derive(Clone, Copy, PartialEq, Eq, Structural, Debug)]
pub struct Extent3D {
    pub width: u32,
    pub height: u32,
    pub depth: u32,
}

/// Levels and layers of an image.
#[derive(Clone, Copy, PartialEq, Eq, Structural, Debug)]
pub struct ImageSubresourceRange {
    pub aspect_mask: u32,
    pub base_mip_level: u32,
    pub level_count: u32,
    pub base_array_layer: u32,
    pub layer_count: u32,
}

/// A width and a height in pixels.
#[derive(Clone, Copy, PartialEq, Eq, Structural, Debug)]
pub struct Extent2D {
    pub width: u32,
    pub height: u32,
}

} // verus!
