//! The parts of images.

use crate::vk::{
    ImageSubresourceRange, ASPECT_COLOR, ASPECT_DEPTH, ASPECT_STENCIL, FORMAT_D16_UNORM,
    FORMAT_D16_UNORM_S8_UINT, FORMAT_D24_UNORM_S8_UINT, FORMAT_D32_SFLOAT,
    FORMAT_D32_SFLOAT_S8_UINT, FORMAT_S8_UINT,
};
use vstd::prelude::*;

verus! {

/// The first level and layer of the colours of an image.
pub open spec fn default_range() -> ImageSubresourceRange {
    ImageSubresourceRange {
        aspect_mask: ASPECT_COLOR,
        base_mip_level: 0,
        level_count: 1,
        base_array_layer: 0,
        layer_count: 1,
    }
}

/// The first level and layer of the colours of an image.
pub fn default_subresource_range() -> (range: ImageSubresourceRange)
    ensures
        range == default_range(),
{
    ImageSubresourceRange {
        aspect_mask: ASPECT_COLOR,
        base_mip_level: 0,
        level_count: 1,
        base_array_layer: 0,
        layer_count: 1,
    }
}

/// The format has depth values.
pub open spec fn has_depth(format: i32) -> bool {
    ||| format == FORMAT_D16_UNORM
    ||| format == FORMAT_D32_SFLOAT
    ||| format == FORMAT_D16_UNORM_S8_UINT
    ||| format == FORMAT_D24_UNORM_S8_UINT
    ||| format == FORMAT_D32_SFLOAT_S8_UINT
}

/// The format has stencil values.
pub open spec fn has_stencil(format: i32) -> bool {
    ||| format == FORMAT_S8_UINT
    ||| format == FORMAT_D16_UNORM_S8_UINT
    ||| format == FORMAT_D24_UNORM_S8_UINT
    ||| format == FORMAT_D32_SFLOAT_S8_UINT
}

/// The aspects of an image with a format.
pub open spec fn aspect_of(format: i32) -> u32 {
    if has_depth(format) && has_stencil(format) {
        ASPECT_DEPTH | ASPECT_STENCIL
    } else if has_depth(format) {
        ASPECT_DEPTH
    } else if has_stencil(format) {
        ASPECT_STENCIL
    } else {
        ASPECT_COLOR
    }
}

/// The aspects of an image with a format.
pub fn get_aspect_for_format(format: i32) -> (aspect: u32)
    ensures
        aspect == aspect_of(format),
{
    match format {
        FORMAT_D16_UNORM | FORMAT_D32_SFLOAT => ASPECT_DEPTH,
        FORMAT_S8_UINT => ASPECT_STENCIL,
        FORMAT_D16_UNORM_S8_UINT
        | FORMAT_D24_UNORM_S8_UINT
        | FORMAT_D32_SFLOAT_S8_UINT => ASPECT_DEPTH | ASPECT_STENCIL,
        _ => ASPECT_COLOR,
    }
}

/// An image or buffer gets memory of its own where the driver requires or prefers it.
pub fn use_dedicated_allocation(requires_dedicated: bool, prefers_dedicated: bool) -> (dedicated: bool)
    ensures
        dedicated == (requires_dedicated || prefers_dedicated),
{
    requires_dedicated || prefers_dedicated
}

/// The formats of depth and stencil buffers are those from 124 to 130. All of them but 127 have
/// depth values, and those from 127 on have stencil values; 125, which pads its depth values, is
/// taken for a format of colours, as all others are.
pub proof fn aspects_by_format(format: i32)
    ensures
        ({
            let depth = format == 124 || format == 126 || 128 <= format <= 130;
            let stencil = 127 <= format <= 130;
            aspect_of(format) == (if !depth && !stencil {
                1int
            } else {
                (if depth {
                    2int
                } else {
                    0
                }) + (if stencil {
                    4int
                } else {
                    0
                })
            })
        }),
{
    assert(2u32 | 4u32 == 6u32) by (bit_vector);
}

/// Where nothing else is said, the first level and the first layer of the colours are meant.
pub proof fn default_range_is_first()
    ensures
        default_range().aspect_mask == 1,
        default_range().base_mip_level == 0,
        default_range().level_count == 1,
        default_range().base_array_layer == 0,
        default_range().layer_count == 1,
{
}

} // verus!
