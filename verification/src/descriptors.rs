//! Descriptor pools.

use crate::vk::{
    DescriptorPoolSize, DESCRIPTOR_COMBINED_IMAGE_SAMPLER, DESCRIPTOR_STORAGE_BUFFER,
    DESCRIPTOR_UNIFORM_BUFFER,
};
use vstd::prelude::*;

verus! {

/// The number of frames that can be prepared while another is shown.
pub const MAX_FRAMES_IN_FLIGHT: usize = 2;

/// The descriptors that the scene needs with `num_textures` textures, for all frames: a uniform
/// buffer, three storage buffers and an array of textures for each.
pub fn scene_pool_sizes(num_textures: u32) -> (sizes: [DescriptorPoolSize; 3])
    requires
        num_textures <= u32::MAX / 2,
    ensures
        sizes[0] == (DescriptorPoolSize { ty: DESCRIPTOR_UNIFORM_BUFFER, descriptor_count: 2 }),
        sizes[1] == (DescriptorPoolSize { ty: DESCRIPTOR_STORAGE_BUFFER, descriptor_count: 6 }),
        sizes[2].ty == DESCRIPTOR_COMBINED_IMAGE_SAMPLER,
        sizes[2].descriptor_count == (if num_textures == 0 {
            1
        } else {
            MAX_FRAMES_IN_FLIGHT * num_textures
        }),
{
    let frames: u32 = MAX_FRAMES_IN_FLIGHT as u32;
    [
        DescriptorPoolSize { ty: DESCRIPTOR_UNIFORM_BUFFER, descriptor_count: frames },
        DescriptorPoolSize { ty: DESCRIPTOR_STORAGE_BUFFER, descriptor_count: frames * 3 },
        DescriptorPoolSize {
            ty: DESCRIPTOR_COMBINED_IMAGE_SAMPLER,
            descriptor_count: if num_textures == 0 {
                1
            } else {
                frames * num_textures
            },
        },
    ]
}

} // verus!
