//! Images: their views, their levels and the transitions of their layouts.

use crate::device::{PhysicalDeviceProperties, QueueFamily};
use crate::textures::texture::level_size;
use crate::utils::formats::{default_subresource_range, get_aspect_for_format};
#[allow(unused_imports)]
use crate::utils::formats::{aspect_of, default_range};
use crate::vk::{
    Extent3D, ImageSubresourceRange, ACCESS_DEPTH_STENCIL_ATTACHMENT_READ,
    ACCESS_DEPTH_STENCIL_ATTACHMENT_WRITE, ACCESS_NONE, ACCESS_SHADER_READ, ACCESS_TRANSFER_WRITE,
    IMAGE_TYPE_1D, IMAGE_TYPE_2D, IMAGE_TYPE_3D, IMAGE_USAGE_SAMPLED, IMAGE_USAGE_TRANSFER_DST,
    LAYOUT_DEPTH_STENCIL_ATTACHMENT_OPTIMAL, LAYOUT_SHADER_READ_ONLY_OPTIMAL,
    LAYOUT_TRANSFER_DST_OPTIMAL, LAYOUT_UNDEFINED, PIPELINE_STAGE_EARLY_FRAGMENT_TESTS,
    PIPELINE_STAGE_FRAGMENT_SHADER, PIPELINE_STAGE_TOP_OF_PIPE, PIPELINE_STAGE_TRANSFER,
    QUEUE_FAMILY_IGNORED, SAMPLES_1, SHARING_EXCLUSIVE, VIEW_TYPE_1D, VIEW_TYPE_1D_ARRAY,
    VIEW_TYPE_2D, VIEW_TYPE_2D_ARRAY, VIEW_TYPE_3D,
};
use vstd::prelude::*;

verus! {

/// What an image is created with. It has one layer, an optimal tiling and an undefined layout.
#[derive(Clone, Copy, PartialEq, Eq, Structural, Debug)]
pub struct ImageInfo {
    pub image_type: i32,
    pub extent: Extent3D,
    pub mip_levels: u32,
    pub format: i32,
    pub usage: u32,
    pub sharing_mode: i32,
    pub samples: u32,
}

/// There is a type of view for the images: every image has layers, and those with three
/// dimensions have only one.
pub open spec fn view_supported(image_type: i32, array_layers: u32) -> bool {
    ||| image_type == IMAGE_TYPE_1D && array_layers >= 1
    ||| image_type == IMAGE_TYPE_2D && array_layers >= 1
    ||| image_type == IMAGE_TYPE_3D && array_layers == 1
}

/// The type of view for images of a type.
pub fn view_type_from_image_type(image_type: i32, array_layers: u32) -> (view_type: i32)
    requires
        view_supported(image_type, array_layers),
    ensures
        view_type == (if image_type == IMAGE_TYPE_1D {
            if array_layers == 1 {
                VIEW_TYPE_1D
            } else {
                VIEW_TYPE_1D_ARRAY
            }
        } else if image_type == IMAGE_TYPE_2D {
            if array_layers == 1 {
                VIEW_TYPE_2D
            } else {
                VIEW_TYPE_2D_ARRAY
            }
        } else {
            VIEW_TYPE_3D
        }),
{
    if image_type == IMAGE_TYPE_1D {
        if array_layers == 1 {
            VIEW_TYPE_1D
        } else {
            VIEW_TYPE_1D_ARRAY
        }
    } else if image_type == IMAGE_TYPE_2D {
        if array_layers == 1 {
            VIEW_TYPE_2D
        } else {
            VIEW_TYPE_2D_ARRAY
        }
    } else {
        VIEW_TYPE_3D
    }
}

/// A copy from a buffer to a level of an image, without gaps between the rows.
#[derive(Clone, Copy, PartialEq, Eq, Structural, Debug)]
pub struct LevelCopy {
    pub buffer_offset: u64,
    pub aspect_mask: u32,
    pub mip_level: u32,
    pub extent: Extent3D,
}

/// What is needed to upload an image with all its levels.
pub struct MipUpload {
    pub info: ImageInfo,
    pub subresource: ImageSubresourceRange,
    /// The size of the staging buffer.
    pub total_size: u32,
    pub copies: Vec<LevelCopy>,
}

/// The size of the first `n` levels.
pub open spec fn levels_size(levels: Seq<Vec<u8>>, n: nat) -> nat
    decreases n,
{
    if n == 0 {
        0
    } else {
        levels_size(levels, (n - 1) as nat) + levels[n - 1]@.len()
    }
}

proof fn levels_size_grows(levels: Seq<Vec<u8>>, m: nat, n: nat)
    requires
        m <= n,
    ensures
        levels_size(levels, m) <= levels_size(levels, n),
    decreases n,
{
    if m < n {
        levels_size_grows(levels, m, (n - 1) as nat);
    }
}

/// The extent of a level: every dimension that the image has is halved for each level.
pub open spec fn level_extent(image_type: i32, extent: Extent3D, level: nat) -> Extent3D {
    Extent3D {
        width: level_size(extent.width, level),
        height: if image_type >= IMAGE_TYPE_2D {
            level_size(extent.height, level)
        } else {
            1
        },
        depth: if image_type >= IMAGE_TYPE_3D {
            level_size(extent.depth, level)
        } else {
            1
        },
    }
}

/// The copies of an upload do not overlap in the staging buffer, and fill it.
pub proof fn level_copies_disjoint(levels: Seq<Vec<u8>>, i: nat, j: nat)
    requires
        i < j < levels.len(),
    ensures
        levels_size(levels, i) + levels[i as int].len() <= levels_size(levels, j),
        levels_size(levels, j) + levels[j as int].len() <= levels_size(levels, levels.len()),
{
    levels_size_grows(levels, i + 1, j);
    levels_size_grows(levels, j + 1, levels.len());
}

/// Plans the upload of an image with all its levels.
pub fn plan_mip_upload(
    levels: &Vec<Vec<u8>>,
    image_type: i32,
    extent: Extent3D,
    format: i32,
) -> (upload: MipUpload)
    requires
        levels.len() <= 32,
        levels_size(levels@, levels@.len()) <= u32::MAX,
    ensures
        upload.info == (ImageInfo {
            image_type,
            extent,
            mip_levels: levels.len() as u32,
            format,
            usage: IMAGE_USAGE_TRANSFER_DST | IMAGE_USAGE_SAMPLED,
            sharing_mode: SHARING_EXCLUSIVE,
            samples: SAMPLES_1,
        }),
        upload.subresource == (ImageSubresourceRange {
            aspect_mask: aspect_of(format),
            level_count: levels.len() as u32,
            ..default_range()
        }),
        upload.total_size == levels_size(levels@, levels@.len()),
        upload.copies.len() == levels.len(),
        forall|i: int|
            0 <= i < levels.len() ==> #[trigger] upload.copies@[i] == (LevelCopy {
                buffer_offset: levels_size(levels@, i as nat) as u64,
                aspect_mask: aspect_of(format),
                mip_level: i as u32,
                extent: level_extent(image_type, extent, i as nat),
            }),
{
    let num_mips: u32 = levels.len() as u32;
    let aspect_mask: u32 = get_aspect_for_format(format);
    let info = ImageInfo {
        image_type,
        extent,
        mip_levels: num_mips,
        format,
        usage: IMAGE_USAGE_TRANSFER_DST | IMAGE_USAGE_SAMPLED,
        sharing_mode: SHARING_EXCLUSIVE,
        samples: SAMPLES_1,
    };
    let default_range = default_subresource_range();
    let subresource = ImageSubresourceRange {
        aspect_mask,
        base_mip_level: default_range.base_mip_level,
        level_count: num_mips,
        base_array_layer: default_range.base_array_layer,
        layer_count: default_range.layer_count,
    };
    let mut copies: Vec<LevelCopy> = Vec::with_capacity(levels.len());
    let mut offset: u32 = 0;
    let mut size: Extent3D = extent;
    let mut i: usize = 0;
    while i < levels.len()
        invariant
            i <= levels.len() <= 32,
            levels_size(levels@, levels@.len()) <= u32::MAX,
            offset == levels_size(levels@, i as nat),
            aspect_mask == aspect_of(format),
            size.width == level_size(extent.width, i as nat),
            size.height == level_size(extent.height, i as nat),
            size.depth == level_size(extent.depth, i as nat),
            copies.len() == i,
            forall|k: int|
                0 <= k < i ==> #[trigger] copies@[k] == (LevelCopy {
                    buffer_offset: levels_size(levels@, k as nat) as u64,
                    aspect_mask: aspect_of(format),
                    mip_level: k as u32,
                    extent: level_extent(image_type, extent, k as nat),
                }),
        decreases levels.len() - i,
    {
        proof {
            levels_size_grows(levels@, (i + 1) as nat, levels@.len());
        }
        copies.push(
            LevelCopy {
                buffer_offset: offset as u64,
                aspect_mask,
                mip_level: i as u32,
                extent: Extent3D {
                    width: size.width,
                    height: if image_type >= IMAGE_TYPE_2D {
                        size.height
                    } else {
                        1
                    },
                    depth: if image_type >= IMAGE_TYPE_3D {
                        size.depth
                    } else {
                        1
                    },
                },
            },
        );
        offset += levels[i].len() as u32;
        size = Extent3D { width: size.width / 2, height: size.height / 2, depth: size.depth / 2 };
        i += 1;
    }
    MipUpload { info, subresource, total_size: offset, copies }
}

/// The copy of a whole buffer to a level of an image.
pub fn whole_copy(aspect_mask: u32, mip_level: u32, extent: Extent3D) -> (copy: LevelCopy)
    ensures
        copy == (LevelCopy { buffer_offset: 0, aspect_mask, mip_level, extent }),
{
    LevelCopy { buffer_offset: 0, aspect_mask, mip_level, extent }
}

/// What is waited for before a transition, and what waits for it.
#[derive(Clone, Copy, PartialEq, Eq, Structural, Debug)]
pub struct BarrierMasks {
    pub src_access_mask: u64,
    pub dst_access_mask: u64,
    pub src_stage_mask: u64,
    pub dst_stage_mask: u64,
}

/// A transition of the layout of an image.
#[derive(Clone, Copy, PartialEq, Eq, Structural, Debug)]
pub struct ImageBarrier {
    pub old_layout: i32,
    pub new_layout: i32,
    pub src_queue_family_index: u32,
    pub dst_queue_family_index: u32,
    pub masks: BarrierMasks,
    pub subresource: ImageSubresourceRange,
}

/// What a transition waits for and what waits for it; nothing for transitions that are not
/// supported.
pub open spec fn masks_for(old_layout: i32, new_layout: i32) -> Option<BarrierMasks> {
    if old_layout == LAYOUT_UNDEFINED && new_layout == LAYOUT_DEPTH_STENCIL_ATTACHMENT_OPTIMAL {
        Some(
            BarrierMasks {
                src_access_mask: ACCESS_NONE,
                dst_access_mask: ACCESS_DEPTH_STENCIL_ATTACHMENT_READ
                    | ACCESS_DEPTH_STENCIL_ATTACHMENT_WRITE,
                src_stage_mask: PIPELINE_STAGE_TOP_OF_PIPE,
                dst_stage_mask: PIPELINE_STAGE_EARLY_FRAGMENT_TESTS,
            },
        )
    } else if old_layout == LAYOUT_UNDEFINED && new_layout == LAYOUT_TRANSFER_DST_OPTIMAL {
        Some(
            BarrierMasks {
                src_access_mask: ACCESS_NONE,
                dst_access_mask: ACCESS_TRANSFER_WRITE,
                src_stage_mask: PIPELINE_STAGE_TOP_OF_PIPE,
                dst_stage_mask: PIPELINE_STAGE_TRANSFER,
            },
        )
    } else if old_layout == LAYOUT_TRANSFER_DST_OPTIMAL && new_layout
        == LAYOUT_SHADER_READ_ONLY_OPTIMAL {
        Some(
            BarrierMasks {
                src_access_mask: ACCESS_TRANSFER_WRITE,
                dst_access_mask: ACCESS_SHADER_READ,
                src_stage_mask: PIPELINE_STAGE_TRANSFER,
                dst_stage_mask: PIPELINE_STAGE_FRAGMENT_SHADER,
            },
        )
    } else {
        None
    }
}

/// The queue family of a queue; none is named where no queue is given.
pub open spec fn family_or_ignored(
    properties: PhysicalDeviceProperties,
    queue: Option<QueueFamily>,
) -> u32 {
    match queue {
        Some(QueueFamily::Graphics) => properties.graphics_queue_family_idx,
        Some(QueueFamily::Present) => properties.present_queue_family_idx,
        Some(QueueFamily::Transfer) => properties.transfer_queue_family_idx,
        None => QUEUE_FAMILY_IGNORED,
    }
}

fn queue_family_index(properties: &PhysicalDeviceProperties, queue: Option<QueueFamily>) -> (index: u32)
    ensures
        index == family_or_ignored(*properties, queue),
{
    match queue {
        Some(queue) => properties.get_queue_family_idx(queue),
        None => QUEUE_FAMILY_IGNORED,
    }
}

/// Plans the transition of the layout of an image: of one level, where it is given, and of all
/// levels otherwise. Nothing for transitions that are not supported.
pub fn transition_layout(
    properties: &PhysicalDeviceProperties,
    subresource: ImageSubresourceRange,
    old_layout: i32,
    new_layout: i32,
    mip_level: Option<u32>,
    src_queue: Option<QueueFamily>,
    dst_queue: Option<QueueFamily>,
) -> (barrier: Option<ImageBarrier>)
    ensures
        match barrier {
            Some(b) => {
                &&& masks_for(old_layout, new_layout) == Some(b.masks)
                &&& b.old_layout == old_layout
                &&& b.new_layout == new_layout
                &&& b.src_queue_family_index == family_or_ignored(*properties, src_queue)
                &&& b.dst_queue_family_index == family_or_ignored(*properties, dst_queue)
                &&& b.subresource == (match mip_level {
                    Some(level) => ImageSubresourceRange {
                        base_mip_level: level,
                        level_count: 1,
                        ..subresource
                    },
                    None => subresource,
                })
            },
            None => masks_for(old_layout, new_layout) is None,
        },
{
    let masks = if old_layout == LAYOUT_UNDEFINED && new_layout
        == LAYOUT_DEPTH_STENCIL_ATTACHMENT_OPTIMAL {
        BarrierMasks {
            src_access_mask: ACCESS_NONE,
            dst_access_mask: ACCESS_DEPTH_STENCIL_ATTACHMENT_READ
                | ACCESS_DEPTH_STENCIL_ATTACHMENT_WRITE,
            src_stage_mask: PIPELINE_STAGE_TOP_OF_PIPE,
            dst_stage_mask: PIPELINE_STAGE_EARLY_FRAGMENT_TESTS,
        }
    } else if old_layout == LAYOUT_UNDEFINED && new_layout == LAYOUT_TRANSFER_DST_OPTIMAL {
        BarrierMasks {
            src_access_mask: ACCESS_NONE,
            dst_access_mask: ACCESS_TRANSFER_WRITE,
            src_stage_mask: PIPELINE_STAGE_TOP_OF_PIPE,
            dst_stage_mask: PIPELINE_STAGE_TRANSFER,
        }
    } else if old_layout == LAYOUT_TRANSFER_DST_OPTIMAL && new_layout
        == LAYOUT_SHADER_READ_ONLY_OPTIMAL {
        BarrierMasks {
            src_access_mask: ACCESS_TRANSFER_WRITE,
            dst_access_mask: ACCESS_SHADER_READ,
            src_stage_mask: PIPELINE_STAGE_TRANSFER,
            dst_stage_mask: PIPELINE_STAGE_FRAGMENT_SHADER,
        }
    } else {
        return None;
    };
    let subresource = match mip_level {
        Some(level) => ImageSubresourceRange {
            aspect_mask: subresource.aspect_mask,
            base_mip_level: level,
            level_count: 1,
            base_array_layer: subresource.base_array_layer,
            layer_count: subresource.layer_count,
        },
        None => subresource,
    };
    Some(
        ImageBarrier {
            old_layout,
            new_layout,
            src_queue_family_index: queue_family_index(properties, src_queue),
            dst_queue_family_index: queue_family_index(properties, dst_queue),
            masks,
            subresource,
        },
    )
}

/// What follows a transition waits for it, and a transition waits for what was written before:
/// the two transitions of an upload fit together.
pub proof fn upload_transitions_chain(write: BarrierMasks, read: BarrierMasks)
    requires
        masks_for(LAYOUT_UNDEFINED, LAYOUT_TRANSFER_DST_OPTIMAL) == Some(write),
        masks_for(LAYOUT_TRANSFER_DST_OPTIMAL, LAYOUT_SHADER_READ_ONLY_OPTIMAL) == Some(read),
    ensures
        write.dst_access_mask == read.src_access_mask,
        write.dst_stage_mask == read.src_stage_mask,
{
}

/// Three transitions are supported: from any contents to a depth buffer, from any contents to the
/// target of a copy, and from there to what fragment shaders read. The first two wait for nothing,
/// because nothing is kept; the reader waits for the copy.
pub proof fn supported_transitions(old_layout: i32, new_layout: i32)
    ensures
        masks_for(old_layout, new_layout) is Some <==> (old_layout == 0 && new_layout == 3) || (
        old_layout == 0 && new_layout == 7) || (old_layout == 7 && new_layout == 5),
        masks_for(old_layout, new_layout) matches Some(masks) ==> {
            &&& old_layout == 0 ==> masks.src_access_mask == 0 && masks.src_stage_mask == 1
            &&& old_layout == 7 ==> masks.src_access_mask == 0x1000 && masks.src_stage_mask
                == 0x1000
            &&& new_layout == 3 ==> masks.dst_access_mask == 0x600 && masks.dst_stage_mask == 0x100
            &&& new_layout == 7 ==> masks.dst_access_mask == 0x1000 && masks.dst_stage_mask
                == 0x1000
            &&& new_layout == 5 ==> masks.dst_access_mask == 0x20 && masks.dst_stage_mask == 0x80
        },
{
    assert(0x200u64 | 0x400u64 == 0x600u64) by (bit_vector);
}

/// Every level has half the size of the level before it, in the dimensions that the image has, and
/// a size of one in the others; the first level has the size of the image.
pub proof fn levels_halve(image_type: i32, extent: Extent3D, level: nat)
    ensures
        ({
            let first = level_extent(image_type, extent, 0);
            let (now, next) = (
                level_extent(image_type, extent, level),
                level_extent(image_type, extent, level + 1),
            );
            &&& first.width == extent.width
            &&& image_type >= 1 ==> first.height == extent.height
            &&& image_type >= 2 ==> first.depth == extent.depth
            &&& next.width == now.width as int / 2
            &&& image_type >= 1 ==> next.height == now.height as int / 2
            &&& image_type >= 2 ==> next.depth == now.depth as int / 2
            &&& image_type < 1 ==> now.height == 1
            &&& image_type < 2 ==> now.depth == 1
        }),
{
    reveal_with_fuel(level_size, 2);
}

/// In the staging buffer every level starts where the level before it ends, the first at the
/// start.
pub proof fn levels_follow_one_another(levels: Seq<Vec<u8>>, i: nat)
    requires
        i < levels.len(),
    ensures
        levels_size(levels, 0) == 0,
        levels_size(levels, i + 1) == levels_size(levels, i) + levels[i as int].len(),
{
}

/// A transition names the family of each queue that is given, and none where none is.
pub proof fn transitions_name_their_families(properties: PhysicalDeviceProperties)
    ensures
        family_or_ignored(properties, None) == 0xffff_ffff,
        family_or_ignored(properties, Some(QueueFamily::Graphics))
            == properties.graphics_queue_family_idx,
        family_or_ignored(properties, Some(QueueFamily::Present))
            == properties.present_queue_family_idx,
        family_or_ignored(properties, Some(QueueFamily::Transfer))
            == properties.transfer_queue_family_idx,
{
}

} // verus!
