//! The images that are shown on a surface.

use crate::device::{
    PhysicalDeviceProperties, Sharing, DEPTH_STENCIL_FORMAT, MSAA_SAMPLES,
};
use crate::image::ImageInfo;
use crate::utils::formats::{default_subresource_range, get_aspect_for_format};
#[allow(unused_imports)]
use crate::utils::formats::{aspect_of, default_range};
use crate::vk::{
    Extent2D, Extent3D, ImageSubresourceRange, IMAGE_TYPE_2D, IMAGE_USAGE_COLOR_ATTACHMENT,
    IMAGE_USAGE_DEPTH_STENCIL_ATTACHMENT, IMAGE_USAGE_TRANSIENT_ATTACHMENT, SHARING_EXCLUSIVE,
};
use vstd::prelude::*;

verus! {

/// What a surface says of the extent of its images.
#[derive(Clone, Copy, PartialEq, Eq, Structural, Debug)]
pub struct SurfaceExtents {
    /// The width is `u32::MAX` where the extent can be chosen.
    pub current: Extent2D,
    pub min: Extent2D,
    pub max: Extent2D,
}

impl SurfaceExtents {
    /// The extent is fixed, or some extent is allowed.
    pub open spec fn wf(self) -> bool {
        self.current.width != u32::MAX || (self.min.width <= self.max.width && self.min.height
            <= self.max.height)
    }
}

/// The nearest number between two others.
pub open spec fn clamped(value: u32, min: u32, max: u32) -> u32 {
    if value < min {
        min
    } else if value > max {
        max
    } else {
        value
    }
}

fn clamp(value: u32, min: u32, max: u32) -> (result: u32)
    requires
        min <= max,
    ensures
        result == clamped(value, min, max),
{
    if value < min {
        min
    } else if value > max {
        max
    } else {
        value
    }
}

/// The extent of the images of a swapchain: that of the surface, or the nearest to that of the
/// window where it can be chosen.
pub open spec fn extent_for(surface: SurfaceExtents, window: Extent2D) -> Extent2D {
    if surface.current.width != u32::MAX {
        surface.current
    } else {
        Extent2D {
            width: clamped(window.width, surface.min.width, surface.max.width),
            height: clamped(window.height, surface.min.height, surface.max.height),
        }
    }
}

/// Chooses the extent of the images of a swapchain.
pub fn choose_extent(surface: &SurfaceExtents, window: Extent2D) -> (extent: Extent2D)
    requires
        surface.wf(),
    ensures
        extent == extent_for(*surface, window),
{
    if surface.current.width != u32::MAX {
        surface.current
    } else {
        Extent2D {
            width: clamp(window.width, surface.min.width, surface.max.width),
            height: clamp(window.height, surface.min.height, surface.max.height),
        }
    }
}

/// The extent of the images is one that the surface allows, where it can be chosen, and that of
/// the window, where that is allowed.
pub proof fn extent_allowed(surface: SurfaceExtents, window: Extent2D)
    requires
        surface.wf(),
        surface.current.width == u32::MAX,
    ensures
        surface.min.width <= extent_for(surface, window).width <= surface.max.width,
        surface.min.height <= extent_for(surface, window).height <= surface.max.height,
        surface.min.width <= window.width <= surface.max.width && surface.min.height
            <= window.height <= surface.max.height ==> extent_for(surface, window) == window,
{
}

/// What a swapchain is created with.
pub struct SwapchainPlan {
    pub min_image_count: u32,
    pub image_format: i32,
    pub image_color_space: i32,
    pub image_extent: Extent2D,
    pub image_usage: u32,
    pub sharing: Sharing,
    pub present_mode: i32,
    /// The image that is rendered to before its samples are averaged.
    pub colour_resolve_image: ImageInfo,
    pub depth_image: ImageInfo,
    pub depth_subresource: ImageSubresourceRange,
}

/// An image that is rendered to, with several samples for each pixel.
pub open spec fn attachment_info(extent: Extent2D, format: i32, usage: u32) -> ImageInfo {
    ImageInfo {
        image_type: IMAGE_TYPE_2D,
        extent: Extent3D { width: extent.width, height: extent.height, depth: 1 },
        mip_levels: 1,
        format,
        usage,
        sharing_mode: SHARING_EXCLUSIVE,
        samples: MSAA_SAMPLES,
    }
}

fn attachment(extent: Extent2D, format: i32, usage: u32) -> (info: ImageInfo)
    ensures
        info == attachment_info(extent, format, usage),
{
    ImageInfo {
        image_type: IMAGE_TYPE_2D,
        extent: Extent3D { width: extent.width, height: extent.height, depth: 1 },
        mip_levels: 1,
        format,
        usage,
        sharing_mode: SHARING_EXCLUSIVE,
        samples: MSAA_SAMPLES,
    }
}

/// Plans a swapchain for a device, a surface and a window.
pub fn plan_swapchain(
    properties: &PhysicalDeviceProperties,
    surface: &SurfaceExtents,
    window: Extent2D,
) -> (plan: SwapchainPlan)
    requires
        surface.wf(),
    ensures
        plan.min_image_count == properties.image_count,
        plan.image_format == properties.swapchain_format.format,
        plan.image_color_space == properties.swapchain_format.color_space,
        plan.image_extent == extent_for(*surface, window),
        plan.image_usage == IMAGE_USAGE_COLOR_ATTACHMENT,
        plan.present_mode == properties.presentation_mode,
        properties.shares_images(plan.sharing),
        plan.colour_resolve_image == attachment_info(
            plan.image_extent,
            plan.image_format,
            IMAGE_USAGE_TRANSIENT_ATTACHMENT | IMAGE_USAGE_COLOR_ATTACHMENT,
        ),
        plan.depth_image == attachment_info(
            plan.image_extent,
            DEPTH_STENCIL_FORMAT,
            IMAGE_USAGE_DEPTH_STENCIL_ATTACHMENT,
        ),
        plan.depth_subresource == (ImageSubresourceRange {
            aspect_mask: aspect_of(DEPTH_STENCIL_FORMAT),
            ..default_range()
        }),
{
    let sharing = properties.swapchain_sharing();
    let extent: Extent2D = choose_extent(surface, window);
    let format: i32 = properties.swapchain_format.format;
    let range = default_subresource_range();
    SwapchainPlan {
        min_image_count: properties.image_count,
        image_format: format,
        image_color_space: properties.swapchain_format.color_space,
        image_extent: extent,
        image_usage: IMAGE_USAGE_COLOR_ATTACHMENT,
        sharing,
        present_mode: properties.presentation_mode,
        colour_resolve_image: attachment(
            extent,
            format,
            IMAGE_USAGE_TRANSIENT_ATTACHMENT | IMAGE_USAGE_COLOR_ATTACHMENT,
        ),
        depth_image: attachment(
            extent,
            DEPTH_STENCIL_FORMAT,
            IMAGE_USAGE_DEPTH_STENCIL_ATTACHMENT,
        ),
        depth_subresource: ImageSubresourceRange {
            aspect_mask: get_aspect_for_format(DEPTH_STENCIL_FORMAT),
            base_mip_level: range.base_mip_level,
            level_count: range.level_count,
            base_array_layer: range.base_array_layer,
            layer_count: range.layer_count,
        },
    }
}

/// No extent that the surface allows is nearer to that of the window than the one chosen, in
/// width or in height; a surface whose extent is fixed keeps it.
pub proof fn extent_is_nearest(surface: SurfaceExtents, window: Extent2D, other: Extent2D)
    requires
        surface.wf(),
    ensures
        surface.current.width != 0xffff_ffff ==> extent_for(surface, window).width
            == surface.current.width && extent_for(surface, window).height
            == surface.current.height,
        surface.current.width == 0xffff_ffff && surface.min.width <= other.width
            <= surface.max.width ==> distance(extent_for(surface, window).width, window.width)
            <= distance(other.width, window.width),
        surface.current.width == 0xffff_ffff && surface.min.height <= other.height
            <= surface.max.height ==> distance(extent_for(surface, window).height, window.height)
            <= distance(other.height, window.height),
{
}

/// How far apart two numbers are.
pub open spec fn distance(a: u32, b: u32) -> int {
    if a < b {
        b - a
    } else {
        a - b
    }
}

/// The images that are rendered to cover the swapchain with eight samples for each pixel, and have
/// one level.
pub proof fn attachments_cover_the_swapchain(extent: Extent2D, format: i32, usage: u32)
    ensures
        ({
            let info = attachment_info(extent, format, usage);
            &&& info.extent.width == extent.width
            &&& info.extent.height == extent.height
            &&& info.extent.depth == 1
            &&& info.mip_levels == 1
            &&& info.samples == 8
            &&& info.image_type == 1
            &&& info.sharing_mode == 0
            &&& info.format == format
            &&& info.usage == usage
        }),
{
}

} // verus!
