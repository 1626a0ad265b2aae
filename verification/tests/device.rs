use galaxy_engine::device::{
    choose_device, choose_surface, has_required_extensions, select_queue_families, DeviceAnswer,
    DeviceInitError, DeviceQueues, Examination, PhysicalDeviceProperties, QueueFamilies,
    QueueFamily, QueueFamilyProperties, SurfaceFormat, SurfaceProperties, DEPTH_STENCIL_FORMAT,
};
use galaxy_engine::image::{
    plan_mip_upload, transition_layout, view_type_from_image_type, whole_copy,
};
use galaxy_engine::swapchain::{choose_extent, plan_swapchain, SurfaceExtents};
use galaxy_engine::utils::formats::default_subresource_range;
use galaxy_engine::vk;

const GRAPHICS: u32 = vk::QUEUE_GRAPHICS;
const TRANSFER: u32 = vk::QUEUE_TRANSFER;

fn family(flags: u32, present_supported: bool) -> QueueFamilyProperties {
    QueueFamilyProperties { flags, present_supported }
}

fn surface() -> SurfaceProperties {
    SurfaceProperties {
        formats: vec![
            SurfaceFormat { format: vk::FORMAT_R8G8B8A8_UNORM, color_space: 0 },
            SurfaceFormat { format: vk::FORMAT_B8G8R8A8_SRGB, color_space: 0 },
        ],
        present_modes: vec![vk::PRESENT_MODE_FIFO, vk::PRESENT_MODE_MAILBOX],
        min_image_count: 2,
        max_image_count: 0,
    }
}

fn extensions() -> Vec<String> {
    ["VK_KHR_dynamic_rendering", "VK_KHR_swapchain", "VK_x", "VK_KHR_synchronization2"]
        .iter()
        .map(|n| n.to_string())
        .collect()
}

fn properties(graphics: u32, present: u32, transfer: u32) -> PhysicalDeviceProperties {
    PhysicalDeviceProperties {
        graphics_queue_family_idx: graphics,
        present_queue_family_idx: present,
        transfer_queue_family_idx: transfer,
        is_discrete: false,
        swapchain_format: SurfaceFormat { format: vk::FORMAT_B8G8R8A8_SRGB, color_space: 0 },
        presentation_mode: vk::PRESENT_MODE_MAILBOX,
        image_count: 3,
    }
}

fn answers() -> Vec<DeviceAnswer> {
    vec![
        DeviceAnswer::Extensions(extensions()),
        DeviceAnswer::Families(vec![family(GRAPHICS | TRANSFER, true), family(TRANSFER, false)]),
        DeviceAnswer::DepthFormat(0x200),
        DeviceAnswer::Surface(surface()),
        DeviceAnswer::Properties { color_sample_counts: 0xf, device_type: 2 },
        DeviceAnswer::Features { sampler_anisotropy: true, buffer_device_address: true },
    ]
}

fn examine(answers: &[DeviceAnswer]) -> Examination {
    let mut examination = Examination::new();
    for answer in answers {
        if examination == Examination::Rejected {
            break;
        }
        examination = examination.advance(answer);
    }
    examination
}

#[test]
fn extensions_are_required() {
    assert!(has_required_extensions(&extensions()));
    for missing in [0, 1, 3] {
        let mut some = extensions();
        some.remove(missing);
        assert!(!has_required_extensions(&some));
    }
    let names = [ash::khr::swapchain::NAME, ash::khr::synchronization2::NAME, ash::khr::dynamic_rendering::NAME];
    let names: Vec<String> = names.iter().map(|n| n.to_str().unwrap().to_string()).collect();
    assert!(has_required_extensions(&names));
}

#[test]
fn shared_queue_families_are_preferred() {
    let families = vec![
        family(GRAPHICS, false),
        family(0, true),
        family(GRAPHICS | TRANSFER, true),
        family(TRANSFER, false),
        family(TRANSFER, false),
    ];
    assert_eq!(
        select_queue_families(&families),
        Some(QueueFamilies { graphics: 2, present: 2, transfer: 3 })
    );
}

#[test]
fn separate_queue_families_are_found() {
    let families = vec![family(GRAPHICS, false), family(GRAPHICS, false), family(0, true)];
    assert_eq!(
        select_queue_families(&families),
        Some(QueueFamilies { graphics: 0, present: 2, transfer: 0 })
    );
    assert_eq!(select_queue_families(&vec![family(GRAPHICS, false)]), None);
    assert_eq!(select_queue_families(&vec![family(TRANSFER, true)]), None);
    assert_eq!(select_queue_families(&Vec::new()), None);
}

#[test]
fn surfaces_are_chosen() {
    let choice = choose_surface(&surface()).unwrap();
    assert_eq!(choice.image_count, 3);
    assert_eq!(choice.presentation_mode, ash::vk::PresentModeKHR::MAILBOX.as_raw());
    assert_eq!(choice.swapchain_format.format, ash::vk::Format::B8G8R8A8_SRGB.as_raw());
    let limited = SurfaceProperties { max_image_count: 2, ..surface() };
    assert_eq!(choose_surface(&limited).unwrap().image_count, 2);
    let no_mailbox = SurfaceProperties { present_modes: vec![vk::PRESENT_MODE_FIFO], ..surface() };
    assert!(choose_surface(&no_mailbox).is_none());
    let no_formats = SurfaceProperties { formats: vec![], ..surface() };
    assert!(choose_surface(&no_formats).is_none());
}

#[test]
fn devices_are_accepted_or_rejected() {
    match examine(&answers()) {
        Examination::Accepted(properties) => {
            assert_eq!(properties.graphics_queue_family_idx, 0);
            assert_eq!(properties.present_queue_family_idx, 0);
            assert_eq!(properties.transfer_queue_family_idx, 1);
            assert!(properties.is_discrete);
            assert_eq!(properties.image_count, 3);
        }
        _ => panic!("rejected"),
    }
    let refusals = vec![
        (0, DeviceAnswer::Extensions(vec![])),
        (1, DeviceAnswer::Families(vec![family(TRANSFER, true)])),
        (2, DeviceAnswer::DepthFormat(0x100)),
        (3, DeviceAnswer::Surface(SurfaceProperties { present_modes: vec![], ..surface() })),
        (4, DeviceAnswer::Properties { color_sample_counts: 7, device_type: 2 }),
        (5, DeviceAnswer::Features { sampler_anisotropy: false, buffer_device_address: true }),
        (5, DeviceAnswer::Features { sampler_anisotropy: true, buffer_device_address: false }),
    ];
    for (stage, refusal) in refusals {
        let mut given = answers();
        given[stage] = refusal;
        assert_eq!(examine(&given), Examination::Rejected);
    }
}

#[test]
fn discrete_devices_are_preferred() {
    let (plain, discrete) =
        (properties(0, 0, 0), PhysicalDeviceProperties { is_discrete: true, ..properties(0, 0, 0) });
    assert_eq!(choose_device(&vec![]), Err(DeviceInitError::NoPhysicalDevices));
    assert_eq!(
        choose_device(&vec![None, None]),
        Err(DeviceInitError::NoCompatiblePhysicalDevices)
    );
    assert_eq!(choose_device(&vec![None, Some(plain), Some(plain)]), Ok(1));
    assert_eq!(choose_device(&vec![Some(discrete), Some(plain)]), Ok(0));
    assert_eq!(choose_device(&vec![Some(plain), Some(discrete), Some(discrete), None]), Ok(2));
}

#[test]
fn queue_families_are_listed_once() {
    assert_eq!(properties(2, 2, 2).get_unique_queue_families().as_slice(), &[2]);
    assert_eq!(properties(2, 2, 1).get_unique_queue_families().as_slice(), &[1, 2]);
    assert_eq!(properties(1, 2, 1).get_unique_queue_families().as_slice(), &[1, 2]);
    assert_eq!(properties(3, 1, 2).get_unique_queue_families().as_slice(), &[1, 2, 3]);
}

#[test]
fn queues_are_looked_up() {
    let queues = DeviceQueues { graphics_queue: 5, present_queue: 6, transfer_queue: 7 };
    let families = properties(1, 2, 3);
    assert_eq!(queues.get_queue(QueueFamily::Graphics), 5);
    assert_eq!(queues.get_queue(QueueFamily::Present), 6);
    assert_eq!(queues.get_queue(QueueFamily::Transfer), 7);
    assert_eq!(families.get_queue_family_idx(QueueFamily::Graphics), 1);
    assert_eq!(families.get_queue_family_idx(QueueFamily::Present), 2);
    assert_eq!(families.get_queue_family_idx(QueueFamily::Transfer), 3);
}

#[test]
fn images_are_shared_between_families() {
    let alone = properties(1, 1, 1).swapchain_sharing();
    assert_eq!((alone.mode, alone.queue_families), (vk::SHARING_EXCLUSIVE, vec![]));
    let shared = properties(2, 2, 0).swapchain_sharing();
    assert_eq!((shared.mode, shared.queue_families), (vk::SHARING_CONCURRENT, vec![0, 2]));
    let buffer = properties(2, 1, 0).buffer_sharing(vk::SHARING_CONCURRENT);
    assert_eq!(buffer.queue_families, vec![2, 0]);
    assert!(properties(2, 1, 0).buffer_sharing(vk::SHARING_EXCLUSIVE).queue_families.is_empty());
}

fn extents(current: u32) -> SurfaceExtents {
    SurfaceExtents {
        current: vk::Extent2D { width: current, height: 480 },
        min: vk::Extent2D { width: 100, height: 50 },
        max: vk::Extent2D { width: 1000, height: 500 },
    }
}

#[test]
fn extents_are_clamped() {
    let window = vk::Extent2D { width: 1200, height: 20 };
    assert_eq!(choose_extent(&extents(640), window), vk::Extent2D { width: 640, height: 480 });
    assert_eq!(
        choose_extent(&extents(u32::MAX), window),
        vk::Extent2D { width: 1000, height: 50 }
    );
    let inside = vk::Extent2D { width: 300, height: 200 };
    assert_eq!(choose_extent(&extents(u32::MAX), inside), inside);
}

#[test]
fn swapchains_are_planned() {
    let window = vk::Extent2D { width: 300, height: 200 };
    let plan = plan_swapchain(&properties(0, 1, 0), &extents(u32::MAX), window);
    assert_eq!(plan.image_extent, window);
    assert_eq!(plan.min_image_count, 3);
    assert_eq!(plan.image_usage, ash::vk::ImageUsageFlags::COLOR_ATTACHMENT.as_raw());
    assert_eq!(plan.sharing.queue_families, vec![0, 1]);
    assert_eq!(plan.colour_resolve_image.samples, 8);
    assert_eq!(plan.colour_resolve_image.usage, 0x50);
    assert_eq!(plan.depth_image.format, DEPTH_STENCIL_FORMAT);
    assert_eq!(plan.depth_image.usage, 0x20);
    assert_eq!(plan.depth_image.extent, vk::Extent3D { width: 300, height: 200, depth: 1 });
    assert_eq!(plan.depth_subresource.aspect_mask, vk::ASPECT_DEPTH | vk::ASPECT_STENCIL);
}

#[test]
fn views_fit_images() {
    use_view(0, 1, ash::vk::ImageViewType::TYPE_1D);
    use_view(0, 2, ash::vk::ImageViewType::TYPE_1D_ARRAY);
    use_view(1, 1, ash::vk::ImageViewType::TYPE_2D);
    use_view(1, 9, ash::vk::ImageViewType::TYPE_2D_ARRAY);
    use_view(2, 1, ash::vk::ImageViewType::TYPE_3D);
}

fn use_view(image_type: i32, layers: u32, expected: ash::vk::ImageViewType) {
    assert_eq!(view_type_from_image_type(image_type, layers), expected.as_raw());
}

#[test]
fn levels_are_uploaded_one_after_another() {
    let levels = vec![vec![0u8; 64], vec![0u8; 16], vec![0u8; 4], vec![0u8; 4]];
    let extent = vk::Extent3D { width: 8, height: 5, depth: 3 };
    let upload = plan_mip_upload(&levels, vk::IMAGE_TYPE_2D, extent, vk::FORMAT_R8G8B8A8_SRGB);
    assert_eq!(upload.total_size, 88);
    assert_eq!(upload.info.mip_levels, 4);
    assert_eq!(upload.info.usage, 0x6);
    assert_eq!(upload.subresource.level_count, 4);
    let offsets: Vec<u64> = upload.copies.iter().map(|c| c.buffer_offset).collect();
    assert_eq!(offsets, vec![0, 64, 80, 84]);
    let sizes: Vec<(u32, u32, u32)> =
        upload.copies.iter().map(|c| (c.extent.width, c.extent.height, c.extent.depth)).collect();
    assert_eq!(sizes, vec![(8, 5, 1), (4, 2, 1), (2, 1, 1), (1, 0, 1)]);
    let solid = plan_mip_upload(&levels, vk::IMAGE_TYPE_3D, extent, vk::FORMAT_R8G8B8A8_SRGB);
    assert_eq!(solid.copies[1].extent.depth, 1);
    let line = plan_mip_upload(&levels, vk::IMAGE_TYPE_1D, extent, vk::FORMAT_D32_SFLOAT);
    assert_eq!((line.copies[1].extent.width, line.copies[1].extent.height), (4, 1));
    assert_eq!(line.copies[1].aspect_mask, vk::ASPECT_DEPTH);
    let copy = whole_copy(vk::ASPECT_COLOR, 2, extent);
    assert_eq!((copy.buffer_offset, copy.mip_level, copy.extent), (0, 2, extent));
}

#[test]
fn transitions_wait_for_what_they_need() {
    let families = properties(4, 5, 6);
    let range = default_subresource_range();
    let write = transition_layout(
        &families,
        range,
        vk::LAYOUT_UNDEFINED,
        vk::LAYOUT_TRANSFER_DST_OPTIMAL,
        None,
        None,
        Some(QueueFamily::Transfer),
    )
    .unwrap();
    assert_eq!(write.src_queue_family_index, ash::vk::QUEUE_FAMILY_IGNORED);
    assert_eq!(write.dst_queue_family_index, 6);
    assert_eq!(write.masks.dst_access_mask, ash::vk::AccessFlags2::TRANSFER_WRITE.as_raw());
    assert_eq!(write.masks.src_stage_mask, ash::vk::PipelineStageFlags2::TOP_OF_PIPE.as_raw());
    assert_eq!(write.subresource, range);
    let read = transition_layout(
        &families,
        range,
        vk::LAYOUT_TRANSFER_DST_OPTIMAL,
        vk::LAYOUT_SHADER_READ_ONLY_OPTIMAL,
        Some(3),
        None,
        None,
    )
    .unwrap();
    assert_eq!(read.masks.src_access_mask, write.masks.dst_access_mask);
    assert_eq!(read.masks.src_stage_mask, write.masks.dst_stage_mask);
    assert_eq!(read.masks.dst_access_mask, ash::vk::AccessFlags2::SHADER_READ.as_raw());
    assert_eq!(read.masks.dst_stage_mask, ash::vk::PipelineStageFlags2::FRAGMENT_SHADER.as_raw());
    assert_eq!((read.subresource.base_mip_level, read.subresource.level_count), (3, 1));
    let depth = transition_layout(
        &families,
        range,
        vk::LAYOUT_UNDEFINED,
        vk::LAYOUT_DEPTH_STENCIL_ATTACHMENT_OPTIMAL,
        None,
        None,
        None,
    )
    .unwrap();
    assert_eq!(depth.masks.dst_access_mask, 0x600);
    let stages = ash::vk::PipelineStageFlags2::EARLY_FRAGMENT_TESTS.as_raw();
    assert_eq!(depth.masks.dst_stage_mask, stages);
    let unknown = transition_layout(
        &families,
        range,
        vk::LAYOUT_SHADER_READ_ONLY_OPTIMAL,
        vk::LAYOUT_UNDEFINED,
        None,
        None,
        None,
    );
    assert!(unknown.is_none());
}
