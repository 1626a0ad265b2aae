use ash::vk::DebugUtilsMessageSeverityFlagsEXT as Severity;
use galaxy_engine::buffer::{
    BufferExtent, CpuToGpu, GpuOnly, GpuToCpu, MemLocation, MemoryLocation, Unknown,
    VolatileUniformBuffer,
};
use galaxy_engine::debug::{level_of, message_severities, LogLevel};
use galaxy_engine::descriptors::scene_pool_sizes;
use galaxy_engine::engine::{
    colour_target, to_drawing, to_presenting, ColourTarget, ElementState, FrameAction, FrameEvent,
    FrameStage, FrameState, KeyInput, LogicalKey,
};
use galaxy_engine::loading::{LoadingContext, TransientOrPersistent};
use galaxy_engine::particles;
use galaxy_engine::renderer::{
    check_version, min_version, required_extensions, required_layers, retain_available, InitError,
};
use galaxy_engine::shader::{
    entry_point, is_whole_words, stage_entry_point, ComputeShaderStage, FragmentShaderStage,
    ShaderStageType, VertexShaderStage,
};
use galaxy_engine::static_resources::{octagon_indices, quad_indices};
use galaxy_engine::vertex_input::{BindableVertex, ColouredVertex, InputRate, Vertex};
use galaxy_engine::vk;
use galaxy_engine::window::{best_video_mode, is_listening, react, Reaction, VideoMode, WindowInput};

fn strings(names: &[&str]) -> Vec<String> {
    names.iter().map(|n| n.to_string()).collect()
}

const OUT_OF_DATE: i32 = ash::vk::Result::ERROR_OUT_OF_DATE_KHR.as_raw();
const SUBOPTIMAL: i32 = ash::vk::Result::SUBOPTIMAL_KHR.as_raw();
const LOST: i32 = ash::vk::Result::ERROR_DEVICE_LOST.as_raw();

fn state() -> FrameState {
    FrameState::new(vk::Extent2D { width: 8, height: 6 })
}

/// Goes on with a frame until an image was asked for.
fn up_to_image(state: &mut FrameState) {
    let frame = state.frame_index;
    assert_eq!(state.main_loop(FrameEvent::Start), FrameAction::Update);
    assert_eq!(state.main_loop(FrameEvent::Done), FrameAction::WaitForFrame(frame));
    assert_eq!(state.main_loop(FrameEvent::Done), FrameAction::UpdateGpu(frame));
    assert_eq!(state.main_loop(FrameEvent::Done), FrameAction::AcquireImage(frame));
}

/// Goes on with a frame until an image was presented.
fn up_to_present(state: &mut FrameState, image: u32) {
    let frame = state.frame_index;
    up_to_image(state);
    assert_eq!(state.main_loop(FrameEvent::Image(image)), FrameAction::Draw { frame, image });
    assert_eq!(state.main_loop(FrameEvent::Done), FrameAction::Submit(frame));
    assert_eq!(state.main_loop(FrameEvent::Done), FrameAction::Present { frame, image });
}

#[test]
fn frames_alternate() {
    let mut state = state();
    for frame in [0, 1, 0, 1] {
        assert_eq!(state.frame_index, frame);
        up_to_present(&mut state, 2);
        assert_eq!(state.main_loop(FrameEvent::Done), FrameAction::Finish);
        assert_eq!(state.stage, FrameStage::Idle);
    }
}

#[test]
fn resizing_asks_for_a_swapchain_once() {
    let mut state = state();
    state.notify_window_resize(8, 6);
    up_to_image(&mut state);
    state.notify_window_resize(9, 6);
    assert_eq!(state.main_loop(FrameEvent::Failed(LOST)), FrameAction::Fail(LOST));
    assert_eq!(state.main_loop(FrameEvent::Start), FrameAction::RecreateSwapchain);
    assert_eq!(state.main_loop(FrameEvent::Done), FrameAction::Update);
    assert_eq!(state.main_loop(FrameEvent::Failed(LOST)), FrameAction::Fail(LOST));
    up_to_image(&mut state);
    assert_eq!(state.window_size, vk::Extent2D { width: 9, height: 6 });
}

#[test]
fn frames_without_image_are_given_up() {
    let mut state = state();
    up_to_image(&mut state);
    assert_eq!(state.main_loop(FrameEvent::Failed(OUT_OF_DATE)), FrameAction::RecreateSwapchain);
    assert_eq!(state.main_loop(FrameEvent::Done), FrameAction::Finish);
    assert_eq!(state.frame_index, 0);
    for error in [SUBOPTIMAL, LOST] {
        up_to_image(&mut state);
        assert_eq!(state.main_loop(FrameEvent::Failed(error)), FrameAction::Fail(error));
        assert_eq!(state.frame_index, 0);
    }
}

#[test]
fn swapchains_are_replaced_after_presenting() {
    let mut state = state();
    for (frame, error) in [(0, OUT_OF_DATE), (1, SUBOPTIMAL)] {
        up_to_present(&mut state, 1);
        assert_eq!(state.main_loop(FrameEvent::Failed(error)), FrameAction::RecreateSwapchain);
        assert_eq!(state.frame_index, frame);
        assert_eq!(state.main_loop(FrameEvent::Done), FrameAction::Finish);
        assert_eq!(state.frame_index, 1 - frame);
    }
    up_to_present(&mut state, 1);
    assert_eq!(state.main_loop(FrameEvent::Failed(LOST)), FrameAction::Fail(LOST));
    assert_eq!(state.frame_index, 0);
    up_to_present(&mut state, 1);
    state.main_loop(FrameEvent::Failed(OUT_OF_DATE));
    assert_eq!(state.main_loop(FrameEvent::Failed(LOST)), FrameAction::Fail(LOST));
    assert_eq!(state.frame_index, 0);
}

#[test]
fn keys_are_released_at_first() {
    let mut keys = KeyInput::new();
    assert_eq!(keys.get_key_state("w"), ElementState::Released);
    keys.notify_keyboard_input(&LogicalKey::Character("w".to_string()), ElementState::Pressed);
    keys.notify_keyboard_input(&LogicalKey::Escape, ElementState::Pressed);
    assert!(keys.is_key_pressed("w"));
    assert!(!keys.is_key_pressed("s"));
    keys.notify_keyboard_input(&LogicalKey::Character("w".to_string()), ElementState::Released);
    assert!(!keys.is_key_pressed("w"));
}

#[test]
fn colours_are_resolved_from_samples() {
    assert_eq!(colour_target(vk::SAMPLES_1), ColourTarget::Swapchain);
    assert_eq!(colour_target(vk::SAMPLES_4), ColourTarget::Resolve);
}

#[test]
fn images_are_presented_after_drawing() {
    let (drawing, presenting) = (to_drawing(), to_presenting());
    assert_eq!(drawing.old_layout, ash::vk::ImageLayout::UNDEFINED.as_raw());
    assert_eq!(drawing.new_layout, ash::vk::ImageLayout::COLOR_ATTACHMENT_OPTIMAL.as_raw());
    assert_eq!(presenting.old_layout, drawing.new_layout);
    assert_eq!(presenting.new_layout, ash::vk::ImageLayout::PRESENT_SRC_KHR.as_raw());
    assert_eq!(presenting.masks.src_access_mask, drawing.masks.dst_access_mask);
    assert_eq!(
        presenting.masks.dst_stage_mask,
        ash::vk::PipelineStageFlags2::BOTTOM_OF_PIPE.as_raw()
    );
    assert_eq!(
        drawing.masks.dst_access_mask,
        ash::vk::AccessFlags2::COLOR_ATTACHMENT_WRITE.as_raw()
    );
}

#[test]
fn windows_are_reacted_to() {
    let key = |key: LogicalKey, state: ElementState| WindowInput::Keyboard(key, state);
    assert_eq!(react(&WindowInput::CloseRequested, false), Reaction::Exit);
    assert_eq!(react(&WindowInput::Resized(3, 4), false), Reaction::Resize(3, 4));
    assert_eq!(react(&key(LogicalKey::Escape, ElementState::Released), false), Reaction::Exit);
    assert_eq!(
        react(&key(LogicalKey::F11, ElementState::Pressed), false),
        Reaction::EnterFullscreen
    );
    assert_eq!(
        react(&key(LogicalKey::F11, ElementState::Pressed), true),
        Reaction::LeaveFullscreen
    );
    assert_eq!(react(&key(LogicalKey::F11, ElementState::Released), true), Reaction::Nothing);
    assert_eq!(react(&key(LogicalKey::Other, ElementState::Pressed), true), Reaction::Nothing);
    assert_eq!(react(&WindowInput::MouseButton, false), Reaction::MouseButton);
    assert_eq!(react(&WindowInput::RedrawRequested, false), Reaction::Redraw);
    assert_eq!(react(&WindowInput::Other, false), Reaction::Nothing);
    assert!(is_listening(false, true));
    assert!(!is_listening(true, true));
    assert!(!is_listening(false, false));
}

#[test]
fn largest_video_mode_is_best() {
    let mode = |width, height, refresh_rate| VideoMode { width, height, refresh_rate };
    let modes = vec![
        mode(1920, 1080, 60),
        mode(1920, 1200, 60),
        mode(1920, 1200, 144),
        mode(1280, 2000, 240),
        mode(1920, 1200, 144),
    ];
    assert_eq!(best_video_mode(&modes), Some(4));
    assert_eq!(best_video_mode(&vec![mode(1, 1, 1)]), Some(0));
    assert_eq!(best_video_mode(&Vec::new()), None);
}

#[test]
fn old_drivers_are_rejected() {
    let version = |major, minor, patch| ash::vk::make_api_version(0, major, minor, patch);
    assert_eq!(min_version(), ash::vk::API_VERSION_1_2);
    assert_eq!(check_version(Some(version(1, 2, 0))), Ok(version(1, 2, 0)));
    assert_eq!(check_version(Some(version(1, 3, 7))), Ok(version(1, 3, 7)));
    assert_eq!(check_version(Some(version(2, 0, 0))), Ok(version(2, 0, 0)));
    for old in [version(1, 1, 200), version(1, 0, 0), version(0, 9, 0)] {
        assert_eq!(check_version(Some(old)), Err(InitError::VulkanIncompatibleVersion(old)));
    }
    assert_eq!(
        check_version(None),
        Err(InitError::VulkanIncompatibleVersion(version(1, 0, 0)))
    );
}

#[test]
fn missing_layers_are_left_out() {
    assert!(required_layers(false).is_empty());
    assert_eq!(required_layers(true), strings(&["VK_LAYER_KHRONOS_validation"]));
    assert_eq!(
        required_extensions(strings(&["VK_KHR_surface"]), true),
        strings(&["VK_KHR_surface", "VK_EXT_debug_utils"])
    );
    assert_eq!(required_extensions(strings(&["a"]), false), strings(&["a"]));
    let (kept, missing) = retain_available(strings(&["a", "b", "c"]), &strings(&["c", "a", "d"]));
    assert_eq!(kept, strings(&["a", "c"]));
    assert_eq!(missing, strings(&["b"]));
    let (kept, missing) = retain_available(strings(&["x", "y", "x"]), &strings(&["z"]));
    assert!(kept.is_empty());
    assert_eq!(missing, strings(&["x", "y", "x"]));
}

#[test]
fn stages_have_entry_points() {
    assert_eq!(entry_point(vk::STAGE_VERTEX), Some("mainVS"));
    assert_eq!(entry_point(vk::STAGE_FRAGMENT), Some("mainFS"));
    assert_eq!(entry_point(vk::STAGE_COMPUTE), Some("mainCS"));
    assert_eq!(entry_point(vk::STAGE_ALL), None);
    assert_eq!(stage_entry_point::<VertexShaderStage>(), Some("mainVS"));
    assert_eq!(stage_entry_point::<FragmentShaderStage>(), Some("mainFS"));
    assert_eq!(ComputeShaderStage::stage(), vk::STAGE_COMPUTE);
    assert!(is_whole_words(8));
    assert!(!is_whole_words(7));
}

#[test]
fn shapes_are_made_of_triangles() {
    assert_eq!(quad_indices(), [0, 1, 2, 2, 3, 0]);
    let octagon = octagon_indices();
    for vertex in 0..8 {
        assert!(octagon.contains(&vertex));
    }
    assert!(octagon.iter().all(|&i| i < 8));
}

#[test]
fn vertices_are_described() {
    let binding = Vertex::binding_description();
    assert_eq!((binding.stride, binding.input_rate), (20, InputRate::Vertex));
    let offsets: Vec<u32> = Vertex::attribute_descriptions().iter().map(|a| a.offset).collect();
    assert_eq!(offsets, vec![0, 12]);
    assert_eq!(ColouredVertex::binding_description().stride, 32);
    let attributes = ColouredVertex::attribute_descriptions();
    let offsets: Vec<u32> = attributes.iter().map(|a| a.offset).collect();
    assert_eq!(offsets, vec![0, 12, 24]);
    assert_eq!(attributes[2].format, ash::vk::Format::R32G32_SFLOAT.as_raw());
    let binding = particles::Particle::binding_description();
    assert_eq!((binding.stride, binding.input_rate), (48, InputRate::Instance));
    let offsets: Vec<u32> =
        particles::Particle::attribute_descriptions().iter().map(|a| a.offset).collect();
    assert_eq!(offsets, vec![0, 32]);
    assert_eq!(std::mem::size_of::<particles::Particle>(), 48);
}

#[test]
fn particles_are_computed_in_groups() {
    assert_eq!(particles::num_groups(1024), 4);
    assert_eq!(particles::num_groups(1023), 3);
    assert_eq!(particles::num_groups(0), 0);
    let bindings = particles::compute_layout_bindings();
    let writes = particles::descriptor_writes(&bindings);
    for i in 0..3 {
        assert_eq!(bindings[i].binding, i as u32);
        assert_eq!(writes[i].binding, i as u32);
        assert_eq!(writes[i].descriptor_type, bindings[i].descriptor_type);
    }
    assert_eq!(bindings[0].descriptor_type, ash::vk::DescriptorType::UNIFORM_BUFFER.as_raw());
    assert_eq!(bindings[1].stage_flags, 0x31);
    assert_eq!(particles::buffer_usage(writes[0].resource), None);
    assert_eq!(particles::buffer_usage(writes[1].resource), Some(0xa2));
    assert_eq!(particles::buffer_usage(writes[2].resource), Some(0x120));
}

#[test]
fn severities_become_levels() {
    assert_eq!(level_of(Severity::VERBOSE.as_raw()), LogLevel::Debug);
    assert_eq!(level_of(Severity::INFO.as_raw()), LogLevel::Info);
    assert_eq!(level_of(Severity::WARNING.as_raw()), LogLevel::Warn);
    assert_eq!(level_of(Severity::ERROR.as_raw()), LogLevel::Error);
    assert_eq!(level_of(0), LogLevel::Warn);
    assert_eq!(message_severities(), 0x1101);
}

#[test]
fn loading_submits_all_commands() {
    let mut context = LoadingContext::new();
    context.load(1, &vec![10, 11]);
    context.load(2, &vec![12]);
    assert_eq!(context.to_submit(), &vec![1, 2]);
    assert!(context.leftovers().unsubmitted);
    assert!(!context.leftovers().uncompleted);
    context.submitted();
    assert!(context.to_submit().is_empty());
    assert!(context.leftovers().uncompleted);
    assert_eq!(context.completed(), (vec![1, 2], vec![10, 11, 12]));
    assert!(!context.leftovers().uncompleted);
}

#[test]
fn transient_commands_are_ended() {
    assert_eq!(TransientOrPersistent::Transient(4).to_end(), Some(4));
    assert_eq!(TransientOrPersistent::Persistent(4).to_end(), None);
    assert_eq!(TransientOrPersistent::Persistent(4).command_buffer(), 4);
}

#[test]
fn buffers_have_sizes() {
    let extent = BufferExtent::new(10, 12);
    assert_eq!((extent.len(), extent.size()), (10, 120));
    assert_eq!((extent.descriptor_range().offset, extent.descriptor_range().size), (0, 120));
    assert_eq!(Unknown::location(), MemoryLocation::Unknown);
    assert_eq!(GpuOnly::location(), MemoryLocation::GpuOnly);
    assert_eq!(CpuToGpu::location(), MemoryLocation::CpuToGpu);
    assert_eq!(GpuToCpu::location(), MemoryLocation::GpuToCpu);
}

#[test]
fn uniform_buffers_have_a_place_for_each_frame() {
    let buffer = VolatileUniformBuffer::new(100);
    assert_eq!(buffer.staging_buffer(), (200, 0x1));
    assert_eq!(buffer.gpu_buffer(), (100, 0x12));
    assert_eq!(buffer.frame_offset(0), 0);
    assert_eq!(buffer.frame_offset(1), 100);
    assert_eq!((buffer.copy_region(1).offset, buffer.copy_region(1).size), (100, 100));
    assert_eq!(buffer.descriptor_range().size, 100);
}

#[test]
fn pools_have_room_for_all_frames() {
    let counts: Vec<u32> = scene_pool_sizes(7).iter().map(|s| s.descriptor_count).collect();
    assert_eq!(counts, vec![2, 6, 14]);
    assert_eq!(scene_pool_sizes(0)[2].descriptor_count, 1);
    assert_eq!(scene_pool_sizes(512)[2].descriptor_count, 1024);
}
