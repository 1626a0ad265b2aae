use galaxy_engine::materials::material::{plan_material, MaterialError, PlannedBinding};
use galaxy_engine::materials::config::{MaterialConfig, ResourceBindingConfig};
use galaxy_engine::materials::constant::ResourceConstant;
use galaxy_engine::pipelines::bindings::{BindingMap, PipelineBindingMap};
use galaxy_engine::pipelines::config::{
    scene_descriptor_set_layout_bindings, ComputeResourceType, GraphicsPipelineBinding,
    GraphicsShaderStageFlags, PipelineBindingDataSize, PushConstantBinding,
};
use galaxy_engine::pipelines::pipeline::{
    graphics_pipeline_info, handle_pipeline_create, partition_configs, ComputePipeline,
    ComputePipelineConfig, GraphicsPipelineConfig, Pipeline, PipelineConfig, VertexInputType,
};
use galaxy_engine::pipelines::pipeline_manager::{
    pipeline_id, retired, without_extensions, PipelineLayoutEntry, PipelineManager,
};
use galaxy_engine::resource_paths::ResourcePath;
use galaxy_engine::utils::arc_final_owner::FinalOwnerError;

fn binding(ty: PipelineBindingDataSize) -> GraphicsPipelineBinding {
    GraphicsPipelineBinding { ty, stages: GraphicsShaderStageFlags::all() }
}

fn binding_map(entries: &[(&str, PipelineBindingDataSize)]) -> PipelineBindingMap {
    let mut bindings = BindingMap::new();
    for (name, ty) in entries {
        bindings.insert(name.to_string(), binding(*ty));
    }
    bindings
}

fn graphics(id: &str, bindings: &[(&str, PipelineBindingDataSize)]) -> GraphicsPipelineConfig {
    GraphicsPipelineConfig {
        id: id.to_string(),
        vertex_shader: "scene".to_string(),
        input_type: VertexInputType::PositionTexCoord,
        fragment_shader: "scene".to_string(),
        multisample_enable: true,
        depth_enable: true,
        push_constant: Some(PushConstantBinding::DrawOffset),
        bindings: binding_map(bindings),
    }
}

fn compute(id: &str, types: &[ComputeResourceType]) -> ComputePipelineConfig {
    let mut bindings = BindingMap::new();
    for (i, ty) in types.iter().enumerate() {
        bindings.insert(format!("r{i}"), *ty);
    }
    ComputePipelineConfig {
        id: id.to_string(),
        shader: "copy".to_string(),
        num_threads: [8, 4, 2],
        push_constant: Some(PushConstantBinding::ComputeInt2),
        bindings,
    }
}

#[test]
fn pipelines_are_named_after_their_files() {
    let id = |path: &str| pipeline_id(path);
    assert_eq!(
        id("galaxy_engine/content/shaders/gui/gui.pipeline.ron"),
        Some("/engine/gui/gui".to_string())
    );
    assert_eq!(
        id("galaxy_engine/content/shaders/scene.pipeline.ron"),
        Some("/engine/scene".to_string())
    );
    assert_eq!(
        id("galaxy_engine/content/shaders/a.b/c.pipeline.ron"),
        Some("/engine/a".to_string())
    );
    assert_eq!(id("elsewhere/scene.pipeline.ron"), None);
    assert_eq!(without_extensions("/a/b.c.d"), "/a/b");
    assert_eq!(without_extensions("ab"), "ab");
}

#[test]
fn configurations_are_parted() {
    let configs = vec![
        PipelineConfig::Graphics(graphics("g1", &[])),
        PipelineConfig::Compute(compute("c1", &[])),
        PipelineConfig::Graphics(graphics("g2", &[])).with_id("g3".to_string()),
        PipelineConfig::Compute(compute("c2", &[])).with_id("c3".to_string()),
    ];
    let (graphics, compute) = partition_configs(configs);
    let ids: Vec<&str> = graphics.iter().map(|c| c.id.as_str()).collect();
    assert_eq!(ids, vec!["g1", "g3"]);
    let ids: Vec<&str> = compute.iter().map(|c| c.id.as_str()).collect();
    assert_eq!(ids, vec!["c1", "c3"]);
}

#[test]
fn created_pipelines_are_destroyed_on_errors() {
    match handle_pipeline_create(Ok(vec![1, 0, 2])) {
        Ok(handles) => assert_eq!(handles, vec![1, 0, 2]),
        Err(_) => panic!("an error"),
    }
    match handle_pipeline_create(Err((vec![1, 0, 2, 0], -3))) {
        Ok(_) => panic!("no error"),
        Err(error) => {
            assert_eq!(error.error, -3);
            assert_eq!(error.created, vec![1, 2]);
        }
    }
}

#[test]
fn pipelines_are_created_as_configured() {
    let mut config = graphics("g", &[]);
    let info = graphics_pipeline_info(&config, 5, 4);
    assert_eq!((info.samples, info.layout), (4, 5));
    assert!(info.depth_test_enable && info.depth_write_enable);
    assert_eq!(info.depth_compare_op, ash::vk::CompareOp::GREATER.as_raw());
    assert_eq!(info.vertex_binding.stride, 20);
    assert_eq!(info.vertex_attributes.len(), 2);
    config.multisample_enable = false;
    config.depth_enable = false;
    config.input_type = VertexInputType::PositionColourTexCoord;
    let info = graphics_pipeline_info(&config, 5, 4);
    assert_eq!(info.samples, 1);
    assert!(!info.depth_test_enable);
    assert_eq!(info.vertex_attributes.len(), 3);
}

#[test]
fn threads_are_multiplied() {
    let pipeline = ComputePipeline::created(9, compute("c", &[]), 3);
    assert_eq!(pipeline.num_threads_per_group(), &[8, 4, 2]);
    assert_eq!(pipeline.total_threads_per_group(), 64);
    assert_eq!((pipeline.handle, pipeline.layout), (9, 3));
}

#[test]
fn push_constants_have_ranges() {
    let range = PushConstantBinding::ComputeInt4.push_constant_range();
    assert_eq!((range.stage_flags, range.offset, range.size), (0x20, 0, 16));
    let range = PushConstantBinding::DrawOffset.push_constant_range();
    assert_eq!((range.stage_flags, range.size), (0x1, 4));
    assert_eq!(PushConstantBinding::ComputeInt.push_constant_range().size, 4);
    assert_eq!(PushConstantBinding::ComputeInt2.push_constant_range().size, 8);
    let entry = PipelineLayoutEntry { push_constant: None, descriptor_set_layout: 1 };
    assert_eq!(entry.push_constant_range(), None);
}

#[test]
fn binding_types_have_layouts() {
    let sizes: Vec<(usize, usize)> = [
        PipelineBindingDataSize::Float,
        PipelineBindingDataSize::Float2,
        PipelineBindingDataSize::Float3,
        PipelineBindingDataSize::Float4,
        PipelineBindingDataSize::Normal,
    ]
    .iter()
    .map(|ty| (ty.layout().size, ty.layout().align))
    .collect();
    assert_eq!(sizes, vec![(4, 4), (8, 8), (12, 16), (16, 16), (12, 16)]);
}

#[test]
fn stages_are_visible() {
    assert_eq!(GraphicsShaderStageFlags::all().vk(), 0x11);
    assert_eq!(GraphicsShaderStageFlags { bits: 1 }.vk(), 0x11);
    assert_eq!(GraphicsShaderStageFlags { bits: 2 }.vk(), 0);
    assert_eq!(GraphicsShaderStageFlags { bits: 0 }.vk(), 0);
}

#[test]
fn scene_has_five_bindings() {
    let bindings = scene_descriptor_set_layout_bindings();
    let counts: Vec<u32> = bindings.iter().map(|b| b.descriptor_count).collect();
    assert_eq!(counts, vec![1, 1, 1, 1, 64]);
    let types: Vec<i32> = bindings.iter().map(|b| b.descriptor_type).collect();
    assert_eq!(types, vec![6, 7, 7, 7, 1]);
    let stages: Vec<u32> = bindings.iter().map(|b| b.stage_flags).collect();
    assert_eq!(stages, vec![0x11, 0x1, 0x11, 0x10, 0x10]);
}

fn manager() -> PipelineManager {
    let mut manager = PipelineManager::new(1);
    let config = graphics("/engine/scene", &[("albedo", PipelineBindingDataSize::Float4)]);
    let entry = manager.graphics_layout_entry(&config);
    assert_eq!(manager.get_pipeline_layout(&entry), None);
    manager.add_pipeline_layout(entry, 20);
    manager.add_graphics_pipeline(30, config, 20);
    manager
}

#[test]
fn pipelines_are_found() {
    let mut manager = manager();
    assert_eq!(manager.get_draw_layout(), Some(20));
    assert_eq!(manager.get_graphics_pipeline("/engine/scene").unwrap().handle, 30);
    assert!(manager.get_graphics_pipeline("/engine/other").is_none());
    assert!(manager.get_bind_point_id("albedo"));
    assert!(!manager.get_bind_point_id("normal"));
    manager.add_graphics_pipeline(31, graphics("/engine/scene", &[]), 20);
    assert_eq!(manager.get_graphics_pipeline("/engine/scene").unwrap().handle, 31);
    assert!(PipelineManager::new(1).get_draw_layout().is_none());
}

#[test]
fn set_layouts_are_shared() {
    let mut manager = manager();
    let types = [ComputeResourceType::StorageBuffer, ComputeResourceType::UniformBuffer];
    let config = compute("c", &types);
    assert!(manager.compute_layout_entry(&config).is_none());
    match manager.find_compute_set_layout(&config) {
        Ok(_) => panic!("found"),
        Err(bindings) => {
            let types: Vec<i32> = bindings.iter().map(|b| b.descriptor_type).collect();
            assert_eq!(types, vec![7, 6]);
            let numbers: Vec<u32> = bindings.iter().map(|b| b.binding).collect();
            assert_eq!(numbers, vec![0, 1]);
        }
    }
    manager.add_compute_set_layout(config.binding_types(), 40);
    assert_eq!(manager.find_compute_set_layout(&compute("d", &types)).ok(), Some(40));
    assert_eq!(manager.get_compute_descriptor_set_layout(&types.to_vec()), Some(40));
    assert_eq!(manager.get_compute_descriptor_set_layout(&vec![]), None);
    let entry = manager.compute_layout_entry(&config).unwrap();
    assert_eq!(entry.descriptor_set_layout, 40);
    manager.add_pipeline_layout(entry, 41);
    manager.add_compute_pipeline(42, config, 41);
    assert_eq!(manager.get_compute_pipeline("c").unwrap().handle, 42);
    assert!(manager.get_compute_pipeline("d").is_none());
}

#[test]
fn pipelines_are_added_together() {
    let mut manager = PipelineManager::new(1);
    let bindings = [("map", PipelineBindingDataSize::Float4)];
    let configs = vec![graphics("a", &[]), graphics("b", &bindings), graphics("a", &[])];
    manager.add_graphics_pipelines(&vec![10, 11, 12], configs, &vec![20, 21, 22]);
    let a = manager.get_graphics_pipeline("a").unwrap();
    assert_eq!((a.handle, a.layout), (12, 22));
    let b = manager.get_graphics_pipeline("b").unwrap();
    assert_eq!((b.handle, b.layout), (11, 21));
    assert!(manager.get_bind_point_id("map"));
    manager.add_compute_pipelines(
        &vec![30, 31],
        vec![compute("c", &[]), compute("d", &[])],
        &vec![40, 41],
    );
    let d = manager.get_compute_pipeline("d").unwrap();
    assert_eq!((d.handle, d.layout), (31, 41));
    assert_eq!(manager.get_compute_pipeline("c").unwrap().handle, 30);
}

#[test]
fn pipelines_that_were_taken_back_retire() {
    let mut manager = PipelineManager::new(1);
    manager.add_compute_pipeline(42, compute("c", &[]), 41);
    let pipeline = ComputePipeline::created(7, compute("d", &[]), 8);
    let taken = retired("d".to_string(), Ok(pipeline));
    assert_eq!((taken.id.as_str(), taken.handle), ("d", Some(7)));
    let shared = retired::<ComputePipeline>("e".to_string(), Err(FinalOwnerError::NotLastOwner));
    assert_eq!((shared.id.as_str(), shared.handle), ("e", None));
    assert_eq!(manager.teardown().pipelines[0].handle, Some(42));
}

#[test]
fn shared_pipelines_survive() {
    let mut manager = manager();
    manager.add_graphics_pipeline(31, graphics("/engine/gui/gui", &[]), 20);
    manager.add_compute_set_layout(vec![ComputeResourceType::UniformBuffer], 40);
    manager.add_compute_pipeline(42, compute("c", &[]), 41);
    let gui = manager.get_cloned_graphics_pipeline("/engine/gui/gui").unwrap();
    assert!(manager.get_cloned_graphics_pipeline("/engine/other").is_none());
    let teardown = manager.teardown();
    let pipelines: Vec<(&str, Option<u64>)> =
        teardown.pipelines.iter().map(|p| (p.id.as_str(), p.handle)).collect();
    assert_eq!(
        pipelines,
        vec![("/engine/scene", Some(30)), ("/engine/gui/gui", None), ("c", Some(42))]
    );
    assert_eq!(teardown.descriptor_set_layouts, vec![40, 1]);
    assert_eq!(teardown.pipeline_layouts, vec![20]);
    assert_eq!((gui.handle(), gui.id(), gui.layout()), (31, "/engine/gui/gui", 20));
    assert_eq!(gui.cloned_id(), "/engine/gui/gui");
}

#[test]
fn bindings_are_laid_out() {
    let manager = {
        let mut manager = PipelineManager::new(0);
        let bindings =
            [("a", PipelineBindingDataSize::Float), ("b", PipelineBindingDataSize::Float3)];
        manager.add_graphics_pipeline(1, graphics("p", &bindings), 0);
        manager
    };
    let layout = manager.get_graphics_pipeline("p").unwrap().bindings_layout();
    assert_eq!(layout.num_fields(), 3);
    assert_eq!((layout.offset(0), layout.offset(1), layout.offset(2)), (0, 16, 28));
    assert_eq!(layout.size(), 32);
}

#[test]
fn materials_are_planned() {
    let manager = manager();
    let path = ResourcePath::new("/game/materials/wall", None).unwrap();
    let mut config = MaterialConfig {
        pipeline: "/engine/scene".to_string(),
        params: vec![(
            "albedo".to_string(),
            ResourceBindingConfig::Texture("brick".to_string()),
        )],
    };
    let plan = match plan_material(&config, &manager, &path) {
        Ok(plan) => plan,
        Err(_) => panic!("not planned"),
    };
    assert_eq!((plan.pipeline.id(), plan.pipeline.handle()), ("/engine/scene", 30));
    match &plan.bindings[0].1 {
        PlannedBinding::Texture(texture) => assert_eq!(texture.path().to_text(), "materials/brick"),
        PlannedBinding::Constant(_) => panic!("a constant"),
    }
    config.params.push((
        "roughness".to_string(),
        ResourceBindingConfig::Constant(ResourceConstant::Int(1)),
    ));
    match plan_material(&config, &manager, &path) {
        Err(MaterialError::UnknownBindPoint(name)) => assert_eq!(name, "roughness"),
        _ => panic!("accepted"),
    }
    config.pipeline = "/engine/none".to_string();
    match plan_material(&config, &manager, &path) {
        Err(MaterialError::PipelineNotFound(id)) => assert_eq!(id, "/engine/none"),
        _ => panic!("accepted"),
    }
}

#[test]
fn bindings_are_kept_by_name_and_in_order() {
    let (float, float4) = (PipelineBindingDataSize::Float, PipelineBindingDataSize::Float4);
    let bindings = binding_map(&[("colour", float), ("map", float4), ("colour", float4)]);
    assert_eq!(bindings.len(), 2);
    let (name, first) = bindings.entry(0).unwrap();
    assert_eq!((name.as_str(), first.ty), ("colour", float4));
    let (name, second) = bindings.entry(1).unwrap();
    assert_eq!((name.as_str(), second.ty), ("map", float4));
    assert!(bindings.entry(2).is_none());

    let bindings = binding_map(&[("map", float4), ("colour", float)]);
    let types: Vec<PipelineBindingDataSize> = bindings.values().iter().map(|b| b.ty).collect();
    assert_eq!(types, vec![float4, float]);
    assert!(PipelineBindingMap::new().entry(0).is_none());
}
