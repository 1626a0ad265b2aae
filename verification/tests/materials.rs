use galaxy_engine::materials::config::{
    MaterialConfig, MaterialConfigError, MaterialConfigMap, MaterialConfigsCache, ParsedConfig,
    SubresourcePath,
};
use galaxy_engine::materials::constant::{ResourceBinding, ResourceConstant, ResourceRef};
use galaxy_engine::materials::material::{material_layout_bindings, ResourceBindings};
use galaxy_engine::materials::material_manager::{
    bindings_of, constants_buffer_size, encode_materials, material_buffer_size,
    LoadingMaterialManager, MaterialManager, DEFAULT_MATERIAL,
};
use galaxy_engine::pipelines::bindings::PipelineBindingMap;
use galaxy_engine::pipelines::config::{
    GraphicsPipelineBinding, GraphicsShaderStageFlags, PipelineBindingDataSize,
};
use galaxy_engine::pipelines::pipeline::GraphicsPipeline;
use galaxy_engine::resource_paths::ResourcePath;
use std::sync::Arc;

fn resource(path: &str) -> ResourcePath {
    ResourcePath::new(path, None).unwrap()
}

fn material(path: &str, name: &str) -> SubresourcePath {
    SubresourcePath::from_parts(resource(path), name.to_string()).unwrap()
}

fn config(pipeline: &str) -> MaterialConfig {
    MaterialConfig { pipeline: pipeline.to_string(), params: vec![] }
}

#[test]
fn colours_are_encoded_like_floats() {
    for value in 0..=255u8 {
        let expected = (value as f32 / 255.0).to_bits();
        assert_eq!(ResourceConstant::colour_component_encode(value), expected, "{value}");
    }
}

#[test]
fn constants_have_four_words() {
    let one = 1.0f32.to_bits();
    let half = 0.5f32.to_bits();
    assert_eq!(ResourceConstant::RGB(0, 255, 0).data(), [0, one, 0, 0]);
    assert_eq!(ResourceConstant::Float4(1, 2, 3, 4).data(), [1, 2, 3, 4]);
    assert_eq!(ResourceConstant::Float(half).data()[0], half);
    assert_eq!(ResourceConstant::Int(-1).data()[0], u32::MAX);
}

#[test]
fn zeros_share_a_constant() {
    let minus_zero = (-0.0f32).to_bits();
    assert!(ResourceConstant::Float2(0, minus_zero).is_zero());
    assert!(ResourceConstant::Int(0).is_zero());
    assert!(!ResourceConstant::Float3(0, 0, 1).is_zero());
    assert!(!ResourceConstant::RGB(0, 1, 0).is_zero());
    let mut constants = vec![[0; 4]];
    assert_eq!(ResourceConstant::Float(0).write_constant(&mut constants).0, 0);
    assert_eq!(constants.len(), 1);
    let five = ResourceConstant::Float(5).write_constant(&mut constants);
    assert_eq!(five.0, 1);
    assert_eq!(constants[1], ResourceConstant::Float(5).data());
}

#[test]
fn references_tell_textures_from_constants() {
    assert_eq!(ResourceRef::texture(3).0, 0x8000_0003);
    assert_eq!(ResourceRef::constant(3).0, 3);
    assert_eq!(ResourceRef::texture(0x7fff_ffff).0, 0xffff_ffff);
}

#[test]
fn subresources_have_names() {
    let path = material("/game/materials/walls", "brick");
    assert_eq!(path.subresource(), "brick");
    assert_eq!(path.resource().path().to_text(), "materials/walls");
    assert!(SubresourcePath::from_parts(resource("/game/a"), "b/c".to_string()).is_none());
    assert_ne!(path.key(), material("/game/materials/walls", "stone").key());
    assert_ne!(path.key(), material("/engine/materials/walls", "brick").key());
}

#[test]
fn texts_name_materials() {
    let named = |text: &str, relative_to: Option<&ResourcePath>| {
        SubresourcePath::new(text, relative_to)
            .map(|path| (path.resource().path().to_text(), path.subresource().to_string()))
    };
    let pair = |path: &str, name: &str| Some((path.to_string(), name.to_string()));
    assert_eq!(named("/game/materials/walls:brick", None), pair("materials/walls", "brick"));
    assert_eq!(named("/game/materials/walls", None), pair("materials/walls", "walls"));
    assert_eq!(named("/game/walls.old:a:b", None), pair("walls.old", "a:b"));
    assert_eq!(named("/game/walls.old", None), pair("walls.old", "walls"));
    assert_eq!(named("/game/walls:", None), pair("walls", ""));
    assert_eq!(named("/game/walls:a/b", None), None);
    assert_eq!(named("/game/..", None), None);
    assert_eq!(named("walls:brick", None), None);
    let level = resource("/game/levels/first");
    assert_eq!(named("walls:brick", Some(&level)), pair("levels/walls", "brick"));
}

#[test]
fn configurations_are_cached() {
    let mut cache = MaterialConfigsCache::new();
    let (one, several) = (resource("/game/one"), resource("/game/several"));
    assert!(!cache.is_loaded(&one));
    assert!(cache.store(&one, ParsedConfig::Single(config("p"))).is_ok());
    let mut map = MaterialConfigMap::new();
    map.insert("a".to_string(), config("pa"));
    map.insert("b".to_string(), config("pb"));
    assert_eq!(map.get("a").unwrap().pipeline, "pa");
    assert!(map.get("c").is_none());
    assert!(cache.store(&several, ParsedConfig::Several(map)).is_ok());
    assert!(cache.is_loaded(&one) && cache.is_loaded(&several));
    assert_eq!(cache.get(&material("/game/one", "any")).unwrap().pipeline, "p");
    assert_eq!(cache.get(&material("/game/several", "b")).unwrap().pipeline, "pb");
    assert_eq!(
        cache.get(&material("/game/several", "c")).err(),
        Some(MaterialConfigError::Resource)
    );
    assert_eq!(
        cache.get(&material("/game/none", "c")).err(),
        Some(MaterialConfigError::NotLoaded)
    );
    assert_eq!(
        cache.store(&resource("/game/bad"), ParsedConfig::Invalid),
        Err(MaterialConfigError::Parse)
    );
    assert!(!cache.is_loaded(&resource("/game/bad")));
}

fn bindings(entries: &[(&str, ResourceBinding)]) -> ResourceBindings {
    let mut bindings = ResourceBindings::new();
    for (name, binding) in entries {
        bindings.insert(name.to_string(), *binding);
    }
    bindings
}

fn pipeline(id: &str, bind_points: &[(&str, PipelineBindingDataSize)]) -> Arc<GraphicsPipeline> {
    let stages = GraphicsShaderStageFlags::all();
    let mut bindings = PipelineBindingMap::new();
    for (name, ty) in bind_points {
        bindings.insert(name.to_string(), GraphicsPipelineBinding { ty: *ty, stages });
    }
    Arc::new(GraphicsPipeline { handle: 1, id: id.to_string(), layout: 17, bindings })
}

fn float(value: f32) -> ResourceBinding {
    ResourceBinding::Constant(ResourceConstant::Float(value.to_bits()))
}

#[test]
fn materials_are_grouped_by_pipeline() {
    let mut loading = LoadingMaterialManager::new();
    let paths: Vec<SubresourcePath> =
        (0..4).map(|i| material("/game/m", &format!("{i}"))).collect();
    assert_eq!(loading.find_material(&paths[0]), None);
    let p = pipeline(
        "p",
        &[("map", PipelineBindingDataSize::Float4), ("colour", PipelineBindingDataSize::Float)],
    );
    let q = pipeline("q", &[("other", PipelineBindingDataSize::Float)]);
    for (i, pipeline) in [&p, &q, &p, &q].iter().enumerate() {
        let path = material("/game/m", &format!("{i}"));
        let entries = bindings(&[("colour", float(i as f32)), ("map", ResourceBinding::Texture(7))]);
        assert_eq!(loading.add_material(path, Arc::clone(pipeline), entries), i as u32);
    }
    assert_eq!(loading.find_material(&paths[2]), Some(2));
    assert_eq!(loading.material(3).pipeline().id, "q");
    assert_eq!(loading.material(3).cloned_pipeline().id, "q");
    assert_eq!(loading.material(3).pipeline_layout(), 17);
    assert_eq!(loading.num_pipelines(), 2);
    let loaded = loading.finalise_loading();
    let table = loaded.pipeline_table();
    assert_eq!(table.ids, vec![vec!['p'], vec!['q']]);
    assert_eq!(table.material_pipelines, vec![0, 1, 0, 1]);
    let (materials, groups) = (loaded.materials, loaded.groups);
    assert_eq!(groups, vec![vec![0, 2], vec![1, 3]]);
    assert_eq!(materials[1].level_index(), 1);
    assert_eq!(materials[2].path().subresource(), "2");
    let ids: Vec<&str> = loaded.pipelines.iter().map(|p| p.id.as_str()).collect();
    assert_eq!(ids, vec!["p", "q"]);
    let pipelines = bindings_of(&loaded.pipelines);
    let data = encode_materials(&materials, &groups, &pipelines);
    assert_eq!(data.group_starts, vec![0, 4, 6]);
    assert_eq!(data.refs[0], 0x8000_0007);
    // The first material has the colour zero, which shares the first constant.
    assert_eq!(data.refs[1], 0);
    assert_eq!(data.refs[2], 0x8000_0007);
    assert_eq!(data.constants[data.refs[3] as usize], ResourceConstant::Float(2.0f32.to_bits()).data());
    assert_eq!(data.refs.len(), 6);
    let unbound = PipelineBindingDataSize::Float.unbound();
    match unbound {
        ResourceBinding::Constant(constant) => {
            assert_eq!(data.constants[data.refs[4] as usize], constant.data())
        }
        ResourceBinding::Texture(_) => panic!("a texture"),
    }
    let manager = MaterialManager::new(&groups, &vec![1000, 2000], &vec![2, 1], 4);
    assert_eq!(manager.get_material_index(0), 0);
    assert_eq!(manager.get_material_index(2), 1);
    assert_eq!(manager.get_material_index(1), 2);
    assert_eq!(manager.get_material_index(3), 3);
    assert_eq!(manager.get_material_addr(0), 1000);
    assert_eq!(manager.get_material_addr(2), 1008);
    assert_eq!(manager.get_material_addr(3), 2004);
    assert_eq!(material_buffer_size(2, 2), 16);
    assert_eq!(constants_buffer_size(data.constants.len()), 16 * data.constants.len() as u64);
}

#[test]
fn missing_bindings_are_found_out() {
    let mut loading = LoadingMaterialManager::new();
    let entries = bindings(&[("colour", float(1.0)), ("colour", float(2.0))]);
    let index = loading.add_material(material("/game/m", "a"), pipeline("p", &[]), entries);
    assert_eq!(loading.material(index).get_resource_binding("colour"), Some(float(2.0)));
    assert_eq!(loading.material(index).resource_binding("colour"), Some(float(2.0)));
    assert_eq!(loading.material(index).get_resource_binding("map"), None);
}

#[test]
fn materials_have_two_descriptors() {
    let bindings = material_layout_bindings();
    assert_eq!((bindings[0].binding, bindings[0].descriptor_type), (0, 6));
    assert_eq!((bindings[1].binding, bindings[1].descriptor_type), (1, 1));
    assert_eq!(DEFAULT_MATERIAL, "/engine/materials/default");
}
