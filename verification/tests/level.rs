use galaxy_engine::engine::{ElementState, KeyInput, LogicalKey};
use galaxy_engine::level::config::{
    fit_materials, BufferIndex, EntityConfig, LevelConfig, LoadError, ModelConfig, Name,
};
use galaxy_engine::level::draw::{
    list_draws, pipeline_draw_ranges, sort_draws, write_draws, PipelineDrawSlice, PipelineTable,
    SceneModel,
};
use galaxy_engine::level::order::{text_eq, text_is_le};
use galaxy_engine::level::scene::{
    camera_movement, count_models, plan_render, plan_scene, scene_writes, CameraMovement,
    SceneResource,
};
use galaxy_engine::materials::material_manager::MaterialManager;
use galaxy_engine::meshes::buffer::MeshBuffer;
use galaxy_engine::meshes::mesh_manager::{LoadingMeshManager, MeshManager};
use galaxy_engine::meshes::optimise::MeshElementOffset;
use galaxy_engine::resource_paths::ResourcePath;

fn model(mesh: u32, materials: &[u32]) -> SceneModel {
    SceneModel { mesh, materials: materials.to_vec() }
}

fn table() -> PipelineTable {
    PipelineTable {
        ids: vec!["b".chars().collect(), "a".chars().collect()],
        material_pipelines: vec![0, 1, 0],
    }
}

fn models() -> Vec<SceneModel> {
    vec![model(1, &[0, 1]), model(0, &[2]), model(1, &[0, 1])]
}

#[test]
fn draws_are_listed_by_model() {
    let draws = list_draws(&models());
    let keys: Vec<(u32, u32, u32, u32)> =
        draws.iter().map(|d| (d.mesh, d.element, d.material, d.transform_index)).collect();
    assert_eq!(
        keys,
        vec![(1, 0, 0, 0), (1, 1, 1, 0), (0, 0, 2, 1), (1, 0, 0, 2), (1, 1, 1, 2)]
    );
    assert_eq!(count_models(&models()), (3, 5));
}

#[test]
fn draws_are_sorted_by_pipeline() {
    let draws = sort_draws(&table(), &list_draws(&models()));
    let keys: Vec<(u32, u32, u32)> =
        draws.iter().map(|d| (d.material, d.mesh, d.transform_index)).collect();
    assert_eq!(keys, vec![(1, 1, 0), (1, 1, 2), (2, 0, 1), (0, 1, 0), (0, 1, 2)]);
    let ranges = pipeline_draw_ranges(&table(), &draws);
    assert_eq!(
        ranges,
        vec![
            PipelineDrawSlice { pipeline: 1, offset: 0, len: 2 },
            PipelineDrawSlice { pipeline: 0, offset: 2, len: 3 },
        ]
    );
    let plan = plan_scene(&models(), &table());
    assert_eq!(plan.draws, draws);
    assert_eq!(plan.ranges, ranges);
    assert!(plan_scene(&Vec::new(), &table()).ranges.is_empty());
}

#[test]
fn draw_commands_are_written() {
    let draws = sort_draws(&table(), &list_draws(&models()));
    let element = |vertex_count: u32, index_count: u32| MeshElementOffset {
        vertex_offset: 0,
        vertex_count,
        index_offset: 0,
        index_count,
    };
    let mut loading = LoadingMeshManager::new();
    let path = |name: &str| ResourcePath::new(name, None).unwrap();
    let buffer = MeshBuffer::new::<u32>(100, 200, 10, 3);
    loading.add_mesh(&path("/game/a"), buffer, vec![element(10, 3)]);
    let buffer = MeshBuffer::new::<u32>(1000, 300, 15, 15);
    loading.add_mesh(&path("/game/b"), buffer, vec![element(10, 6), element(5, 9)]);
    let meshes = MeshManager::new(loading.finalise_loading());
    let groups = vec![vec![0, 2], vec![1]];
    let materials = MaterialManager::new(&groups, &vec![500, 600], &vec![5, 1], 3);

    let (data, commands) = write_draws(&draws, &meshes, &materials, 4);
    assert_eq!((data.len(), commands.len()), (4, 4));
    assert_eq!((data[0].material, data[0].transform_index), (600, 0));
    assert_eq!((data[2].material, data[2].transform_index), (520, 1));
    assert_eq!((commands[0].index_count, commands[0].first_index), (9, 9));
    assert_eq!(commands[0].vertex_offset, 20);
    assert_eq!((commands[2].index_count, commands[2].instance_count), (3, 1));
    assert_eq!((commands[3].index_count, commands[3].first_index), (6, 3));
    let (data, _) = write_draws(&draws, &meshes, &materials, 9);
    assert_eq!(data.len(), 5);
}

#[test]
fn runs_are_drawn_indirectly() {
    let ranges = vec![
        PipelineDrawSlice { pipeline: 1, offset: 0, len: 2 },
        PipelineDrawSlice { pipeline: 0, offset: 0x1_0203, len: 3 },
    ];
    let draws = plan_render(Some(9), &ranges, 1000).unwrap();
    assert_eq!((draws[0].buffer_offset, draws[0].draw_count, draws[0].stride), (1000, 2, 20));
    assert_eq!(draws[1].push_bytes, 0x1_0203u32.to_le_bytes());
    assert_eq!(draws[1].buffer_offset, 1000 + 20 * 0x1_0203);
    assert!(plan_render(None, &ranges, 0).is_none());
    let size = std::mem::size_of::<ash::vk::DrawIndexedIndirectCommand>();
    assert_eq!(draws[0].stride as usize, size);
}

#[test]
fn scene_descriptors_are_written_for_each_frame() {
    let writes = scene_writes(3);
    assert_eq!(writes.len(), 10);
    let places: Vec<(usize, u32)> = writes.iter().map(|w| (w.frame, w.binding)).collect();
    assert_eq!(
        places,
        vec![
            (0, 0), (0, 1), (0, 2), (0, 3), (1, 0), (1, 1), (1, 2), (1, 3), (0, 4), (1, 4)
        ]
    );
    assert_eq!(writes[5].resource, SceneResource::Transforms);
    assert_eq!(writes[9].resource, SceneResource::Textures);
    assert_eq!(writes[9].descriptor_type, 1);
    assert_eq!(writes[0].descriptor_type, 6);
    assert_eq!(scene_writes(0).len(), 8);
}

#[test]
fn keys_move_the_camera() {
    let mut keys = KeyInput::new();
    assert_eq!(camera_movement(&keys), CameraMovement { forward: 0, right: 0, up: 0 });
    for key in ["w", "a", "e", "q"] {
        keys.notify_keyboard_input(&LogicalKey::Character(key.to_string()), ElementState::Pressed);
    }
    assert_eq!(camera_movement(&keys), CameraMovement { forward: 1, right: -1, up: 0 });
    keys.notify_keyboard_input(&LogicalKey::Character("w".to_string()), ElementState::Released);
    for key in ["s", "d"] {
        keys.notify_keyboard_input(&LogicalKey::Character(key.to_string()), ElementState::Pressed);
    }
    assert_eq!(camera_movement(&keys), CameraMovement { forward: -1, right: 0, up: 0 });
}

#[test]
fn indices_may_be_unknown() {
    let mut index = BufferIndex::default();
    assert!(!index.is_valid());
    assert_eq!(index.get(), None);
    index.set(0);
    assert!(index.is_valid());
    assert_eq!(index.get(), Some(0));
    index.set(u32::MAX);
    assert_eq!(index.get(), None);
}

#[test]
fn levels_have_named_entities() {
    let level = LevelConfig {
        entities: vec![EntityConfig { name: "cube".to_string(), components: vec![1, 2] }],
    };
    assert_eq!(Name::new(&level.entities[0].name).name(), "cube");
}

#[test]
fn models_have_materials() {
    let mut config = ModelConfig { mesh: "meshes/cube".to_string(), materials: vec![] };
    config.ensure_material();
    assert_eq!(config.materials, vec!["/engine/materials/default".to_string()]);
    config.ensure_material();
    assert_eq!(config.materials.len(), 1);
    let level = ResourcePath::new("/game/levels/start", None).unwrap();
    match config.mesh_path(&level) {
        Ok(path) => assert_eq!(path.path().to_text(), "levels/meshes/cube"),
        Err(_) => panic!("no path"),
    }
}

#[test]
fn unresolved_paths_are_reported() {
    let error = LoadError::ResourcePath("x".to_string());
    assert!(matches!(error, LoadError::ResourcePath(path) if path == "x"));
    assert!(matches!(LoadError::NoCameraComponent, LoadError::NoCameraComponent));
}

#[test]
fn materials_fit_elements() {
    assert_eq!(fit_materials(vec![4, 5], 4), vec![4, 5, 5, 5]);
    assert_eq!(fit_materials(vec![4, 5, 6], 2), vec![4, 5]);
    assert_eq!(fit_materials(vec![4, 5], 2), vec![4, 5]);
    assert_eq!(fit_materials(vec![4], 0), Vec::<u32>::new());
}

#[test]
fn text_order_agrees_with_std() {
    let words = ["", "a", "ab", "b", "/engine", "\u{e4}", "\u{10000}", "\u{ffff}"];
    for a in words {
        for b in words {
            let (x, y): (Vec<char>, Vec<char>) = (a.chars().collect(), b.chars().collect());
            assert_eq!(text_is_le(&x, &y), a <= b, "{a:?} {b:?}");
            assert_eq!(text_eq(&x, &y), a == b);
        }
    }
}
