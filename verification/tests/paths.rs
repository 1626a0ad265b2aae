use galaxy_engine::path::Path;
use galaxy_engine::resource_paths::resource_type as types;
use galaxy_engine::resource_paths::{ResourcePath, ResourcePathBase};
use galaxy_engine::resources;

fn resource(path: &str) -> ResourcePath {
    ResourcePath::new(path, None).unwrap()
}

#[test]
fn paths_agree_with_std() {
    for text in ["", "/", "a", "a/b", "/a/b/", "./a", "a/./b", "a//b", "../a", "a/..", ".", ".."] {
        let expected: std::path::PathBuf = std::path::Path::new(text).components().collect();
        assert_eq!(Path::new(text).to_text(), expected.to_str().unwrap(), "{text:?}");
    }
}

#[test]
fn joins_agree_with_std() {
    for base in ["", "/", "a", "/a/b", "a/.."] {
        for tail in ["", "c", "c/d", "/c", "./c", ".."] {
            let joined = std::path::Path::new(base).join(tail);
            let expected: std::path::PathBuf = joined.components().collect();
            let path = Path::new(base).join(&Path::new(tail));
            assert_eq!(path.to_text(), expected.to_str().unwrap(), "{base:?} {tail:?}");
        }
    }
}

#[test]
fn stripping_undoes_joining() {
    let base = Path::new("/engine/materials");
    let tail = Path::new("stone/wall");
    let joined = base.join(&tail);
    assert!(joined.strip_prefix(&base).unwrap().same(&tail));
    assert!(joined.strip_prefix(&Path::new("/game")).is_none());
    assert!(joined.strip_prefix(&Path::new("/engine/mat")).is_none());
}

#[test]
fn names_and_extensions_agree_with_std() {
    for text in ["a/b.c", "a/b", "b.c.d", ".hidden", "a/..", "/", "x."] {
        let std_path = std::path::Path::new(text);
        let path = Path::new(text);
        assert_eq!(
            path.file_stem(),
            std_path.file_stem().map(|s| s.to_str().unwrap().to_string()),
            "{text:?}"
        );
        let mut with = path.copy();
        with.set_extension("ron");
        assert_eq!(with.to_text(), std_path.with_extension("ron").to_str().unwrap(), "{text:?}");
        let mut without = path.copy();
        without.set_extension("");
        assert_eq!(without.to_text(), std_path.with_extension("").to_str().unwrap(), "{text:?}");
        let named = path.with_file_name("n.m");
        let expected: std::path::PathBuf = std_path.with_file_name("n.m").components().collect();
        assert_eq!(named.to_text(), expected.to_str().unwrap(), "{text:?}");
        assert_eq!(
            path.parent().map(|p| p.to_text()),
            std_path.parent().map(|p| p.to_str().unwrap().to_string()),
            "{text:?}"
        );
        assert_eq!(path.is_absolute(), std_path.is_absolute());
    }
}

#[test]
fn resource_paths_name_their_base() {
    let engine = resource("/engine/materials/default");
    assert_eq!(engine.base(), ResourcePathBase::Engine);
    assert_eq!(engine.path().to_text(), "materials/default");
    let game = resource("/game/levels/start");
    assert_eq!(game.base(), ResourcePathBase::Game);
    assert_eq!(game.path().to_text(), "levels/start");
    assert!(ResourcePath::new("materials/default", None).is_none());
    assert!(ResourcePath::new("/elsewhere/x", None).is_none());
}

#[test]
fn relative_resource_paths_start_beside() {
    let level = resource("/game/levels/start");
    let mesh = ResourcePath::new("meshes/cube", Some(&level)).unwrap();
    assert_eq!(mesh.base(), ResourcePathBase::Game);
    assert_eq!(mesh.path().to_text(), "levels/meshes/cube");
    let absolute = ResourcePath::new("/engine/meshes/cube", Some(&level)).unwrap();
    assert_eq!(absolute.base(), ResourcePathBase::Engine);
    assert_eq!(absolute.path().to_text(), "meshes/cube");
}

#[test]
fn resource_keys_differ() {
    assert_ne!(resource("/engine/a").key(), resource("/game/a").key());
    assert_ne!(resource("/engine/a").key(), resource("/engine/b").key());
    assert_eq!(resource("/engine/a").key(), resource("/engine//a").key());
}

#[test]
fn full_paths_have_extensions() {
    let dir = Path::new("my_game");
    let mesh = resource("/game/meshes/cube").full_path::<types::Mesh>(&dir);
    let texture = resource("/engine/textures/stone").full_path::<types::Texture>(&dir);
    let level = resource("/game/levels/start").full_path::<types::Level>(&dir);
    assert!(mesh.to_text().starts_with("my_game/"));
    assert!(mesh.to_text().ends_with("meshes/cube.obj"));
    assert!(texture.to_text().starts_with("galaxy_engine/"));
    assert!(texture.to_text().ends_with("textures/stone.ktx2"));
    assert!(level.to_text().ends_with("levels/start.level.ron"));
}

#[test]
fn typed_resource_paths() {
    let path = resources::MeshResourcePath::new("/engine/meshes/cube").unwrap();
    let texture: resources::TextureResourcePath = path.relative_resource("stone");
    let dir = Path::new("my_game");
    assert!(texture.full_path(&dir, false).to_text().contains("meshes/stone"));
    assert!(resources::MeshResourcePath::new("cube").is_none());
    assert!(resources::MeshResourcePath::new_from_path(&Path::new("/game/cube")).is_some());
}
