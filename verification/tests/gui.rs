use galaxy_engine::gui::draw::{build_frame, check_meshes, GuiMesh};
use galaxy_engine::gui::sampler::{
    SamplerCache, TextureFilter, TextureOptions, TextureWrapMode,
};
use galaxy_engine::gui::textures::{GuiTextures, TextureId, TextureTransition, TextureUpdate};
use galaxy_engine::vk::{Rect2D, LAYOUT_SHADER_READ_ONLY_OPTIMAL, LAYOUT_UNDEFINED};
use std::collections::HashSet;

const OPTIONS: TextureOptions = TextureOptions {
    magnification: TextureFilter::Linear,
    minification: TextureFilter::Nearest,
    wrap_mode: TextureWrapMode::Repeat,
    mipmap_mode: None,
};

fn whole(id: TextureId, width: u32, height: u32) -> TextureUpdate {
    TextureUpdate { id, width, height, pos: None, options: OPTIONS }
}

fn part(id: TextureId, width: u32, height: u32, pos: (i32, i32)) -> TextureUpdate {
    TextureUpdate { id, width, height, pos: Some(pos), options: OPTIONS }
}

fn all_options() -> Vec<TextureOptions> {
    let filters = [TextureFilter::Nearest, TextureFilter::Linear];
    let wraps =
        [TextureWrapMode::ClampToEdge, TextureWrapMode::Repeat, TextureWrapMode::MirroredRepeat];
    let mips = [None, Some(TextureFilter::Nearest), Some(TextureFilter::Linear)];
    let mut all = Vec::new();
    for magnification in filters {
        for minification in filters {
            for wrap_mode in wraps {
                for mipmap_mode in mips {
                    all.push(TextureOptions { magnification, minification, wrap_mode, mipmap_mode });
                }
            }
        }
    }
    all
}

/// Places updates one after the other, and tells which of them created a texture.
fn place(textures: &mut GuiTextures, updates: &[TextureUpdate], samplers: &[u64]) -> Vec<bool> {
    let mut created = Vec::new();
    for (update, sampler) in updates.iter().zip(samplers) {
        created.push(textures.creates_texture(update));
        textures.place_update(update, *sampler);
    }
    created
}

#[test]
fn options_have_distinct_numbers() {
    let numbers: HashSet<u64> = all_options().iter().map(|o| o.number()).collect();
    assert_eq!(numbers.len(), 36);
}

#[test]
fn samplers_are_created_once() {
    let mut cache = SamplerCache::new();
    for (i, options) in all_options().iter().enumerate() {
        assert_eq!(cache.get(options), None);
        cache.insert(options, i as u64 + 100);
    }
    for (i, options) in all_options().iter().enumerate() {
        assert_eq!(cache.get(options), Some(i as u64 + 100));
    }
    assert_eq!(cache.handles().len(), 36);
}

#[test]
fn sampler_settings_follow_options() {
    let info = OPTIONS.sampler_info();
    assert_eq!(info.mag_filter, ash::vk::Filter::LINEAR.as_raw());
    assert_eq!(info.min_filter, ash::vk::Filter::NEAREST.as_raw());
    assert_eq!(info.address_mode, ash::vk::SamplerAddressMode::REPEAT.as_raw());
    assert_eq!(info.border_color, ash::vk::BorderColor::INT_OPAQUE_BLACK.as_raw());
    assert_eq!(info.mipmap_mode, ash::vk::SamplerMipmapMode::LINEAR.as_raw());
    let other = TextureOptions {
        wrap_mode: TextureWrapMode::MirroredRepeat,
        mipmap_mode: Some(TextureFilter::Nearest),
        ..OPTIONS
    };
    let info = other.sampler_info();
    assert_eq!(info.address_mode, ash::vk::SamplerAddressMode::MIRRORED_REPEAT.as_raw());
    assert_eq!(info.mipmap_mode, ash::vk::SamplerMipmapMode::NEAREST.as_raw());
    let other = TextureOptions { wrap_mode: TextureWrapMode::ClampToEdge, ..OPTIONS };
    assert_eq!(
        other.sampler_info().address_mode,
        ash::vk::SamplerAddressMode::CLAMP_TO_EDGE.as_raw()
    );
}

#[test]
fn uploads_create_textures() {
    let mut textures = GuiTextures::new();
    let (a, b) = (TextureId::Managed(0), TextureId::User(0));
    let updates = vec![whole(a, 4, 2), whole(b, 1, 3)];
    assert!(textures.check_updates(&updates));
    assert_eq!(textures.begin_upload(&updates, 0), 32 + 12);
    assert_eq!(textures.len(), 0);
    let created = place(&mut textures, &updates, &[70, 71]);
    assert_eq!(created, vec![true, true]);
    let plan = textures.plan_upload(&updates, &created);
    assert_eq!(
        plan.transitions,
        vec![
            TextureTransition { texture: 0, layout: LAYOUT_UNDEFINED },
            TextureTransition { texture: 1, layout: LAYOUT_UNDEFINED },
        ]
    );
    assert_eq!(plan.copies[0].buffer_offset, 0);
    assert_eq!(plan.copies[1].buffer_offset, 32);
    assert_eq!((plan.copies[1].texture, plan.copies[1].width, plan.copies[1].height), (1, 1, 3));
    assert!(textures.needs_descriptors(0));
    textures.descriptors_written(0);
    assert!(!textures.needs_descriptors(0) && textures.needs_descriptors(1));
    assert_eq!(textures.begin_upload(&updates, 0), 44);
    assert!(textures.needs_descriptors(0));
    assert_eq!(textures.len(), 2);
    assert_eq!(textures.index_of(&a), Some(0));
    assert_eq!(textures.index_of(&b), Some(1));
    assert_eq!(textures.sampler(1), Some(71));
    assert_eq!(textures.sampler(2), None);
}

#[test]
fn updates_of_parts_need_textures() {
    let mut textures = GuiTextures::new();
    let id = TextureId::Managed(3);
    assert!(!textures.check_updates(&vec![part(id, 1, 1, (0, 0))]));
    assert!(!textures.check_updates(&vec![part(id, 1, 1, (0, 0)), whole(id, 2, 2)]));
    let updates = vec![whole(id, 4, 4), part(id, 2, 1, (1, 3))];
    assert!(textures.check_updates(&updates));
    let created = place(&mut textures, &updates, &[1, 2]);
    assert_eq!(created, vec![true, false]);
    let plan = textures.plan_upload(&updates, &created);
    // The last update of a texture decides the layout that it is found in.
    assert_eq!(
        plan.transitions,
        vec![TextureTransition { texture: 0, layout: LAYOUT_SHADER_READ_ONLY_OPTIMAL }]
    );
    assert_eq!((plan.copies[1].x, plan.copies[1].y), (1, 3));
    assert_eq!(plan.copies[1].buffer_offset, 64);
    assert_eq!(textures.sampler(0), Some(1));
    assert!(textures.check_updates(&vec![part(id, 1, 1, (0, 0))]));
}

#[test]
fn sizes_of_updates_are_counted() {
    let textures = GuiTextures::new();
    let huge = whole(TextureId::Managed(0), u32::MAX, u32::MAX);
    assert!(!textures.check_updates(&vec![huge]));
    let large = whole(TextureId::Managed(0), 1 << 31, 1 << 30);
    assert!(textures.check_updates(&vec![large]));
    assert!(!textures.check_updates(&vec![large, large]));
}

#[test]
fn nothing_to_upload() {
    let mut textures = GuiTextures::new();
    assert!(textures.needs_descriptors(0));
    assert_eq!(textures.begin_upload(&Vec::new(), 0), 0);
    assert!(textures.needs_descriptors(0));
    textures.descriptors_written(0);
    let empty = vec![whole(TextureId::User(1), 0, 5), part(TextureId::User(2), 0, 1, (0, 0))];
    assert!(textures.check_updates(&empty));
    assert_eq!(textures.begin_upload(&empty, 0), 0);
    assert!(!textures.needs_descriptors(0));
    assert_eq!(textures.len(), 0);
}

#[test]
fn freed_textures_are_replaced_by_the_last() {
    let mut textures = GuiTextures::new();
    let ids: Vec<TextureId> = (0..4).map(TextureId::Managed).collect();
    let updates: Vec<TextureUpdate> = ids.iter().map(|id| whole(*id, 1, 1)).collect();
    place(&mut textures, &updates, &[0, 1, 2, 3]);
    let places = textures.free(&vec![ids[1], TextureId::User(1), ids[0], ids[0]]);
    assert_eq!(places, vec![1, 0]);
    assert_eq!(textures.len(), 2);
    assert_eq!(textures.index_of(&ids[2]), Some(0));
    assert_eq!(textures.index_of(&ids[3]), Some(1));
    assert_eq!(textures.index_of(&ids[1]), None);
    assert_eq!(textures.sampler(0), Some(2));
    assert_eq!(textures.sampler(1), Some(3));
    let places = textures.free(&vec![ids[3], ids[2]]);
    assert_eq!(places, vec![1, 0]);
    assert_eq!(textures.len(), 0);
}

#[test]
fn meshes_share_a_buffer() {
    let mut textures = GuiTextures::new();
    let (a, b) = (TextureId::Managed(0), TextureId::Managed(1));
    place(&mut textures, &[whole(a, 1, 1), whole(b, 1, 1)], &[0, 0]);
    let left = Rect2D { x: 0, y: 0, width: 10, height: 10 };
    let right = Rect2D { x: 10, y: 0, width: 10, height: 10 };
    let mesh = |indices: Vec<u32>, n: u32, scissor: Rect2D, texture_id: TextureId| GuiMesh {
        indices,
        vertices: (0..n).map(|v| [v, 0, 0, 0, 0]).collect(),
        scissor,
        texture_id,
    };
    let meshes = vec![
        mesh(vec![0, 1, 2], 3, left, b),
        mesh(vec![0, 1, 2, 2, 3, 0], 4, left, a),
        mesh(vec![2, 1, 0], 3, right, a),
    ];
    assert!(check_meshes(&meshes, &textures));
    let frame = build_frame(&meshes, &textures);
    assert_eq!(frame.indices, vec![0, 1, 2, 0, 1, 2, 2, 3, 0, 2, 1, 0]);
    assert_eq!(frame.vertices.len(), 10);
    assert_eq!(frame.vertices[3], [0, 0, 0, 0, 0]);
    let firsts: Vec<u32> = frame.draws.iter().map(|d| d.first_index).collect();
    assert_eq!(firsts, vec![0, 3, 9]);
    let counts: Vec<u32> = frame.draws.iter().map(|d| d.index_count).collect();
    assert_eq!(counts, vec![3, 6, 3]);
    let offsets: Vec<i32> = frame.draws.iter().map(|d| d.vertex_offset).collect();
    assert_eq!(offsets, vec![0, 3, 7]);
    let scissors: Vec<Option<Rect2D>> = frame.draws.iter().map(|d| d.set_scissor).collect();
    assert_eq!(scissors, vec![Some(left), None, Some(right)]);
    let indices: Vec<u32> = frame.draws.iter().map(|d| d.texture_index).collect();
    assert_eq!(indices, vec![1, 0, 0]);
    for (draw, mesh) in frame.draws.iter().zip(&meshes) {
        let first = draw.first_index as usize;
        assert_eq!(frame.indices[first..first + draw.index_count as usize], mesh.indices[..]);
        let offset = draw.vertex_offset as usize;
        assert_eq!(frame.vertices[offset..offset + mesh.vertices.len()], mesh.vertices[..]);
    }
}

#[test]
fn meshes_need_textures() {
    let textures = GuiTextures::new();
    let mesh = GuiMesh {
        indices: vec![],
        vertices: vec![],
        scissor: Rect2D { x: 0, y: 0, width: 1, height: 1 },
        texture_id: TextureId::User(9),
    };
    assert!(!check_meshes(&vec![mesh], &textures));
    assert!(check_meshes(&Vec::new(), &textures));
    assert!(build_frame(&Vec::new(), &textures).draws.is_empty());
}
