use galaxy_engine::resource_paths::ResourcePath;
use galaxy_engine::textures::ktx2_file::{blocks_at, check_descriptors, read_ktx2};
use galaxy_engine::textures::texture::{
    decode_texture, format_or_default, keep_level, ktx_to_vulkan_format, plain_texture, texture_kind,
    DescriptorFault, TextureError,
};
use galaxy_engine::textures::texture_manager::{default_sampler_info, TextureManager};
use galaxy_engine::vk::{FORMAT_BC5_UNORM_BLOCK, FORMAT_BC7_SRGB_BLOCK, FORMAT_R8G8B8A8_SRGB};

const RGBA: u8 = 3;
const RRRG: u8 = 5;

/// A basic format descriptor block with one sample.
fn basic_block(model: u8, channel: u8) -> Vec<u8> {
    let mut block = Vec::new();
    block.extend_from_slice(&0u32.to_le_bytes());
    block.extend_from_slice(&2u16.to_le_bytes());
    block.extend_from_slice(&40u16.to_le_bytes());
    block.extend_from_slice(&[model, 1, 2, 0]);
    block.extend_from_slice(&[3, 3, 0, 0]);
    block.extend_from_slice(&[16, 0, 0, 0, 0, 0, 0, 0]);
    block.extend_from_slice(&[0, 0, 127, channel]);
    block.extend_from_slice(&[0; 12]);
    block
}

struct File {
    format: u32,
    width: u32,
    height: u32,
    scheme: u32,
    descriptors: Vec<u8>,
    levels: Vec<(Vec<u8>, u64)>,
}

fn file(file: &File) -> Vec<u8> {
    let mut bytes = vec![0xAB, 0x4B, 0x54, 0x58, 0x20, 0x32, 0x30, 0xBB, 0x0D, 0x0A, 0x1A, 0x0A];
    let header = [file.format, 1, file.width, file.height, 0, 0, 1, file.levels.len() as u32, file.scheme];
    for word in header {
        bytes.extend_from_slice(&word.to_le_bytes());
    }
    let descriptors_offset = 80 + 24 * file.levels.len();
    let descriptors_length = 4 + file.descriptors.len();
    bytes.extend_from_slice(&(descriptors_offset as u32).to_le_bytes());
    bytes.extend_from_slice(&(descriptors_length as u32).to_le_bytes());
    bytes.extend_from_slice(&[0; 24]);
    let mut offset = descriptors_offset + descriptors_length;
    for (data, uncompressed) in &file.levels {
        bytes.extend_from_slice(&(offset as u64).to_le_bytes());
        bytes.extend_from_slice(&(data.len() as u64).to_le_bytes());
        bytes.extend_from_slice(&uncompressed.to_le_bytes());
        offset += data.len();
    }
    bytes.extend_from_slice(&(descriptors_length as u32).to_le_bytes());
    bytes.extend_from_slice(&file.descriptors);
    for (data, _) in &file.levels {
        bytes.extend_from_slice(data);
    }
    bytes
}

/// A block of a single colour.
fn solid_block(red: u8) -> Vec<u8> {
    let mut bits: u128 = 0x17;
    bits |= (red as u128) << 5;
    bits |= 255u128 << 29;
    bits.to_le_bytes().to_vec()
}

fn compressed(data: &[u8]) -> Vec<u8> {
    zstd::encode_all(data, 0).unwrap()
}

fn level(num_blocks: usize) -> (Vec<u8>, u64) {
    let data: Vec<u8> = (0..num_blocks).flat_map(|i| solid_block(i as u8)).collect();
    (compressed(&data), data.len() as u64)
}

fn texture(channel: u8) -> File {
    File {
        format: 0,
        width: 8,
        height: 4,
        scheme: 2,
        descriptors: basic_block(166, channel),
        levels: vec![level(2), level(1), level(1), level(1)],
    }
}

#[test]
fn colours_are_decoded() {
    let decoded = match decode_texture(&file(&texture(RGBA))) {
        Ok(decoded) => decoded,
        Err(_) => panic!("not decoded"),
    };
    assert_eq!((decoded.width, decoded.height), (8, 4));
    assert_eq!(decoded.format, FORMAT_BC7_SRGB_BLOCK);
    // The last level is one pixel wide and has no height.
    let sizes: Vec<usize> = decoded.mip_levels.iter().map(|l| l.len()).collect();
    assert_eq!(sizes, vec![32, 16, 16]);
    let plain: Vec<u8> = (0..2).flat_map(|i| solid_block(i as u8)).collect();
    assert_ne!(decoded.mip_levels[0], plain);
    assert_eq!(decoded.mip_levels[0][..16], decoded.mip_levels[1][..]);
}

#[test]
fn normal_maps_are_decoded() {
    let decoded = match decode_texture(&file(&texture(RRRG))) {
        Ok(decoded) => decoded,
        Err(_) => panic!("not decoded"),
    };
    assert_eq!(decoded.format, FORMAT_BC5_UNORM_BLOCK);
    assert_eq!(decoded.mip_levels[0].len(), 32);
}

#[test]
fn textures_need_compression() {
    for scheme in [0, 1, 3] {
        let plain = File { scheme, ..texture(RGBA) };
        match decode_texture(&file(&plain)) {
            Err(TextureError::UnsupportedCompression(s)) => assert_eq!(s, scheme),
            _ => panic!("accepted"),
        }
    }
}

#[test]
fn invalid_files_are_rejected() {
    assert!(matches!(decode_texture(&vec![1, 2, 3]), Err(TextureError::Ktx2(_))));
    let mut broken = file(&texture(RGBA));
    broken[0] = 0;
    assert!(matches!(decode_texture(&broken), Err(TextureError::Ktx2(_))));
    let mut short = texture(RGBA);
    short.descriptors[6] = 4;
    broken = file(&short);
    broken[0] = 0;
    assert!(matches!(decode_texture(&broken), Err(TextureError::Ktx2(_))));
    short.scheme = 0;
    assert!(matches!(
        decode_texture(&file(&short)),
        Err(TextureError::UnsupportedCompression(0))
    ));
}

#[test]
fn malformed_descriptors_are_found_when_reached() {
    let mut short = basic_block(166, RGBA);
    short[6] = 4;
    assert_eq!(fault_of(short.clone()), DescriptorFault::Malformed);
    let mut after = basic_block(166, RGBA);
    after.extend_from_slice(&short);
    assert_eq!(fault_of(after.clone()), DescriptorFault::Malformed);
    let bytes = file(&File { descriptors: after, ..texture(RGBA) });
    assert_eq!(check_descriptors(&bytes), (1, false));
    let mut other = basic_block(1, 0);
    other.extend_from_slice(&short);
    assert_eq!(fault_of(other), DescriptorFault::UnsupportedColourModel);
}

#[test]
fn transcoded_levels_are_kept() {
    let blocks = blocks_at(9, 4, true);
    assert_eq!((blocks.blocks_x, blocks.blocks_y, blocks.width, blocks.height), (3, 1, 9, 4));
    assert!(blocks.has_alpha);
    let mut mips = vec![vec![1]];
    assert!(keep_level(&mut mips, Ok(vec![2, 3])).is_ok());
    assert_eq!(mips, vec![vec![1], vec![2, 3]]);
    let error = basis_universal::TranscodeError::TranscodeFailed;
    assert!(matches!(keep_level(&mut mips, Err(error)), Err(TextureError::Transcode(_))));
    assert_eq!(mips.len(), 2);
}

fn fault_of(descriptors: Vec<u8>) -> DescriptorFault {
    let texture = File { descriptors, ..texture(RGBA) };
    match decode_texture(&file(&texture)) {
        Err(TextureError::Descriptor(fault)) => fault,
        _ => panic!("no fault in the descriptors"),
    }
}

#[test]
fn descriptors_must_describe_blocks() {
    assert_eq!(fault_of(basic_block(1, 0)), DescriptorFault::UnsupportedColourModel);
    let mut other = basic_block(166, RGBA);
    other[0] = 1;
    assert_eq!(fault_of(other), DescriptorFault::NoBasicDescriptor);
    let mut dimension = basic_block(166, RGBA);
    dimension[12] = 255;
    assert_eq!(fault_of(dimension), DescriptorFault::BlockDimension);
    let mut no_samples = basic_block(166, RGBA);
    no_samples.truncate(24);
    no_samples[6] = 24;
    assert_eq!(fault_of(no_samples), DescriptorFault::NoSampleInformation);
    let mut truncated = basic_block(166, RGBA);
    truncated.truncate(12);
    truncated[6] = 12;
    assert_eq!(fault_of(truncated), DescriptorFault::Truncated);
}

#[test]
fn last_descriptor_counts() {
    let mut descriptors = basic_block(166, RGBA);
    descriptors.extend_from_slice(&basic_block(166, RRRG));
    let texture = File { descriptors, ..texture(RGBA) };
    let read = match read_ktx2(&file(&texture)) {
        Ok(read) => read,
        Err(_) => panic!("not read"),
    };
    assert_eq!(read.blocks.len(), 2);
    let kind = texture_kind(&read, true).unwrap();
    assert!(kind.is_normal_map);
    assert!(!kind.has_alpha);
}

#[test]
fn levels_must_decompress() {
    let mut broken = texture(RGBA);
    broken.levels[1] = (vec![1, 2, 3, 4], 16);
    assert!(matches!(decode_texture(&file(&broken)), Err(TextureError::Io(_))));
    let mut wrong_size = texture(RGBA);
    wrong_size.levels[1].1 = 17;
    assert!(matches!(decode_texture(&file(&wrong_size)), Err(TextureError::LevelSize)));
    let mut short = texture(RGBA);
    short.levels[0] = level(1);
    assert!(matches!(decode_texture(&file(&short)), Err(TextureError::Transcode(_))));
}

#[test]
fn levels_must_have_blocks_that_can_be_counted() {
    for (width, height) in [(u32::MAX, 4), (4, u32::MAX - 2), (1 << 18, 1 << 18)] {
        let large = File { width, height, levels: vec![level(1)], ..texture(RGBA) };
        assert!(matches!(decode_texture(&file(&large)), Err(TextureError::LevelTooLarge)));
    }
}

#[test]
fn plain_textures_are_used_as_they_are() {
    let data = vec![7u8; 128];
    let plain = File {
        format: 43,
        scheme: 0,
        levels: vec![(data.clone(), 128)],
        ..texture(RGBA)
    };
    let read = match read_ktx2(&file(&plain)) {
        Ok(read) => read,
        Err(_) => panic!("not read"),
    };
    assert_eq!((read.format, read.scheme), (43, 0));
    let texture = plain_texture(read).unwrap();
    assert_eq!(texture.format, FORMAT_R8G8B8A8_SRGB);
    assert_eq!(texture.mip_levels, vec![data]);
    assert_eq!(ktx_to_vulkan_format(44), None);
    assert_eq!(ktx_to_vulkan_format(43), Some(43));
    assert_eq!(format_or_default(0), Some(43));
    assert_eq!(format_or_default(44), None);
}

#[test]
fn textures_are_numbered() {
    let mut manager = TextureManager::new();
    for i in 0..64 {
        assert!(manager.has_room());
        let path = ResourcePath::new(&format!("/game/textures/{i}"), None).unwrap();
        assert_eq!(manager.find_texture(&path), None);
        assert_eq!(manager.add_texture(&path), i);
    }
    assert!(!manager.has_room());
    assert_eq!(manager.num_textures(), 64);
    let path = ResourcePath::new("/game/textures/17", None).unwrap();
    assert_eq!(manager.find_texture(&path), Some(17));
    let path = ResourcePath::new("/engine/textures/17", None).unwrap();
    assert_eq!(manager.find_texture(&path), None);
}

#[test]
fn default_sampler_repeats() {
    let info = default_sampler_info();
    assert_eq!(info.address_mode, ash::vk::SamplerAddressMode::REPEAT.as_raw());
    assert_eq!(info.mag_filter, ash::vk::Filter::LINEAR.as_raw());
}
