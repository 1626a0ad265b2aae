use ash::vk::{Format, ImageAspectFlags};
use galaxy_engine::reading::ReadBuffer;
use galaxy_engine::sort::stable_order;
use galaxy_engine::text::{char_is_space, chars_of, str_eq};
use galaxy_engine::utils::arc_final_owner::{ArcFinalOwner, FinalOwnerError};
use galaxy_engine::utils::extensions::EntryExt;
use galaxy_engine::utils::formats::{
    default_subresource_range, get_aspect_for_format, use_dedicated_allocation,
};
use galaxy_engine::utils::layout::{align_up, round_up, CStructLayout, Layout};
use galaxy_engine::utils::scope_guard::ScopeGuard;
use galaxy_engine::utils::table::Table;
use galaxy_engine::utils::version::{parse_num, parse_version, pkg_version, subslice};
use galaxy_engine::vk::{
    ASPECT_COLOR, ASPECT_DEPTH, ASPECT_STENCIL, FORMAT_D16_UNORM, FORMAT_D16_UNORM_S8_UINT,
    FORMAT_D24_UNORM_S8_UINT, FORMAT_D32_SFLOAT, FORMAT_D32_SFLOAT_S8_UINT, FORMAT_R8G8B8A8_SRGB,
    FORMAT_S8_UINT,
};
use std::cell::Cell;
use std::collections::HashMap;
use std::sync::Arc;

fn number(text: &str) -> Option<u32> {
    parse_num(chars_of(text).as_slice())
}

#[test]
fn numbers_are_decimal() {
    assert_eq!(number("0"), Some(0));
    assert_eq!(number("007"), Some(7));
    assert_eq!(number("+12"), Some(12));
    assert_eq!(number("4294967295"), Some(u32::MAX));
    assert_eq!(number("4294967296"), None);
    assert_eq!(number("42949672950"), None);
    assert_eq!(number(""), None);
    assert_eq!(number("+"), None);
    assert_eq!(number("++1"), None);
    assert_eq!(number("-1"), None);
    assert_eq!(number(" 1"), None);
    assert_eq!(number("1a"), None);
}

#[test]
fn numbers_agree_with_std() {
    for text in ["0", "9", "10", "+99", "65536", "4294967295", "4294967296", "x", "1x", "+", "-0", ""] {
        assert_eq!(number(text), u32::from_str_radix(text, 10).ok(), "{text}");
    }
}

#[test]
fn versions_pack_their_parts() {
    assert_eq!(parse_version("1.2.3"), Some(ash::vk::make_api_version(0, 1, 2, 3)));
    assert_eq!(parse_version("1.2.3"), Some((1 << 22) | (2 << 12) | 3));
    assert_eq!(parse_version("1.2.3.4"), Some((1 << 22) | (2 << 12) | 3));
    assert_eq!(parse_version("1.2"), None);
    assert_eq!(parse_version("1.2."), None);
    assert_eq!(parse_version("1..3"), None);
    assert_eq!(parse_version(""), None);
    assert_eq!(pkg_version("0", "1", "2"), Some((1 << 12) | 2));
    assert_eq!(pkg_version("0", "", "2"), None);
}

#[test]
fn version_parts_can_be_read_again() {
    let version = parse_version("127.1023.4095").unwrap();
    assert_eq!(ash::vk::api_version_major(version), 127);
    assert_eq!(ash::vk::api_version_minor(version), 1023);
    assert_eq!(ash::vk::api_version_patch(version), 4095);
}

#[test]
fn subslices_are_ranges() {
    let items = [1, 2, 3, 4, 5];
    assert_eq!(subslice(&items, 1, 3), &items[1..3]);
    assert_eq!(subslice(&items, 0, 5), &items[..]);
    assert!(subslice(&items, 5, 5).is_empty());
}

#[test]
fn alignment_rounds_up() {
    assert_eq!(align_up(0, 8), 0);
    assert_eq!(align_up(1, 8), 8);
    assert_eq!(align_up(8, 8), 8);
    assert_eq!(align_up(9, 8), 16);
    assert_eq!(align_up(1023, 256), 1024);
    for value in 0..70 {
        assert_eq!(align_up(value, 16), round_up(value, 16));
    }
}

#[test]
fn struct_layouts_follow_c() {
    // The layout of `struct { float a; float3 b; float c; float4 d; }`.
    let fields = vec![
        Layout { size: 4, align: 4 },
        Layout { size: 12, align: 16 },
        Layout { size: 4, align: 4 },
        Layout { size: 16, align: 16 },
    ];
    let layout = CStructLayout::new(&fields);
    assert_eq!(layout.num_fields(), 4);
    let offsets: Vec<usize> = (0..4).map(|i| layout.offset(i)).collect();
    assert_eq!(offsets, vec![0, 16, 28, 32]);
    assert_eq!(layout.size(), 48);
    assert_eq!(layout.align(), 16);
}

#[test]
fn struct_layouts_agree_with_std() {
    let sizes = [(1, 1), (8, 8), (2, 2), (4, 4), (3, 1), (16, 16)];
    let fields: Vec<Layout> = sizes.iter().map(|&(size, align)| Layout { size, align }).collect();
    let layout = CStructLayout::new(&fields);
    let mut expected = std::alloc::Layout::from_size_align(0, 1).unwrap();
    for (i, &(size, align)) in sizes.iter().enumerate() {
        let field = std::alloc::Layout::from_size_align(size, align).unwrap();
        let (extended, offset) = expected.extend(field).unwrap();
        assert_eq!(layout.offset(i), offset);
        expected = extended;
    }
    let expected = expected.pad_to_align();
    assert_eq!(layout.size(), expected.size());
    assert_eq!(layout.align(), expected.align());
}

#[test]
fn formats_have_aspects() {
    assert_eq!(get_aspect_for_format(FORMAT_D16_UNORM), ASPECT_DEPTH);
    assert_eq!(get_aspect_for_format(FORMAT_D32_SFLOAT), ASPECT_DEPTH);
    assert_eq!(get_aspect_for_format(FORMAT_S8_UINT), ASPECT_STENCIL);
    for format in [FORMAT_D16_UNORM_S8_UINT, FORMAT_D24_UNORM_S8_UINT, FORMAT_D32_SFLOAT_S8_UINT] {
        assert_eq!(get_aspect_for_format(format), ASPECT_DEPTH | ASPECT_STENCIL);
    }
    assert_eq!(get_aspect_for_format(FORMAT_R8G8B8A8_SRGB), ASPECT_COLOR);
    let range = default_subresource_range();
    assert_eq!(range.aspect_mask, ASPECT_COLOR);
    assert_eq!((range.base_mip_level, range.level_count), (0, 1));
    assert_eq!((range.base_array_layer, range.layer_count), (0, 1));
}

#[test]
fn dedicated_memory_where_required_or_preferred() {
    assert!(!use_dedicated_allocation(false, false));
    assert!(use_dedicated_allocation(true, false));
    assert!(use_dedicated_allocation(false, true));
}

#[test]
fn numbers_of_vulkan_are_right() {
    assert_eq!(FORMAT_D16_UNORM, Format::D16_UNORM.as_raw());
    assert_eq!(FORMAT_D32_SFLOAT_S8_UINT, Format::D32_SFLOAT_S8_UINT.as_raw());
    assert_eq!(FORMAT_R8G8B8A8_SRGB, Format::R8G8B8A8_SRGB.as_raw());
    assert_eq!(ASPECT_STENCIL, ImageAspectFlags::STENCIL.as_raw());
}

#[test]
fn last_owner_destroys() {
    let destroyed = Cell::new(0);
    let mut owner = ArcFinalOwner::new(41);
    let shared: Arc<i32> = Arc::clone(owner.shared());
    let result = owner.destroy_as_final(|value: i32| destroyed.set(value));
    assert_eq!(result, Err(FinalOwnerError::NotLastOwner));
    assert_eq!(destroyed.get(), 0);
    assert_eq!(*owner.as_ref(), 41);
    drop(shared);
    let result = owner.destroy_as_final(|value: i32| destroyed.set(value));
    assert_eq!(result, Ok(()));
    assert_eq!(destroyed.get(), 41);
}

#[test]
fn unwrapped_objects_are_handed_out() {
    let mut owner = ArcFinalOwner::new(1);
    assert_eq!(owner.take_unwrapped(Err(Arc::new(2))), Err(FinalOwnerError::NotLastOwner));
    assert_eq!(*owner.as_ref(), 2);
    assert_eq!(owner.take_unwrapped(Ok(3)), Ok(3));
    let destroyed = Cell::new(0);
    let mut owner = ArcFinalOwner::new(1);
    let result = owner.destroy_unwrapped(Err(Arc::new(4)), |value: i32| destroyed.set(value));
    assert_eq!(result, Err(FinalOwnerError::NotLastOwner));
    assert_eq!((destroyed.get(), *owner.as_ref()), (0, 4));
    assert_eq!(owner.destroy_unwrapped(Ok(5), |value: i32| destroyed.set(value)), Ok(()));
    assert_eq!(destroyed.get(), 5);
    let mut owner = ArcFinalOwner::new(6);
    let shared: Arc<i32> = Arc::clone(owner.shared());
    assert_eq!(owner.take_as_final(), Err(FinalOwnerError::NotLastOwner));
    drop(shared);
    assert_eq!(owner.take_as_final(), Ok(6));
}

struct Noted<'a>(&'a Cell<i32>);

impl Drop for Noted<'_> {
    fn drop(&mut self) {
        self.0.set(self.0.get() + 1);
    }
}

#[test]
fn owners_leave_objects_alone() {
    let dropped = Cell::new(0);
    drop(ArcFinalOwner::new(Noted(&dropped)));
    assert_eq!(dropped.get(), 0);
    let mut owner = ArcFinalOwner::new(Noted(&dropped));
    assert!(owner.destroy_as_final(drop).is_ok());
    assert_eq!(dropped.get(), 1);
}

#[test]
fn unwrapped_objects_are_destroyed_by_force() {
    let destroyed = Cell::new(0);
    let mut owner = ArcFinalOwner::new(1);
    let result =
        owner.force_destroy_unwrapped(Err(Arc::new(4)), |value: &i32| destroyed.set(*value));
    assert_eq!(result, Err(FinalOwnerError::NotLastOwner));
    assert_eq!((destroyed.get(), *owner.as_ref()), (4, 4));
    let result = owner.force_destroy_unwrapped(Ok(5), |value: &i32| destroyed.set(*value));
    assert_eq!(result, Ok(()));
    assert_eq!(destroyed.get(), 5);
}

#[test]
fn forced_destruction_is_reported() {
    let destroyed = Cell::new(0);
    let mut owner = ArcFinalOwner::new(7);
    let shared: Arc<i32> = Arc::clone(owner.shared());
    let result = owner.force_destroy_as_final(|value: &i32| destroyed.set(*value));
    assert_eq!(result, Err(FinalOwnerError::NotLastOwner));
    assert_eq!(destroyed.get(), 7);
    drop(shared);
    destroyed.set(0);
    assert_eq!(owner.force_destroy_as_final(|value: &i32| destroyed.set(*value)), Ok(()));
    assert_eq!(destroyed.get(), 7);
}

#[test]
fn guards_fire_once() {
    let count = Cell::new(0);
    let mut guard = ScopeGuard::new(|| count.set(count.get() + 1));
    guard.fire();
    guard.fire();
    assert_eq!(count.get(), 1);
    let mut guard = ScopeGuard::new(|| count.set(count.get() + 1));
    guard.defuse();
    guard.fire();
    assert_eq!(count.get(), 1);
}

#[test]
fn entries_are_made_when_missing() {
    let mut map: HashMap<String, u32> = HashMap::new();
    let made: Result<&mut u32, &str> = map.entry("a".to_string()).try_or_insert_with(|| Ok(30));
    *made.unwrap() += 1;
    let kept: Result<&mut u32, &str> =
        map.entry("a".to_string()).try_or_insert_with(|| Err("not asked"));
    assert_eq!(kept, Ok(&mut 31));
    let failed: Result<&mut u32, &str> =
        map.entry("b".to_string()).try_or_insert_with(|| Err("no"));
    assert_eq!(failed, Err("no"));
    assert_eq!(map.get("a"), Some(&31));
    assert_eq!(map.get("b"), None);
}

#[test]
fn tables_replace_values() {
    let mut table: Table<String, u32> = Table::new();
    table.insert("a".to_string(), 1);
    table.insert("b".to_string(), 2);
    table.insert("a".to_string(), 3);
    assert_eq!(table.len(), 2);
    assert_eq!(table.get(&"a".to_string()), Some(&3));
    assert_eq!(table.get(&"b".to_string()), Some(&2));
    assert_eq!(table.get(&"c".to_string()), None);
    assert_eq!(table.find(&"b".to_string()), Some(1));
    let entries = table.into_entries();
    assert_eq!(entries, vec![("a".to_string(), 3), ("b".to_string(), 2)]);
}

#[test]
fn stable_order_keeps_equal_keys() {
    let keys: Vec<u32> = vec![3, 1, 2, 1, 3, 0];
    assert_eq!(stable_order(&keys), vec![5, 1, 3, 2, 0, 4]);
    let empty: Vec<u32> = Vec::new();
    assert!(stable_order(&empty).is_empty());
}

#[test]
fn spaces_agree_with_std() {
    for code in 0..0x3100u32 {
        if let Some(c) = char::from_u32(code) {
            assert_eq!(char_is_space(c), c.is_whitespace(), "{code:x}");
        }
    }
    assert!(str_eq("a", "a"));
    assert!(!str_eq("a", "b"));
}

#[test]
fn files_are_read_in_parts() {
    let mut buffer = ReadBuffer::new(4);
    assert_eq!(buffer.window(), 4);
    assert!(buffer.take(&vec![1, 2, 3]));
    assert_eq!(buffer.window(), 5);
    assert!(buffer.take(&vec![4]));
    assert_eq!(buffer.window(), 12);
    assert!(!buffer.take(&vec![]));
    assert_eq!(buffer.finish(), vec![1, 2, 3, 4]);
}
