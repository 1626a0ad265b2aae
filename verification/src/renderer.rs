//! Setting up Vulkan: versions, layers and extensions.

use crate::device::text_views;
use crate::utils::version::{major_of, minor_of, packed};
use vstd::prelude::*;

verus! {

/// The name of the engine.
pub const ENGINE_NAME: &'static str = "Galaxy Engine";

/// The version of the engine.
pub const ENGINE_VERSION: u32 = 1;

/// The layer that checks how Vulkan is used.
pub const VALIDATION_LAYER: &'static str = "VK_LAYER_KHRONOS_validation";

/// The extension for messages of the layers.
pub const DEBUG_UTILS_EXTENSION: &'static str = "VK_EXT_debug_utils";

/// The renderer cannot be set up.
#[derive(Clone, Copy, PartialEq, Eq, Structural, Debug)]
pub enum InitError {
    /// The version of Vulkan is too old.
    VulkanIncompatibleVersion(u32),
}

/// The oldest version of Vulkan that is supported.
pub open spec fn min_vk_version() -> u32 {
    packed(1, 2, 0)
}

/// A version is not older than another, by its major and then by its minor part.
pub open spec fn version_at_least(version: u32, min: u32) -> bool {
    major_of(version) > major_of(min) || (major_of(version) == major_of(min) && minor_of(version)
        >= minor_of(min))
}

/// The oldest version of Vulkan that is supported.
pub fn min_version() -> (version: u32)
    ensures
        version == min_vk_version(),
{
    ash::vk::make_api_version(0, 1, 2, 0)
}

/// Checks the version of the driver. A driver that cannot tell has version 1.0.
pub fn check_version(driver_version: Option<u32>) -> (result: Result<u32, InitError>)
    ensures
        ({
            let version = match driver_version {
                Some(v) => v,
                None => packed(1, 0, 0),
            };
            result == (if version_at_least(version, min_vk_version()) {
                Ok::<u32, InitError>(version)
            } else {
                Err::<u32, InitError>(InitError::VulkanIncompatibleVersion(version))
            })
        }),
{
    let version: u32 = match driver_version {
        Some(version) => version,
        None => ash::vk::make_api_version(0, 1, 0, 0),
    };
    let min: u32 = min_version();
    let (major, min_major): (u32, u32) = (
        ash::vk::api_version_major(version),
        ash::vk::api_version_major(min),
    );
    let (minor, min_minor): (u32, u32) = (
        ash::vk::api_version_minor(version),
        ash::vk::api_version_minor(min),
    );
    if major > min_major || (major == min_major && minor >= min_minor) {
        Ok(version)
    } else {
        Err(InitError::VulkanIncompatibleVersion(version))
    }
}

/// The names among the first `n` that are available, in order.
pub open spec fn available_among(required: Seq<Seq<char>>, available: Seq<Seq<char>>, n: nat) -> Seq<
    Seq<char>,
>
    decreases n,
{
    if n == 0 {
        seq![]
    } else {
        let before = available_among(required, available, (n - 1) as nat);
        if available.contains(required[n - 1]) {
            before.push(required[n - 1])
        } else {
            before
        }
    }
}

/// The names among the first `n` that are not available, in order.
pub open spec fn missing_among(required: Seq<Seq<char>>, available: Seq<Seq<char>>, n: nat) -> Seq<
    Seq<char>,
>
    decreases n,
{
    if n == 0 {
        seq![]
    } else {
        let before = missing_among(required, available, (n - 1) as nat);
        if available.contains(required[n - 1]) {
            before
        } else {
            before.push(required[n - 1])
        }
    }
}

fn is_available(name: &String, available: &Vec<String>) -> (found: bool)
    ensures
        found == text_views(available@).contains(name@),
{
    let mut i: usize = 0;
    while i < available.len()
        invariant
            i <= available.len(),
            forall|k: int| 0 <= k < i ==> text_views(available@)[k] != name@,
        decreases available.len() - i,
    {
        if available[i] == *name {
            assert(text_views(available@)[i as int] == name@);
            return true;
        }
        i += 1;
    }
    false
}

/// Keeps the names that are available. Those that are not come second.
pub fn retain_available(required: Vec<String>, available: &Vec<String>) -> (result: (
    Vec<String>,
    Vec<String>,
))
    ensures
        text_views(result.0@) == available_among(
            text_views(required@),
            text_views(available@),
            required@.len(),
        ),
        text_views(result.1@) == missing_among(
            text_views(required@),
            text_views(available@),
            required@.len(),
        ),
{
    let mut kept: Vec<String> = Vec::new();
    let mut missing: Vec<String> = Vec::new();
    let mut i: usize = 0;
    assert(text_views(kept@) =~= seq![]);
    assert(text_views(missing@) =~= seq![]);
    while i < required.len()
        invariant
            i <= required.len(),
            text_views(kept@) == available_among(
                text_views(required@),
                text_views(available@),
                i as nat,
            ),
            text_views(missing@) == missing_among(
                text_views(required@),
                text_views(available@),
                i as nat,
            ),
        decreases required.len() - i,
    {
        let ghost before = (kept@, missing@);
        let name: String = required[i].clone();
        assert(text_views(required@)[i as int] == name@);
        if is_available(&name, available) {
            kept.push(name);
            assert(text_views(kept@) =~= text_views(before.0).push(name@));
        } else {
            missing.push(name);
            assert(text_views(missing@) =~= text_views(before.1).push(name@));
        }
        i += 1;
    }
    (kept, missing)
}

/// The layers to ask for.
pub fn required_layers(debug: bool) -> (layers: Vec<String>)
    ensures
        text_views(layers@) == (if debug {
            seq![VALIDATION_LAYER@]
        } else {
            seq![]
        }),
{
    let mut layers: Vec<String> = Vec::new();
    if debug {
        layers.push(VALIDATION_LAYER.to_owned());
    }
    assert(text_views(layers@) =~= if debug {
        seq![VALIDATION_LAYER@]
    } else {
        seq![]
    });
    layers
}

/// The extensions to ask for: those that the window needs, and one for messages.
pub fn required_extensions(window_extensions: Vec<String>, debug: bool) -> (extensions: Vec<String>)
    ensures
        text_views(extensions@) == (if debug {
            text_views(window_extensions@).push(DEBUG_UTILS_EXTENSION@)
        } else {
            text_views(window_extensions@)
        }),
{
    let ghost given = window_extensions@;
    let mut extensions: Vec<String> = window_extensions;
    if debug {
        extensions.push(DEBUG_UTILS_EXTENSION.to_owned());
        assert(text_views(extensions@) =~= text_views(given).push(DEBUG_UTILS_EXTENSION@));
    }
    extensions
}

proof fn available_kept(required: Seq<Seq<char>>, available: Seq<Seq<char>>, n: nat, i: int)
    requires
        0 <= i < n <= required.len(),
        available.contains(required[i]),
    ensures
        available_among(required, available, n).contains(required[i]),
    decreases n,
{
    let all = available_among(required, available, n);
    if i < n - 1 {
        available_kept(required, available, (n - 1) as nat, i);
        let before = available_among(required, available, (n - 1) as nat);
        let k = before.index_of(required[i]);
        assert(all[k] == required[i]);
    } else {
        assert(all[all.len() - 1] == required[i]);
    }
}

/// A name is kept just where it is asked for and available.
pub proof fn kept_where_available(
    required: Seq<Seq<char>>,
    available: Seq<Seq<char>>,
    n: nat,
    name: Seq<char>,
)
    requires
        n <= required.len(),
    ensures
        available_among(required, available, n).contains(name) <==> available.contains(name)
            && required.take(n as int).contains(name),
    decreases n,
{
    let all = available_among(required, available, n);
    if n > 0 {
        kept_where_available(required, available, (n - 1) as nat, name);
        let (before, taken) = (
            available_among(required, available, (n - 1) as nat),
            required.take(n - 1),
        );
        assert(required.take(n as int)[n - 1] == required[n - 1]);
        if all.contains(name) {
            let k = all.index_of(name);
            if k < before.len() {
                assert(before[k] == name);
                let t = taken.index_of(name);
                assert(required.take(n as int)[t] == name);
            } else {
                assert(name == required[n - 1]);
            }
        }
        if available.contains(name) && required.take(n as int).contains(name) {
            let t = required.take(n as int).index_of(name);
            assert(required[t] == name);
            available_kept(required, available, n, t);
        }
    }
}

/// A name is missing just where it is asked for and not available; what is kept and what is
/// missing are together what was asked for.
pub proof fn missing_where_not_available(
    required: Seq<Seq<char>>,
    available: Seq<Seq<char>>,
    n: nat,
    name: Seq<char>,
)
    requires
        n <= required.len(),
    ensures
        missing_among(required, available, n).contains(name) <==> !available.contains(name)
            && required.take(n as int).contains(name),
        missing_among(required, available, n).len() + available_among(required, available, n).len()
            == n,
    decreases n,
{
    if n > 0 {
        let m = (n - 1) as nat;
        missing_where_not_available(required, available, m, name);
        let (before, now) = (required.take(m as int), required.take(n as int));
        assert(now =~= before.push(required[m as int]));
        let missing = missing_among(required, available, m);
        let all = missing_among(required, available, n);
        if missing.contains(name) {
            let i = missing.index_of(name);
            assert(all[i] == name);
        }
        if all.contains(name) && name != required[m as int] {
            let i = all.index_of(name);
            assert(missing[i] == name);
        }
        if before.contains(name) {
            let i = before.index_of(name);
            assert(now[i] == name);
        }
        if now.contains(name) && name != required[m as int] {
            let i = now.index_of(name);
            assert(before[i] == name);
        }
        if name == required[m as int] {
            assert(now[m as int] == name);
            if !available.contains(name) {
                assert(all.last() == name);
            }
        }
    }
}

/// Versions of Vulkan from 1.2 on are supported, and none before.
pub proof fn supported_from_one_two(version: u32)
    requires
        version < 0x2000_0000,
    ensures
        version_at_least(version, min_vk_version()) <==> version >= 0x40_2000,
{
    crate::utils::version::packed_parts(1, 2, 0);
    assert(version < 0x2000_0000u32 ==> (version >> 22u32) & 0x7fu32 == version / 0x40_0000
        && (version >> 12u32) & 0x3ffu32 == version / 0x1000 % 0x400) by (bit_vector);
}

} // verus!
