//! Choosing a physical device and its queues.

use crate::vk::{
    COLOR_SPACE_SRGB_NONLINEAR, DEVICE_TYPE_DISCRETE_GPU, FORMAT_B8G8R8A8_SRGB,
    FORMAT_D32_SFLOAT_S8_UINT, FORMAT_FEATURE_DEPTH_STENCIL_ATTACHMENT, PRESENT_MODE_MAILBOX,
    QUEUE_GRAPHICS, QUEUE_TRANSFER, SAMPLES_8, SHARING_CONCURRENT, SHARING_EXCLUSIVE,
};
use arrayvec::ArrayVec;
use vstd::prelude::*;

verus! {

/// The format of the depth and stencil buffer.
pub const DEPTH_STENCIL_FORMAT: i32 = FORMAT_D32_SFLOAT_S8_UINT;

/// The number of samples for each pixel.
pub const MSAA_SAMPLES: u32 = SAMPLES_8;

/// The number of queue families that are used at most.
pub const MAX_QUEUE_FAMILIES: usize = 3;

/// The extension that shows images on a surface.
pub const SWAPCHAIN_EXTENSION: &'static str = "VK_KHR_swapchain";

/// The extension for simpler synchronisation.
pub const SYNCHRONIZATION2_EXTENSION: &'static str = "VK_KHR_synchronization2";

/// The extension for rendering without render passes.
pub const DYNAMIC_RENDERING_EXTENSION: &'static str = "VK_KHR_dynamic_rendering";

/// No device can be used.
#[derive(Clone, Copy, PartialEq, Eq, Structural, Debug)]
pub enum DeviceInitError {
    NoPhysicalDevices,
    NoCompatiblePhysicalDevices,
}

/// What a queue is used for.
#[derive(Clone, Copy, PartialEq, Eq, Structural, Debug)]
pub enum QueueFamily {
    Graphics,
    Present,
    Transfer,
}

/// A queue family of a physical device.
#[derive(Clone, Copy, PartialEq, Eq, Structural, Debug)]
pub struct QueueFamilyProperties {
    pub flags: u32,
    pub present_supported: bool,
}

/// The queue families to use.
#[derive(Clone, Copy, PartialEq, Eq, Structural, Debug)]
pub struct QueueFamilies {
    pub graphics: u32,
    pub present: u32,
    pub transfer: u32,
}

/// A format of the images of a surface.
#[derive(Clone, Copy, PartialEq, Eq, Structural, Debug)]
pub struct SurfaceFormat {
    pub format: i32,
    pub color_space: i32,
}

/// How images are shown on the surface.
#[derive(Clone, Copy, PartialEq, Eq, Structural, Debug)]
pub struct SurfaceChoice {
    pub swapchain_format: SurfaceFormat,
    pub presentation_mode: i32,
    pub image_count: u32,
}

/// A physical device that can be used.
#[derive(Clone, Copy, PartialEq, Eq, Structural, Debug)]
pub struct PhysicalDeviceProperties {
    pub graphics_queue_family_idx: u32,
    pub present_queue_family_idx: u32,
    pub transfer_queue_family_idx: u32,
    pub is_discrete: bool,
    pub swapchain_format: SurfaceFormat,
    pub presentation_mode: i32,
    pub image_count: u32,
}

/// All flags of `flags` are set.
pub open spec fn has_flags(set: u32, flags: u32) -> bool {
    set & flags == flags
}

/// The extensions that a device must have.
pub open spec fn required_extensions() -> Seq<Seq<char>> {
    seq![SWAPCHAIN_EXTENSION@, SYNCHRONIZATION2_EXTENSION@, DYNAMIC_RENDERING_EXTENSION@]
}

/// Every required extension is available.
pub open spec fn extensions_available(available: Seq<Seq<char>>) -> bool {
    forall|i: int|
        0 <= i < required_extensions().len() ==> available.contains(
            #[trigger] required_extensions()[i],
        )
}

/// The names as sequences of characters.
pub open spec fn text_views(names: Seq<String>) -> Seq<Seq<char>> {
    names.map_values(|n: String| n@)
}

fn has_extension(available: &Vec<String>, name: &str) -> (found: bool)
    ensures
        found == text_views(available@).contains(name@),
{
    let mut i: usize = 0;
    while i < available.len()
        invariant
            i <= available.len(),
            forall|k: int| 0 <= k < i ==> (#[trigger] available@[k])@ != name@,
        decreases available.len() - i,
    {
        if crate::text::str_eq(available[i].as_str(), name) {
            assert(text_views(available@)[i as int] == name@);
            return true;
        }
        i += 1;
    }
    proof {
        assert forall|k: int| 0 <= k < available.len() implies text_views(available@)[k] != name@ by {
            assert(available@[k]@ != name@);
        }
    }
    false
}

/// Every required extension is available.
pub fn has_required_extensions(available: &Vec<String>) -> (ok: bool)
    ensures
        ok == extensions_available(text_views(available@)),
{
    let first: bool = has_extension(available, SWAPCHAIN_EXTENSION);
    let second: bool = has_extension(available, SYNCHRONIZATION2_EXTENSION);
    let third: bool = has_extension(available, DYNAMIC_RENDERING_EXTENSION);
    proof {
        let required = required_extensions();
        assert(required[0] == SWAPCHAIN_EXTENSION@);
        assert(required[1] == SYNCHRONIZATION2_EXTENSION@);
        assert(required[2] == DYNAMIC_RENDERING_EXTENSION@);
    }
    first && second && third
}

/// The queue families for graphics and for presenting among the first `n`: the last family with
/// both serves for both; otherwise the first with either.
pub open spec fn families_chosen(families: Seq<QueueFamilyProperties>, n: nat) -> (
    Option<u32>,
    Option<u32>,
)
    decreases n,
{
    if n == 0 {
        (None, None)
    } else {
        let (graphics, present) = families_chosen(families, (n - 1) as nat);
        let family = families[n - 1];
        if has_flags(family.flags, QUEUE_GRAPHICS) {
            if family.present_supported {
                (Some((n - 1) as u32), Some((n - 1) as u32))
            } else if graphics is None {
                (Some((n - 1) as u32), present)
            } else {
                (graphics, present)
            }
        } else if present is None && family.present_supported {
            (graphics, Some((n - 1) as u32))
        } else {
            (graphics, present)
        }
    }
}

/// A queue family is for transfers and not for graphics.
pub open spec fn is_transfer_only(family: QueueFamilyProperties) -> bool {
    has_flags(family.flags, QUEUE_TRANSFER) && !has_flags(family.flags, QUEUE_GRAPHICS)
}

/// `i` is the first queue family that is for transfers and not for graphics, or the graphics
/// family where there is none.
pub open spec fn is_transfer_family(
    families: Seq<QueueFamilyProperties>,
    graphics: u32,
    i: u32,
) -> bool {
    ||| {
        &&& i < families.len()
        &&& is_transfer_only(families[i as int])
        &&& forall|k: int| 0 <= k < i ==> !is_transfer_only(#[trigger] families[k])
    }
    ||| {
        &&& i == graphics
        &&& forall|k: int| 0 <= k < families.len() ==> !is_transfer_only(#[trigger] families[k])
    }
}

/// The queue families to use; nothing where graphics or presenting is not supported.
pub open spec fn is_queue_choice(
    families: Seq<QueueFamilyProperties>,
    choice: Option<QueueFamilies>,
) -> bool {
    let (graphics, present) = families_chosen(families, families.len());
    match choice {
        Some(q) => {
            &&& graphics == Some(q.graphics)
            &&& present == Some(q.present)
            &&& is_transfer_family(families, q.graphics, q.transfer)
        },
        None => graphics is None || present is None,
    }
}

/// The families that were chosen serve for graphics and for presenting.
pub proof fn chosen_families_serve(families: Seq<QueueFamilyProperties>, n: nat)
    requires
        n <= families.len() <= u32::MAX,
    ensures
        families_chosen(families, n).0 matches Some(g) ==> g < n && has_flags(
            families[g as int].flags,
            QUEUE_GRAPHICS,
        ),
        families_chosen(families, n).1 matches Some(p) ==> p < n
            && families[p as int].present_supported,
    decreases n,
{
    if n > 0 {
        chosen_families_serve(families, (n - 1) as nat);
    }
}

/// Graphics and presenting share a family wherever some family serves for both.
pub proof fn shared_family_preferred(families: Seq<QueueFamilyProperties>, n: nat, i: int)
    requires
        n <= families.len() <= u32::MAX,
        0 <= i < n,
        has_flags(families[i].flags, QUEUE_GRAPHICS),
        families[i].present_supported,
    ensures
        families_chosen(families, n).0 is Some,
        families_chosen(families, n).0 == families_chosen(families, n).1,
    decreases n,
{
    if i < n - 1 {
        shared_family_preferred(families, (n - 1) as nat, i);
    }
}

/// Chooses the queue families of a device.
pub fn select_queue_families(families: &Vec<QueueFamilyProperties>) -> (choice: Option<QueueFamilies>)
    requires
        families.len() <= u32::MAX,
    ensures
        is_queue_choice(families@, choice),
{
    let mut graphics: Option<u32> = None;
    let mut present: Option<u32> = None;
    let mut i: usize = 0;
    while i < families.len()
        invariant
            i <= families.len() <= u32::MAX,
            (graphics, present) == families_chosen(families@, i as nat),
        decreases families.len() - i,
    {
        let family = families[i];
        if family.flags & QUEUE_GRAPHICS == QUEUE_GRAPHICS {
            if family.present_supported {
                graphics = Some(i as u32);
                present = Some(i as u32);
            } else if graphics.is_none() {
                graphics = Some(i as u32);
            }
        } else if present.is_none() && family.present_supported {
            present = Some(i as u32);
        }
        i += 1;
    }
    match (graphics, present) {
        (Some(graphics), Some(present)) => {
            let transfer: u32 = find_transfer_family(families, graphics);
            Some(QueueFamilies { graphics, present, transfer })
        },
        _ => None,
    }
}

fn find_transfer_family(families: &Vec<QueueFamilyProperties>, graphics: u32) -> (transfer: u32)
    requires
        families.len() <= u32::MAX,
    ensures
        is_transfer_family(families@, graphics, transfer),
{
    let mut i: usize = 0;
    while i < families.len()
        invariant
            i <= families.len() <= u32::MAX,
            forall|k: int| 0 <= k < i ==> !is_transfer_only(#[trigger] families@[k]),
        decreases families.len() - i,
    {
        let flags: u32 = families[i].flags;
        if flags & QUEUE_TRANSFER == QUEUE_TRANSFER && flags & QUEUE_GRAPHICS != QUEUE_GRAPHICS {
            return i as u32;
        }
        i += 1;
    }
    graphics
}

/// The format of the images of the swapchain.
pub open spec fn preferred_format() -> SurfaceFormat {
    SurfaceFormat { format: FORMAT_B8G8R8A8_SRGB, color_space: COLOR_SPACE_SRGB_NONLINEAR }
}

/// What a surface says of itself.
pub struct SurfaceProperties {
    pub formats: Vec<SurfaceFormat>,
    pub present_modes: Vec<i32>,
    pub min_image_count: u32,
    /// Zero where there is no limit.
    pub max_image_count: u32,
}

/// The number of images to ask for: one more than needed, where the surface allows it.
pub open spec fn image_count_for(min: u32, max: u32) -> int {
    if max > 0 && min + 1 > max {
        max as int
    } else {
        min + 1
    }
}

/// How images are shown; nothing where the format or the mode is not supported.
pub open spec fn surface_choice(surface: SurfaceProperties) -> Option<SurfaceChoice> {
    if surface.formats@.contains(preferred_format()) && surface.present_modes@.contains(
        PRESENT_MODE_MAILBOX,
    ) {
        Some(
            SurfaceChoice {
                swapchain_format: preferred_format(),
                presentation_mode: PRESENT_MODE_MAILBOX,
                image_count: image_count_for(
                    surface.min_image_count,
                    surface.max_image_count,
                ) as u32,
            },
        )
    } else {
        None
    }
}

/// Chooses how images are shown.
pub fn choose_surface(surface: &SurfaceProperties) -> (choice: Option<SurfaceChoice>)
    requires
        surface.min_image_count < u32::MAX,
    ensures
        choice == surface_choice(*surface),
{
    let wanted = SurfaceFormat {
        format: FORMAT_B8G8R8A8_SRGB,
        color_space: COLOR_SPACE_SRGB_NONLINEAR,
    };
    let mut format_found: bool = false;
    let mut i: usize = 0;
    while i < surface.formats.len() && !format_found
        invariant
            i <= surface.formats.len(),
            wanted == preferred_format(),
            format_found ==> surface.formats@.contains(wanted),
            !format_found ==> forall|k: int| 0 <= k < i ==> surface.formats@[k] != wanted,
        decreases surface.formats.len() - i,
    {
        if surface.formats[i] == wanted {
            assert(surface.formats@[i as int] == wanted);
            format_found = true;
        }
        i += 1;
    }
    let mut mode_found: bool = false;
    let mut j: usize = 0;
    while j < surface.present_modes.len() && !mode_found
        invariant
            j <= surface.present_modes.len(),
            mode_found ==> surface.present_modes@.contains(PRESENT_MODE_MAILBOX),
            !mode_found ==> forall|k: int|
                0 <= k < j ==> surface.present_modes@[k] != PRESENT_MODE_MAILBOX,
        decreases surface.present_modes.len() - j,
    {
        if surface.present_modes[j] == PRESENT_MODE_MAILBOX {
            assert(surface.present_modes@[j as int] == PRESENT_MODE_MAILBOX);
            mode_found = true;
        }
        j += 1;
    }
    if !format_found || !mode_found {
        return None;
    }
    let mut image_count: u32 = surface.min_image_count + 1;
    if surface.max_image_count > 0 && image_count > surface.max_image_count {
        image_count = surface.max_image_count;
    }
    Some(
        SurfaceChoice {
            swapchain_format: wanted,
            presentation_mode: PRESENT_MODE_MAILBOX,
            image_count,
        },
    )
}

/// How far the examination of a device has come, with what was chosen so far.
#[derive(Clone, Copy, PartialEq, Eq, Structural, Debug)]
pub enum Examination {
    /// The extensions of the device are asked for.
    Extensions,
    /// The queue families are asked for.
    Families,
    /// The features of the format of the depth buffer are asked for.
    DepthFormat(QueueFamilies),
    /// The properties of the surface are asked for.
    Surface(QueueFamilies),
    /// The sample counts and the type of the device are asked for.
    Properties(QueueFamilies, SurfaceChoice),
    /// The features of the device are asked for.
    Features(QueueFamilies, SurfaceChoice, bool),
    Rejected,
    Accepted(PhysicalDeviceProperties),
}

/// What a device says of itself.
pub enum DeviceAnswer {
    Extensions(Vec<String>),
    Families(Vec<QueueFamilyProperties>),
    DepthFormat(u32),
    Surface(SurfaceProperties),
    Properties { color_sample_counts: u32, device_type: i32 },
    Features { sampler_anisotropy: bool, buffer_device_address: bool },
}

/// The answer is to what was asked for.
pub open spec fn answers(examination: Examination, answer: DeviceAnswer) -> bool {
    match (examination, answer) {
        (Examination::Extensions, DeviceAnswer::Extensions(_)) => true,
        (Examination::Families, DeviceAnswer::Families(f)) => f.len() <= u32::MAX,
        (Examination::DepthFormat(_), DeviceAnswer::DepthFormat(_)) => true,
        (Examination::Surface(_), DeviceAnswer::Surface(s)) => s.min_image_count < u32::MAX,
        (Examination::Properties(_, _), DeviceAnswer::Properties { .. }) => true,
        (Examination::Features(_, _, _), DeviceAnswer::Features { .. }) => true,
        _ => false,
    }
}

/// What was chosen for a device that is accepted.
pub open spec fn accepted(
    queues: QueueFamilies,
    surface: SurfaceChoice,
    is_discrete: bool,
) -> PhysicalDeviceProperties {
    PhysicalDeviceProperties {
        graphics_queue_family_idx: queues.graphics,
        present_queue_family_idx: queues.present,
        transfer_queue_family_idx: queues.transfer,
        is_discrete,
        swapchain_format: surface.swapchain_format,
        presentation_mode: surface.presentation_mode,
        image_count: surface.image_count,
    }
}

/// An answer leads from one stage of the examination to the next: to the next question where the
/// device meets what is required, and to a rejection where it does not.
pub open spec fn leads_to(
    examination: Examination,
    answer: DeviceAnswer,
    next: Examination,
) -> bool {
    match (examination, answer) {
        (Examination::Extensions, DeviceAnswer::Extensions(available)) => next == (
        if extensions_available(text_views(available@)) {
            Examination::Families
        } else {
            Examination::Rejected
        }),
        (Examination::Families, DeviceAnswer::Families(families)) => match next {
            Examination::DepthFormat(queues) => is_queue_choice(families@, Some(queues)),
            Examination::Rejected => is_queue_choice(families@, None),
            _ => false,
        },
        (Examination::DepthFormat(queues), DeviceAnswer::DepthFormat(features)) => next == (
        if has_flags(features, FORMAT_FEATURE_DEPTH_STENCIL_ATTACHMENT) {
            Examination::Surface(queues)
        } else {
            Examination::Rejected
        }),
        (Examination::Surface(queues), DeviceAnswer::Surface(surface)) => next == (
        match surface_choice(surface) {
            Some(choice) => Examination::Properties(queues, choice),
            None => Examination::Rejected,
        }),
        (
            Examination::Properties(queues, surface),
            DeviceAnswer::Properties { color_sample_counts, device_type },
        ) => next == (if has_flags(color_sample_counts, MSAA_SAMPLES) {
            Examination::Features(queues, surface, device_type == DEVICE_TYPE_DISCRETE_GPU)
        } else {
            Examination::Rejected
        }),
        (
            Examination::Features(queues, surface, is_discrete),
            DeviceAnswer::Features { sampler_anisotropy, buffer_device_address },
        ) => next == (if sampler_anisotropy && buffer_device_address {
            Examination::Accepted(accepted(queues, surface, is_discrete))
        } else {
            Examination::Rejected
        }),
        _ => false,
    }
}

impl Examination {
    /// The first stage.
    pub fn new() -> (examination: Self)
        ensures
            examination == Examination::Extensions,
    {
        Examination::Extensions
    }

    /// Goes on with an answer of the device.
    pub fn advance(self, answer: &DeviceAnswer) -> (next: Self)
        requires
            answers(self, *answer),
        ensures
            leads_to(self, *answer, next),
    {
        match (self, answer) {
            (Examination::Extensions, DeviceAnswer::Extensions(available)) => {
                if has_required_extensions(available) {
                    Examination::Families
                } else {
                    Examination::Rejected
                }
            },
            (Examination::Families, DeviceAnswer::Families(families)) => {
                match select_queue_families(families) {
                    Some(queues) => Examination::DepthFormat(queues),
                    None => Examination::Rejected,
                }
            },
            (Examination::DepthFormat(queues), DeviceAnswer::DepthFormat(features)) => {
                if *features & FORMAT_FEATURE_DEPTH_STENCIL_ATTACHMENT
                    == FORMAT_FEATURE_DEPTH_STENCIL_ATTACHMENT {
                    Examination::Surface(queues)
                } else {
                    Examination::Rejected
                }
            },
            (Examination::Surface(queues), DeviceAnswer::Surface(surface)) => {
                match choose_surface(surface) {
                    Some(choice) => Examination::Properties(queues, choice),
                    None => Examination::Rejected,
                }
            },
            (
                Examination::Properties(queues, surface),
                DeviceAnswer::Properties { color_sample_counts, device_type },
            ) => {
                if *color_sample_counts & MSAA_SAMPLES == MSAA_SAMPLES {
                    Examination::Features(
                        queues,
                        surface,
                        *device_type == DEVICE_TYPE_DISCRETE_GPU,
                    )
                } else {
                    Examination::Rejected
                }
            },
            (
                Examination::Features(queues, surface, is_discrete),
                DeviceAnswer::Features { sampler_anisotropy, buffer_device_address },
            ) => {
                if *sampler_anisotropy && *buffer_device_address {
                    Examination::Accepted(
                        PhysicalDeviceProperties {
                            graphics_queue_family_idx: queues.graphics,
                            present_queue_family_idx: queues.present,
                            transfer_queue_family_idx: queues.transfer,
                            is_discrete,
                            swapchain_format: surface.swapchain_format,
                            presentation_mode: surface.presentation_mode,
                            image_count: surface.image_count,
                        },
                    )
                } else {
                    Examination::Rejected
                }
            },
            _ => Examination::Rejected,
        }
    }
}

/// A device that is accepted met every requirement, and its properties are what was chosen on
/// the way.
pub proof fn accepted_meets_requirements(
    available: Vec<String>,
    families: Vec<QueueFamilyProperties>,
    depth_features: u32,
    surface: SurfaceProperties,
    color_sample_counts: u32,
    device_type: i32,
    sampler_anisotropy: bool,
    buffer_device_address: bool,
    stages: Seq<Examination>,
)
    requires
        stages.len() == 7,
        stages[0] == Examination::Extensions,
        leads_to(stages[0], DeviceAnswer::Extensions(available), stages[1]),
        leads_to(stages[1], DeviceAnswer::Families(families), stages[2]),
        leads_to(stages[2], DeviceAnswer::DepthFormat(depth_features), stages[3]),
        leads_to(stages[3], DeviceAnswer::Surface(surface), stages[4]),
        leads_to(
            stages[4],
            DeviceAnswer::Properties { color_sample_counts, device_type },
            stages[5],
        ),
        leads_to(
            stages[5],
            DeviceAnswer::Features { sampler_anisotropy, buffer_device_address },
            stages[6],
        ),
        stages[6] is Accepted,
    ensures
        extensions_available(text_views(available@)),
        has_flags(depth_features, FORMAT_FEATURE_DEPTH_STENCIL_ATTACHMENT),
        surface_choice(surface) is Some,
        has_flags(color_sample_counts, MSAA_SAMPLES),
        sampler_anisotropy,
        buffer_device_address,
        stages[6] matches Examination::Accepted(p) && p.is_discrete == (device_type
            == DEVICE_TYPE_DISCRETE_GPU) && is_queue_choice(
            families@,
            Some(
                QueueFamilies {
                    graphics: p.graphics_queue_family_idx,
                    present: p.present_queue_family_idx,
                    transfer: p.transfer_queue_family_idx,
                },
            ),
        ) && surface_choice(surface) == Some(
            SurfaceChoice {
                swapchain_format: p.swapchain_format,
                presentation_mode: p.presentation_mode,
                image_count: p.image_count,
            },
        ),
{
}

/// The device to use among the first `n`: the last that is discrete, or the first of all.
pub open spec fn device_chosen(devices: Seq<Option<PhysicalDeviceProperties>>, n: nat) -> Option<int>
    decreases n,
{
    if n == 0 {
        None
    } else {
        let before = device_chosen(devices, (n - 1) as nat);
        match devices[n - 1] {
            Some(properties) => if before is None || properties.is_discrete {
                Some(n - 1)
            } else {
                before
            },
            None => before,
        }
    }
}

/// A discrete device is used wherever there is one; otherwise any that is accepted is.
pub proof fn discrete_preferred(devices: Seq<Option<PhysicalDeviceProperties>>, n: nat, i: int)
    requires
        0 <= i < n <= devices.len(),
        devices[i] is Some,
    ensures
        device_chosen(devices, n) matches Some(c) && {
            &&& 0 <= c < n
            &&& devices[c] is Some
            &&& (devices[i]->0).is_discrete ==> (devices[c]->0).is_discrete
        },
    decreases n,
{
    if i < n - 1 {
        discrete_preferred(devices, (n - 1) as nat, i);
    } else {
        device_chosen_in_range(devices, (n - 1) as nat);
    }
}

proof fn device_chosen_in_range(devices: Seq<Option<PhysicalDeviceProperties>>, n: nat)
    requires
        n <= devices.len(),
    ensures
        device_chosen(devices, n) matches Some(c) ==> 0 <= c < n && devices[c] is Some,
        device_chosen(devices, n) is None ==> forall|i: int|
            0 <= i < n ==> (#[trigger] devices[i]) is None,
    decreases n,
{
    if n > 0 {
        device_chosen_in_range(devices, (n - 1) as nat);
    }
}

/// Chooses the device to use. `devices` holds what was found of each device, and nothing for
/// those that were rejected.
pub fn choose_device(devices: &Vec<Option<PhysicalDeviceProperties>>) -> (result: Result<
    usize,
    DeviceInitError,
>)
    ensures
        match result {
            Ok(i) => device_chosen(devices@, devices@.len()) == Some(i as int) && i < devices.len()
                && devices@[i as int] is Some,
            Err(DeviceInitError::NoPhysicalDevices) => devices.len() == 0,
            Err(DeviceInitError::NoCompatiblePhysicalDevices) => devices.len() > 0 && forall|i: int|
                0 <= i < devices.len() ==> (#[trigger] devices@[i]) is None,
        },
{
    if devices.len() == 0 {
        return Err(DeviceInitError::NoPhysicalDevices);
    }
    let mut chosen: Option<usize> = None;
    let mut i: usize = 0;
    while i < devices.len()
        invariant
            i <= devices.len(),
            match chosen {
                Some(c) => device_chosen(devices@, i as nat) == Some(c as int),
                None => device_chosen(devices@, i as nat) is None,
            },
        decreases devices.len() - i,
    {
        match devices[i] {
            Some(properties) => {
                if chosen.is_none() || properties.is_discrete {
                    chosen = Some(i);
                }
            },
            None => {},
        }
        i += 1;
    }
    proof {
        device_chosen_in_range(devices@, devices@.len());
    }
    match chosen {
        Some(c) => Ok(c),
        None => Err(DeviceInitError::NoCompatiblePhysicalDevices),
    }
}

/// `arrayvec::ArrayVec`: a list with room for a fixed number of items.
#[verifier::external_type_specification]
#[verifier::external_body]
#[verifier::reject_recursive_types(T)]
pub struct ExArrayVec<T, const CAP: usize>(ArrayVec<T, CAP>);

/// A list of queue families.
pub type PropertyQueueList = ArrayVec<u32, 3>;

/// The items of a list.
pub uninterp spec fn queue_items(list: ArrayVec<u32, 3>) -> Seq<u32>;

/// `ArrayVec::new` makes an empty list.
#[verifier::external_body]
fn new_queue_list() -> (list: ArrayVec<u32, 3>)
    ensures
        queue_items(list) == Seq::<u32>::empty(),
{
    ArrayVec::new()
}

/// `ArrayVec::push` adds an item at the end of a list that is not full.
#[verifier::external_body]
fn push_queue(list: &mut ArrayVec<u32, 3>, item: u32)
    requires
        queue_items(*old(list)).len() < 3,
    ensures
        queue_items(*final(list)) == queue_items(*old(list)).push(item),
{
    list.push(item)
}

/// `ArrayVec::len` counts the items.
#[verifier::external_body]
fn queue_list_len(list: &ArrayVec<u32, 3>) -> (n: usize)
    ensures
        n == queue_items(*list).len(),
{
    list.len()
}

/// `ArrayVec::as_slice` gives all items.
#[verifier::external_body]
fn queue_list_slice(list: &ArrayVec<u32, 3>) -> (items: &[u32])
    ensures
        items@ == queue_items(*list),
{
    list.as_slice()
}

/// The items ascend.
pub open spec fn ascends(items: Seq<u32>) -> bool {
    forall|i: int, j: int| 0 <= i < j < items.len() ==> items[i] < items[j]
}

impl PhysicalDeviceProperties {
    /// `item` is one of the queue families.
    pub open spec fn uses_family(self, item: u32) -> bool {
        ||| item == self.graphics_queue_family_idx
        ||| item == self.present_queue_family_idx
        ||| item == self.transfer_queue_family_idx
    }

    /// The queue families in ascending order, each of them once.
    pub fn get_unique_queue_families(&self) -> (list: PropertyQueueList)
        ensures
            ascends(queue_items(list)),
            1 <= queue_items(list).len() <= MAX_QUEUE_FAMILIES,
            forall|item: u32|
                queue_items(list).contains(item) <==> #[trigger] self.uses_family(item),
    {
        let (g, p, t): (u32, u32, u32) = (
            self.graphics_queue_family_idx,
            self.present_queue_family_idx,
            self.transfer_queue_family_idx,
        );
        let (a, b): (u32, u32) = if g <= p {
            (g, p)
        } else {
            (p, g)
        };
        let (low, mid, high): (u32, u32, u32) = if t <= a {
            (t, a, b)
        } else if t <= b {
            (a, t, b)
        } else {
            (a, b, t)
        };
        let mut list = new_queue_list();
        push_queue(&mut list, low);
        let ghost first = queue_items(list);
        assert(first =~= seq![low]);
        if mid != low {
            push_queue(&mut list, mid);
        }
        let ghost second = queue_items(list);
        assert(second =~= if mid != low {
            seq![low, mid]
        } else {
            seq![low]
        });
        if high != mid {
            push_queue(&mut list, high);
        }
        proof {
            let items = queue_items(list);
            assert(items =~= if high != mid {
                second.push(high)
            } else {
                second
            });
            assert(items[0] == low);
            assert(mid != low ==> items[1] == mid);
            assert(high != mid ==> items[items.len() - 1] == high);
            assert forall|item: u32| items.contains(item) <==> #[trigger] self.uses_family(item) by {
                if items.contains(item) {
                    let i = items.index_of(item);
                    assert(items[i] == item);
                }
                if self.uses_family(item) {
                    assert(item == low || item == mid || item == high);
                }
            }
        }
        list
    }

    /// The queue family for a use.
    pub fn get_queue_family_idx(&self, queue: QueueFamily) -> (index: u32)
        ensures
            index == match queue {
                QueueFamily::Graphics => self.graphics_queue_family_idx,
                QueueFamily::Present => self.present_queue_family_idx,
                QueueFamily::Transfer => self.transfer_queue_family_idx,
            },
    {
        match queue {
            QueueFamily::Graphics => self.graphics_queue_family_idx,
            QueueFamily::Present => self.present_queue_family_idx,
            QueueFamily::Transfer => self.transfer_queue_family_idx,
        }
    }
}

/// The queues of a device, by their handles.
#[derive(Clone, Copy, PartialEq, Eq, Structural, Debug)]
pub struct DeviceQueues {
    pub graphics_queue: u64,
    pub present_queue: u64,
    pub transfer_queue: u64,
}

impl DeviceQueues {
    /// The queue for a use.
    pub fn get_queue(&self, queue: QueueFamily) -> (handle: u64)
        ensures
            handle == match queue {
                QueueFamily::Graphics => self.graphics_queue,
                QueueFamily::Present => self.present_queue,
                QueueFamily::Transfer => self.transfer_queue,
            },
    {
        match queue {
            QueueFamily::Graphics => self.graphics_queue,
            QueueFamily::Present => self.present_queue,
            QueueFamily::Transfer => self.transfer_queue,
        }
    }
}

/// How an image or buffer is shared between the queue families.
pub struct Sharing {
    pub mode: i32,
    pub queue_families: Vec<u32>,
}

impl PhysicalDeviceProperties {
    /// Images are shared among all queue families, in ascending order, where there are several;
    /// otherwise they are not shared.
    pub open spec fn shares_images(self, sharing: Sharing) -> bool {
        if self.graphics_queue_family_idx == self.present_queue_family_idx
            && self.graphics_queue_family_idx == self.transfer_queue_family_idx {
            sharing.mode == SHARING_EXCLUSIVE && sharing.queue_families@ == Seq::<u32>::empty()
        } else {
            &&& sharing.mode == SHARING_CONCURRENT
            &&& ascends(sharing.queue_families@)
            &&& forall|item: u32|
                sharing.queue_families@.contains(item) <==> #[trigger] self.uses_family(item)
        }
    }

    /// How the images of the swapchain are shared: among all queue families, where there are
    /// several.
    pub fn swapchain_sharing(&self) -> (sharing: Sharing)
        ensures
            self.shares_images(sharing),
    {
        let list = self.get_unique_queue_families();
        if queue_list_len(&list) > 1 {
            let items: &[u32] = queue_list_slice(&list);
            let mut queue_families: Vec<u32> = Vec::new();
            let mut i: usize = 0;
            while i < items.len()
                invariant
                    i <= items@.len(),
                    queue_families@ == items@.take(i as int),
                decreases items@.len() - i,
            {
                queue_families.push(items[i]);
                i += 1;
                assert(items@.take(i as int) =~= items@.take(i - 1).push(items@[i - 1]));
            }
            assert(items@.take(items@.len() as int) =~= items@);
            proof {
                assert(queue_families@.contains(items@[0]) && queue_families@.contains(items@[1]));
                assert(self.uses_family(items@[0]) && self.uses_family(items@[1]));
            }
            Sharing { mode: SHARING_CONCURRENT, queue_families }
        } else {
            proof {
                let items = queue_items(list);
                assert(self.uses_family(self.graphics_queue_family_idx));
                assert(self.uses_family(self.present_queue_family_idx));
                assert(self.uses_family(self.transfer_queue_family_idx));
                assert(items.len() == 1);
            }
            Sharing { mode: SHARING_EXCLUSIVE, queue_families: Vec::new() }
        }
    }

    /// How a buffer is shared: between graphics and transfers, where it is shared at all.
    pub fn buffer_sharing(&self, mode: i32) -> (sharing: Sharing)
        ensures
            sharing.mode == mode,
            sharing.queue_families@ == (if mode == SHARING_CONCURRENT {
                seq![self.graphics_queue_family_idx, self.transfer_queue_family_idx]
            } else {
                seq![]
            }),
    {
        let mut queue_families: Vec<u32> = Vec::new();
        if mode == SHARING_CONCURRENT {
            queue_families.push(self.graphics_queue_family_idx);
            queue_families.push(self.transfer_queue_family_idx);
        }
        Sharing { mode, queue_families }
    }
}

proof fn graphics_bit(flags: u32)
    ensures
        has_flags(flags, QUEUE_GRAPHICS) <==> flags % 2 == 1,
{
    assert(flags & 1 == 1 <==> flags % 2 == 1) by (bit_vector);
}

/// Which families serve for what. Where some family is for graphics, which the lowest bit of its
/// flags says, and can present too, the last one of these does both. Otherwise the first family
/// for graphics draws and the first that can present presents; and where there is none, nothing
/// does.
pub proof fn families_by_use(families: Seq<QueueFamilyProperties>, n: nat)
    requires
        n <= families.len() <= u32::MAX,
    ensures
        ({
            let (graphics, present) = families_chosen(families, n);
            let shared = exists|i: int|
                0 <= i < n && (#[trigger] families[i]).flags % 2 == 1
                    && families[i].present_supported;
            &&& shared ==> graphics is Some && graphics == present && {
                let last = graphics->0 as int;
                &&& last < n && families[last].flags % 2 == 1 && families[last].present_supported
                &&& forall|i: int|
                    last < i < n ==> !((#[trigger] families[i]).flags % 2 == 1
                        && families[i].present_supported)
            }
            &&& !shared ==> {
                &&& match graphics {
                    Some(first) => {
                        &&& first < n && families[first as int].flags % 2 == 1
                        &&& forall|i: int|
                            0 <= i < first ==> (#[trigger] families[i]).flags % 2 == 0
                    },
                    None => forall|i: int|
                        0 <= i < n ==> (#[trigger] families[i]).flags % 2 == 0,
                }
                &&& match present {
                    Some(first) => {
                        &&& first < n && families[first as int].present_supported
                        &&& forall|i: int|
                            0 <= i < first ==> !(#[trigger] families[i]).present_supported
                    },
                    None => forall|i: int|
                        0 <= i < n ==> !(#[trigger] families[i]).present_supported,
                }
            }
        }),
    decreases n,
{
    if n > 0 {
        families_by_use(families, (n - 1) as nat);
        graphics_bit(families[n - 1].flags);
        let family = families[n - 1];
        let shared = exists|i: int|
            0 <= i < n && (#[trigger] families[i]).flags % 2 == 1 && families[i].present_supported;
        if family.flags % 2 == 1 && family.present_supported {
            assert(families[n - 1].flags % 2 == 1);
        } else {
            let before = exists|i: int|
                0 <= i < n - 1 && (#[trigger] families[i]).flags % 2 == 1
                    && families[i].present_supported;
            if shared {
                let i = choose|i: int|
                    0 <= i < n && (#[trigger] families[i]).flags % 2 == 1
                        && families[i].present_supported;
                assert(i < n - 1);
                assert(families[i].flags % 2 == 1);
                assert(before);
            }
            if before {
                let i = choose|i: int|
                    0 <= i < n - 1 && (#[trigger] families[i]).flags % 2 == 1
                        && families[i].present_supported;
                assert(families[i].flags % 2 == 1);
                assert(shared);
            }
        }
    }
}

/// Transfers go to a family of their own, one that has the bit for transfers and not the one for
/// graphics, wherever there is one; to the family for graphics otherwise.
pub proof fn transfers_by_use(families: Seq<QueueFamilyProperties>, choice: QueueFamilies, i: int)
    requires
        is_queue_choice(families, Some(choice)),
        0 <= i < families.len() <= u32::MAX,
        families[i].flags / 4 % 2 == 1,
        families[i].flags % 2 == 0,
    ensures
        choice.transfer <= i,
        families[choice.transfer as int].flags / 4 % 2 == 1,
        families[choice.transfer as int].flags % 2 == 0,
{
    let f = families[i].flags;
    let g = families[choice.transfer as int].flags;
    graphics_bit(f);
    graphics_bit(g);
    assert(f & 4 == 4 <==> f / 4 % 2 == 1) by (bit_vector);
    assert(g & 4 == 4 <==> g / 4 % 2 == 1) by (bit_vector);
    assert(is_transfer_only(families[i]));
}

/// Without a family of their own, transfers go to the family for graphics.
pub proof fn transfers_beside_graphics(families: Seq<QueueFamilyProperties>, choice: QueueFamilies)
    requires
        is_queue_choice(families, Some(choice)),
        forall|i: int|
            0 <= i < families.len() ==> (#[trigger] families[i]).flags % 2 == 1 || families[i].flags
                / 4 % 2 == 0,
    ensures
        choice.transfer == choice.graphics,
{
    let i = choice.transfer as int;
    if i < families.len() {
        let g = families[i].flags;
        graphics_bit(g);
        assert(g & 4 == 4 <==> g / 4 % 2 == 1) by (bit_vector);
        assert(!is_transfer_only(families[i]));
    }
}

/// The images of the swapchain are the preferred kind, eight bits for each of blue, green, red and
/// alpha in sRGB, shown in mailbox mode, and one more than the surface needs unless it allows no
/// more; without that kind or that mode there is no choice.
pub proof fn surfaces_show_srgb_in_mailbox_mode(surface: SurfaceProperties)
    requires
        surface.min_image_count < u32::MAX,
        surface.max_image_count == 0 || surface.min_image_count <= surface.max_image_count,
    ensures
        surface_choice(surface) is Some <==> surface.formats@.contains(
            SurfaceFormat { format: 50, color_space: 0 },
        ) && surface.present_modes@.contains(1i32),
        surface_choice(surface) matches Some(choice) ==> {
            &&& choice.swapchain_format.format == 50
            &&& choice.swapchain_format.color_space == 0
            &&& choice.presentation_mode == 1
            &&& surface.min_image_count <= choice.image_count <= surface.min_image_count + 1
            &&& surface.max_image_count > 0 ==> choice.image_count <= surface.max_image_count
            &&& choice.image_count == surface.min_image_count ==> surface.max_image_count
                == surface.min_image_count
        },
{
}

/// A device that is accepted has the extensions for swapchains, synchronisation and dynamic
/// rendering, a depth buffer to draw with, eight samples for each pixel, anisotropic samplers and
/// buffer addresses; it counts as discrete just where its type says so. Nothing else is asked of a
/// device but queues and a surface to show images on.
pub proof fn devices_are_asked_for_what_drawing_needs(
    available: Vec<String>,
    families: Vec<QueueFamilyProperties>,
    depth_features: u32,
    surface: SurfaceProperties,
    color_sample_counts: u32,
    device_type: i32,
    sampler_anisotropy: bool,
    buffer_device_address: bool,
    queues: QueueFamilies,
    shown: SurfaceChoice,
    next: Examination,
)
    ensures
        leads_to(Examination::Extensions, DeviceAnswer::Extensions(available), next) ==> {
            let names = text_views(available@);
            if names.contains("VK_KHR_swapchain"@) && names.contains("VK_KHR_synchronization2"@)
                && names.contains("VK_KHR_dynamic_rendering"@) {
                next is Families
            } else {
                next is Rejected
            }
        },
        leads_to(
            Examination::DepthFormat(queues),
            DeviceAnswer::DepthFormat(depth_features),
            next,
        ) ==> if depth_features / 0x200 % 2 == 1 {
            next == Examination::Surface(queues)
        } else {
            next is Rejected
        },
        leads_to(
            Examination::Properties(queues, shown),
            DeviceAnswer::Properties { color_sample_counts, device_type },
            next,
        ) ==> if color_sample_counts / 8 % 2 == 1 {
            next == Examination::Features(queues, shown, device_type == 2)
        } else {
            next is Rejected
        },
        leads_to(
            Examination::Features(queues, shown, device_type == 2),
            DeviceAnswer::Features { sampler_anisotropy, buffer_device_address },
            next,
        ) ==> if sampler_anisotropy && buffer_device_address {
            next matches Examination::Accepted(p) && {
                &&& p.graphics_queue_family_idx == queues.graphics
                &&& p.present_queue_family_idx == queues.present
                &&& p.transfer_queue_family_idx == queues.transfer
                &&& p.is_discrete == (device_type == 2)
                &&& p.swapchain_format == shown.swapchain_format
                &&& p.presentation_mode == shown.presentation_mode
                &&& p.image_count == shown.image_count
            }
        } else {
            next is Rejected
        },
{
    assert(depth_features & 0x200 == 0x200 <==> depth_features / 0x200 % 2 == 1) by (bit_vector);
    assert(color_sample_counts & 8 == 8 <==> color_sample_counts / 8 % 2 == 1) by (bit_vector);
    let names = text_views(available@);
    let required = required_extensions();
    assert(required[0] == "VK_KHR_swapchain"@);
    assert(required[1] == "VK_KHR_synchronization2"@);
    assert(required[2] == "VK_KHR_dynamic_rendering"@);
    if names.contains(required[0]) && names.contains(required[1]) && names.contains(required[2]) {
        assert forall|i: int| 0 <= i < required.len() implies names.contains(
            #[trigger] required_extensions()[i],
        ) by {
            assert(i == 0 || i == 1 || i == 2);
        }
        assert(extensions_available(names));
    } else {
        assert(required_extensions().len() == 3);
    }
}

/// The last discrete device is used, or the first device of all that are accepted where none is
/// discrete.
pub proof fn last_discrete_or_first(devices: Seq<Option<PhysicalDeviceProperties>>, n: nat)
    requires
        n <= devices.len(),
    ensures
        match device_chosen(devices, n) {
            Some(c) => {
                &&& 0 <= c < n
                &&& devices[c] is Some
                &&& (devices[c]->0).is_discrete ==> forall|i: int|
                    c < i < n && (#[trigger] devices[i]) is Some ==> !(devices[i]->0).is_discrete
                &&& !(devices[c]->0).is_discrete ==> (forall|i: int|
                    0 <= i < n && (#[trigger] devices[i]) is Some ==> c <= i
                        && !(devices[i]->0).is_discrete)
            },
            None => forall|i: int| 0 <= i < n ==> (#[trigger] devices[i]) is None,
        },
    decreases n,
{
    if n > 0 {
        last_discrete_or_first(devices, (n - 1) as nat);
    }
}

} // verus!
