//! The samplers of the textures of a user interface.

use crate::vk::{
    ADDRESS_MODE_CLAMP_TO_EDGE, ADDRESS_MODE_MIRRORED_REPEAT, ADDRESS_MODE_REPEAT,
    BORDER_COLOR_INT_OPAQUE_BLACK, FILTER_LINEAR, FILTER_NEAREST, MIPMAP_MODE_LINEAR,
    MIPMAP_MODE_NEAREST,
};
use std::collections::HashMap;
use vstd::prelude::*;

verus! {

broadcast use vstd::std_specs::hash::group_hash_axioms;

/// How texels are filtered.
#[derive(Clone, Copy, PartialEq, Eq, Structural, Debug)]
pub enum TextureFilter {
    Nearest,
    Linear,
}

/// What is read outside of a texture.
#[derive(Clone, Copy, PartialEq, Eq, Structural, Debug)]
pub enum TextureWrapMode {
    ClampToEdge,
    Repeat,
    MirroredRepeat,
}

/// How a texture is sampled.
#[derive(Clone, Copy, PartialEq, Eq, Structural, Debug)]
pub struct TextureOptions {
    pub magnification: TextureFilter,
    pub minification: TextureFilter,
    pub wrap_mode: TextureWrapMode,
    pub mipmap_mode: Option<TextureFilter>,
}

/// The settings of a sampler.
#[derive(Clone, Copy, PartialEq, Eq, Structural, Debug)]
pub struct SamplerInfo {
    pub mag_filter: i32,
    pub min_filter: i32,
    pub address_mode: i32,
    pub border_color: i32,
    pub mipmap_mode: i32,
}

/// The Vulkan number of a filter.
pub open spec fn vk_filter(filter: TextureFilter) -> i32 {
    match filter {
        TextureFilter::Nearest => FILTER_NEAREST,
        TextureFilter::Linear => FILTER_LINEAR,
    }
}

/// The Vulkan number of a mipmap mode; linear where none is given.
pub open spec fn vk_mipmap_mode(filter: Option<TextureFilter>) -> i32 {
    match filter {
        Some(TextureFilter::Nearest) => MIPMAP_MODE_NEAREST,
        Some(TextureFilter::Linear) => MIPMAP_MODE_LINEAR,
        None => MIPMAP_MODE_LINEAR,
    }
}

/// The Vulkan number of a wrap mode.
pub open spec fn vk_wrap_mode(wrap_mode: TextureWrapMode) -> i32 {
    match wrap_mode {
        TextureWrapMode::ClampToEdge => ADDRESS_MODE_CLAMP_TO_EDGE,
        TextureWrapMode::Repeat => ADDRESS_MODE_REPEAT,
        TextureWrapMode::MirroredRepeat => ADDRESS_MODE_MIRRORED_REPEAT,
    }
}

fn into_vk_filter(filter: TextureFilter) -> (number: i32)
    ensures
        number == vk_filter(filter),
{
    match filter {
        TextureFilter::Nearest => FILTER_NEAREST,
        TextureFilter::Linear => FILTER_LINEAR,
    }
}

fn into_vk_wrap_mode(wrap_mode: TextureWrapMode) -> (number: i32)
    ensures
        number == vk_wrap_mode(wrap_mode),
{
    match wrap_mode {
        TextureWrapMode::ClampToEdge => ADDRESS_MODE_CLAMP_TO_EDGE,
        TextureWrapMode::Repeat => ADDRESS_MODE_REPEAT,
        TextureWrapMode::MirroredRepeat => ADDRESS_MODE_MIRRORED_REPEAT,
    }
}

fn into_vk_mipmap_mode(filter: Option<TextureFilter>) -> (number: i32)
    ensures
        number == vk_mipmap_mode(filter),
{
    match filter {
        Some(TextureFilter::Nearest) => MIPMAP_MODE_NEAREST,
        Some(TextureFilter::Linear) => MIPMAP_MODE_LINEAR,
        None => MIPMAP_MODE_LINEAR,
    }
}

impl TextureOptions {
    /// A number for the options.
    pub open spec fn spec_number(self) -> int {
        let mag = if self.magnification is Nearest {
            0int
        } else {
            1
        };
        let min = if self.minification is Nearest {
            0int
        } else {
            1
        };
        let wrap = match self.wrap_mode {
            TextureWrapMode::ClampToEdge => 0int,
            TextureWrapMode::Repeat => 1,
            TextureWrapMode::MirroredRepeat => 2,
        };
        let mip = match self.mipmap_mode {
            None => 0int,
            Some(TextureFilter::Nearest) => 1,
            Some(TextureFilter::Linear) => 2,
        };
        ((mag * 2 + min) * 3 + wrap) * 3 + mip
    }

    /// A number for the options.
    pub fn number(&self) -> (n: u64)
        ensures
            n == self.spec_number(),
    {
        let mag: u64 = match self.magnification {
            TextureFilter::Nearest => 0,
            TextureFilter::Linear => 1,
        };
        let min: u64 = match self.minification {
            TextureFilter::Nearest => 0,
            TextureFilter::Linear => 1,
        };
        let wrap: u64 = match self.wrap_mode {
            TextureWrapMode::ClampToEdge => 0,
            TextureWrapMode::Repeat => 1,
            TextureWrapMode::MirroredRepeat => 2,
        };
        let mip: u64 = match self.mipmap_mode {
            None => 0,
            Some(TextureFilter::Nearest) => 1,
            Some(TextureFilter::Linear) => 2,
        };
        ((mag * 2 + min) * 3 + wrap) * 3 + mip
    }

    /// The settings of a sampler with these options.
    pub fn sampler_info(&self) -> (info: SamplerInfo)
        ensures
            info == (SamplerInfo {
                mag_filter: vk_filter(self.magnification),
                min_filter: vk_filter(self.minification),
                address_mode: vk_wrap_mode(self.wrap_mode),
                border_color: BORDER_COLOR_INT_OPAQUE_BLACK,
                mipmap_mode: vk_mipmap_mode(self.mipmap_mode),
            }),
    {
        SamplerInfo {
            mag_filter: into_vk_filter(self.magnification),
            min_filter: into_vk_filter(self.minification),
            address_mode: into_vk_wrap_mode(self.wrap_mode),
            border_color: BORDER_COLOR_INT_OPAQUE_BLACK,
            mipmap_mode: into_vk_mipmap_mode(self.mipmap_mode),
        }
    }
}

/// Different options have different numbers.
pub proof fn option_numbers_distinct(a: TextureOptions, b: TextureOptions)
    requires
        a.spec_number() == b.spec_number(),
    ensures
        a == b,
{
}

/// The samplers that were created, by their options.
pub struct SamplerCache {
    by_options: HashMap<u64, usize>,
    handles: Vec<u64>,
}

impl SamplerCache {
    /// The sampler for each of the options.
    pub closed spec fn view(self) -> Map<TextureOptions, u64> {
        Map::new(
            |o: TextureOptions| self.by_options@.contains_key(o.spec_number() as u64),
            |o: TextureOptions| self.handles@[self.by_options@[o.spec_number() as u64] as int],
        )
    }

    /// The samplers, in the order in which they were created.
    pub closed spec fn all(self) -> Seq<u64> {
        self.handles@
    }

    /// Every sampler that is looked up was created.
    pub closed spec fn wf(self) -> bool {
        forall|k: u64|
            self.by_options@.contains_key(k) ==> (#[trigger] self.by_options@[k])
                < self.handles@.len()
    }

    /// No samplers.
    pub fn new() -> (cache: Self)
        ensures
            cache.wf(),
            cache.all() == Seq::<u64>::empty(),
            cache@ == Map::<TextureOptions, u64>::empty(),
    {
        let cache = SamplerCache { by_options: HashMap::new(), handles: Vec::new() };
        assert(cache@ =~= Map::<TextureOptions, u64>::empty());
        cache
    }

    /// The sampler for the options, where it was created already.
    pub fn get(&self, options: &TextureOptions) -> (sampler: Option<u64>)
        requires
            self.wf(),
        ensures
            sampler == (if self@.contains_key(*options) {
                Some(self@[*options])
            } else {
                None
            }),
    {
        match self.by_options.get(&options.number()) {
            Some(i) => Some(self.handles[*i]),
            None => None,
        }
    }

    /// Keeps the sampler that was created for the options.
    pub fn insert(&mut self, options: &TextureOptions, sampler: u64)
        requires
            old(self).wf(),
            !old(self)@.contains_key(*options),
        ensures
            final(self).wf(),
            final(self)@ == old(self)@.insert(*options, sampler),
            final(self).all() == old(self).all().push(sampler),
    {
        let index: usize = self.handles.len();
        self.handles.push(sampler);
        self.by_options.insert(options.number(), index);
        proof {
            let (before, after) = (*old(self), *self);
            assert forall|o: TextureOptions|
                before@.insert(*options, sampler).contains_key(o) <==> after@.contains_key(o) by {
                if o.spec_number() == options.spec_number() {
                    option_numbers_distinct(o, *options);
                }
            }
            assert forall|o: TextureOptions| after@.contains_key(o) implies after@[o]
                == before@.insert(*options, sampler)[o] by {
                if o.spec_number() == options.spec_number() {
                    option_numbers_distinct(o, *options);
                } else {
                    assert(before.by_options@[o.spec_number() as u64] < before.handles@.len());
                }
            }
            assert(after@ =~= before@.insert(*options, sampler));
        }
    }

    /// The samplers, in the order in which they were created.
    pub fn handles(&self) -> (handles: &Vec<u64>)
        ensures
            handles@ == self.all(),
    {
        &self.handles
    }
}

/// Every filter and every wrap mode has its own number: the nearest texel is 0 and linear
/// filtering 1, and outside of a texture 0 repeats it, 1 mirrors it and 2 clamps to its edge. Mip
/// levels are filtered like texels, linearly where nothing is said.
pub proof fn options_have_their_numbers(filter: TextureFilter, wrap_mode: TextureWrapMode)
    ensures
        vk_filter(filter) == 0 <==> filter is Nearest,
        vk_filter(filter) == 1 <==> filter is Linear,
        vk_mipmap_mode(Some(filter)) == vk_filter(filter),
        vk_mipmap_mode(None) == 1,
        vk_wrap_mode(wrap_mode) == 0 <==> wrap_mode is Repeat,
        vk_wrap_mode(wrap_mode) == 1 <==> wrap_mode is MirroredRepeat,
        vk_wrap_mode(wrap_mode) == 2 <==> wrap_mode is ClampToEdge,
{
}

} // verus!
