//! The textures of a level.

use crate::index_map::{insert_name, name_count, name_index, new_names};
#[allow(unused_imports)]
use crate::index_map::{entry_at, has_name, insert_keeps_distinct, name_entries, names_distinct};
use crate::pipelines::config::MAX_TEXTURES;
use crate::resource_paths::ResourcePath;
#[allow(unused_imports)]
use crate::resource_paths::resource_key;
use crate::gui::sampler::SamplerInfo;
use crate::vk::{
    ADDRESS_MODE_REPEAT, BORDER_COLOR_INT_OPAQUE_BLACK, FILTER_LINEAR, MIPMAP_MODE_LINEAR,
};
use indexmap::IndexMap;
use vstd::prelude::*;

verus! {

/// The sampler that all textures of a level share, which is anisotropic besides.
pub fn default_sampler_info() -> (info: SamplerInfo)
    ensures
        info == (SamplerInfo {
            mag_filter: FILTER_LINEAR,
            min_filter: FILTER_LINEAR,
            address_mode: ADDRESS_MODE_REPEAT,
            border_color: BORDER_COLOR_INT_OPAQUE_BLACK,
            mipmap_mode: MIPMAP_MODE_LINEAR,
        }),
{
    SamplerInfo {
        mag_filter: FILTER_LINEAR,
        min_filter: FILTER_LINEAR,
        address_mode: ADDRESS_MODE_REPEAT,
        border_color: BORDER_COLOR_INT_OPAQUE_BLACK,
        mipmap_mode: MIPMAP_MODE_LINEAR,
    }
}

/// The textures of a level, numbered in the order in which they were loaded.
pub struct TextureManager {
    textures: IndexMap<String, u32>,
}

impl TextureManager {
    /// The keys of the textures, in order.
    pub closed spec fn keys(self) -> Seq<Seq<char>> {
        name_entries(self.textures).map_values(|e: (Seq<char>, u32)| e.0)
    }

    /// No texture is listed twice, and there are no more than a scene can have.
    pub closed spec fn wf(self) -> bool {
        names_distinct(name_entries(self.textures)) && name_entries(self.textures).len()
            <= MAX_TEXTURES
    }

    /// What a well-formed manager promises.
    pub proof fn wf_means(self)
        requires
            self.wf(),
        ensures
            self.keys().no_duplicates(),
            self.keys().len() <= MAX_TEXTURES,
    {
        let entries = name_entries(self.textures);
        assert forall|i: int, j: int|
            0 <= i < self.keys().len() && 0 <= j < self.keys().len() && i != j implies self.keys()[i]
            != self.keys()[j] by {
            if i < j {
                assert(entries[i].0 != entries[j].0);
            } else {
                assert(entries[j].0 != entries[i].0);
            }
        }
    }

    /// No textures yet.
    pub fn new() -> (manager: Self)
        ensures
            manager.wf(),
            manager.keys() == Seq::<Seq<char>>::empty(),
    {
        let manager = TextureManager { textures: new_names() };
        assert(manager.keys() =~= seq![]);
        manager
    }

    /// The number of a texture that is already loaded.
    pub fn find_texture(&self, path: &ResourcePath) -> (index: Option<u32>)
        requires
            self.wf(),
        ensures
            match index {
                Some(i) => i < self.keys().len() && self.keys()[i as int] == resource_key(path@),
                None => !self.keys().contains(resource_key(path@)),
            },
    {
        let key = path.key();
        match name_index(&self.textures, key.as_str()) {
            Some(i) => Some(i as u32),
            None => {
                proof {
                    if self.keys().contains(key@) {
                        let i = self.keys().index_of(key@);
                        assert(entry_at(name_entries(self.textures), key@, i));
                    }
                }
                None
            },
        }
    }

    /// There is room for another texture.
    pub fn has_room(&self) -> (room: bool)
        ensures
            room == (self.keys().len() < MAX_TEXTURES),
    {
        name_count(&self.textures) < MAX_TEXTURES
    }

    /// Adds a texture that was loaded.
    pub fn add_texture(&mut self, path: &ResourcePath) -> (index: u32)
        requires
            old(self).wf(),
            old(self).keys().len() < MAX_TEXTURES,
            !old(self).keys().contains(resource_key(path@)),
        ensures
            final(self).wf(),
            final(self).keys() == old(self).keys().push(resource_key(path@)),
            index == old(self).keys().len(),
    {
        let key = path.key();
        let ghost entries = name_entries(self.textures);
        let number: u32 = name_count(&self.textures) as u32;
        let ghost k = key@;
        proof {
            if has_name(entries, k) {
                let i = choose|i: int| entry_at(entries, k, i);
                assert(self.keys()[i] == k);
                assert(self.keys().contains(k));
            }
        }
        let index: usize = insert_name(&mut self.textures, key, number).0;
        proof {
            insert_keeps_distinct(entries, k, number);
            assert(self.keys() =~= old(self).keys().push(k));
        }
        index as u32
    }

    /// The number of textures.
    pub fn num_textures(&self) -> (n: u32)
        requires
            self.wf(),
        ensures
            n == self.keys().len(),
    {
        name_count(&self.textures) as u32
    }
}

} // verus!
