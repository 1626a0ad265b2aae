//! Material configurations, and the cache of those that were loaded.

use crate::materials::constant::ResourceConstant;
#[allow(unused_imports)]
use crate::path::{extension_dot, is_path, part_fits, stem, PartView};
use crate::resource_paths::{ResourcePath, ResourcePathBase};
#[allow(unused_imports)]
use crate::resource_paths::{resolved, resource_key, resource_key_injective};
use crate::text::{chars_of, find_char, string_of};
#[allow(unused_imports)]
use crate::text::{other_than, run_length, run_length_is};
use vstd::hash_map::StringHashMap;
use vstd::prelude::*;

verus! {

/// A material in a resource that may hold several.
#[derive(Debug)]
pub struct SubresourcePath {
    resource: ResourcePath,
    subresource: String,
}

/// The text that stands for a subresource.
pub open spec fn subresource_key(
    path: ((ResourcePathBase, Seq<PartView>), Seq<char>),
) -> Seq<char> {
    path.1 + seq!['/'] + resource_key(path.0)
}

/// Two subresources with the same key are the same.
pub proof fn subresource_key_injective(
    a: ((ResourcePathBase, Seq<PartView>), Seq<char>),
    b: ((ResourcePathBase, Seq<PartView>), Seq<char>),
)
    requires
        is_path(a.0.1),
        is_path(b.0.1),
        !a.1.contains('/'),
        !b.1.contains('/'),
        subresource_key(a) == subresource_key(b),
    ensures
        a == b,
{
    let (ka, kb) = (subresource_key(a), subresource_key(b));
    if a.1.len() < b.1.len() {
        assert(ka[a.1.len() as int] == '/');
        assert(kb[a.1.len() as int] == b.1[a.1.len() as int]);
        assert(b.1.contains('/'));
    }
    if b.1.len() < a.1.len() {
        assert(kb[b.1.len() as int] == '/');
        assert(ka[b.1.len() as int] == a.1[b.1.len() as int]);
        assert(a.1.contains('/'));
    }
    let n = a.1.len() as int;
    assert(ka.take(n) =~= a.1);
    assert(kb.take(n) =~= b.1);
    assert(ka.skip(n + 1) =~= resource_key(a.0));
    assert(kb.skip(n + 1) =~= resource_key(b.0));
    resource_key_injective(a.0, b.0);
}

/// The place of the first colon, or the end of the text.
pub open spec fn colon(text: Seq<char>) -> int {
    run_length(text, other_than(':')) as int
}

/// The name of a material in a resource: what follows the colon in the text, or the name of the
/// file without its extension where there is no colon.
pub open spec fn material_name(text: Seq<char>, path: Seq<PartView>) -> Option<Seq<char>> {
    if colon(text) < text.len() {
        Some(text.skip(colon(text) + 1))
    } else if path.len() > 0 {
        match path.last() {
            PartView::Normal(name) => Some(stem(name)),
            _ => None,
        }
    } else {
        None
    }
}

/// The material that a text names: the path of a resource, then optionally a colon and the name
/// of a material in that resource, which holds no separator.
pub open spec fn subresource_of(
    text: Seq<char>,
    relative_to: Option<(ResourcePathBase, Seq<PartView>)>,
) -> Option<((ResourcePathBase, Seq<PartView>), Seq<char>)> {
    match resolved(text.take(colon(text)), relative_to) {
        Some(resource) => match material_name(text, resource.1) {
            Some(name) => if name.contains('/') {
                None
            } else {
                Some((resource, name))
            },
            None => None,
        },
        None => None,
    }
}

impl View for SubresourcePath {
    type V = ((ResourcePathBase, Seq<PartView>), Seq<char>);

    closed spec fn view(&self) -> Self::V {
        (self.resource@, self.subresource@)
    }
}

impl SubresourcePath {
    /// The name of the subresource holds no separator, and the resource path is well formed.
    pub closed spec fn wf(self) -> bool {
        self.resource.wf() && !self.subresource@.contains('/')
    }

    /// The parts of a well-formed path.
    pub proof fn wf_parts(self)
        requires
            self.wf(),
        ensures
            is_path(self@.0.1),
            !self@.1.contains('/'),
    {
        self.resource.wf_is_path();
    }

    /// The material that a text names, next to the resource `relative_to`; nothing where the text
    /// names none.
    pub fn new(text: &str, relative_to: Option<&ResourcePath>) -> (path: Option<Self>)
        requires
            relative_to matches Some(r) ==> r.wf(),
        ensures
            ({
                let base = match relative_to {
                    Some(r) => Some(r@),
                    None => None,
                };
                match path {
                    Some(p) => p.wf() && subresource_of(text@, base) == Some(p@),
                    None => subresource_of(text@, base) is None,
                }
            }),
    {
        let chars = chars_of(text);
        let split: usize = find_char(&chars, 0, ':');
        assert(chars@.skip(0) =~= text@);
        let resource_text = string_of(&chars, 0, split);
        assert(resource_text@ =~= text@.take(colon(text@)));
        let resource = match ResourcePath::new(resource_text.as_str(), relative_to) {
            Some(resource) => resource,
            None => {
                return None;
            },
        };
        let name: String = if split < chars.len() {
            let name = string_of(&chars, split + 1, chars.len());
            assert(name@ =~= text@.skip(colon(text@) + 1));
            name
        } else {
            match resource.path().file_stem() {
                Some(name) => name,
                None => {
                    return None;
                },
            }
        };
        Self::from_parts(resource, name)
    }

    /// The subresource of the given name; nothing for a name that holds a separator.
    pub fn from_parts(resource: ResourcePath, subresource: String) -> (path: Option<Self>)
        requires
            resource.wf(),
        ensures
            match path {
                Some(p) => p.wf() && p@ == (resource@, subresource@) && !subresource@.contains('/'),
                None => subresource@.contains('/'),
            },
    {
        let chars = chars_of(subresource.as_str());
        let mut i: usize = 0;
        while i < chars.len()
            invariant
                i <= chars.len(),
                chars@ == subresource@,
                forall|k: int| 0 <= k < i ==> chars@[k] != '/',
            decreases chars.len() - i,
        {
            if chars[i] == '/' {
                assert(subresource@.contains(chars@[i as int]));
                return None;
            }
            i += 1;
        }
        Some(SubresourcePath { resource, subresource })
    }

    /// The resource.
    pub fn resource(&self) -> (resource: &ResourcePath)
        ensures
            resource@ == self@.0,
            self.wf() ==> resource.wf(),
    {
        &self.resource
    }

    /// The name of the subresource.
    pub fn subresource(&self) -> (name: &str)
        ensures
            name@ == self@.1,
    {
        self.subresource.as_str()
    }

    /// A text that stands for the subresource.
    pub fn key(&self) -> (key: String)
        ensures
            key@ == subresource_key(self@),
    {
        let mut key = self.subresource.clone();
        key.push('/');
        let resource = self.resource.key();
        key.append(resource.as_str());
        assert(key@ =~= subresource_key(self@));
        key
    }
}

/// What a material configuration binds to a bind point.
#[derive(Debug)]
pub enum ResourceBindingConfig {
    /// The texture with the given path.
    Texture(String),
    Constant(ResourceConstant),
}

/// The configuration of a material.
#[derive(Debug)]
pub struct MaterialConfig {
    pub pipeline: String,
    pub params: Vec<(String, ResourceBindingConfig)>,
}

/// A resource with several material configurations, by name.
pub struct MaterialConfigMap {
    configs: StringHashMap<MaterialConfig>,
}

impl View for MaterialConfigMap {
    type V = Map<Seq<char>, MaterialConfig>;

    closed spec fn view(&self) -> Self::V {
        self.configs@
    }
}

impl MaterialConfigMap {
    /// No configurations.
    pub fn new() -> (map: Self)
        ensures
            map@ == Map::<Seq<char>, MaterialConfig>::empty(),
    {
        MaterialConfigMap { configs: StringHashMap::new() }
    }

    /// Adds a configuration under a name.
    pub fn insert(&mut self, name: String, config: MaterialConfig)
        ensures
            final(self)@ == old(self)@.insert(name@, config),
    {
        self.configs.insert(name, config);
    }

    /// The configuration with a name.
    pub fn get(&self, name: &str) -> (config: Option<&MaterialConfig>)
        ensures
            match config {
                Some(c) => self@.contains_key(name@) && self@[name@] == *c,
                None => !self@.contains_key(name@),
            },
    {
        self.configs.get(name)
    }
}

/// What a material resource holds.
pub enum ParsedConfig {
    /// Several materials.
    Several(MaterialConfigMap),
    /// One material.
    Single(MaterialConfig),
    /// Neither.
    Invalid,
}

/// A material configuration that cannot be had.
#[derive(PartialEq, Eq, Structural, Copy, Clone, Debug)]
pub enum MaterialConfigError {
    /// The resource is not in the cache.
    NotLoaded,
    /// The resource holds neither one material nor several.
    Parse,
    /// The resource holds several materials, but not the one that was asked for.
    Resource,
}

/// The material configurations that were loaded, each resource in one of two caches.
pub struct MaterialConfigsCache {
    config_maps: StringHashMap<MaterialConfigMap>,
    config_singles: StringHashMap<MaterialConfig>,
}

impl MaterialConfigsCache {
    /// The resources with several materials.
    pub closed spec fn maps(self) -> Map<Seq<char>, MaterialConfigMap> {
        self.config_maps@
    }

    /// The resources with one material.
    pub closed spec fn singles(self) -> Map<Seq<char>, MaterialConfig> {
        self.config_singles@
    }

    /// No resource is in both caches.
    pub open spec fn wf(self) -> bool {
        forall|key: Seq<char>|
            !(#[trigger] self.maps().contains_key(key) && #[trigger] self.singles().contains_key(
                key,
            ))
    }

    /// The resource is in the cache.
    pub open spec fn holds(self, key: Seq<char>) -> bool {
        self.maps().contains_key(key) || self.singles().contains_key(key)
    }

    /// An empty cache.
    pub fn new() -> (cache: Self)
        ensures
            cache.wf(),
            cache.maps() == Map::<Seq<char>, MaterialConfigMap>::empty(),
            cache.singles() == Map::<Seq<char>, MaterialConfig>::empty(),
    {
        MaterialConfigsCache {
            config_maps: StringHashMap::new(),
            config_singles: StringHashMap::new(),
        }
    }

    /// Tests that a resource is in the cache.
    pub fn is_loaded(&self, resource: &ResourcePath) -> (loaded: bool)
        ensures
            loaded == self.holds(resource_key(resource@)),
    {
        let key = resource.key();
        self.config_maps.contains_key(key.as_str()) || self.config_singles.contains_key(
            key.as_str(),
        )
    }

    /// Puts what a resource holds into the cache.
    pub fn store(&mut self, resource: &ResourcePath, parsed: ParsedConfig) -> (result: Result<
        (),
        MaterialConfigError,
    >)
        requires
            old(self).wf(),
            !old(self).holds(resource_key(resource@)),
        ensures
            final(self).wf(),
            match parsed {
                ParsedConfig::Several(map) => {
                    &&& result is Ok
                    &&& final(self).maps() == old(self).maps().insert(resource_key(resource@), map)
                    &&& final(self).singles() == old(self).singles()
                },
                ParsedConfig::Single(config) => {
                    &&& result is Ok
                    &&& final(self).maps() == old(self).maps()
                    &&& final(self).singles() == old(self).singles().insert(
                        resource_key(resource@),
                        config,
                    )
                },
                ParsedConfig::Invalid => {
                    &&& result == Err::<(), MaterialConfigError>(MaterialConfigError::Parse)
                    &&& final(self).maps() == old(self).maps()
                    &&& final(self).singles() == old(self).singles()
                },
            },
    {
        match parsed {
            ParsedConfig::Several(map) => {
                self.config_maps.insert(resource.key(), map);
                Ok(())
            },
            ParsedConfig::Single(config) => {
                self.config_singles.insert(resource.key(), config);
                Ok(())
            },
            ParsedConfig::Invalid => Err(MaterialConfigError::Parse),
        }
    }

    /// The configuration of a material whose resource is in the cache.
    pub fn get(&self, path: &SubresourcePath) -> (result: Result<
        &MaterialConfig,
        MaterialConfigError,
    >)
        ensures
            ({
                let key = resource_key(path@.0);
                match result {
                    Ok(config) => if self.singles().contains_key(key) {
                        *config == self.singles()[key]
                    } else {
                        &&& self.maps().contains_key(key)
                        &&& self.maps()[key]@.contains_key(path@.1)
                        &&& *config == self.maps()[key]@[path@.1]
                    },
                    Err(MaterialConfigError::NotLoaded) => !self.holds(key),
                    Err(MaterialConfigError::Resource) => {
                        &&& !self.singles().contains_key(key)
                        &&& self.maps().contains_key(key)
                        &&& !self.maps()[key]@.contains_key(path@.1)
                    },
                    Err(MaterialConfigError::Parse) => false,
                }
            }),
    {
        let key = path.resource().key();
        match self.config_singles.get(key.as_str()) {
            Some(config) => Ok(config),
            None => match self.config_maps.get(key.as_str()) {
                Some(map) => match map.get(path.subresource()) {
                    Some(config) => Ok(config),
                    None => Err(MaterialConfigError::Resource),
                },
                None => Err(MaterialConfigError::NotLoaded),
            },
        }
    }
}

/// A text with a colon names the material behind the colon in the resource before it; a text
/// without one names the material that is called like the file of the resource, up to the last
/// dot of its name.
pub proof fn materials_are_named_behind_the_colon(
    text: Seq<char>,
    name: Seq<char>,
    relative_to: Option<(ResourcePathBase, Seq<PartView>)>,
)
    requires
        !text.contains(':'),
    ensures
        match resolved(text, relative_to) {
            Some(resource) => {
                &&& !name.contains('/') ==> subresource_of(text + seq![':'] + name, relative_to)
                    == Some((resource, name))
                &&& name.contains('/') ==> subresource_of(text + seq![':'] + name, relative_to)
                    is None
                &&& resource.1.len() > 0 && is_path(resource.1) ==> (
                match resource.1[resource.1.len() - 1] {
                    PartView::Normal(file) => subresource_of(text, relative_to) == Some(
                        (resource, file.take(extension_dot(file))),
                    ),
                    _ => subresource_of(text, relative_to) is None,
                })
            },
            None => {
                &&& subresource_of(text + seq![':'] + name, relative_to) is None
                &&& subresource_of(text, relative_to) is None
            },
        },
{
    let all = text + seq![':'] + name;
    assert forall|i: int| 0 <= i < text.len() implies other_than(':')(#[trigger] all[i]) by {
        assert(all[i] == text[i]);
        assert(text.contains(text[i]));
    }
    run_length_is(all, other_than(':'), text.len());
    assert(all.take(text.len() as int) =~= text);
    assert(all.skip(text.len() as int + 1) =~= name);
    assert forall|i: int| 0 <= i < text.len() implies other_than(':')(#[trigger] text[i]) by {
        assert(text.contains(text[i]));
    }
    run_length_is(text, other_than(':'), text.len());
    assert(text.take(text.len() as int) =~= text);
    if let Some(resource) = resolved(text, relative_to) {
        if resource.1.len() > 0 && is_path(resource.1) {
            let last = resource.1[resource.1.len() - 1];
            assert(part_fits(last, resource.1.len() - 1));
            if let PartView::Normal(file) = last {
                let short = file.take(extension_dot(file));
                crate::path::extension_at_last_dot(file);
                if short.contains('/') {
                    let i = short.index_of('/');
                    assert(file[i] == '/');
                    assert(file.contains('/'));
                }
            }
        }
    }
}

} // verus!
