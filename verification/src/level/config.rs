//! What levels are made from.

use crate::materials::material_manager::DEFAULT_MATERIAL;
use crate::resource_paths::ResourcePath;
#[allow(unused_imports)]
use crate::resource_paths::resolved;
use vstd::prelude::*;

verus! {

/// A place in a buffer that may not be known yet.
#[derive(Clone, Copy)]
pub struct BufferIndex {
    index: u32,
}

impl BufferIndex {
    /// The place, where it is known.
    pub closed spec fn view(self) -> Option<u32> {
        if self.index == u32::MAX {
            None
        } else {
            Some(self.index)
        }
    }

    /// The place is known.
    pub fn is_valid(&self) -> (valid: bool)
        ensures
            valid == (self@ is Some),
    {
        self.index != u32::MAX
    }

    /// The place, where it is known.
    pub fn get(&self) -> (index: Option<u32>)
        ensures
            index == self@,
    {
        if self.is_valid() {
            Some(self.index)
        } else {
            None
        }
    }

    /// Sets the place; the largest number means that it is not known.
    pub fn set(&mut self, index: u32)
        ensures
            final(self)@ == (if index == u32::MAX {
                None::<u32>
            } else {
                Some(index)
            }),
    {
        self.index = index;
    }
}

impl Default for BufferIndex {
    fn default() -> (index: Self)
        ensures
            index@ is None,
    {
        BufferIndex { index: u32::MAX }
    }
}

/// The name of an entity.
pub struct Name {
    name: String,
}

impl Name {
    /// The name.
    pub closed spec fn view(self) -> Seq<char> {
        self.name@
    }

    /// A name.
    pub fn new(name: &str) -> (result: Self)
        ensures
            result@ == name@,
    {
        Name { name: name.to_owned() }
    }

    /// The name.
    pub fn name(&self) -> (name: &str)
        ensures
            name@ == self@,
    {
        self.name.as_str()
    }
}

/// An entity of a level, with components of some type.
pub struct EntityConfig<T> {
    pub name: String,
    pub components: Vec<T>,
}

/// A level.
pub struct LevelConfig<T> {
    pub entities: Vec<EntityConfig<T>>,
}

/// The model of an entity.
pub struct ModelConfig {
    pub mesh: String,
    pub materials: Vec<String>,
}

/// What keeps a level from being loaded.
pub enum LoadError {
    /// A path does not lead to a resource.
    ResourcePath(String),
    NoCameraComponent,
}

/// The names of materials.
pub open spec fn material_names(materials: Seq<String>) -> Seq<Seq<char>> {
    materials.map_values(|m: String| m@)
}

impl ModelConfig {
    /// Uses the default material where none is given.
    pub fn ensure_material(&mut self)
        ensures
            final(self).mesh == old(self).mesh,
            final(self).materials.len() > 0,
            old(self).materials.len() > 0 ==> final(self).materials == old(self).materials,
            old(self).materials.len() == 0 ==> material_names(final(self).materials@) == seq![
                DEFAULT_MATERIAL@,
            ],
    {
        if self.materials.len() == 0 {
            self.materials.push(DEFAULT_MATERIAL.to_owned());
            assert(material_names(self.materials@) =~= seq![DEFAULT_MATERIAL@]);
        }
    }

    /// The path of the mesh, which may be relative to that of the level.
    pub fn mesh_path(&self, level_path: &ResourcePath) -> (result: Result<ResourcePath, LoadError>)
        requires
            level_path.wf(),
        ensures
            match result {
                Ok(path) => path.wf() && resolved(self.mesh@, Some(level_path@)) == Some(path@),
                Err(LoadError::ResourcePath(path)) => path@ == self.mesh@ && resolved(
                    self.mesh@,
                    Some(level_path@),
                ) is None,
                Err(_) => false,
            },
    {
        match ResourcePath::new(self.mesh.as_str(), Some(level_path)) {
            Some(path) => Ok(path),
            None => Err(LoadError::ResourcePath(self.mesh.clone())),
        }
    }
}

/// One material for each element: the last one is repeated where there are too few, and those
/// that are too many are left out.
pub open spec fn fitted(materials: Seq<u32>, num_elements: nat) -> Seq<u32> {
    Seq::new(
        num_elements,
        |i: int|
            if i < materials.len() {
                materials[i]
            } else {
                materials.last()
            },
    )
}

/// Makes the materials of a model as many as the elements of its mesh.
pub fn fit_materials(materials: Vec<u32>, num_elements: usize) -> (result: Vec<u32>)
    requires
        materials.len() > 0,
    ensures
        result@ == fitted(materials@, num_elements as nat),
{
    let ghost all = materials@;
    let mut result: Vec<u32> = materials;
    let last: u32 = result[result.len() - 1];
    if result.len() > num_elements {
        result.truncate(num_elements);
    }
    while result.len() < num_elements
        invariant
            last == all.last(),
            result.len() <= num_elements,
            result.len() < num_elements ==> result.len() >= all.len(),
            forall|i: int|
                0 <= i < result.len() ==> #[trigger] result@[i] == fitted(
                    all,
                    num_elements as nat,
                )[i],
        decreases num_elements - result.len(),
    {
        result.push(last);
    }
    assert(result@ =~= fitted(all, num_elements as nat));
    result
}

/// Every element has a material: its own where there is one, and the last otherwise. Fitting
/// materials that fit changes nothing.
pub proof fn every_element_has_a_material(materials: Seq<u32>, num_elements: nat)
    requires
        materials.len() > 0,
    ensures
        fitted(materials, num_elements).len() == num_elements,
        forall|i: int|
            0 <= i < num_elements && i < materials.len() ==> #[trigger] fitted(
                materials,
                num_elements,
            )[i] == materials[i],
        forall|i: int|
            materials.len() <= i < num_elements ==> #[trigger] fitted(materials, num_elements)[i]
                == materials[materials.len() - 1],
        fitted(materials, materials.len()) == materials,
{
    assert(fitted(materials, materials.len()) =~= materials);
}

} // verus!
