//! The types of resources of which a path knows the type.

use crate::resources::ResourceType;
use vstd::prelude::*;

verus! {

pub struct Mesh;

impl ResourceType for Mesh {
    open spec fn spec_extension() -> Seq<char> {
        "obj"@
    }

    fn extension() -> (extension: &'static str) {
        proof {
            reveal_strlit("obj");
        }
        "obj"
    }
}

pub struct Texture;

impl ResourceType for Texture {
    open spec fn spec_extension() -> Seq<char> {
        "ktx2"@
    }

    fn extension() -> (extension: &'static str) {
        proof {
            reveal_strlit("ktx2");
        }
        "ktx2"
    }
}

pub struct Material;

impl ResourceType for Material {
    open spec fn spec_extension() -> Seq<char> {
        "mat.ron"@
    }

    fn extension() -> (extension: &'static str) {
        proof {
            reveal_strlit("mat.ron");
        }
        "mat.ron"
    }
}

/// Every type of resource has its own extension.
pub proof fn types_have_their_extensions()
    ensures
        Mesh::spec_extension() =~= seq!['o', 'b', 'j'],
        Texture::spec_extension() =~= seq!['k', 't', 'x', '2'],
        Material::spec_extension() =~= seq!['m', 'a', 't', '.', 'r', 'o', 'n'],
{
    reveal_strlit("obj");
    reveal_strlit("ktx2");
    reveal_strlit("mat.ron");
}

} // verus!
