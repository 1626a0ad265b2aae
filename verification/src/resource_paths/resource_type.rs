//! The types of resources, and where their files are.

use crate::resource_paths::ResourceType;
use vstd::prelude::*;

verus! {

pub struct Mesh;

impl ResourceType for Mesh {
    open spec fn spec_extension() -> Seq<char> {
        "obj"@
    }

    open spec fn spec_built() -> bool {
        false
    }

    fn extension() -> (extension: &'static str) {
        proof {
            reveal_strlit("obj");
        }
        "obj"
    }

    fn built() -> (built: bool) {
        false
    }
}

pub struct Texture;

impl ResourceType for Texture {
    open spec fn spec_extension() -> Seq<char> {
        "ktx2"@
    }

    open spec fn spec_built() -> bool {
        true
    }

    fn extension() -> (extension: &'static str) {
        proof {
            reveal_strlit("ktx2");
        }
        "ktx2"
    }

    fn built() -> (built: bool) {
        true
    }
}

pub struct Material;

impl ResourceType for Material {
    open spec fn spec_extension() -> Seq<char> {
        "mat.ron"@
    }

    open spec fn spec_built() -> bool {
        false
    }

    fn extension() -> (extension: &'static str) {
        proof {
            reveal_strlit("mat.ron");
        }
        "mat.ron"
    }

    fn built() -> (built: bool) {
        false
    }
}

pub struct Level;

impl ResourceType for Level {
    open spec fn spec_extension() -> Seq<char> {
        "level.ron"@
    }

    open spec fn spec_built() -> bool {
        false
    }

    fn extension() -> (extension: &'static str) {
        proof {
            reveal_strlit("level.ron");
        }
        "level.ron"
    }

    fn built() -> (built: bool) {
        false
    }
}

/// Of the files of resources only textures are built, and every type has its own extension.
pub proof fn types_have_their_files()
    ensures
        Texture::spec_built() && Texture::spec_extension() =~= seq!['k', 't', 'x', '2'],
        !Mesh::spec_built() && Mesh::spec_extension() =~= seq!['o', 'b', 'j'],
        !Material::spec_built() && Material::spec_extension() =~= seq![
            'm',
            'a',
            't',
            '.',
            'r',
            'o',
            'n',
        ],
        !Level::spec_built() && Level::spec_extension() =~= seq![
            'l',
            'e',
            'v',
            'e',
            'l',
            '.',
            'r',
            'o',
            'n',
        ],
{
    reveal_strlit("ktx2");
    reveal_strlit("obj");
    reveal_strlit("mat.ron");
    reveal_strlit("level.ron");
}

} // verus!
