//! Paths of resources that carry the type of the resource.

pub mod resource_type;

use crate::path::Path;
#[allow(unused_imports)]
use crate::path::{
    extension_dot, is_path, joined, parse, parse_name, parse_render, renamed, render, stripped,
    with_extension, PartView,
};
#[allow(unused_imports)]
use crate::resource_paths::directories;
use crate::resource_paths::CONTENT_DIR;
use core::marker::PhantomData;
use vstd::prelude::*;

verus! {

/// A type of resource.
pub trait ResourceType {
    /// The extension of its files.
    spec fn spec_extension() -> Seq<char>;

    fn extension() -> (extension: &'static str)
        ensures
            extension@ == Self::spec_extension(),
            !Self::spec_extension().contains('/'),
    ;
}

/// What a resource path starts from.
#[derive(Clone, Copy, PartialEq, Eq, Structural, Debug)]
pub enum ResourcePathBase {
    Game,
    Engine,
}

/// The base that a path names, and what follows it.
pub open spec fn base_of(path: Seq<PartView>) -> Option<(ResourcePathBase, Seq<PartView>)> {
    match stripped(path, parse("/engine/"@)) {
        Some(rest) => Some((ResourcePathBase::Engine, rest)),
        None => match stripped(path, parse("/game/"@)) {
            Some(rest) => Some((ResourcePathBase::Game, rest)),
            None => None,
        },
    }
}

impl ResourcePathBase {
    /// Splits a resource path into its base and what follows.
    pub fn new(path: &Path) -> (result: Option<(Self, Path)>)
        ensures
            match result {
                Some((base, rest)) => base_of(path@) == Some((base, rest@)),
                None => base_of(path@) is None,
            },
    {
        match path.strip_prefix(&Path::new("/engine/")) {
            Some(rest) => Some((ResourcePathBase::Engine, rest)),
            None => match path.strip_prefix(&Path::new("/game/")) {
                Some(rest) => Some((ResourcePathBase::Game, rest)),
                None => None,
            },
        }
    }
}

/// The path of a resource of type `R`.
pub struct ResourcePath<R: ResourceType> {
    base: ResourcePathBase,
    path: Path,
    resource_type: PhantomData<R>,
}

pub type MeshResourcePath = ResourcePath<resource_type::Mesh>;

pub type TextureResourcePath = ResourcePath<resource_type::Texture>;

pub type MaterialResourcePath = ResourcePath<resource_type::Material>;

impl<R: ResourceType> View for ResourcePath<R> {
    type V = (ResourcePathBase, Seq<PartView>);

    closed spec fn view(&self) -> Self::V {
        (self.base, self.path@)
    }
}

/// The directory of the files of a base. In a packaged build everything is in the content
/// directory.
pub open spec fn base_dir(base: ResourcePathBase, packaged: bool, game_dir: Seq<PartView>) -> Seq<
    PartView,
> {
    match (base, packaged) {
        (ResourcePathBase::Game, false) => game_dir,
        (ResourcePathBase::Engine, false) => parse(CONTENT_DIR@),
        (ResourcePathBase::Game, true) => joined(parse(CONTENT_DIR@), parse("engine"@)),
        (ResourcePathBase::Engine, true) => joined(parse(CONTENT_DIR@), parse("game"@)),
    }
}

impl<R: ResourceType> ResourcePath<R> {
    /// Parses an absolute resource path.
    pub fn new(path: &str) -> (result: Option<Self>)
        ensures
            match result {
                Some(resource) => base_of(parse(path@)) == Some(resource@),
                None => base_of(parse(path@)) is None,
            },
    {
        Self::new_from_path(&Path::new(path))
    }

    /// Takes an absolute path as a resource path.
    pub fn new_from_path(path: &Path) -> (result: Option<Self>)
        ensures
            match result {
                Some(resource) => base_of(path@) == Some(resource@),
                None => base_of(path@) is None,
            },
    {
        match ResourcePathBase::new(path) {
            Some((base, path)) => Some(ResourcePath { base, path, resource_type: PhantomData }),
            None => None,
        }
    }

    /// The resource that stands under another name in the directory of this one.
    pub fn relative_resource<R2: ResourceType>(&self, relative_path: &str) -> (result: ResourcePath<
        R2,
    >)
        ensures
            result@ == (self@.0, renamed(self@.1, relative_path@)),
    {
        ResourcePath {
            base: self.base,
            path: self.path.with_file_name(relative_path),
            resource_type: PhantomData,
        }
    }

    /// The file of the resource, where the game is in `game_dir`.
    pub fn full_path(&self, game_dir: &Path, packaged: bool) -> (path: Path)
        ensures
            path@ == with_extension(
                joined(base_dir(self@.0, packaged, game_dir@), self@.1),
                R::spec_extension(),
            ),
    {
        let dir = if packaged {
            let content = Path::new(CONTENT_DIR);
            match self.base {
                ResourcePathBase::Game => content.join(&Path::new("engine")),
                ResourcePathBase::Engine => content.join(&Path::new("game")),
            }
        } else {
            match self.base {
                ResourcePathBase::Game => game_dir.copy(),
                ResourcePathBase::Engine => Path::new(CONTENT_DIR),
            }
        };
        let mut path = dir.join(&self.path);
        path.set_extension(R::extension());
        path
    }
}

/// The directories in front of the path of a resource, by name.
pub open spec fn directories_of(
    base: ResourcePathBase,
    packaged: bool,
    game_dir: Seq<PartView>,
) -> Seq<PartView> {
    match base {
        ResourcePathBase::Game => if packaged {
            seq![PartView::Normal("content"@), PartView::Normal("engine"@)]
        } else {
            game_dir
        },
        ResourcePathBase::Engine => if packaged {
            seq![PartView::Normal("content"@), PartView::Normal("game"@)]
        } else {
            seq![PartView::Normal("content"@)]
        },
    }
}

/// The file of a resource is found along its path from its directory: that of the game, or
/// `content` for the engine; in a packaged build from the two directories in `content`. Its
/// extension follows what stands before the last dot of the file name.
pub proof fn files_are_found_along_their_paths(
    base: ResourcePathBase,
    packaged: bool,
    game_dir: Seq<PartView>,
    path: Seq<PartView>,
    extension: Seq<char>,
)
    requires
        path.len() > 0,
        path[0] != PartView::Root,
        path[0] != PartView::Current,
        extension.len() > 0,
    ensures
        ({
            let front = directories_of(base, packaged, game_dir);
            let n = front.len() as int;
            let file = with_extension(joined(base_dir(base, packaged, game_dir), path), extension);
            &&& file.len() == n + path.len()
            &&& file.take(n) == front
            &&& forall|i: int| 0 <= i < path.len() - 1 ==> #[trigger] path[i] == file[n + i]
            &&& match path.last() {
                PartView::Normal(name) => file.last() == PartView::Normal(
                    name.take(extension_dot(name)) + seq!['.'] + extension,
                ),
                part => file.last() == part,
            }
        }),
{
    directories();
    reveal_strlit("engine");
    reveal_strlit("game");
    assert("engine"@.len() == 6 && "game"@.len() == 4);
    parse_name("engine"@);
    parse_name("game"@);
    let front = directories_of(base, packaged, game_dir);
    let n = front.len() as int;
    let dir = base_dir(base, packaged, game_dir);
    assert(dir =~= front);
    let plain = joined(dir, path);
    let file = with_extension(plain, extension);
    assert(plain =~= front + path);
    assert(plain.last() == path.last());
    assert(file.take(n) =~= front);
    assert forall|i: int| 0 <= i < path.len() - 1 implies #[trigger] path[i] == file[n + i] by {
        assert(plain[n + i] == path[i]);
    }
}

/// A path names the resource behind `/engine` or `/game`, and nothing without one of these.
pub proof fn bases_by_first_directory(path: Seq<PartView>)
    ensures
        base_of(path) is Some <==> path.len() >= 2 && path[0] == PartView::Root && (path[1]
            == PartView::Normal("engine"@) || path[1] == PartView::Normal("game"@)),
        base_of(path) matches Some((base, rest)) ==> {
            &&& rest == path.skip(2)
            &&& base is Engine <==> path[1] == PartView::Normal("engine"@)
            &&& base is Game <==> path[1] == PartView::Normal("game"@)
        },
{
    directories();
    reveal_strlit("engine");
    reveal_strlit("game");
    assert("engine"@.len() == 6 && "game"@.len() == 4);
    let engine = seq![PartView::Root, PartView::Normal("engine"@)];
    let game = seq![PartView::Root, PartView::Normal("game"@)];
    if path.len() >= 2 {
        assert(path.take(2)[0] == path[0]);
        assert(path.take(2)[1] == path[1]);
        if path[0] == PartView::Root && path[1] == engine[1] {
            assert(path.take(2) =~= engine);
        }
        if path[0] == PartView::Root && path[1] == game[1] {
            assert(path.take(2) =~= game);
        }
    }
}

/// A resource next to another is in the same directory, under its own path from there.
pub proof fn relative_resources_stay_in_the_directory(
    directory: Seq<PartView>,
    name: Seq<char>,
    tail: Seq<PartView>,
)
    requires
        is_path(tail),
        tail.len() > 0,
        tail[0] != PartView::Root,
        tail[0] != PartView::Current,
    ensures
        renamed(directory.push(PartView::Normal(name)), render(tail)) == directory + tail,
{
    parse_render(tail);
    let beside = directory.push(PartView::Normal(name));
    assert(beside.drop_last() =~= directory);
    if directory.len() == 0 {
        assert(directory + tail =~= tail);
    }
}

} // verus!
