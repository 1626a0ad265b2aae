//! Paths of resources, which are absolute under `/engine` or `/game`, or relative to another
//! resource.

pub mod resource_type;

use crate::path::Path;
#[allow(unused_imports)]
use crate::path::{
    absolute, extended, extension_at_last_dot, extension_dot, is_name, is_path, joined,
    joined_is_path, parent_of, parse, parse_is_path, parse_name, parse_render, part_fits, render,
    render_behind, render_injective, stripped, trailing_separator_ignored, with_extension,
    PartView,
};
use vstd::prelude::*;

verus! {

/// The directory of files that are built, in a game.
pub const BUILD_DIR: &'static str = "build/";

/// The directory of files that are used as they are, in a game.
pub const CONTENT_DIR: &'static str = "content/";

/// The directory of the files of the engine that are used as they are.
pub const CONTENT_PATH: &'static str = "galaxy_engine/content/";

/// The directory of the files of the engine that are built.
pub const BUILT_PATH: &'static str = "galaxy_engine/build/";

/// A type of resource.
pub trait ResourceType {
    /// The extension of its files.
    spec fn spec_extension() -> Seq<char>;

    /// Its files are built.
    spec fn spec_built() -> bool;

    fn extension() -> (extension: &'static str)
        ensures
            extension@ == Self::spec_extension(),
            !Self::spec_extension().contains('/'),
    ;

    fn built() -> (built: bool)
        ensures
            built == Self::spec_built(),
    ;
}

/// What a resource path starts from.
#[derive(Hash, PartialEq, Eq, Structural, Copy, Clone, Debug)]
pub enum ResourcePathBase {
    Game,
    Engine,
}

/// The base that a path names, and what follows it.
pub open spec fn base_of(path: Seq<PartView>) -> Option<(ResourcePathBase, Seq<PartView>)> {
    match stripped(path, parse("/engine/"@)) {
        Some(rest) => Some((ResourcePathBase::Engine, rest)),
        None => match stripped(path, parse("/game/"@)) {
            Some(rest) => Some((ResourcePathBase::Game, rest)),
            None => None,
        },
    }
}

impl ResourcePathBase {
    /// Splits an absolute resource path into its base and what follows.
    pub fn new(path: &Path) -> (result: Option<(Self, Path)>)
        ensures
            match result {
                Some((base, rest)) => base_of(path@) == Some((base, rest@)),
                None => base_of(path@) is None,
            },
    {
        match path.strip_prefix(&Path::new("/engine/")) {
            Some(rest) => Some((ResourcePathBase::Engine, rest)),
            None => match path.strip_prefix(&Path::new("/game/")) {
                Some(rest) => Some((ResourcePathBase::Game, rest)),
                None => None,
            },
        }
    }
}

/// The path of a resource: a base, and the path from there.
#[derive(Debug)]
pub struct ResourcePath {
    base: ResourcePathBase,
    path: Path,
}

/// The path that stands for `text` next to the resource `relative_to`: absolute, or relative to
/// the directory of that resource.
pub open spec fn resolved(
    text: Seq<char>,
    relative_to: Option<(ResourcePathBase, Seq<PartView>)>,
) -> Option<(ResourcePathBase, Seq<PartView>)> {
    match base_of(parse(text)) {
        Some(found) => Some(found),
        None => match relative_to {
            Some((base, path)) => Some(
                (
                    base,
                    joined(
                        match parent_of(path) {
                            Some(parent) => parent,
                            None => path,
                        },
                        parse(text),
                    ),
                ),
            ),
            None => None,
        },
    }
}

/// The directory of the files of a base.
pub open spec fn base_dir(base: ResourcePathBase, built: bool, game_dir: Seq<PartView>) -> Seq<
    PartView,
> {
    match base {
        ResourcePathBase::Game => joined(
            game_dir,
            parse(
                if built {
                    BUILD_DIR@
                } else {
                    CONTENT_DIR@
                },
            ),
        ),
        ResourcePathBase::Engine => parse(
            if built {
                BUILT_PATH@
            } else {
                CONTENT_PATH@
            },
        ),
    }
}

impl View for ResourcePath {
    type V = (ResourcePathBase, Seq<PartView>);

    closed spec fn view(&self) -> Self::V {
        (self.base, self.path@)
    }
}

/// A text that stands for a resource and for no other.
pub open spec fn resource_key(path: (ResourcePathBase, Seq<PartView>)) -> Seq<char> {
    seq![
        match path.0 {
            ResourcePathBase::Game => 'g',
            ResourcePathBase::Engine => 'e',
        },
    ] + render(path.1)
}

/// Two resources with the same key are the same.
pub proof fn resource_key_injective(
    a: (ResourcePathBase, Seq<PartView>),
    b: (ResourcePathBase, Seq<PartView>),
)
    requires
        is_path(a.1),
        is_path(b.1),
        resource_key(a) == resource_key(b),
    ensures
        a == b,
{
    let (ka, kb) = (resource_key(a), resource_key(b));
    assert(ka[0] == kb[0]);
    assert(ka.skip(1) =~= render(a.1));
    assert(kb.skip(1) =~= render(b.1));
    render_injective(a.1, b.1);
}

proof fn stripped_is_path(parts: Seq<PartView>, prefix: Seq<PartView>)
    requires
        is_path(parts),
        stripped(parts, prefix) is Some,
    ensures
        is_path(stripped(parts, prefix)->0),
{
    let rest = stripped(parts, prefix)->0;
    assert forall|i: int| 0 <= i < rest.len() implies part_fits(#[trigger] rest[i], i) by {
        assert(rest[i] == parts[i + prefix.len()]);
        assert(part_fits(parts[i + prefix.len()], i + prefix.len() as int));
    }
}

proof fn base_rest_is_path(path: Seq<PartView>)
    requires
        is_path(path),
    ensures
        base_of(path) matches Some((_, rest)) ==> is_path(rest),
{
    if stripped(path, parse("/engine/"@)) is Some {
        stripped_is_path(path, parse("/engine/"@));
    } else if stripped(path, parse("/game/"@)) is Some {
        stripped_is_path(path, parse("/game/"@));
    }
}

impl ResourcePath {
    /// The path from the base is a path.
    pub closed spec fn wf(self) -> bool {
        self.path.wf()
    }

    /// The components of a well-formed resource path form a path.
    pub proof fn wf_is_path(self)
        requires
            self.wf(),
        ensures
            is_path(self@.1),
    {
    }

    /// Resolves the path of a resource; nothing for a relative path with nothing to be relative
    /// to.
    pub fn new(path: &str, relative_to: Option<&ResourcePath>) -> (result: Option<Self>)
        requires
            relative_to matches Some(r) ==> r.wf(),
        ensures
            match result {
                Some(resource) => resource.wf() && resolved(
                    path@,
                    match relative_to {
                        Some(r) => Some(r@),
                        None => None,
                    },
                ) == Some(resource@),
                None => resolved(
                    path@,
                    match relative_to {
                        Some(r) => Some(r@),
                        None => None,
                    },
                ) is None,
            },
    {
        let parsed = Path::new(path);
        proof {
            base_rest_is_path(parsed@);
        }
        match ResourcePathBase::new(&parsed) {
            Some((base, path)) => Some(ResourcePath { base, path }),
            None => match relative_to {
                Some(r) => {
                    let parent = match r.path.parent() {
                        Some(parent) => parent,
                        None => r.path.copy(),
                    };
                    proof {
                        assert forall|i: int| 0 <= i < parent@.len() implies part_fits(
                            #[trigger] parent@[i],
                            i,
                        ) by {
                            assert(parent@[i] == r.path@[i]);
                        }
                    }
                    Some(ResourcePath { base: r.base, path: parent.join(&parsed) })
                },
                None => None,
            },
        }
    }

    /// The base of the path.
    pub fn base(&self) -> (base: ResourcePathBase)
        ensures
            base == self@.0,
    {
        self.base
    }

    /// The path from the base.
    pub fn path(&self) -> (path: &Path)
        ensures
            path@ == self@.1,
    {
        &self.path
    }

    /// A copy of the path.
    pub fn copy(&self) -> (copy: Self)
        ensures
            copy@ == self@,
            copy.wf() == self.wf(),
    {
        ResourcePath { base: self.base, path: self.path.copy() }
    }

    /// A text that stands for the resource.
    pub fn key(&self) -> (key: String)
        ensures
            key@ == resource_key(self@),
    {
        let mut key = String::new();
        match self.base {
            ResourcePathBase::Game => key.push('g'),
            ResourcePathBase::Engine => key.push('e'),
        }
        let text = self.path.to_text();
        key.append(text.as_str());
        assert(key@ =~= resource_key(self@));
        key
    }

    /// The file of the resource, where the game is in `game_dir`.
    pub fn full_path<R: ResourceType>(&self, game_dir: &Path) -> (path: Path)
        ensures
            path@ == with_extension(
                joined(base_dir(self@.0, R::spec_built(), game_dir@), self@.1),
                R::spec_extension(),
            ),
            self.wf() && self@.1.len() > 0 && self@.1[0] != PartView::Root && self@.1[0]
                != PartView::Current && R::spec_extension().len() > 0 ==> lies_in(
                self@,
                R::spec_built(),
                R::spec_extension(),
                game_dir@,
                path@,
            ),
    {
        proof {
            if self.wf() && self@.1.len() > 0 && self@.1[0] != PartView::Root && self@.1[0]
                != PartView::Current && R::spec_extension().len() > 0 {
                files_lie_in_their_directories(
                    self@,
                    R::spec_built(),
                    R::spec_extension(),
                    game_dir@,
                );
            }
        }
        let dir = match self.base {
            ResourcePathBase::Game => {
                if R::built() {
                    game_dir.join(&Path::new(BUILD_DIR))
                } else {
                    game_dir.join(&Path::new(CONTENT_DIR))
                }
            },
            ResourcePathBase::Engine => {
                if R::built() {
                    Path::new(BUILT_PATH)
                } else {
                    Path::new(CONTENT_PATH)
                }
            },
        };
        let mut path = dir.join(&self.path);
        path.set_extension(R::extension());
        path
    }
}

/// The components of the directories that files are in, and of those that resource paths start
/// with.
pub proof fn directories()
    ensures
        parse(BUILD_DIR@) == seq![PartView::Normal("build"@)],
        parse(CONTENT_DIR@) == seq![PartView::Normal("content"@)],
        parse(BUILT_PATH@) == seq![
            PartView::Normal("galaxy_engine"@),
            PartView::Normal("build"@),
        ],
        parse(CONTENT_PATH@) == seq![
            PartView::Normal("galaxy_engine"@),
            PartView::Normal("content"@),
        ],
        parse("/engine/"@) == seq![PartView::Root, PartView::Normal("engine"@)],
        parse("/game/"@) == seq![PartView::Root, PartView::Normal("game"@)],
{
    reveal_strlit("build");
    reveal_strlit("content");
    reveal_strlit("galaxy_engine");
    reveal_strlit("engine");
    reveal_strlit("game");
    reveal_strlit("build/");
    reveal_strlit("content/");
    reveal_strlit("galaxy_engine/build/");
    reveal_strlit("galaxy_engine/content/");
    reveal_strlit("/engine/");
    reveal_strlit("/game/");
    let (build, content, own) = ("build"@, "content"@, "galaxy_engine"@);
    assert(build != seq!['.'] && build != seq!['.', '.']) by {
        assert(build.len() == 5);
    }
    assert(content != seq!['.'] && content != seq!['.', '.']) by {
        assert(content.len() == 7);
    }
    assert(own != seq!['.'] && own != seq!['.', '.']) by {
        assert(own.len() == 13);
    }
    assert("engine"@ != seq!['.'] && "engine"@ != seq!['.', '.']) by {
        assert("engine"@.len() == 6);
    }
    assert("game"@ != seq!['.'] && "game"@ != seq!['.', '.']) by {
        assert("game"@.len() == 4);
    }
    parse_name(build);
    parse_name(content);
    trailing_separator_ignored(build);
    trailing_separator_ignored(content);
    assert(BUILD_DIR@ =~= build + seq!['/']);
    assert(CONTENT_DIR@ =~= content + seq!['/']);
    let built = seq![PartView::Normal(own), PartView::Normal(build)];
    assert(is_path(built));
    parse_render(built);
    let front = seq![PartView::Normal(own)];
    assert(front[0] != PartView::Root);
    render_behind(front, seq![PartView::Normal(build)]);
    assert(built =~= front + seq![PartView::Normal(build)]);
    assert(render(built) == own + seq!['/'] + build);
    trailing_separator_ignored(render(built));
    assert(BUILT_PATH@ =~= render(built) + seq!['/']);
    let plain = seq![PartView::Normal(own), PartView::Normal(content)];
    assert(is_path(plain));
    parse_render(plain);
    render_behind(front, seq![PartView::Normal(content)]);
    assert(plain =~= front + seq![PartView::Normal(content)]);
    assert(render(plain) == own + seq!['/'] + content);
    trailing_separator_ignored(render(plain));
    assert(CONTENT_PATH@ =~= render(plain) + seq!['/']);
    let engine = seq![PartView::Root, PartView::Normal("engine"@)];
    assert(is_path(engine));
    parse_render(engine);
    trailing_separator_ignored(render(engine));
    assert("/engine/"@ =~= render(engine) + seq!['/']);
    let game = seq![PartView::Root, PartView::Normal("game"@)];
    assert(is_path(game));
    parse_render(game);
    trailing_separator_ignored(render(game));
    assert("/game/"@ =~= render(game) + seq!['/']);
}

/// `name` is what stands before the last dot of `own`, which is `dot`, and then the extension; a
/// dot at the start does not count, and all of `own` stays where there is no other.
pub open spec fn named_after(
    own: Seq<char>,
    extension: Seq<char>,
    dot: int,
    name: Seq<char>,
) -> bool {
    &&& 0 < dot <= own.len()
    &&& dot < own.len() ==> own[dot] == '.'
    &&& forall|i: int| dot < i < own.len() ==> #[trigger] own[i] != '.'
    &&& dot == own.len() ==> forall|i: int| 0 < i < own.len() ==> #[trigger] own[i] != '.'
    &&& name == own.take(dot) + seq!['.'] + extension
}

/// The directories in front of the path of a resource, by name: those of the game and then
/// `build` or `content`, or `galaxy_engine` and then `build` or `content`. The path follows, and
/// the file name gets the extension behind what stands before its last dot.
pub open spec fn lies_in(
    resource: (ResourcePathBase, Seq<PartView>),
    built: bool,
    extension: Seq<char>,
    game_dir: Seq<PartView>,
    file: Seq<PartView>,
) -> bool {
    let front = match resource.0 {
        ResourcePathBase::Game => game_dir,
        ResourcePathBase::Engine => seq![PartView::Normal("galaxy_engine"@)],
    };
    let n = front.len() as int;
    let path = resource.1;
    &&& file.len() == n + 1 + path.len()
    &&& file.take(n) == front
    &&& built ==> file[n] == PartView::Normal("build"@)
    &&& !built ==> file[n] == PartView::Normal("content"@)
    &&& forall|i: int| 0 <= i < path.len() - 1 ==> #[trigger] path[i] == file[n + 1 + i]
    &&& path.last() is Normal ==> (file.last() matches PartView::Normal(name) && exists|dot: int|
        named_after(resource.1.last()->Normal_0, extension, dot, name))
    &&& !(path.last() is Normal) ==> file.last() == path.last()
}

/// The file of a resource of the game lies in the directory of the game, under `build` for a type
/// whose files are built and under `content` for every other; that of a resource of the engine
/// lies likewise under `galaxy_engine`. From there the path leads to the file, whose extension is
/// that of the type.
pub proof fn files_lie_in_their_directories(
    resource: (ResourcePathBase, Seq<PartView>),
    built: bool,
    extension: Seq<char>,
    game_dir: Seq<PartView>,
)
    requires
        is_path(resource.1),
        resource.1.len() > 0,
        resource.1[0] != PartView::Root,
        resource.1[0] != PartView::Current,
        extension.len() > 0,
    ensures
        lies_in(
            resource,
            built,
            extension,
            game_dir,
            with_extension(joined(base_dir(resource.0, built, game_dir), resource.1), extension),
        ),
{
    directories();
    let path = resource.1;
    let dir = base_dir(resource.0, built, game_dir);
    let plain = joined(dir, path);
    let file = with_extension(plain, extension);
    let front = match resource.0 {
        ResourcePathBase::Game => game_dir,
        ResourcePathBase::Engine => seq![PartView::Normal("galaxy_engine"@)],
    };
    let n = front.len() as int;
    assert(dir =~= front.push(
        PartView::Normal(
            if built {
                "build"@
            } else {
                "content"@
            },
        ),
    ));
    assert(plain == dir + path);
    assert(file.take(n) =~= front);
    assert(plain.last() == path.last());
    assert forall|i: int| 0 <= i < path.len() - 1 implies #[trigger] path[i] == file[n + 1 + i] by {
        assert(plain[n + 1 + i] == path[i]);
    }
    if path.last() is Normal {
        let own = path.last()->Normal_0;
        assert(part_fits(path[path.len() - 1], path.len() - 1));
        extension_at_last_dot(own);
        let dot = extension_dot(own);
        assert(file.last() == PartView::Normal(own.take(dot) + seq!['.'] + extension));
        assert(named_after(own, extension, dot, file.last()->Normal_0));
    }
}

/// `/engine/` and `/game/` in front of a path name the resource with that path, whatever resource
/// it is resolved next to; and a path is resolved in this way only.
pub proof fn absolute_paths_name_their_base(
    path: Seq<PartView>,
    relative_to: Option<(ResourcePathBase, Seq<PartView>)>,
)
    requires
        is_path(path),
        path.len() > 0,
        path[0] != PartView::Root,
        path[0] != PartView::Current,
    ensures
        resolved("/engine/"@ + render(path), relative_to) == Some((ResourcePathBase::Engine, path)),
        resolved("/game/"@ + render(path), relative_to) == Some((ResourcePathBase::Game, path)),
{
    directories();
    reveal_strlit("/engine/");
    reveal_strlit("/game/");
    reveal_strlit("engine");
    reveal_strlit("game");
    let engine = seq![PartView::Root, PartView::Normal("engine"@)];
    let game = seq![PartView::Root, PartView::Normal("game"@)];
    assert("engine"@.len() == 6 && "game"@.len() == 4);
    assert forall|i: int| 0 <= i < path.len() implies part_fits(#[trigger] path[i], i + 2) by {
        assert(part_fits(path[i], i));
    }
    assert(is_path(engine + path)) by {
        assert forall|i: int| 0 <= i < (engine + path).len() implies part_fits(
            #[trigger] (engine + path)[i],
            i,
        ) by {
            if i >= 2 {
                assert((engine + path)[i] == path[i - 2]);
            }
        }
    }
    assert(is_path(game + path)) by {
        assert forall|i: int| 0 <= i < (game + path).len() implies part_fits(
            #[trigger] (game + path)[i],
            i,
        ) by {
            if i >= 2 {
                assert((game + path)[i] == path[i - 2]);
            }
        }
    }
    render_behind(engine, path);
    render_behind(game, path);
    assert("/engine/"@ + render(path) =~= render(engine + path));
    assert("/game/"@ + render(path) =~= render(game + path));
    parse_render(engine + path);
    parse_render(game + path);
    assert((engine + path).take(2) =~= engine);
    assert((engine + path).skip(2) =~= path);
    assert((game + path).take(2) =~= game);
    assert((game + path).skip(2) =~= path);
    assert(game[1] != engine[1]);
    assert((game + path).take(2)[1] == game[1]);
}

/// A path that is neither that of the engine nor that of the game names nothing by itself. Next
/// to a resource it is the path from the directory that holds the resource, under the same base.
pub proof fn relative_paths_stay_in_the_directory(
    base: ResourcePathBase,
    directory: Seq<PartView>,
    name: Seq<char>,
    tail: Seq<PartView>,
)
    requires
        is_path(tail),
        tail.len() > 0,
        tail[0] != PartView::Root,
        tail[0] != PartView::Current,
    ensures
        resolved(render(tail), None) is None,
        resolved(render(tail), Some((base, directory.push(PartView::Normal(name))))) == Some(
            (base, directory + tail),
        ),
{
    directories();
    parse_render(tail);
    let beside = directory.push(PartView::Normal(name));
    assert(beside.drop_last() =~= directory);
    if tail.len() >= 2 {
        assert(tail.take(2)[0] == tail[0]);
    }
    if directory.len() == 0 {
        assert(directory + tail =~= tail);
    }
}

/// What a resource path is resolved to determines the base: only paths that start with `/engine`
/// are those of the engine, and only paths that start with `/game` are those of the game.
pub proof fn bases_by_first_directory(text: Seq<char>)
    ensures
        resolved(text, None) matches Some((base, path)) ==> {
            &&& parse(text).len() == path.len() + 2
            &&& parse(text)[0] == PartView::Root
            &&& parse(text)[1] == PartView::Normal(
                match base {
                    ResourcePathBase::Engine => "engine"@,
                    ResourcePathBase::Game => "game"@,
                },
            )
            &&& parse(text).skip(2) == path
        },
        parse(text).len() >= 2 && parse(text)[0] == PartView::Root && (parse(text)[1]
            == PartView::Normal("engine"@) || parse(text)[1] == PartView::Normal("game"@))
            ==> resolved(text, None) is Some,
{
    directories();
    let parts = parse(text);
    let engine = seq![PartView::Root, PartView::Normal("engine"@)];
    let game = seq![PartView::Root, PartView::Normal("game"@)];
    if parts.len() >= 2 {
        assert(parts.take(2)[0] == parts[0]);
        assert(parts.take(2)[1] == parts[1]);
        if parts[0] == PartView::Root && parts[1] == engine[1] {
            assert(parts.take(2) =~= engine);
        }
        if parts[0] == PartView::Root && parts[1] == game[1] {
            assert(parts.take(2) =~= game);
        }
    }
}

} // verus!
