//! The pipelines of the engine, with their layouts.

use crate::path::Path;
#[allow(unused_imports)]
use crate::path::{
    is_path, joined, parse, parse_render, part_fits, render, render_behind, stripped,
    trailing_separator_ignored, PartView,
};
use crate::pipelines::config::{
    compute_layout_bindings, ComputeResourceType, DescriptorSetLayoutBinding, PushConstantBinding,
    PushConstantRange,
};
#[allow(unused_imports)]
use crate::pipelines::config::compute_layout_bindings_of;
use crate::pipelines::pipeline::{
    created_graphics_pipeline, reversed, ComputePipeline, ComputePipelineConfig, GraphicsPipeline,
    GraphicsPipelineConfig, Pipeline,
};
#[allow(unused_imports)]
use crate::pipelines::pipeline::binding_names;
#[allow(unused_imports)]
use crate::resource_paths::{BUILT_PATH, CONTENT_PATH};
use crate::text::{chars_of, string_of};
use crate::utils::arc_final_owner::{share, ArcFinalOwner, FinalOwnerError};
use crate::utils::table::{Table, TableKey};
use path_slash::PathExt;
use std::sync::Arc;
use vstd::hash_set::StringHashSet;
use vstd::prelude::*;

verus! {

/// Where the shaders are.
pub const SHADER_PATH: &'static str = "galaxy_engine/content/shaders/";

/// Where the compiled shaders are.
pub const BUILT_SHADER_PATH: &'static str = "galaxy_engine/build/shaders/";

/// Where the configurations of the pipelines are.
pub const ENGINE_PIPELINE_CONFIG_GLOB: &'static str =
    "galaxy_engine/content/shaders/**/*.pipeline.ron";

/// A text is a path that is written the same on every system: there is nothing to be tidied up,
/// and no character that separates components on some systems only.
pub open spec fn is_slash_path(text: Seq<char>) -> bool {
    &&& render(parse(text)) == text
    &&& !text.contains('\\')
    &&& !text.contains(':')
}

/// `path_slash::PathExt::to_slash` writes a path with slashes between its components, which it can
/// do for every text. A path that is written the same on every system stays as it is. What becomes
/// of other paths depends on the system, and nothing is said of them.
#[verifier::external_body]
fn to_slash(path: &str) -> (result: Option<String>)
    ensures
        match result {
            Some(s) => is_slash_path(path@) ==> s@ == path@,
            None => false,
        },
{
    std::path::Path::new(path).to_slash().map(|s| s.to_string())
}

/// The place of the first dot, or the end of the text.
pub open spec fn first_dot(text: Seq<char>) -> int {
    crate::utils::version::next_dot(text, 0)
}

/// A text up to its first dot.
pub fn without_extensions(text: &str) -> (id: String)
    ensures
        id@ == text@.take(first_dot(text@)),
{
    let chars: Vec<char> = chars_of(text);
    let end: usize = crate::utils::version::find_dot(&chars, 0);
    let id = string_of(&chars, 0, end);
    assert(id@ =~= text@.take(first_dot(text@)));
    id
}

/// The path of a configuration among the pipelines of the engine.
pub open spec fn engine_path(path: Seq<char>) -> Option<Seq<char>> {
    match stripped(parse(path), parse(SHADER_PATH@)) {
        Some(rest) => Some(render(joined(parse("/engine"@), rest))),
        None => None,
    }
}

/// The name of the pipeline whose configuration is at `path`: its path among the shaders, without
/// extensions. There is none for paths elsewhere.
pub fn pipeline_id(path: &str) -> (id: Option<String>)
    ensures
        match engine_path(path@) {
            Some(text) => id matches Some(s) && (is_slash_path(text) ==> s@ == text.take(
                first_dot(text),
            )),
            None => id is None,
        },
{
    let rest = match Path::new(path).strip_prefix(&Path::new(SHADER_PATH)) {
        Some(rest) => rest,
        None => {
            return None;
        },
    };
    let text: String = Path::new("/engine").join(&rest).to_text();
    match to_slash(text.as_str()) {
        Some(slashed) => Some(without_extensions(slashed.as_str())),
        None => None,
    }
}

impl TableKey for Vec<ComputeResourceType> {
    fn same(&self, other: &Self) -> (same: bool) {
        if self.len() != other.len() {
            return false;
        }
        let mut i: usize = 0;
        while i < self.len()
            invariant
                i <= self.len() == other.len(),
                forall|k: int| 0 <= k < i ==> self@[k] == other@[k],
            decreases self.len() - i,
        {
            if self[i] != other[i] {
                return false;
            }
            i += 1;
        }
        assert(self@ =~= other@);
        true
    }
}

/// What a pipeline layout is made of.
#[derive(Clone, Copy, PartialEq, Eq, Structural, Debug)]
pub struct PipelineLayoutEntry {
    pub push_constant: Option<PushConstantBinding>,
    pub descriptor_set_layout: u64,
}

impl View for PipelineLayoutEntry {
    type V = PipelineLayoutEntry;

    open spec fn view(&self) -> PipelineLayoutEntry {
        *self
    }
}

impl TableKey for PipelineLayoutEntry {
    fn same(&self, other: &Self) -> (same: bool) {
        *self == *other
    }
}

impl PipelineLayoutEntry {
    /// The push constants of the layout.
    pub fn push_constant_range(&self) -> (range: Option<PushConstantRange>)
        ensures
            range == (match self.push_constant {
                Some(binding) => Some(binding.range()),
                None => None,
            }),
    {
        match self.push_constant {
            Some(binding) => Some(binding.push_constant_range()),
            None => None,
        }
    }
}

/// The shaders that were loaded, by their names.
pub type ShaderModuleCache<M> = Table<String, M>;

/// A pipeline that is no longer needed.
pub struct RetiredPipeline {
    pub id: String,
    /// The handle to destroy, unless others still use the pipeline.
    pub handle: Option<u64>,
}

/// What has to be destroyed when the pipelines are no longer needed.
pub struct Teardown {
    pub pipelines: Vec<RetiredPipeline>,
    pub descriptor_set_layouts: Vec<u64>,
    pub pipeline_layouts: Vec<u64>,
}

/// The pipelines of the engine.
pub struct PipelineManager {
    scene_set_layout: u64,
    pipeline_layouts: Table<PipelineLayoutEntry, u64>,
    compute_set_layouts: Table<Vec<ComputeResourceType>, u64>,
    graphics_pipelines: Table<String, ArcFinalOwner<GraphicsPipeline>>,
    compute_pipelines: Table<String, ArcFinalOwner<ComputePipeline>>,
    bind_point_ids: StringHashSet,
}

/// Every pipeline of a table is there, under its own name.
pub open spec fn pipelines_present<P: Pipeline>(table: Table<String, ArcFinalOwner<P>>) -> bool {
    forall|id: Seq<char>| #[trigger]
        table@.contains_key(id) ==> (table@[id].object() matches Some(p) && p.spec_id() == id)
}

/// The names and handles of the pipelines of a table, in order.
pub open spec fn handle_list<P: Pipeline>(table: Table<String, ArcFinalOwner<P>>) -> Seq<
    (Seq<char>, u64),
> {
    Seq::new(
        table.keys().len(),
        |i: int| (table.keys()[i], (table.values()[i].object()->0).spec_handle()),
    )
}

/// The list of a table has every pipeline, once.
proof fn handle_list_complete<P: Pipeline>(table: Table<String, ArcFinalOwner<P>>)
    requires
        table.wf(),
        pipelines_present(table),
    ensures
        forall|i: int, j: int|
            0 <= i < j < handle_list(table).len() ==> (#[trigger] handle_list(table)[i]).0 != (
            #[trigger] handle_list(table)[j]).0,
        forall|i: int|
            0 <= i < handle_list(table).len() ==> table@.contains_key(
                (#[trigger] handle_list(table)[i]).0,
            ) && (table@[handle_list(table)[i].0].object()->0).spec_handle() == handle_list(table)[i].1,
        forall|id: Seq<char>| #[trigger]
            table@.contains_key(id) ==> handle_list(table).contains(
                (id, (table@[id].object()->0).spec_handle()),
            ),
{
    let list = handle_list(table);
    assert forall|i: int| 0 <= i < list.len() implies table@.contains_key((#[trigger] list[i]).0)
        && (table@[list[i].0].object()->0).spec_handle() == list[i].1 by {
        assert(table.keys().contains(table.keys()[i]));
        let place = table.keys().index_of(table.keys()[i]);
        assert(table.keys()[place] == table.keys()[i]);
    }
    assert forall|id: Seq<char>| #[trigger] table@.contains_key(id) implies list.contains(
        (id, (table@[id].object()->0).spec_handle()),
    ) by {
        let place = table.keys().index_of(id);
        assert(list[place] == (id, (table@[id].object()->0).spec_handle()));
    }
}

/// The graphics pipelines after the first `n` of those that were created together were added.
pub open spec fn graphics_with(
    pipelines: Map<Seq<char>, GraphicsPipeline>,
    handles: Seq<u64>,
    configs: Seq<GraphicsPipelineConfig>,
    layouts: Seq<u64>,
    n: nat,
) -> Map<Seq<char>, GraphicsPipeline>
    decreases n,
{
    if n == 0 {
        pipelines
    } else {
        let config = configs[n - 1];
        graphics_with(pipelines, handles, configs, layouts, (n - 1) as nat).insert(
            config.id@,
            GraphicsPipeline {
                handle: handles[n - 1],
                id: config.id,
                layout: layouts[n - 1],
                bindings: config.bindings,
            },
        )
    }
}

/// The bind points after those of the first `n` graphics pipelines were added.
pub open spec fn bind_points_with(
    names: Set<Seq<char>>,
    configs: Seq<GraphicsPipelineConfig>,
    n: nat,
) -> Set<Seq<char>>
    decreases n,
{
    if n == 0 {
        names
    } else {
        bind_points_with(names, configs, (n - 1) as nat).union(
            binding_names(configs[n - 1].bindings@),
        )
    }
}

/// The compute pipelines after the first `n` of those that were created together were added.
pub open spec fn compute_with(
    pipelines: Map<Seq<char>, ComputePipeline>,
    handles: Seq<u64>,
    configs: Seq<ComputePipelineConfig>,
    layouts: Seq<u64>,
    n: nat,
) -> Map<Seq<char>, ComputePipeline>
    decreases n,
{
    if n == 0 {
        pipelines
    } else {
        let config = configs[n - 1];
        compute_with(pipelines, handles, configs, layouts, (n - 1) as nat).insert(
            config.id@,
            ComputePipeline {
                handle: handles[n - 1],
                id: config.id,
                num_threads: config.num_threads,
                layout: layouts[n - 1],
            },
        )
    }
}

/// A pipeline with its name and handle is no longer needed.
pub open spec fn retires(entry: (Seq<char>, u64), retired: RetiredPipeline) -> bool {
    retired.id@ == entry.0 && (retired.handle matches Some(handle) ==> handle == entry.1)
}

/// A handle is given just where the pipeline could be taken back from its owner.
pub open spec fn taken_back<P>(owner: ArcFinalOwner<P>, handle: Option<u64>) -> bool {
    exists|unwrapped: Result<P, Arc<P>>| #[trigger]
        owner.unwraps_to(unwrapped) && (unwrapped is Ok <==> handle is Some)
}

/// A pipeline that was taken back is to be destroyed; one that others share is left alone.
pub fn retired<P: Pipeline>(id: String, taken: Result<P, FinalOwnerError>) -> (retired:
    RetiredPipeline)
    ensures
        retired.id@ == id@,
        retired.handle == (match taken {
            Ok(pipeline) => Some(pipeline.spec_handle()),
            Err(_) => None,
        }),
{
    let handle: Option<u64> = match taken {
        Ok(pipeline) => Some(pipeline.handle()),
        Err(FinalOwnerError::NotLastOwner) => None,
    };
    RetiredPipeline { id, handle }
}

/// Gives up all pipelines of a table.
fn retire_pipelines<P: Pipeline>(table: Table<String, ArcFinalOwner<P>>) -> (retired: Vec<
    RetiredPipeline,
>)
    requires
        table.wf(),
        pipelines_present(table),
    ensures
        retired.len() == handle_list(table).len(),
        forall|i: int|
            0 <= i < retired.len() ==> retires(handle_list(table)[i], #[trigger] retired@[i])
                && taken_back(table.values()[i], retired@[i].handle),
{
    let ghost list = handle_list(table);
    let ghost all = table;
    proof {
        handle_list_complete(table);
    }
    let mut rest = reversed(table.into_entries());
    let mut retired: Vec<RetiredPipeline> = Vec::with_capacity(rest.len());
    while rest.len() > 0
        invariant
            rest.len() + retired.len() == list.len(),
            list == handle_list(all),
            all.wf(),
            pipelines_present(all),
            forall|k: int|
                0 <= k < rest.len() ==> (#[trigger] rest@[k]).0@ == all.keys()[list.len() - 1 - k]
                    && rest@[k].1 == all.values()[list.len() - 1 - k],
            forall|i: int|
                0 <= i < retired.len() ==> retires(list[i], #[trigger] retired@[i]) && taken_back(
                    all.values()[i],
                    retired@[i].handle,
                ),
        decreases rest.len(),
    {
        let ghost i = retired@.len() as int;
        proof {
            let last = rest@[rest.len() - 1];
            assert(last.0@ == all.keys()[i] && last.1 == all.values()[i]);
            assert(all.keys().contains(all.keys()[i]));
            let place = all.keys().index_of(all.keys()[i]);
            assert(all.keys()[place] == all.keys()[i]);
            assert(all@.contains_key(all.keys()[i]));
        }
        match rest.pop() {
            Some((id, owner)) => {
                let mut owner = owner;
                let taken = owner.take_as_final();
                retired.push(self::retired(id, taken));
            },
            None => {},
        }
    }
    retired
}

impl PipelineManager {
    /// The layout of the descriptors of the scene.
    pub closed spec fn spec_scene_set_layout(self) -> u64 {
        self.scene_set_layout
    }

    /// The pipeline layouts.
    pub closed spec fn layouts(self) -> Map<PipelineLayoutEntry, u64> {
        self.pipeline_layouts@
    }

    /// The layouts of the descriptors of compute pipelines.
    pub closed spec fn set_layouts(self) -> Map<Seq<ComputeResourceType>, u64> {
        self.compute_set_layouts@
    }

    /// The graphics pipelines by their names.
    pub closed spec fn graphics(self) -> Map<Seq<char>, GraphicsPipeline> {
        self.graphics_pipelines@.map_values(
            |o: ArcFinalOwner<GraphicsPipeline>| o.object()->0,
        )
    }

    /// The compute pipelines by their names.
    pub closed spec fn compute(self) -> Map<Seq<char>, ComputePipeline> {
        self.compute_pipelines@.map_values(|o: ArcFinalOwner<ComputePipeline>| o.object()->0)
    }

    /// The names of the bind points of all graphics pipelines.
    pub closed spec fn bind_points(self) -> Set<Seq<char>> {
        self.bind_point_ids@
    }

    /// All layouts, in the order in which they were created.
    pub closed spec fn all_layouts(self) -> (Seq<u64>, Seq<u64>) {
        (self.pipeline_layouts.values(), self.compute_set_layouts.values())
    }

    /// The names and handles of the pipelines for drawing.
    pub closed spec fn graphics_list(self) -> Seq<(Seq<char>, u64)> {
        handle_list(self.graphics_pipelines)
    }

    /// The names and handles of the pipelines for computations.
    pub closed spec fn compute_list(self) -> Seq<(Seq<char>, u64)> {
        handle_list(self.compute_pipelines)
    }

    /// The owners of the pipelines for drawing, in the order of their names and handles.
    pub closed spec fn graphics_owners(self) -> Seq<ArcFinalOwner<GraphicsPipeline>> {
        self.graphics_pipelines.values()
    }

    /// The owners of the pipelines for computations, in the order of their names and handles.
    pub closed spec fn compute_owners(self) -> Seq<ArcFinalOwner<ComputePipeline>> {
        self.compute_pipelines.values()
    }

    /// The lists have every pipeline, once.
    pub proof fn lists_complete(self)
        requires
            self.wf(),
        ensures
            forall|i: int, j: int|
                0 <= i < j < self.graphics_list().len() ==> (#[trigger] self.graphics_list()[i]).0
                    != (#[trigger] self.graphics_list()[j]).0,
            forall|id: Seq<char>, handle: u64|
                #[trigger] self.graphics_list().contains((id, handle)) <==> (
                self.graphics().contains_key(id) && self.graphics()[id].handle == handle),
            forall|i: int, j: int|
                0 <= i < j < self.compute_list().len() ==> (#[trigger] self.compute_list()[i]).0 != (
                #[trigger] self.compute_list()[j]).0,
            forall|id: Seq<char>, handle: u64|
                #[trigger] self.compute_list().contains((id, handle)) <==> (
                self.compute().contains_key(id) && self.compute()[id].handle == handle),
    {
        handle_list_complete(self.graphics_pipelines);
        handle_list_complete(self.compute_pipelines);
        assert forall|id: Seq<char>, handle: u64|
            #[trigger] self.graphics_list().contains((id, handle)) implies (
        self.graphics().contains_key(id) && self.graphics()[id].handle == handle) by {
            let i = self.graphics_list().index_of((id, handle));
            assert(self.graphics_list()[i].0 == id);
        }
        assert forall|id: Seq<char>, handle: u64|
            #[trigger] self.compute_list().contains((id, handle)) implies (
        self.compute().contains_key(id) && self.compute()[id].handle == handle) by {
            let i = self.compute_list().index_of((id, handle));
            assert(self.compute_list()[i].0 == id);
        }
    }

    /// The pipelines are there, under their own names.
    pub closed spec fn wf(self) -> bool {
        &&& self.pipeline_layouts.wf()
        &&& self.compute_set_layouts.wf()
        &&& self.graphics_pipelines.wf()
        &&& self.compute_pipelines.wf()
        &&& pipelines_present(self.graphics_pipelines)
        &&& pipelines_present(self.compute_pipelines)
    }

    /// No pipelines yet.
    pub fn new(scene_set_layout: u64) -> (manager: Self)
        ensures
            manager.wf(),
            manager.spec_scene_set_layout() == scene_set_layout,
            manager.layouts() == Map::<PipelineLayoutEntry, u64>::empty(),
            manager.set_layouts() == Map::<Seq<ComputeResourceType>, u64>::empty(),
            manager.graphics() == Map::<Seq<char>, GraphicsPipeline>::empty(),
            manager.compute() == Map::<Seq<char>, ComputePipeline>::empty(),
            manager.bind_points() == Set::<Seq<char>>::empty(),
            manager.all_layouts() == (Seq::<u64>::empty(), Seq::<u64>::empty()),
    {
        let manager = PipelineManager {
            scene_set_layout,
            pipeline_layouts: Table::new(),
            compute_set_layouts: Table::new(),
            graphics_pipelines: Table::new(),
            compute_pipelines: Table::new(),
            bind_point_ids: StringHashSet::new(),
        };
        assert(manager.graphics() =~= Map::<Seq<char>, GraphicsPipeline>::empty());
        assert(manager.compute() =~= Map::<Seq<char>, ComputePipeline>::empty());
        manager
    }

    /// What the layout of a graphics pipeline is made of.
    pub fn graphics_layout_entry(&self, config: &GraphicsPipelineConfig) -> (entry: PipelineLayoutEntry)
        ensures
            entry == (PipelineLayoutEntry {
                push_constant: config.push_constant,
                descriptor_set_layout: self.spec_scene_set_layout(),
            }),
    {
        PipelineLayoutEntry {
            push_constant: config.push_constant,
            descriptor_set_layout: self.scene_set_layout,
        }
    }

    /// What the layout of a compute pipeline is made of, once the layout of its descriptors is
    /// there.
    pub fn compute_layout_entry(&self, config: &ComputePipelineConfig) -> (entry: Option<
        PipelineLayoutEntry,
    >)
        requires
            self.wf(),
        ensures
            ({
                let types = config.bindings@.map_values(|b: (Seq<char>, ComputeResourceType)| b.1);
                entry == (if self.set_layouts().contains_key(types) {
                    Some(
                        PipelineLayoutEntry {
                            push_constant: config.push_constant,
                            descriptor_set_layout: self.set_layouts()[types],
                        },
                    )
                } else {
                    None
                })
            }),
    {
        match self.compute_set_layouts.get(&config.binding_types()) {
            Some(layout) => Some(
                PipelineLayoutEntry {
                    push_constant: config.push_constant,
                    descriptor_set_layout: *layout,
                },
            ),
            None => None,
        }
    }

    /// The pipeline layout that was created from an entry.
    pub fn get_pipeline_layout(&self, entry: &PipelineLayoutEntry) -> (layout: Option<u64>)
        requires
            self.wf(),
        ensures
            layout == (if self.layouts().contains_key(*entry) {
                Some(self.layouts()[*entry])
            } else {
                None
            }),
    {
        match self.pipeline_layouts.get(entry) {
            Some(layout) => Some(*layout),
            None => None,
        }
    }

    /// Keeps a pipeline layout that was created.
    pub fn add_pipeline_layout(&mut self, entry: PipelineLayoutEntry, layout: u64)
        requires
            old(self).wf(),
            !old(self).layouts().contains_key(entry),
        ensures
            final(self).wf(),
            final(self).layouts() == old(self).layouts().insert(entry, layout),
            final(self).all_layouts() == (
                old(self).all_layouts().0.push(layout),
                old(self).all_layouts().1,
            ),
            final(self).same_but_layouts(*old(self)),
            final(self).set_layouts() == old(self).set_layouts(),
    {
        self.pipeline_layouts.insert(entry, layout);
    }

    /// Nothing but layouts differs.
    pub closed spec fn same_but_layouts(self, other: Self) -> bool {
        &&& self.scene_set_layout == other.scene_set_layout
        &&& self.graphics_pipelines == other.graphics_pipelines
        &&& self.compute_pipelines == other.compute_pipelines
        &&& self.bind_point_ids == other.bind_point_ids
    }

    /// What two managers share that differ in layouts only.
    pub proof fn same_but_layouts_means(self, other: Self)
        requires
            self.same_but_layouts(other),
        ensures
            self.spec_scene_set_layout() == other.spec_scene_set_layout(),
            self.graphics() == other.graphics(),
            self.compute() == other.compute(),
            self.bind_points() == other.bind_points(),
            self.graphics_list() == other.graphics_list(),
            self.compute_list() == other.compute_list(),
    {
    }

    /// The layout of the descriptors of a compute pipeline, where it was created already, and
    /// otherwise what it is to be created with.
    pub fn find_compute_set_layout(&self, config: &ComputePipelineConfig) -> (found: Result<
        u64,
        Vec<DescriptorSetLayoutBinding>,
    >)
        requires
            self.wf(),
            config.bindings@.len() <= u32::MAX,
        ensures
            ({
                let types = config.bindings@.map_values(|b: (Seq<char>, ComputeResourceType)| b.1);
                match found {
                    Ok(layout) => self.set_layouts().contains_key(types)
                        && self.set_layouts()[types] == layout,
                    Err(bindings) => !self.set_layouts().contains_key(types) && bindings@
                        == compute_layout_bindings_of(types),
                }
            }),
    {
        let types = config.binding_types();
        match self.compute_set_layouts.get(&types) {
            Some(layout) => Ok(*layout),
            None => Err(compute_layout_bindings(&types)),
        }
    }

    /// Keeps the layout that was created for the descriptors of a compute pipeline.
    pub fn add_compute_set_layout(&mut self, types: Vec<ComputeResourceType>, layout: u64)
        requires
            old(self).wf(),
            !old(self).set_layouts().contains_key(types@),
        ensures
            final(self).wf(),
            final(self).set_layouts() == old(self).set_layouts().insert(types@, layout),
            final(self).all_layouts() == (
                old(self).all_layouts().0,
                old(self).all_layouts().1.push(layout),
            ),
            final(self).same_but_layouts(*old(self)),
            final(self).layouts() == old(self).layouts(),
    {
        self.compute_set_layouts.insert(types, layout);
    }

    /// Adds a graphics pipeline that was created, in place of one with the same name.
    pub fn add_graphics_pipeline(
        &mut self,
        handle: u64,
        config: GraphicsPipelineConfig,
        layout: u64,
    )
        requires
            old(self).wf(),
        ensures
            final(self).wf(),
            final(self).graphics() == old(self).graphics().insert(
                config.id@,
                (GraphicsPipeline { handle, id: config.id, layout, bindings: config.bindings }),
            ),
            final(self).bind_points() == old(self).bind_points().union(
                binding_names(config.bindings@),
            ),
            final(self).spec_scene_set_layout() == old(self).spec_scene_set_layout(),
            final(self).compute() == old(self).compute(),
            final(self).layouts() == old(self).layouts(),
            final(self).set_layouts() == old(self).set_layouts(),
            final(self).all_layouts() == old(self).all_layouts(),
    {
        let id: String = config.id.clone();
        let pipeline = created_graphics_pipeline(handle, config, layout, &mut self.bind_point_ids);
        let ghost made = pipeline;
        let owner = ArcFinalOwner::new(pipeline);
        let ghost before = self.graphics_pipelines;
        self.graphics_pipelines.insert(id, owner);
        proof {
            assert forall|name: Seq<char>| #[trigger]
                self.graphics_pipelines@.contains_key(name) implies (
            self.graphics_pipelines@[name].object() matches Some(p) && p.id@ == name) by {
                if name != id@ {
                    assert(before@.contains_key(name));
                }
            }
            assert(self.graphics() =~= old(self).graphics().insert(id@, made));
        }
    }

    /// Adds graphics pipelines that were created together: each handle belongs to the
    /// configuration and to the layout at the same place.
    pub fn add_graphics_pipelines(
        &mut self,
        handles: &Vec<u64>,
        configs: Vec<GraphicsPipelineConfig>,
        layouts: &Vec<u64>,
    )
        requires
            old(self).wf(),
            handles.len() == configs.len(),
            layouts.len() == configs.len(),
        ensures
            final(self).wf(),
            final(self).graphics() == graphics_with(
                old(self).graphics(),
                handles@,
                configs@,
                layouts@,
                configs@.len(),
            ),
            final(self).bind_points() == bind_points_with(
                old(self).bind_points(),
                configs@,
                configs@.len(),
            ),
            final(self).spec_scene_set_layout() == old(self).spec_scene_set_layout(),
            final(self).compute() == old(self).compute(),
            final(self).layouts() == old(self).layouts(),
            final(self).set_layouts() == old(self).set_layouts(),
            final(self).all_layouts() == old(self).all_layouts(),
    {
        let ghost all = configs@;
        let count: usize = configs.len();
        let mut rest = reversed(configs);
        let mut i: usize = 0;
        while i < count
            invariant
                i <= count == all.len(),
                handles.len() == count,
                layouts.len() == count,
                rest@ == all.skip(i as int).reverse(),
                self.wf(),
                self.graphics() == graphics_with(
                    old(self).graphics(),
                    handles@,
                    all,
                    layouts@,
                    i as nat,
                ),
                self.bind_points() == bind_points_with(old(self).bind_points(), all, i as nat),
                self.spec_scene_set_layout() == old(self).spec_scene_set_layout(),
                self.compute() == old(self).compute(),
                self.layouts() == old(self).layouts(),
                self.set_layouts() == old(self).set_layouts(),
                self.all_layouts() == old(self).all_layouts(),
            decreases count - i,
        {
            match rest.pop() {
                Some(config) => {
                    assert(config == all[i as int]);
                    self.add_graphics_pipeline(handles[i], config, layouts[i]);
                },
                None => {},
            }
            i += 1;
            assert(rest@ =~= all.skip(i as int).reverse());
        }
    }

    /// Adds compute pipelines that were created together: each handle belongs to the
    /// configuration and to the layout at the same place.
    pub fn add_compute_pipelines(
        &mut self,
        handles: &Vec<u64>,
        configs: Vec<ComputePipelineConfig>,
        layouts: &Vec<u64>,
    )
        requires
            old(self).wf(),
            handles.len() == configs.len(),
            layouts.len() == configs.len(),
        ensures
            final(self).wf(),
            final(self).compute() == compute_with(
                old(self).compute(),
                handles@,
                configs@,
                layouts@,
                configs@.len(),
            ),
            final(self).spec_scene_set_layout() == old(self).spec_scene_set_layout(),
            final(self).graphics() == old(self).graphics(),
            final(self).bind_points() == old(self).bind_points(),
            final(self).layouts() == old(self).layouts(),
            final(self).set_layouts() == old(self).set_layouts(),
            final(self).all_layouts() == old(self).all_layouts(),
    {
        let ghost all = configs@;
        let count: usize = configs.len();
        let mut rest = reversed(configs);
        let mut i: usize = 0;
        while i < count
            invariant
                i <= count == all.len(),
                handles.len() == count,
                layouts.len() == count,
                rest@ == all.skip(i as int).reverse(),
                self.wf(),
                self.compute() == compute_with(
                    old(self).compute(),
                    handles@,
                    all,
                    layouts@,
                    i as nat,
                ),
                self.spec_scene_set_layout() == old(self).spec_scene_set_layout(),
                self.graphics() == old(self).graphics(),
                self.bind_points() == old(self).bind_points(),
                self.layouts() == old(self).layouts(),
                self.set_layouts() == old(self).set_layouts(),
                self.all_layouts() == old(self).all_layouts(),
            decreases count - i,
        {
            match rest.pop() {
                Some(config) => {
                    assert(config == all[i as int]);
                    self.add_compute_pipeline(handles[i], config, layouts[i]);
                },
                None => {},
            }
            i += 1;
            assert(rest@ =~= all.skip(i as int).reverse());
        }
    }

    /// Adds a compute pipeline that was created, in place of one with the same name.
    pub fn add_compute_pipeline(&mut self, handle: u64, config: ComputePipelineConfig, layout: u64)
        requires
            old(self).wf(),
        ensures
            final(self).wf(),
            final(self).compute() == old(self).compute().insert(
                config.id@,
                (ComputePipeline {
                    handle,
                    id: config.id,
                    num_threads: config.num_threads,
                    layout,
                }),
            ),
            final(self).spec_scene_set_layout() == old(self).spec_scene_set_layout(),
            final(self).graphics() == old(self).graphics(),
            final(self).bind_points() == old(self).bind_points(),
            final(self).layouts() == old(self).layouts(),
            final(self).set_layouts() == old(self).set_layouts(),
            final(self).all_layouts() == old(self).all_layouts(),
    {
        let id: String = config.id.clone();
        let pipeline = ComputePipeline::created(handle, config, layout);
        let ghost made = pipeline;
        let owner = ArcFinalOwner::new(pipeline);
        let ghost before = self.compute_pipelines;
        self.compute_pipelines.insert(id, owner);
        proof {
            assert forall|name: Seq<char>| #[trigger]
                self.compute_pipelines@.contains_key(name) implies (
            self.compute_pipelines@[name].object() matches Some(p) && p.id@ == name) by {
                if name != id@ {
                    assert(before@.contains_key(name));
                }
            }
            assert(self.compute() =~= old(self).compute().insert(id@, made));
        }
    }

    /// Some graphics pipeline has a bind point with the name.
    pub fn get_bind_point_id(&self, id: &str) -> (known: bool)
        ensures
            known == self.bind_points().contains(id@),
    {
        self.bind_point_ids.contains(id)
    }

    /// The graphics pipeline with a name.
    pub fn get_graphics_pipeline(&self, id: &str) -> (pipeline: Option<&GraphicsPipeline>)
        requires
            self.wf(),
        ensures
            match pipeline {
                Some(p) => self.graphics().contains_key(id@) && self.graphics()[id@] == *p && p.id@
                    == id@,
                None => !self.graphics().contains_key(id@),
            },
    {
        match self.graphics_pipelines.get(&id.to_owned()) {
            Some(owner) => Some(owner.as_ref()),
            None => None,
        }
    }

    /// The graphics pipeline with a name, to be shared.
    pub fn get_cloned_graphics_pipeline(&self, id: &str) -> (pipeline: Option<Arc<GraphicsPipeline>>)
        requires
            self.wf(),
        ensures
            match pipeline {
                Some(p) => self.graphics().contains_key(id@) && self.graphics()[id@] == *p && p.id@
                    == id@,
                None => !self.graphics().contains_key(id@),
            },
    {
        match self.graphics_pipelines.get(&id.to_owned()) {
            Some(owner) => Some(share(owner.shared())),
            None => None,
        }
    }

    /// The pipeline layout that all draws of the scene share.
    pub fn get_draw_layout(&self) -> (layout: Option<u64>)
        requires
            self.wf(),
        ensures
            ({
                let entry = PipelineLayoutEntry {
                    push_constant: Some(PushConstantBinding::DrawOffset),
                    descriptor_set_layout: self.spec_scene_set_layout(),
                };
                layout == (if self.layouts().contains_key(entry) {
                    Some(self.layouts()[entry])
                } else {
                    None
                })
            }),
    {
        self.get_pipeline_layout(
            &PipelineLayoutEntry {
                push_constant: Some(PushConstantBinding::DrawOffset),
                descriptor_set_layout: self.scene_set_layout,
            },
        )
    }

    /// The layout of the descriptors of compute pipelines with the resources.
    pub fn get_compute_descriptor_set_layout(&self, types: &Vec<ComputeResourceType>) -> (layout: Option<
        u64,
    >)
        requires
            self.wf(),
        ensures
            layout == (if self.set_layouts().contains_key(types@) {
                Some(self.set_layouts()[types@])
            } else {
                None
            }),
    {
        match self.compute_set_layouts.get(types) {
            Some(layout) => Some(*layout),
            None => None,
        }
    }

    /// The compute pipeline with a name.
    pub fn get_compute_pipeline(&self, name: &str) -> (pipeline: Option<&ComputePipeline>)
        requires
            self.wf(),
        ensures
            match pipeline {
                Some(p) => self.compute().contains_key(name@) && self.compute()[name@] == *p && p.id@
                    == name@,
                None => !self.compute().contains_key(name@),
            },
    {
        match self.compute_pipelines.get(&name.to_owned()) {
            Some(owner) => Some(owner.as_ref()),
            None => None,
        }
    }

    /// Takes everything apart. Pipelines that others still use are left alone.
    pub fn teardown(self) -> (teardown: Teardown)
        requires
            self.wf(),
        ensures
            teardown.pipelines.len() == self.graphics_list().len() + self.compute_list().len(),
            forall|i: int|
                0 <= i < teardown.pipelines.len() ==> retires(
                    (self.graphics_list() + self.compute_list())[i],
                    #[trigger] teardown.pipelines@[i],
                ),
            forall|i: int|
                0 <= i < self.graphics_list().len() ==> taken_back(
                    #[trigger] self.graphics_owners()[i],
                    teardown.pipelines@[i].handle,
                ),
            forall|i: int|
                0 <= i < self.compute_list().len() ==> taken_back(
                    #[trigger] self.compute_owners()[i],
                    teardown.pipelines@[self.graphics_list().len() + i].handle,
                ),
            teardown.descriptor_set_layouts@ == self.all_layouts().1.push(
                self.spec_scene_set_layout(),
            ),
            teardown.pipeline_layouts@ == self.all_layouts().0,
    {
        let PipelineManager {
            scene_set_layout,
            pipeline_layouts,
            compute_set_layouts,
            graphics_pipelines,
            compute_pipelines,
            bind_point_ids: _,
        } = self;
        let mut pipelines = retire_pipelines(graphics_pipelines);
        let mut compute = retire_pipelines(compute_pipelines);
        let ghost (first, second) = (pipelines@, compute@);
        pipelines.append(&mut compute);
        proof {
            assert(pipelines@ == first + second);
            assert forall|i: int| 0 <= i < self.graphics_list().len() implies taken_back(
                #[trigger] self.graphics_owners()[i],
                pipelines@[i].handle,
            ) by {
                assert(pipelines@[i] == first[i]);
            }
            assert forall|i: int| 0 <= i < self.compute_list().len() implies taken_back(
                #[trigger] self.compute_owners()[i],
                pipelines@[self.graphics_list().len() + i].handle,
            ) by {
                assert(pipelines@[self.graphics_list().len() + i] == second[i]);
            }
        }
        let mut descriptor_set_layouts = Self::handles_of(&compute_set_layouts);
        descriptor_set_layouts.push(scene_set_layout);
        Teardown {
            pipelines,
            descriptor_set_layouts,
            pipeline_layouts: Self::handles_of(&pipeline_layouts),
        }
    }

    fn handles_of<K: TableKey>(table: &Table<K, u64>) -> (handles: Vec<u64>)
        ensures
            handles@ == table.values(),
    {
        let mut handles: Vec<u64> = Vec::new();
        let mut i: usize = 0;
        while i < table.len()
            invariant
                i <= table.values().len(),
                handles@ == table.values().take(i as int),
            decreases table.values().len() - i,
        {
            handles.push(*table.value(i));
            i += 1;
            assert(handles@ =~= table.values().take(i as int));
        }
        assert(table.values().take(table.values().len() as int) =~= table.values());
        handles
    }
}

/// The configuration of a pipeline among the shaders names the pipeline: `/engine/` and its path
/// from there, up to the first dot.
pub proof fn pipelines_are_named_by_their_files(rest: Seq<PartView>)
    requires
        is_path(rest),
        rest.len() > 0,
        rest[0] != PartView::Root,
        rest[0] != PartView::Current,
    ensures
        engine_path("galaxy_engine/content/shaders/"@ + render(rest)) == Some(
            "/engine/"@ + render(rest),
        ),
{
    reveal_strlit("galaxy_engine/content/shaders/");
    reveal_strlit("/engine/");
    reveal_strlit("/engine");
    reveal_strlit("galaxy_engine");
    reveal_strlit("content");
    reveal_strlit("shaders");
    reveal_strlit("engine");
    let (a, b, c, e) = ("galaxy_engine"@, "content"@, "shaders"@, "engine"@);
    assert(a.len() == 13 && b.len() == 7 && c.len() == 7 && e.len() == 6);
    let one = seq![PartView::Normal(a)];
    let two = one + seq![PartView::Normal(b)];
    let dir = two + seq![PartView::Normal(c)];
    let root = seq![PartView::Root, PartView::Normal(e)];
    assert(one[0] != PartView::Root && two[0] != PartView::Root && dir[0] != PartView::Root);
    render_behind(one, seq![PartView::Normal(b)]);
    render_behind(two, seq![PartView::Normal(c)]);
    render_behind(dir, rest);
    render_behind(root, rest);
    assert(is_path(dir));
    assert(is_path(root));
    parse_render(dir);
    parse_render(root);
    assert(SHADER_PATH@ =~= render(dir) + seq!['/']);
    trailing_separator_ignored(render(dir));
    assert("/engine"@ =~= render(root));
    assert forall|i: int| 0 <= i < (dir + rest).len() implies part_fits(
        #[trigger] (dir + rest)[i],
        i,
    ) by {
        if i >= 3 {
            assert(part_fits(rest[i - 3], i - 3));
        }
    }
    parse_render(dir + rest);
    assert("galaxy_engine/content/shaders/"@ + render(rest) =~= render(dir + rest));
    assert((dir + rest).take(3) =~= dir);
    assert((dir + rest).skip(3) =~= rest);
    assert("/engine/"@ + render(rest) =~= render(root + rest));
}

/// The name of a pipeline ends at the first dot.
pub proof fn names_end_at_the_first_dot(text: Seq<char>)
    ensures
        0 <= first_dot(text) <= text.len(),
        first_dot(text) < text.len() ==> text[first_dot(text)] == '.',
        !text.take(first_dot(text)).contains('.'),
{
    crate::utils::version::next_dot_is_first(text, 0);
}

/// Every graphics pipeline that was created has the handle, the layout and the bind points at its
/// own place; of several with one name the last counts, and those with other names stay.
pub proof fn graphics_pipelines_have_their_own(
    pipelines: Map<Seq<char>, GraphicsPipeline>,
    handles: Seq<u64>,
    configs: Seq<GraphicsPipelineConfig>,
    layouts: Seq<u64>,
    n: nat,
    id: Seq<char>,
    i: int,
)
    requires
        n <= configs.len(),
    ensures
        ({
            let after = graphics_with(pipelines, handles, configs, layouts, n);
            &&& 0 <= i < n && configs[i].id@ == id && (forall|j: int|
                i < j < n ==> (#[trigger] configs[j]).id@ != id) ==> after.contains_key(id) && {
                &&& after[id].handle == handles[i]
                &&& after[id].layout == layouts[i]
                &&& after[id].id@ == id
                &&& after[id].bindings == configs[i].bindings
            }
            &&& (forall|j: int| 0 <= j < n ==> (#[trigger] configs[j]).id@ != id) ==> (
            after.contains_key(id) <==> pipelines.contains_key(id)) && (pipelines.contains_key(id)
                ==> after[id] == pipelines[id])
        }),
    decreases n,
{
    if n > 0 {
        graphics_pipelines_have_their_own(
            pipelines,
            handles,
            configs,
            layouts,
            (n - 1) as nat,
            id,
            i,
        );
        if i < n - 1 && forall|j: int| i < j < n ==> (#[trigger] configs[j]).id@ != id {
            assert(configs[n - 1].id@ != id);
        }
    }
}

/// Every compute pipeline that was created has the handle, the layout and the threads at its own
/// place; of several with one name the last counts, and those with other names stay.
pub proof fn compute_pipelines_have_their_own(
    pipelines: Map<Seq<char>, ComputePipeline>,
    handles: Seq<u64>,
    configs: Seq<ComputePipelineConfig>,
    layouts: Seq<u64>,
    n: nat,
    id: Seq<char>,
    i: int,
)
    requires
        n <= configs.len(),
    ensures
        ({
            let after = compute_with(pipelines, handles, configs, layouts, n);
            &&& 0 <= i < n && configs[i].id@ == id && (forall|j: int|
                i < j < n ==> (#[trigger] configs[j]).id@ != id) ==> after.contains_key(id) && {
                &&& after[id].handle == handles[i]
                &&& after[id].layout == layouts[i]
                &&& after[id].id@ == id
                &&& after[id].num_threads == configs[i].num_threads
            }
            &&& (forall|j: int| 0 <= j < n ==> (#[trigger] configs[j]).id@ != id) ==> (
            after.contains_key(id) <==> pipelines.contains_key(id)) && (pipelines.contains_key(id)
                ==> after[id] == pipelines[id])
        }),
    decreases n,
{
    if n > 0 {
        compute_pipelines_have_their_own(
            pipelines,
            handles,
            configs,
            layouts,
            (n - 1) as nat,
            id,
            i,
        );
        if i < n - 1 && forall|j: int| i < j < n ==> (#[trigger] configs[j]).id@ != id {
            assert(configs[n - 1].id@ != id);
        }
    }
}

/// A name is that of a bind point just where it was one before or some pipeline binds under it.
pub proof fn bind_points_are_those_of_pipelines(
    names: Set<Seq<char>>,
    configs: Seq<GraphicsPipelineConfig>,
    n: nat,
    name: Seq<char>,
)
    requires
        n <= configs.len(),
    ensures
        bind_points_with(names, configs, n).contains(name) <==> names.contains(name) || exists|
            i: int,
            b: int,
        |
            0 <= i < n && 0 <= b < configs[i].bindings@.len() && (
            #[trigger] configs[i].bindings@[b]).0 == name,
    decreases n,
{
    if n > 0 {
        let m = (n - 1) as nat;
        bind_points_are_those_of_pipelines(names, configs, m, name);
        let own = configs[n - 1].bindings@;
        if binding_names(own).contains(name) {
            let b = choose|b: int| 0 <= b < own.len() && (#[trigger] own[b]).0 == name;
            assert(configs[n - 1].bindings@[b].0 == name);
        }
        if exists|i: int, b: int|
            0 <= i < n && 0 <= b < configs[i].bindings@.len() && (
            #[trigger] configs[i].bindings@[b]).0 == name {
            let (i, b) = choose|i: int, b: int|
                0 <= i < n && 0 <= b < configs[i].bindings@.len() && (
                #[trigger] configs[i].bindings@[b]).0 == name;
            if i == n - 1 {
                assert(own[b].0 == name);
                assert(binding_names(own).contains(name));
            } else {
                assert(configs[i].bindings@[b].0 == name);
            }
        }
    }
}

/// The configurations of pipelines are those files among the shaders, at any depth, that end in
/// `.pipeline.ron`; compiled shaders are among the built files.
pub proof fn configurations_stand_among_the_shaders()
    ensures
        ENGINE_PIPELINE_CONFIG_GLOB@ == SHADER_PATH@ + "**/*.pipeline.ron"@,
        SHADER_PATH@ == CONTENT_PATH@ + "shaders/"@,
        BUILT_SHADER_PATH@ == BUILT_PATH@ + "shaders/"@,
{
    reveal_strlit("galaxy_engine/content/shaders/**/*.pipeline.ron");
    reveal_strlit("galaxy_engine/content/shaders/");
    reveal_strlit("galaxy_engine/build/shaders/");
    reveal_strlit("galaxy_engine/content/");
    reveal_strlit("galaxy_engine/build/");
    reveal_strlit("**/*.pipeline.ron");
    reveal_strlit("shaders/");
    assert(ENGINE_PIPELINE_CONFIG_GLOB@ =~= SHADER_PATH@ + "**/*.pipeline.ron"@);
    assert(SHADER_PATH@ =~= CONTENT_PATH@ + "shaders/"@);
    assert(BUILT_SHADER_PATH@ =~= BUILT_PATH@ + "shaders/"@);
}

} // verus!
