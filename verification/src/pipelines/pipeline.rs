//! Pipelines, and what they are created with.

use crate::pipelines::bindings::{ComputeBindingMap, PipelineBindingMap};
use crate::pipelines::config::{bindings_layout, ComputeResourceType, PushConstantBinding};
#[allow(unused_imports)]
use crate::pipelines::config::{binding_fields, GraphicsPipelineBinding};
use crate::utils::layout::CStructLayout;
use crate::vertex_input::{
    BindableVertex, ColouredVertex, Vertex, VertexAttribute, VertexBinding,
};
use crate::vk::{COMPARE_GREATER, SAMPLES_1};
use vstd::hash_set::StringHashSet;
use vstd::prelude::*;

verus! {

/// What the vertices of a pipeline are made of.
#[derive(Clone, Copy, PartialEq, Eq, Structural, Debug)]
pub enum VertexInputType {
    PositionTexCoord,
    PositionColourTexCoord,
}

/// What a graphics pipeline is made from.
pub struct GraphicsPipelineConfig {
    pub id: String,
    pub vertex_shader: String,
    pub input_type: VertexInputType,
    pub fragment_shader: String,
    pub multisample_enable: bool,
    pub depth_enable: bool,
    pub push_constant: Option<PushConstantBinding>,
    /// The bind points, in order.
    pub bindings: PipelineBindingMap,
}

/// What a compute pipeline is made from.
pub struct ComputePipelineConfig {
    pub id: String,
    pub shader: String,
    pub num_threads: [u32; 3],
    pub push_constant: Option<PushConstantBinding>,
    /// The resources, in order.
    pub bindings: ComputeBindingMap,
}

impl ComputePipelineConfig {
    /// The types of the resources, in order.
    pub fn binding_types(&self) -> (types: Vec<ComputeResourceType>)
        ensures
            types@ == self.bindings@.map_values(|b: (Seq<char>, ComputeResourceType)| b.1),
    {
        self.bindings.values()
    }
}

/// What a pipeline is made from.
pub enum PipelineConfig {
    Graphics(GraphicsPipelineConfig),
    Compute(ComputePipelineConfig),
}

impl PipelineConfig {
    /// The name of the pipeline.
    pub open spec fn spec_id(self) -> Seq<char> {
        match self {
            PipelineConfig::Graphics(config) => config.id@,
            PipelineConfig::Compute(config) => config.id@,
        }
    }

    /// The pipeline under another name.
    pub fn with_id(self, id: String) -> (config: Self)
        ensures
            config.spec_id() == id@,
            match self {
                PipelineConfig::Graphics(c) => config == PipelineConfig::Graphics(
                    (GraphicsPipelineConfig { id, ..c }),
                ),
                PipelineConfig::Compute(c) => config == PipelineConfig::Compute(
                    (ComputePipelineConfig { id, ..c }),
                ),
            },
    {
        match self {
            PipelineConfig::Graphics(mut config) => {
                config.id = id;
                PipelineConfig::Graphics(config)
            },
            PipelineConfig::Compute(mut config) => {
                config.id = id;
                PipelineConfig::Compute(config)
            },
        }
    }
}

/// The graphics pipelines among the first `n`, in order.
pub open spec fn graphics_among(configs: Seq<PipelineConfig>, n: nat) -> Seq<GraphicsPipelineConfig>
    decreases n,
{
    if n == 0 {
        seq![]
    } else {
        let before = graphics_among(configs, (n - 1) as nat);
        match configs[n - 1] {
            PipelineConfig::Graphics(config) => before.push(config),
            PipelineConfig::Compute(_) => before,
        }
    }
}

/// The compute pipelines among the first `n`, in order.
pub open spec fn compute_among(configs: Seq<PipelineConfig>, n: nat) -> Seq<ComputePipelineConfig>
    decreases n,
{
    if n == 0 {
        seq![]
    } else {
        let before = compute_among(configs, (n - 1) as nat);
        match configs[n - 1] {
            PipelineConfig::Graphics(_) => before,
            PipelineConfig::Compute(config) => before.push(config),
        }
    }
}

/// Parts graphics pipelines from compute pipelines.
pub fn partition_configs(configs: Vec<PipelineConfig>) -> (parts: (
    Vec<GraphicsPipelineConfig>,
    Vec<ComputePipelineConfig>,
))
    ensures
        parts.0@ == graphics_among(configs@, configs@.len()),
        parts.1@ == compute_among(configs@, configs@.len()),
{
    let ghost all = configs@;
    let mut rest: Vec<PipelineConfig> = configs;
    let mut graphics: Vec<GraphicsPipelineConfig> = Vec::new();
    let mut compute: Vec<ComputePipelineConfig> = Vec::new();
    // The configurations are taken from the end, so that both lists are turned around after.
    while rest.len() > 0
        invariant
            rest@ == all.take(rest.len() as int),
            rest.len() <= all.len(),
            graphics_among(all, all.len()) == graphics_among(all, rest@.len()) + graphics@.reverse(),
            compute_among(all, all.len()) == compute_among(all, rest@.len()) + compute@.reverse(),
        decreases rest.len(),
    {
        let ghost n = rest@.len();
        let ghost (g, c) = (graphics@, compute@);
        match rest.pop() {
            Some(PipelineConfig::Graphics(config)) => {
                graphics.push(config);
                assert(graphics@.reverse() =~= seq![config] + g.reverse());
                assert(graphics_among(all, (n - 1) as nat).push(config) + g.reverse()
                    =~= graphics_among(all, (n - 1) as nat) + graphics@.reverse());
            },
            Some(PipelineConfig::Compute(config)) => {
                compute.push(config);
                assert(compute@.reverse() =~= seq![config] + c.reverse());
                assert(compute_among(all, (n - 1) as nat).push(config) + c.reverse()
                    =~= compute_among(all, (n - 1) as nat) + compute@.reverse());
            },
            None => {},
        }
        assert(rest@ =~= all.take(rest.len() as int));
    }
    let (graphics, compute) = (reversed(graphics), reversed(compute));
    assert(graphics@ =~= graphics_among(all, all.len()));
    assert(compute@ =~= compute_among(all, all.len()));
    (graphics, compute)
}

/// The items in reverse order.
pub(crate) fn reversed<T>(items: Vec<T>) -> (result: Vec<T>)
    ensures
        result@ == items@.reverse(),
{
    let ghost all = items@;
    let mut rest: Vec<T> = items;
    let mut result: Vec<T> = Vec::with_capacity(rest.len());
    while rest.len() > 0
        invariant
            rest.len() <= all.len(),
            rest@ == all.take(rest.len() as int),
            result@ == all.skip(rest.len() as int).reverse(),
        decreases rest.len(),
    {
        let ghost n = rest@.len() as int;
        match rest.pop() {
            Some(item) => {
                result.push(item);
                assert(result@ =~= all.skip(n - 1).reverse());
            },
            None => {},
        }
        assert(rest@ =~= all.take(rest.len() as int));
    }
    assert(all.skip(0) =~= all);
    result
}

/// What a graphics pipeline is created with, besides what all of them share.
pub struct GraphicsPipelineInfo {
    pub vertex_binding: VertexBinding,
    pub vertex_attributes: Vec<VertexAttribute>,
    pub samples: u32,
    pub depth_test_enable: bool,
    pub depth_write_enable: bool,
    pub depth_compare_op: i32,
    pub layout: u64,
}

/// The vertices are described as their type says.
pub open spec fn describes<V: BindableVertex>(info: GraphicsPipelineInfo) -> bool {
    &&& info.vertex_binding.binding == 0
    &&& info.vertex_binding.stride == crate::vertex_input::field_offset(
        V::sizes(),
        V::sizes().len(),
    )
    &&& info.vertex_binding.input_rate == V::input_rate()
    &&& info.vertex_attributes.len() == V::attribute_fields().len()
    &&& forall|a: int|
        0 <= a < info.vertex_attributes.len() ==> {
            &&& (#[trigger] info.vertex_attributes@[a]).binding == 0
            &&& info.vertex_attributes@[a].location == a
            &&& info.vertex_attributes@[a].format == V::attribute_fields()[a].1
            &&& info.vertex_attributes@[a].offset == crate::vertex_input::field_offset(
                V::sizes(),
                V::attribute_fields()[a].0 as nat,
            )
        }
}

/// What a graphics pipeline is created with. Depths are tested in reverse: larger ones are
/// nearer.
pub fn graphics_pipeline_info(
    config: &GraphicsPipelineConfig,
    layout: u64,
    msaa_samples: u32,
) -> (info: GraphicsPipelineInfo)
    ensures
        match config.input_type {
            VertexInputType::PositionTexCoord => describes::<Vertex>(info),
            VertexInputType::PositionColourTexCoord => describes::<ColouredVertex>(info),
        },
        info.samples == (if config.multisample_enable {
            msaa_samples
        } else {
            SAMPLES_1
        }),
        info.depth_test_enable == config.depth_enable,
        info.depth_write_enable,
        info.depth_compare_op == COMPARE_GREATER,
        info.layout == layout,
{
    let (vertex_binding, vertex_attributes) = match config.input_type {
        VertexInputType::PositionTexCoord => (
            Vertex::binding_description(),
            Vertex::attribute_descriptions(),
        ),
        VertexInputType::PositionColourTexCoord => (
            ColouredVertex::binding_description(),
            ColouredVertex::attribute_descriptions(),
        ),
    };
    GraphicsPipelineInfo {
        vertex_binding,
        vertex_attributes,
        samples: if config.multisample_enable {
            msaa_samples
        } else {
            SAMPLES_1
        },
        depth_test_enable: config.depth_enable,
        depth_write_enable: true,
        depth_compare_op: COMPARE_GREATER,
        layout,
    }
}

/// Pipelines that could not all be created.
pub struct PipelineCreateError {
    pub error: i32,
    /// Those that were created, and have to be destroyed.
    pub created: Vec<u64>,
}

/// A pipeline was created.
pub open spec fn is_created() -> spec_fn(u64) -> bool {
    |handle: u64| handle != 0
}

/// Takes the pipelines where all of them were created; otherwise those that were created are
/// to be destroyed.
pub fn handle_pipeline_create(handles: Result<Vec<u64>, (Vec<u64>, i32)>) -> (result: Result<
    Vec<u64>,
    PipelineCreateError,
>)
    ensures
        match handles {
            Ok(all) => result == Ok::<Vec<u64>, PipelineCreateError>(all),
            Err((some, error)) => result matches Err(e) && e.error == error && e.created@
                == some@.filter(is_created()),
        },
{
    match handles {
        Ok(all) => Ok(all),
        Err((some, error)) => {
            let mut created: Vec<u64> = Vec::new();
            let mut i: usize = 0;
            assert(some@.take(0).filter(is_created()) =~= seq![]) by {
                reveal(Seq::filter);
            }
            while i < some.len()
                invariant
                    i <= some.len(),
                    created@ == some@.take(i as int).filter(is_created()),
                decreases some.len() - i,
            {
                proof {
                    assert(some@.take(i + 1).drop_last() =~= some@.take(i as int));
                    reveal(Seq::filter);
                }
                if some[i] != 0 {
                    created.push(some[i]);
                }
                i += 1;
            }
            assert(some@.take(some.len() as int) =~= some@);
            Err(PipelineCreateError { error, created })
        },
    }
}

/// What all pipelines have.
pub trait Pipeline {
    spec fn spec_handle(&self) -> u64;

    spec fn spec_id(&self) -> Seq<char>;

    spec fn spec_layout(&self) -> u64;

    /// The handle of the pipeline.
    fn handle(&self) -> (handle: u64)
        ensures
            handle == self.spec_handle(),
    ;

    /// The name of the pipeline.
    fn id(&self) -> (id: &str)
        ensures
            id@ == self.spec_id(),
    ;

    /// A copy of the name of the pipeline.
    fn cloned_id(&self) -> (id: String)
        ensures
            id@ == self.spec_id(),
    ;

    /// The layout of the pipeline.
    fn layout(&self) -> (layout: u64)
        ensures
            layout == self.spec_layout(),
    ;
}

/// A pipeline for drawing.
pub struct GraphicsPipeline {
    pub handle: u64,
    pub id: String,
    pub layout: u64,
    pub bindings: PipelineBindingMap,
}

impl GraphicsPipeline {
    /// The layout of the struct of all bindings.
    pub fn bindings_layout(&self) -> (layout: CStructLayout)
        requires
            32 * (self.bindings@.len() + 2) <= usize::MAX,
        ensures
            layout.lays_out(
                binding_fields(self.bindings@.map_values(|b: (Seq<char>, GraphicsPipelineBinding)| b.1)),
            ),
    {
        bindings_layout(&self.bindings.values())
    }
}

impl Pipeline for GraphicsPipeline {
    open spec fn spec_handle(&self) -> u64 {
        self.handle
    }

    open spec fn spec_id(&self) -> Seq<char> {
        self.id@
    }

    open spec fn spec_layout(&self) -> u64 {
        self.layout
    }

    fn handle(&self) -> (handle: u64) {
        self.handle
    }

    fn id(&self) -> (id: &str) {
        self.id.as_str()
    }

    fn cloned_id(&self) -> (id: String) {
        self.id.clone()
    }

    fn layout(&self) -> (layout: u64) {
        self.layout
    }
}

/// The names of bind points.
pub open spec fn binding_names(bindings: Seq<(Seq<char>, GraphicsPipelineBinding)>) -> Set<Seq<char>> {
    Set::new(
        |name: Seq<char>| exists|i: int| 0 <= i < bindings.len() && (#[trigger] bindings[i]).0 == name,
    )
}

/// Takes note of the names of bind points.
pub(crate) fn note_bindings(
    names: &mut StringHashSet,
    bindings: &PipelineBindingMap,
)
    ensures
        final(names)@ == old(names)@.union(binding_names(bindings@)),
{
    let len: usize = bindings.len();
    let mut i: usize = 0;
    assert(names@ =~= old(names)@.union(binding_names(bindings@.take(0))));
    while i < len
        invariant
            i <= len == bindings@.len(),
            names@ == old(names)@.union(binding_names(bindings@.take(i as int))),
        decreases len - i,
    {
        if let Some((name, _)) = bindings.entry(i) {
            names.insert(name.clone());
        }
        proof {
            let (before, after) = (bindings@.take(i as int), bindings@.take(i + 1));
            let name = bindings@[i as int].0;
            assert(after[i as int] == bindings@[i as int]);
            assert(binding_names(after) =~= binding_names(before).insert(name)) by {
                assert forall|n: Seq<char>|
                    binding_names(after).contains(n) <==> binding_names(before).insert(
                        name,
                    ).contains(n) by {
                    if binding_names(before).contains(n) {
                        let k = choose|k: int|
                            0 <= k < before.len() && (#[trigger] before[k]).0 == n;
                        assert(after[k].0 == n);
                    }
                    if binding_names(after).contains(n) && n != name {
                        let k = choose|k: int| 0 <= k < after.len() && (#[trigger] after[k]).0 == n;
                        assert(before[k].0 == n);
                    }
                }
            }
            assert(names@ =~= old(names)@.union(binding_names(after)));
        }
        i += 1;
    }
    assert(bindings@.take(len as int) =~= bindings@);
}

/// The pipeline that was created from a configuration.
pub(crate) fn created_graphics_pipeline(
    handle: u64,
    config: GraphicsPipelineConfig,
    layout: u64,
    names: &mut StringHashSet,
) -> (pipeline: GraphicsPipeline)
    ensures
        pipeline == (GraphicsPipeline {
            handle,
            id: config.id,
            layout,
            bindings: config.bindings,
        }),
        final(names)@ == old(names)@.union(binding_names(config.bindings@)),
{
    note_bindings(names, &config.bindings);
    GraphicsPipeline { handle, id: config.id, layout, bindings: config.bindings }
}

/// A pipeline for computations.
pub struct ComputePipeline {
    pub handle: u64,
    pub id: String,
    pub num_threads: [u32; 3],
    pub layout: u64,
}

impl ComputePipeline {
    /// The pipeline that was created from a configuration.
    pub fn created(handle: u64, config: ComputePipelineConfig, layout: u64) -> (pipeline: Self)
        ensures
            pipeline == (ComputePipeline {
                handle,
                id: config.id,
                num_threads: config.num_threads,
                layout,
            }),
    {
        ComputePipeline { handle, id: config.id, num_threads: config.num_threads, layout }
    }

    /// The number of threads in a group, along each axis.
    pub fn num_threads_per_group(&self) -> (num_threads: &[u32; 3])
        ensures
            *num_threads == self.num_threads,
    {
        &self.num_threads
    }

    /// The number of threads in a group.
    pub fn total_threads_per_group(&self) -> (total: u32)
        requires
            self.num_threads[0] * self.num_threads[1] <= u32::MAX,
            self.num_threads[0] * self.num_threads[1] * self.num_threads[2] <= u32::MAX,
        ensures
            total == self.num_threads[0] * self.num_threads[1] * self.num_threads[2],
    {
        self.num_threads[0] * self.num_threads[1] * self.num_threads[2]
    }
}

impl Pipeline for ComputePipeline {
    open spec fn spec_handle(&self) -> u64 {
        self.handle
    }

    open spec fn spec_id(&self) -> Seq<char> {
        self.id@
    }

    open spec fn spec_layout(&self) -> u64 {
        self.layout
    }

    fn handle(&self) -> (handle: u64) {
        self.handle
    }

    fn id(&self) -> (id: &str) {
        self.id.as_str()
    }

    fn cloned_id(&self) -> (id: String) {
        self.id.clone()
    }

    fn layout(&self) -> (layout: u64) {
        self.layout
    }
}

/// The pipelines are parted by their kinds: each is in the list of its kind and no other, and as
/// many as there are of each kind are in its list, in order.
pub proof fn pipelines_are_parted(configs: Seq<PipelineConfig>, n: nat, i: int)
    requires
        0 <= i < n <= configs.len(),
    ensures
        graphics_among(configs, n).len() + compute_among(configs, n).len() == n,
        match configs[i] {
            PipelineConfig::Graphics(config) => {
                &&& graphics_among(configs, i as nat).len() < graphics_among(configs, n).len()
                &&& graphics_among(configs, n)[graphics_among(configs, i as nat).len() as int]
                    == config
                &&& graphics_among(configs, (i + 1) as nat).len() == graphics_among(
                    configs,
                    i as nat,
                ).len() + 1
                &&& compute_among(configs, (i + 1) as nat) == compute_among(configs, i as nat)
            },
            PipelineConfig::Compute(config) => {
                &&& compute_among(configs, i as nat).len() < compute_among(configs, n).len()
                &&& compute_among(configs, n)[compute_among(configs, i as nat).len() as int]
                    == config
                &&& compute_among(configs, (i + 1) as nat).len() == compute_among(
                    configs,
                    i as nat,
                ).len() + 1
                &&& graphics_among(configs, (i + 1) as nat) == graphics_among(configs, i as nat)
            },
        },
    decreases n,
{
    parted_count(configs, n);
    if i < n - 1 {
        pipelines_are_parted(configs, (n - 1) as nat, i);
    }
}

proof fn parted_count(configs: Seq<PipelineConfig>, n: nat)
    requires
        n <= configs.len(),
    ensures
        graphics_among(configs, n).len() + compute_among(configs, n).len() == n,
    decreases n,
{
    if n > 0 {
        parted_count(configs, (n - 1) as nat);
    }
}

proof fn kept_from(handles: Seq<u64>, i: int)
    requires
        0 <= i < handles.filter(is_created()).len(),
    ensures
        handles.contains(handles.filter(is_created())[i]),
    decreases handles.len(),
{
    reveal(Seq::filter);
    if handles.len() > 0 {
        let front = handles.drop_last();
        let kept = front.filter(is_created());
        if i < kept.len() {
            kept_from(front, i);
            let k = front.index_of(kept[i]);
            assert(handles[k] == kept[i]);
        } else {
            assert(handles[handles.len() - 1] == handles.filter(is_created())[i]);
        }
    }
}

/// Of pipelines that could not all be created, those with a handle are given back to be destroyed,
/// and a handle of zero stands for none.
pub proof fn created_pipelines_are_given_back(handles: Seq<u64>, handle: u64)
    ensures
        handles.filter(is_created()).contains(handle) <==> handles.contains(handle) && handle != 0,
{
    broadcast use vstd::seq_lib::group_filter_ensures;

    let kept = handles.filter(is_created());
    if kept.contains(handle) {
        let i = kept.index_of(handle);
        assert(is_created()(kept[i]));
        kept_from(handles, i);
    }
    if handles.contains(handle) && handle != 0 {
        let i = handles.index_of(handle);
        assert(is_created()(handles[i]));
        assert(kept.contains(handles[i]));
    }
}

} // verus!
