//! Materials.

use crate::materials::config::{MaterialConfig, ResourceBindingConfig, SubresourcePath};
use crate::materials::constant::{ResourceBinding, ResourceConstant};
use crate::pipelines::config::DescriptorSetLayoutBinding;
use crate::pipelines::pipeline::{GraphicsPipeline, Pipeline};
use crate::pipelines::pipeline_manager::PipelineManager;
use crate::resource_paths::ResourcePath;
#[allow(unused_imports)]
use crate::resource_paths::resolved;
use crate::utils::arc_final_owner::share;
use crate::vk::{
    DESCRIPTOR_COMBINED_IMAGE_SAMPLER, DESCRIPTOR_UNIFORM_BUFFER, STAGE_FRAGMENT, STAGE_VERTEX,
};
use std::sync::Arc;
use vstd::hash_map::StringHashMap;
use vstd::prelude::*;

verus! {

/// What is to be bound to a bind point, before its texture is loaded.
#[derive(Debug)]
pub enum PlannedBinding {
    Texture(ResourcePath),
    Constant(ResourceConstant),
}

/// A material that cannot be made.
#[derive(Debug)]
pub enum MaterialError {
    PipelineNotFound(String),
    UnknownBindPoint(String),
}

/// What a material is to be made of.
pub struct MaterialPlan {
    pub pipeline: Arc<GraphicsPipeline>,
    pub bindings: Vec<(String, PlannedBinding)>,
}

/// A binding is planned as its configuration says, with textures relative to the resource of the
/// material.
pub open spec fn planned(
    config: (String, ResourceBindingConfig),
    path: ResourcePath,
    binding: (String, PlannedBinding),
) -> bool {
    &&& binding.0@ == config.0@
    &&& match (config.1, binding.1) {
        (ResourceBindingConfig::Texture(text), PlannedBinding::Texture(texture)) => {
            &&& texture.wf()
            &&& resolved(text@, Some(path@)) == Some(texture@)
        },
        (ResourceBindingConfig::Constant(a), PlannedBinding::Constant(b)) => a == b,
        _ => false,
    }
}

/// The first `n` bind points are those of some pipeline.
pub open spec fn params_known(config: MaterialConfig, pipelines: PipelineManager, n: int) -> bool {
    forall|i: int|
        0 <= i < n ==> pipelines.bind_points().contains((#[trigger] config.params@[i]).0@)
}

/// Plans a material: finds its pipeline, checks its bind points and resolves its textures.
pub fn plan_material(
    config: &MaterialConfig,
    pipelines: &PipelineManager,
    path: &ResourcePath,
) -> (result: Result<MaterialPlan, MaterialError>)
    requires
        pipelines.wf(),
        path.wf(),
    ensures
        match result {
            Ok(plan) => {
                &&& pipelines.graphics().contains_key(config.pipeline@)
                &&& *plan.pipeline == pipelines.graphics()[config.pipeline@]
                &&& plan.bindings.len() == config.params.len()
                &&& forall|i: int|
                    0 <= i < config.params.len() ==> pipelines.bind_points().contains(
                        (#[trigger] config.params@[i]).0@,
                    ) && planned(config.params@[i], *path, plan.bindings@[i])
            },
            Err(MaterialError::PipelineNotFound(id)) => {
                &&& id@ == config.pipeline@
                &&& !pipelines.graphics().contains_key(config.pipeline@)
            },
            Err(MaterialError::UnknownBindPoint(name)) => {
                &&& pipelines.graphics().contains_key(config.pipeline@)
                &&& !pipelines.bind_points().contains(name@)
                &&& exists|i: int|
                    0 <= i < config.params.len() && (#[trigger] config.params@[i]).0@ == name@
                        && params_known(*config, *pipelines, i)
            },
        },
{
    let pipeline = match pipelines.get_cloned_graphics_pipeline(config.pipeline.as_str()) {
        Some(pipeline) => pipeline,
        None => {
            return Err(MaterialError::PipelineNotFound(config.pipeline.clone()));
        },
    };
    let mut bindings: Vec<(String, PlannedBinding)> = Vec::with_capacity(config.params.len());
    let mut i: usize = 0;
    while i < config.params.len()
        invariant
            i <= config.params.len(),
            path.wf(),
            pipelines.graphics().contains_key(config.pipeline@),
            bindings.len() == i,
            forall|k: int|
                0 <= k < i ==> pipelines.bind_points().contains((#[trigger] config.params@[k]).0@)
                    && planned(config.params@[k], *path, bindings@[k]),
        decreases config.params.len() - i,
    {
        let param = &config.params[i];
        if !pipelines.get_bind_point_id(param.0.as_str()) {
            assert(config.params@[i as int].0@ == param.0@);
            return Err(MaterialError::UnknownBindPoint(param.0.clone()));
        }
        let binding = match &param.1 {
            ResourceBindingConfig::Texture(text) => {
                match ResourcePath::new(text.as_str(), Some(path)) {
                    Some(texture) => PlannedBinding::Texture(texture),
                    None => {
                        // A path next to a resource always resolves.
                        assert(false);
                        PlannedBinding::Texture(path.copy())
                    },
                }
            },
            ResourceBindingConfig::Constant(constant) => PlannedBinding::Constant(*constant),
        };
        bindings.push((param.0.clone(), binding));
        i += 1;
    }
    Ok(MaterialPlan { pipeline, bindings })
}

/// What is bound to bind points, by their names.
pub struct ResourceBindings {
    bindings: StringHashMap<ResourceBinding>,
}

impl View for ResourceBindings {
    type V = Map<Seq<char>, ResourceBinding>;

    closed spec fn view(&self) -> Self::V {
        self.bindings@
    }
}

impl ResourceBindings {
    /// Nothing is bound.
    pub fn new() -> (bindings: Self)
        ensures
            bindings@ == Map::<Seq<char>, ResourceBinding>::empty(),
    {
        ResourceBindings { bindings: StringHashMap::new() }
    }

    /// Binds to a bind point.
    pub fn insert(&mut self, bind_point: String, binding: ResourceBinding)
        ensures
            final(self)@ == old(self)@.insert(bind_point@, binding),
    {
        self.bindings.insert(bind_point, binding);
    }

    /// What is bound to a bind point.
    pub fn get(&self, bind_point: &str) -> (binding: Option<ResourceBinding>)
        ensures
            binding == (if self@.contains_key(bind_point@) {
                Some(self@[bind_point@])
            } else {
                None
            }),
    {
        match self.bindings.get(bind_point) {
            Some(binding) => Some(*binding),
            None => None,
        }
    }
}

/// A material of a level.
pub struct Material {
    path: SubresourcePath,
    pipeline: Arc<GraphicsPipeline>,
    resource_bindings: ResourceBindings,
    level_index: u32,
}

impl Material {
    pub closed spec fn spec_path(self) -> SubresourcePath {
        self.path
    }

    pub closed spec fn spec_pipeline(self) -> GraphicsPipeline {
        *self.pipeline
    }

    pub closed spec fn bindings(self) -> Map<Seq<char>, ResourceBinding> {
        self.resource_bindings@
    }

    pub closed spec fn spec_level_index(self) -> u32 {
        self.level_index
    }

    /// A material with the given bindings.
    pub fn new(
        path: SubresourcePath,
        pipeline: Arc<GraphicsPipeline>,
        resource_bindings: ResourceBindings,
        level_index: u32,
    ) -> (material: Self)
        ensures
            material.spec_path() == path,
            material.spec_pipeline() == *pipeline,
            material.bindings() == resource_bindings@,
            material.spec_level_index() == level_index,
    {
        Material { path, pipeline, resource_bindings, level_index }
    }

    /// The path of the material.
    pub fn path(&self) -> (path: &SubresourcePath)
        ensures
            *path == self.spec_path(),
    {
        &self.path
    }

    /// The pipeline of the material.
    pub fn pipeline(&self) -> (pipeline: &GraphicsPipeline)
        ensures
            *pipeline == self.spec_pipeline(),
    {
        &*self.pipeline
    }

    /// The pipeline of the material, to be shared.
    pub fn cloned_pipeline(&self) -> (pipeline: Arc<GraphicsPipeline>)
        ensures
            *pipeline == self.spec_pipeline(),
    {
        share(&self.pipeline)
    }

    /// The layout of the pipeline of the material.
    pub fn pipeline_layout(&self) -> (layout: u64)
        ensures
            layout == self.spec_pipeline().layout,
    {
        self.pipeline.layout()
    }

    /// What is bound to a bind point.
    pub fn get_resource_binding(&self, bind_point: &str) -> (binding: Option<ResourceBinding>)
        ensures
            binding == (if self.bindings().contains_key(bind_point@) {
                Some(self.bindings()[bind_point@])
            } else {
                None
            }),
    {
        self.resource_bindings.get(bind_point)
    }

    /// What is bound to a bind point.
    pub fn resource_binding(&self, bind_point: &str) -> (binding: Option<ResourceBinding>)
        ensures
            binding == (if self.bindings().contains_key(bind_point@) {
                Some(self.bindings()[bind_point@])
            } else {
                None
            }),
    {
        self.resource_bindings.get(bind_point)
    }

    /// The index of the material in its level.
    pub fn level_index(&self) -> (index: u32)
        ensures
            index == self.spec_level_index(),
    {
        self.level_index
    }
}

/// The layout of the descriptors of a single material: the uniforms and its texture.
pub fn material_layout_bindings() -> (bindings: [DescriptorSetLayoutBinding; 2])
    ensures
        bindings[0] == (DescriptorSetLayoutBinding {
            binding: 0,
            descriptor_count: 1,
            descriptor_type: DESCRIPTOR_UNIFORM_BUFFER,
            stage_flags: STAGE_VERTEX,
        }),
        bindings[1] == (DescriptorSetLayoutBinding {
            binding: 1,
            descriptor_count: 1,
            descriptor_type: DESCRIPTOR_COMBINED_IMAGE_SAMPLER,
            stage_flags: STAGE_FRAGMENT,
        }),
{
    [
        DescriptorSetLayoutBinding {
            binding: 0,
            descriptor_count: 1,
            descriptor_type: DESCRIPTOR_UNIFORM_BUFFER,
            stage_flags: STAGE_VERTEX,
        },
        DescriptorSetLayoutBinding {
            binding: 1,
            descriptor_count: 1,
            descriptor_type: DESCRIPTOR_COMBINED_IMAGE_SAMPLER,
            stage_flags: STAGE_FRAGMENT,
        },
    ]
}

} // verus!
