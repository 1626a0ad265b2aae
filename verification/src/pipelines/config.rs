//! What pipeline configurations are made of.

use crate::utils::layout::{is_alignment, CStructLayout, Layout};
#[allow(unused_imports)]
use crate::utils::layout::{aligned, largest_align, room};
use crate::vk::{
    DESCRIPTOR_COMBINED_IMAGE_SAMPLER, DESCRIPTOR_STORAGE_BUFFER, DESCRIPTOR_UNIFORM_BUFFER,
    STAGE_COMPUTE, STAGE_FRAGMENT, STAGE_VERTEX,
};
use vstd::arithmetic::power2::pow2;
use vstd::prelude::*;

verus! {

/// A set of graphics shader stages: bit 0 is the vertex stage, bit 1 the fragment stage.
#[derive(Hash, PartialEq, Eq, Structural, Copy, Clone, Debug)]
pub struct GraphicsShaderStageFlags {
    pub bits: u8,
}

impl GraphicsShaderStageFlags {
    /// The set has the vertex stage.
    pub open spec fn has_vertex(self) -> bool {
        self.bits % 2 == 1
    }

    /// The shader stages for which resources are visible: vertex resources are visible to both
    /// stages.
    pub fn vk(&self) -> (flags: u32)
        ensures
            flags == (if self.has_vertex() {
                (STAGE_VERTEX | STAGE_FRAGMENT) as u32
            } else {
                0u32
            }),
    {
        if self.bits % 2 == 1 {
            STAGE_VERTEX | STAGE_FRAGMENT
        } else {
            0
        }
    }

    /// Both stages.
    pub fn all() -> (flags: Self)
        ensures
            flags.bits == 3,
    {
        GraphicsShaderStageFlags { bits: 3 }
    }
}

/// The type of a value that a pipeline binding takes.
#[derive(PartialEq, Eq, Structural, Copy, Clone, Debug)]
pub enum PipelineBindingDataSize {
    Float,
    Float2,
    Float3,
    Float4,
    Normal,
}

impl PipelineBindingDataSize {
    /// The number of components.
    pub open spec fn components(self) -> int {
        match self {
            PipelineBindingDataSize::Float => 1,
            PipelineBindingDataSize::Float2 => 2,
            PipelineBindingDataSize::Float3 => 3,
            PipelineBindingDataSize::Float4 => 4,
            PipelineBindingDataSize::Normal => 3,
        }
    }

    /// Three components are aligned like four.
    pub open spec fn aligned_components(self) -> int {
        if self.components() == 3 {
            4
        } else {
            self.components()
        }
    }

    /// The layout of such a value.
    pub open spec fn spec_layout(self) -> Layout {
        Layout {
            size: (4 * self.components()) as usize,
            align: (4 * self.aligned_components()) as usize,
        }
    }

    /// The layout of such a value.
    pub fn layout(&self) -> (layout: Layout)
        ensures
            layout == self.spec_layout(),
            is_alignment(layout.align),
    {
        let layout = Layout { size: self.size(), align: self.align() };
        proof {
            vstd::arithmetic::power2::lemma2_to64();
            assert(pow2(2) == 4 && pow2(3) == 8 && pow2(4) == 16);
            let n: nat = match layout.align {
                4 => 2,
                8 => 3,
                _ => 4,
            };
            assert(n < usize::BITS && layout.align == pow2(n));
        }
        layout
    }

    /// The size in bytes.
    pub fn size(&self) -> (size: usize)
        ensures
            size == 4 * self.components(),
    {
        match self {
            PipelineBindingDataSize::Float => 4,
            PipelineBindingDataSize::Float2 => 8,
            PipelineBindingDataSize::Float3 => 12,
            PipelineBindingDataSize::Normal => 12,
            PipelineBindingDataSize::Float4 => 16,
        }
    }

    /// The alignment in bytes.
    pub fn align(&self) -> (align: usize)
        ensures
            align == 4 * self.aligned_components(),
    {
        match self {
            PipelineBindingDataSize::Float => 4,
            PipelineBindingDataSize::Float2 => 8,
            PipelineBindingDataSize::Float3 => 16,
            PipelineBindingDataSize::Normal => 16,
            PipelineBindingDataSize::Float4 => 16,
        }
    }
}

/// A binding of a graphics pipeline.
#[derive(PartialEq, Eq, Structural, Copy, Clone, Debug)]
pub struct GraphicsPipelineBinding {
    pub ty: PipelineBindingDataSize,
    pub stages: GraphicsShaderStageFlags,
}

/// The fields of the struct of all bindings of a pipeline: the flags go at the end.
pub open spec fn binding_fields(bindings: Seq<GraphicsPipelineBinding>) -> Seq<Layout> {
    bindings.map_values(|b: GraphicsPipelineBinding| b.ty.spec_layout()).push(
        PipelineBindingDataSize::Float.spec_layout(),
    )
}

proof fn binding_fields_fit(bindings: Seq<GraphicsPipelineBinding>, n: nat)
    requires
        n <= binding_fields(bindings).len(),
    ensures
        room(binding_fields(bindings), n) <= 32 * n,
        1 <= largest_align(binding_fields(bindings), n) <= 16,
    decreases n,
{
    if n > 0 {
        binding_fields_fit(bindings, (n - 1) as nat);
        let fields = binding_fields(bindings);
        if n - 1 < bindings.len() {
            assert(fields[n - 1] == bindings[n - 1].ty.spec_layout());
        } else {
            assert(fields[n - 1] == PipelineBindingDataSize::Float.spec_layout());
        }
    }
}

/// The layout of the struct of all bindings of a pipeline.
pub fn bindings_layout(bindings: &Vec<GraphicsPipelineBinding>) -> (layout: CStructLayout)
    requires
        32 * (bindings.len() + 2) <= usize::MAX,
    ensures
        layout.lays_out(binding_fields(bindings@)),
{
    let mut fields: Vec<Layout> = Vec::with_capacity(bindings.len() + 1);
    let mut i: usize = 0;
    while i < bindings.len()
        invariant
            i <= bindings.len(),
            fields@ == bindings@.take(i as int).map_values(
                |b: GraphicsPipelineBinding| b.ty.spec_layout(),
            ),
        decreases bindings.len() - i,
    {
        fields.push(bindings[i].ty.layout());
        i += 1;
        assert(fields@ =~= bindings@.take(i as int).map_values(
            |b: GraphicsPipelineBinding| b.ty.spec_layout(),
        ));
    }
    fields.push(PipelineBindingDataSize::Float.layout());
    proof {
        assert(fields@ =~= binding_fields(bindings@));
        binding_fields_fit(bindings@, fields@.len());
        assert forall|i: int| 0 <= i < fields@.len() implies 1 <= (#[trigger] fields@[i]).align by {
            if i < bindings@.len() {
                assert(fields@[i] == bindings@[i].ty.spec_layout());
            }
        }
    }
    CStructLayout::new(&fields)
}

/// What is pushed to a pipeline.
#[derive(Hash, PartialEq, Eq, Structural, Copy, Clone, Debug)]
pub enum PushConstantBinding {
    DrawOffset,
    ComputeInt,
    ComputeInt2,
    ComputeInt4,
}

/// A range of push constants.
#[derive(PartialEq, Eq, Structural, Copy, Clone, Debug)]
pub struct PushConstantRange {
    pub stage_flags: u32,
    pub offset: u32,
    pub size: u32,
}

impl PushConstantBinding {
    /// The range of push constants of a binding.
    pub open spec fn range(self) -> PushConstantRange {
        match self {
            PushConstantBinding::DrawOffset => PushConstantRange {
                stage_flags: STAGE_VERTEX,
                offset: 0,
                size: 4,
            },
            PushConstantBinding::ComputeInt => PushConstantRange {
                stage_flags: STAGE_COMPUTE,
                offset: 0,
                size: 4,
            },
            PushConstantBinding::ComputeInt2 => PushConstantRange {
                stage_flags: STAGE_COMPUTE,
                offset: 0,
                size: 8,
            },
            PushConstantBinding::ComputeInt4 => PushConstantRange {
                stage_flags: STAGE_COMPUTE,
                offset: 0,
                size: 16,
            },
        }
    }

    /// The range of push constants of a binding.
    pub fn push_constant_range(&self) -> (range: PushConstantRange)
        ensures
            range == self.range(),
    {
        match self {
            PushConstantBinding::DrawOffset => PushConstantRange {
                stage_flags: STAGE_VERTEX,
                offset: 0,
                size: 4,
            },
            PushConstantBinding::ComputeInt => PushConstantRange {
                stage_flags: STAGE_COMPUTE,
                offset: 0,
                size: 4,
            },
            PushConstantBinding::ComputeInt2 => PushConstantRange {
                stage_flags: STAGE_COMPUTE,
                offset: 0,
                size: 8,
            },
            PushConstantBinding::ComputeInt4 => PushConstantRange {
                stage_flags: STAGE_COMPUTE,
                offset: 0,
                size: 16,
            },
        }
    }
}

/// The type of a resource of a compute pipeline.
#[derive(Hash, PartialEq, Eq, Structural, Copy, Clone, Debug)]
pub enum ComputeResourceType {
    UniformBuffer,
    StorageBuffer,
}

impl ComputeResourceType {
    pub open spec fn spec_descriptor_type(self) -> i32 {
        match self {
            ComputeResourceType::UniformBuffer => DESCRIPTOR_UNIFORM_BUFFER,
            ComputeResourceType::StorageBuffer => DESCRIPTOR_STORAGE_BUFFER,
        }
    }

    /// The type of the descriptor of the resource.
    pub fn descriptor_type(&self) -> (ty: i32)
        ensures
            ty == self.spec_descriptor_type(),
    {
        match self {
            ComputeResourceType::UniformBuffer => DESCRIPTOR_UNIFORM_BUFFER,
            ComputeResourceType::StorageBuffer => DESCRIPTOR_STORAGE_BUFFER,
        }
    }
}

/// A binding of a descriptor set layout.
#[derive(PartialEq, Eq, Structural, Copy, Clone, Debug)]
pub struct DescriptorSetLayoutBinding {
    pub binding: u32,
    pub descriptor_count: u32,
    pub descriptor_type: i32,
    pub stage_flags: u32,
}

/// The layout bindings of compute resources: one descriptor each, in order.
pub open spec fn compute_layout_bindings_of(types: Seq<ComputeResourceType>) -> Seq<
    DescriptorSetLayoutBinding,
> {
    Seq::new(
        types.len(),
        |i: int|
            DescriptorSetLayoutBinding {
                binding: i as u32,
                descriptor_count: 1,
                descriptor_type: types[i].spec_descriptor_type(),
                stage_flags: STAGE_COMPUTE,
            },
    )
}

/// The layout bindings of compute resources.
pub fn compute_layout_bindings(types: &Vec<ComputeResourceType>) -> (bindings: Vec<
    DescriptorSetLayoutBinding,
>)
    requires
        types.len() <= u32::MAX,
    ensures
        bindings@ == compute_layout_bindings_of(types@),
{
    let mut bindings: Vec<DescriptorSetLayoutBinding> = Vec::with_capacity(types.len());
    let mut i: usize = 0;
    while i < types.len()
        invariant
            i <= types.len() <= u32::MAX,
            bindings@ == compute_layout_bindings_of(types@).take(i as int),
        decreases types.len() - i,
    {
        bindings.push(
            DescriptorSetLayoutBinding {
                binding: i as u32,
                descriptor_count: 1,
                descriptor_type: types[i].descriptor_type(),
                stage_flags: STAGE_COMPUTE,
            },
        );
        i += 1;
        assert(bindings@ =~= compute_layout_bindings_of(types@).take(i as int));
    }
    assert(bindings@ =~= compute_layout_bindings_of(types@));
    bindings
}

/// The number of bindings of the scene descriptor set.
pub const NUM_SCENE_DESCRIPTOR_SET_BINDINGS: usize = 5;

/// The number of textures that a scene can have.
pub const MAX_TEXTURES: usize = 64;

/// The bindings of the scene descriptor set: scene uniforms, transforms, draw data, material
/// constants, and the array of textures.
pub fn scene_descriptor_set_layout_bindings() -> (bindings: [DescriptorSetLayoutBinding; 5])
    ensures
        forall|i: int| 0 <= i < 5 ==> (#[trigger] bindings@[i]).binding == i,
        forall|i: int| 0 <= i < 4 ==> (#[trigger] bindings@[i]).descriptor_count == 1,
        bindings@[4].descriptor_count == MAX_TEXTURES,
        bindings@[0].descriptor_type == DESCRIPTOR_UNIFORM_BUFFER,
        forall|i: int|
            1 <= i <= 3 ==> (#[trigger] bindings@[i]).descriptor_type == DESCRIPTOR_STORAGE_BUFFER,
        bindings@[4].descriptor_type == DESCRIPTOR_COMBINED_IMAGE_SAMPLER,
        bindings@[0].stage_flags == STAGE_VERTEX | STAGE_FRAGMENT,
        bindings@[1].stage_flags == STAGE_VERTEX,
        bindings@[2].stage_flags == STAGE_VERTEX | STAGE_FRAGMENT,
        bindings@[3].stage_flags == STAGE_FRAGMENT,
        bindings@[4].stage_flags == STAGE_FRAGMENT,
{
    [
        DescriptorSetLayoutBinding {
            binding: 0,
            descriptor_count: 1,
            descriptor_type: DESCRIPTOR_UNIFORM_BUFFER,
            stage_flags: STAGE_VERTEX | STAGE_FRAGMENT,
        },
        DescriptorSetLayoutBinding {
            binding: 1,
            descriptor_count: 1,
            descriptor_type: DESCRIPTOR_STORAGE_BUFFER,
            stage_flags: STAGE_VERTEX,
        },
        DescriptorSetLayoutBinding {
            binding: 2,
            descriptor_count: 1,
            descriptor_type: DESCRIPTOR_STORAGE_BUFFER,
            stage_flags: STAGE_VERTEX | STAGE_FRAGMENT,
        },
        DescriptorSetLayoutBinding {
            binding: 3,
            descriptor_count: 1,
            descriptor_type: DESCRIPTOR_STORAGE_BUFFER,
            stage_flags: STAGE_FRAGMENT,
        },
        DescriptorSetLayoutBinding {
            binding: 4,
            descriptor_count: 64,
            descriptor_type: DESCRIPTOR_COMBINED_IMAGE_SAMPLER,
            stage_flags: STAGE_FRAGMENT,
        },
    ]
}

/// Values take four bytes for each of their components. They are aligned to their own size, but
/// for those with three components, which are aligned like those with four.
pub proof fn values_are_aligned_like_vectors(ty: PipelineBindingDataSize)
    ensures
        ty is Float ==> ty.spec_layout().size == 4 && ty.spec_layout().align == 4,
        ty is Float2 ==> ty.spec_layout().size == 8 && ty.spec_layout().align == 8,
        ty is Float3 ==> ty.spec_layout().size == 12 && ty.spec_layout().align == 16,
        ty is Float4 ==> ty.spec_layout().size == 16 && ty.spec_layout().align == 16,
        ty is Normal ==> ty.spec_layout().size == 12 && ty.spec_layout().align == 16,
{
}

/// Field `i` of the struct of all bindings is that of binding `i`, and one number of four bytes
/// follows the last.
pub proof fn bindings_are_fields_in_order(bindings: Seq<GraphicsPipelineBinding>)
    ensures
        binding_fields(bindings).len() == bindings.len() + 1,
        binding_fields(bindings).last().size == 4,
        binding_fields(bindings).last().align == 4,
        forall|i: int|
            0 <= i < bindings.len() ==> (#[trigger] binding_fields(bindings)[i])
                == bindings[i].ty.spec_layout(),
{
}

/// The offset of a draw is pushed to vertex shaders, and numbers to compute shaders; every range
/// starts at the start and has four bytes for each number.
pub proof fn pushed_numbers_fill_their_ranges(binding: PushConstantBinding)
    ensures
        binding.range().offset == 0,
        binding.range().stage_flags == (if binding is DrawOffset {
            1u32
        } else {
            0x20u32
        }),
        binding.range().size == 4 * (match binding {
            PushConstantBinding::DrawOffset => 1int,
            PushConstantBinding::ComputeInt => 1int,
            PushConstantBinding::ComputeInt2 => 2int,
            PushConstantBinding::ComputeInt4 => 4int,
        }),
{
}

/// Resource `i` of a compute pipeline has binding `i`, with one descriptor of its own type that
/// compute shaders see.
pub proof fn compute_resources_are_bound_in_order(types: Seq<ComputeResourceType>, i: int)
    requires
        0 <= i < types.len() <= u32::MAX,
    ensures
        compute_layout_bindings_of(types).len() == types.len(),
        compute_layout_bindings_of(types)[i].binding == i,
        compute_layout_bindings_of(types)[i].descriptor_count == 1,
        compute_layout_bindings_of(types)[i].stage_flags == 0x20,
        types[i] is UniformBuffer <==> compute_layout_bindings_of(types)[i].descriptor_type == 6,
        types[i] is StorageBuffer <==> compute_layout_bindings_of(types)[i].descriptor_type == 7,
{
}

} // verus!
