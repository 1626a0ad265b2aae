//! A particle system on the graphics card.

use crate::pipelines::config::DescriptorSetLayoutBinding;
#[allow(unused_imports)]
use crate::vertex_input::{field_offset, format_size};
use crate::vertex_input::{
    BindableVertex, InputRate, VertexAttribute, VertexBinding,
};
use crate::vk::{
    BUFFER_INDIRECT, BUFFER_STORAGE, BUFFER_TRANSFER_DST, BUFFER_VERTEX, DESCRIPTOR_STORAGE_BUFFER,
    DESCRIPTOR_UNIFORM_BUFFER, FORMAT_R32G32B32A32_SFLOAT, FORMAT_R32G32B32_SFLOAT, STAGE_COMPUTE,
    STAGE_FRAGMENT, STAGE_VERTEX,
};
use vstd::prelude::*;

verus! {

/// The number of particles that one group of threads works on.
pub const PARTICLES_PER_GROUP: u32 = 256;

/// The shader that moves the particles.
pub const COMPUTE_SHADER: &'static str = "galaxy_engine/shaders/particles.comp.spv";

/// The shader that places the particles on the screen.
pub const VERTEX_SHADER: &'static str = "galaxy_engine/shaders/particles.vert.spv";

/// The shader that colours the particles.
pub const FRAGMENT_SHADER: &'static str = "galaxy_engine/shaders/particles.frag.spv";

/// The bits of a particle.
#[derive(Clone, Copy, Debug)]
pub struct Particle {
    pub position: [u32; 3],
    pub age: u32,
    pub velocity: [u32; 3],
    pub radius: u32,
    pub color: [u32; 4],
}

impl BindableVertex for Particle {
    open spec fn sizes() -> Seq<nat> {
        seq![12, 4, 12, 4, 16]
    }

    open spec fn attribute_fields() -> Seq<(int, i32)> {
        seq![(0, FORMAT_R32G32B32_SFLOAT), (4, FORMAT_R32G32B32A32_SFLOAT)]
    }

    open spec fn input_rate() -> InputRate {
        InputRate::Instance
    }

    proof fn fields_fit() {
        reveal_with_fuel(crate::vertex_input::field_offset, 6);
    }

    fn binding_description() -> (binding: VertexBinding) {
        proof {
            reveal_with_fuel(crate::vertex_input::field_offset, 6);
        }
        VertexBinding { binding: 0, stride: 48, input_rate: InputRate::Instance }
    }

    fn attribute_descriptions() -> (attributes: Vec<VertexAttribute>) {
        proof {
            reveal_with_fuel(crate::vertex_input::field_offset, 6);
        }
        let mut attributes: Vec<VertexAttribute> = Vec::new();
        attributes.push(
            VertexAttribute {
                binding: 0,
                location: 0,
                format: FORMAT_R32G32B32_SFLOAT,
                offset: 0,
            },
        );
        attributes.push(
            VertexAttribute {
                binding: 0,
                location: 1,
                format: FORMAT_R32G32B32A32_SFLOAT,
                offset: 32,
            },
        );
        attributes
    }
}

/// A buffer that a descriptor of the particle system is for.
#[derive(Clone, Copy, PartialEq, Eq, Structural, Debug)]
pub enum ParticleResource {
    Uniforms,
    Particles,
    Indirect,
}

/// A descriptor of the particle system.
#[derive(Clone, Copy, PartialEq, Eq, Structural, Debug)]
pub struct ParticleWrite {
    pub binding: u32,
    pub descriptor_type: i32,
    pub resource: ParticleResource,
}

/// The layout of the descriptors: the uniforms of the scene, the particles, which all shaders
/// use, and the number of particles.
pub fn compute_layout_bindings() -> (bindings: [DescriptorSetLayoutBinding; 3])
    ensures
        bindings[0] == (DescriptorSetLayoutBinding {
            binding: 0,
            descriptor_count: 1,
            descriptor_type: DESCRIPTOR_UNIFORM_BUFFER,
            stage_flags: STAGE_COMPUTE,
        }),
        bindings[1] == (DescriptorSetLayoutBinding {
            binding: 1,
            descriptor_count: 1,
            descriptor_type: DESCRIPTOR_STORAGE_BUFFER,
            stage_flags: STAGE_COMPUTE | STAGE_VERTEX | STAGE_FRAGMENT,
        }),
        bindings[2] == (DescriptorSetLayoutBinding {
            binding: 2,
            descriptor_count: 1,
            descriptor_type: DESCRIPTOR_STORAGE_BUFFER,
            stage_flags: STAGE_COMPUTE,
        }),
{
    [
        DescriptorSetLayoutBinding {
            binding: 0,
            descriptor_count: 1,
            descriptor_type: DESCRIPTOR_UNIFORM_BUFFER,
            stage_flags: STAGE_COMPUTE,
        },
        DescriptorSetLayoutBinding {
            binding: 1,
            descriptor_count: 1,
            descriptor_type: DESCRIPTOR_STORAGE_BUFFER,
            stage_flags: STAGE_COMPUTE | STAGE_VERTEX | STAGE_FRAGMENT,
        },
        DescriptorSetLayoutBinding {
            binding: 2,
            descriptor_count: 1,
            descriptor_type: DESCRIPTOR_STORAGE_BUFFER,
            stage_flags: STAGE_COMPUTE,
        },
    ]
}

/// Which buffer is written to each of the descriptors.
pub fn descriptor_writes(bindings: &[DescriptorSetLayoutBinding; 3]) -> (writes: [ParticleWrite; 3])
    ensures
        forall|i: int|
            0 <= i < 3 ==> (#[trigger] writes@[i]).binding == bindings@[i].binding
                && writes@[i].descriptor_type == bindings@[i].descriptor_type,
        writes[0].resource == ParticleResource::Uniforms,
        writes[1].resource == ParticleResource::Particles,
        writes[2].resource == ParticleResource::Indirect,
{
    [
        ParticleWrite {
            binding: bindings[0].binding,
            descriptor_type: bindings[0].descriptor_type,
            resource: ParticleResource::Uniforms,
        },
        ParticleWrite {
            binding: bindings[1].binding,
            descriptor_type: bindings[1].descriptor_type,
            resource: ParticleResource::Particles,
        },
        ParticleWrite {
            binding: bindings[2].binding,
            descriptor_type: bindings[2].descriptor_type,
            resource: ParticleResource::Indirect,
        },
    ]
}

/// The usage of the buffer of a resource.
pub fn buffer_usage(resource: ParticleResource) -> (usage: Option<u32>)
    ensures
        usage == (match resource {
            ParticleResource::Uniforms => None,
            ParticleResource::Particles => Some(
                BUFFER_STORAGE | BUFFER_TRANSFER_DST | BUFFER_VERTEX,
            ),
            ParticleResource::Indirect => Some(BUFFER_STORAGE | BUFFER_INDIRECT),
        }),
{
    match resource {
        ParticleResource::Uniforms => None,
        ParticleResource::Particles => Some(BUFFER_STORAGE | BUFFER_TRANSFER_DST | BUFFER_VERTEX),
        ParticleResource::Indirect => Some(BUFFER_STORAGE | BUFFER_INDIRECT),
    }
}

/// The number of groups of threads for a number of particles: those that are full.
pub fn num_groups(max_num_particles: u32) -> (groups: u32)
    ensures
        groups * PARTICLES_PER_GROUP <= max_num_particles,
        max_num_particles < (groups + 1) * PARTICLES_PER_GROUP,
{
    max_num_particles / PARTICLES_PER_GROUP
}

/// A particle is drawn once for each instance: shaders read its position, three numbers at its
/// start, and its colour, four numbers at its end.
pub proof fn particles_are_read_by_position_and_colour()
    ensures
        Particle::attribute_fields().len() == 2,
        field_offset(Particle::sizes(), Particle::attribute_fields()[0].0 as nat) == 0,
        field_offset(Particle::sizes(), Particle::attribute_fields()[1].0 as nat) == 32,
        format_size(Particle::attribute_fields()[0].1) == 12,
        format_size(Particle::attribute_fields()[1].1) == 16,
        Particle::sizes().len() == 5,
        field_offset(Particle::sizes(), 5) == 48,
        Particle::input_rate() is Instance,
{
    reveal_with_fuel(field_offset, 6);
}

} // verus!
