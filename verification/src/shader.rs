//! Shader stages.

use crate::vk::{STAGE_COMPUTE, STAGE_FRAGMENT, STAGE_VERTEX};
use vstd::prelude::*;

verus! {

/// A type that stands for a shader stage.
pub trait ShaderStageType {
    spec fn spec_stage() -> u32;

    fn stage() -> (stage: u32)
        ensures
            stage == Self::spec_stage(),
    ;
}

/// The stage for vertices.
pub struct VertexShaderStage;

/// The stage for fragments.
pub struct FragmentShaderStage;

/// The stage for computations.
pub struct ComputeShaderStage;

impl ShaderStageType for VertexShaderStage {
    open spec fn spec_stage() -> u32 {
        STAGE_VERTEX
    }

    fn stage() -> (stage: u32) {
        STAGE_VERTEX
    }
}

impl ShaderStageType for FragmentShaderStage {
    open spec fn spec_stage() -> u32 {
        STAGE_FRAGMENT
    }

    fn stage() -> (stage: u32) {
        STAGE_FRAGMENT
    }
}

impl ShaderStageType for ComputeShaderStage {
    open spec fn spec_stage() -> u32 {
        STAGE_COMPUTE
    }

    fn stage() -> (stage: u32) {
        STAGE_COMPUTE
    }
}

/// The name of the entry point of a stage; nothing for other stages.
pub open spec fn entry_point_of(stage: u32) -> Option<Seq<char>> {
    if stage == STAGE_VERTEX {
        Some("mainVS"@)
    } else if stage == STAGE_FRAGMENT {
        Some("mainFS"@)
    } else if stage == STAGE_COMPUTE {
        Some("mainCS"@)
    } else {
        None
    }
}

/// The name of the entry point of a stage.
pub fn entry_point(stage: u32) -> (name: Option<&'static str>)
    ensures
        match name {
            Some(n) => entry_point_of(stage) == Some(n@),
            None => entry_point_of(stage) is None,
        },
{
    if stage == STAGE_VERTEX {
        Some("mainVS")
    } else if stage == STAGE_FRAGMENT {
        Some("mainFS")
    } else if stage == STAGE_COMPUTE {
        Some("mainCS")
    } else {
        None
    }
}

/// The entry point of a type that stands for a stage.
pub fn stage_entry_point<S: ShaderStageType>() -> (name: Option<&'static str>)
    ensures
        match name {
            Some(n) => entry_point_of(S::spec_stage()) == Some(n@),
            None => entry_point_of(S::spec_stage()) is None,
        },
{
    entry_point(S::stage())
}

/// The code of a shader is made of whole words.
pub fn is_whole_words(num_bytes: usize) -> (whole: bool)
    ensures
        whole == (num_bytes % 4 == 0),
{
    num_bytes % 4 == 0
}

/// Every stage has one bit and one entry point: `mainVS` for vertices, `mainFS` for fragments and
/// `mainCS` for computations.
pub proof fn stages_have_their_entry_points(stage: u32)
    ensures
        VertexShaderStage::spec_stage() == 1,
        FragmentShaderStage::spec_stage() == 0x10,
        ComputeShaderStage::spec_stage() == 0x20,
        entry_point_of(stage) is Some <==> stage == 1 || stage == 0x10 || stage == 0x20,
        entry_point_of(stage) matches Some(name) ==> {
            &&& name.len() == 6
            &&& name.take(4) == seq!['m', 'a', 'i', 'n']
            &&& name[4] == (if stage == 1 {
                'V'
            } else if stage == 0x10 {
                'F'
            } else {
                'C'
            })
            &&& name[5] == 'S'
        },
{
    reveal_strlit("mainVS");
    reveal_strlit("mainFS");
    reveal_strlit("mainCS");
    assert("mainVS"@.take(4) =~= seq!['m', 'a', 'i', 'n']);
    assert("mainFS"@.take(4) =~= seq!['m', 'a', 'i', 'n']);
    assert("mainCS"@.take(4) =~= seq!['m', 'a', 'i', 'n']);
}

} // verus!
