//! The scene of a level: its descriptors, its camera and what is drawn in a frame.

use crate::descriptors::MAX_FRAMES_IN_FLIGHT;
use crate::engine::KeyInput;
#[allow(unused_imports)]
use crate::engine::ElementState;
use crate::level::draw::{
    list_draws, pipeline_draw_ranges, sort_draws, PipelineDrawSlice, PipelineTable, SceneDraw,
    SceneModel, DRAW_COMMAND_SIZE,
};
#[allow(unused_imports)]
use crate::level::draw::{
    divides, draws_sorted, is_draw_order, model_draws, models_numbered, scene_draws,
};
use crate::vk::{
    DESCRIPTOR_COMBINED_IMAGE_SAMPLER, DESCRIPTOR_STORAGE_BUFFER, DESCRIPTOR_UNIFORM_BUFFER,
    STAGE_VERTEX,
};
use vstd::prelude::*;

verus! {

/// What a descriptor of the scene is for.
#[derive(Clone, Copy, PartialEq, Eq, Structural, Debug)]
pub enum SceneResource {
    Uniforms,
    Transforms,
    DrawData,
    MaterialConstants,
    Textures,
}

/// A descriptor of the scene for a frame.
#[derive(Clone, Copy, PartialEq, Eq, Structural, Debug)]
pub struct SceneWrite {
    pub frame: usize,
    pub binding: u32,
    pub descriptor_type: i32,
    pub resource: SceneResource,
}

/// The resource at a binding of the scene.
pub open spec fn resource_at(binding: int) -> SceneResource {
    if binding == 0 {
        SceneResource::Uniforms
    } else if binding == 1 {
        SceneResource::Transforms
    } else if binding == 2 {
        SceneResource::DrawData
    } else if binding == 3 {
        SceneResource::MaterialConstants
    } else {
        SceneResource::Textures
    }
}

/// The type of the descriptors at a binding of the scene.
pub open spec fn type_at(binding: int) -> i32 {
    if binding == 0 {
        DESCRIPTOR_UNIFORM_BUFFER
    } else if binding <= 3 {
        DESCRIPTOR_STORAGE_BUFFER
    } else {
        DESCRIPTOR_COMBINED_IMAGE_SAMPLER
    }
}

/// The descriptor at a binding of the scene.
pub open spec fn write_at(frame: int, binding: int) -> SceneWrite {
    SceneWrite {
        frame: frame as usize,
        binding: binding as u32,
        descriptor_type: type_at(binding),
        resource: resource_at(binding),
    }
}

/// The descriptors of the scene: the four buffers of each frame, and then the textures of each
/// frame, where there are any.
pub open spec fn writes_of(has_textures: bool) -> Seq<SceneWrite> {
    let buffers = Seq::new(
        (4 * MAX_FRAMES_IN_FLIGHT) as nat,
        |i: int| write_at(i / 4, i % 4),
    );
    if has_textures {
        buffers + Seq::new(MAX_FRAMES_IN_FLIGHT as nat, |i: int| write_at(i, 4))
    } else {
        buffers
    }
}

fn buffer_write(frame: usize, binding: u32) -> (write: SceneWrite)
    requires
        binding <= 4,
    ensures
        write == write_at(frame as int, binding as int),
{
    let (descriptor_type, resource): (i32, SceneResource) = match binding {
        0 => (DESCRIPTOR_UNIFORM_BUFFER, SceneResource::Uniforms),
        1 => (DESCRIPTOR_STORAGE_BUFFER, SceneResource::Transforms),
        2 => (DESCRIPTOR_STORAGE_BUFFER, SceneResource::DrawData),
        3 => (DESCRIPTOR_STORAGE_BUFFER, SceneResource::MaterialConstants),
        _ => (DESCRIPTOR_COMBINED_IMAGE_SAMPLER, SceneResource::Textures),
    };
    SceneWrite { frame, binding, descriptor_type, resource }
}

/// In every frame binding 0 is a uniform buffer with the uniforms, bindings 1, 2 and 3 are storage
/// buffers with the transforms, the draw data and the material constants, and binding 4 is the
/// textures; and each frame has each binding once, the last one only where there are textures.
pub proof fn writes_bind_their_resources(has_textures: bool)
    ensures
        forall|i: int|
            #![trigger writes_of(has_textures)[i]]
            0 <= i < writes_of(has_textures).len() ==> {
                let write = writes_of(has_textures)[i];
                &&& write.frame < MAX_FRAMES_IN_FLIGHT
                &&& write.binding == 0 <==> write.resource == SceneResource::Uniforms
                &&& write.binding == 1 <==> write.resource == SceneResource::Transforms
                &&& write.binding == 2 <==> write.resource == SceneResource::DrawData
                &&& write.binding == 3 <==> write.resource == SceneResource::MaterialConstants
                &&& write.binding == 4 <==> write.resource == SceneResource::Textures
                &&& write.binding == 0 <==> write.descriptor_type == 6
                &&& 1 <= write.binding <= 3 <==> write.descriptor_type == 7
                &&& write.binding == 4 <==> write.descriptor_type == 1
            },
        forall|i: int, j: int|
            #![trigger writes_of(has_textures)[i], writes_of(has_textures)[j]]
            0 <= i < j < writes_of(has_textures).len() ==> writes_of(has_textures)[i].frame
                != writes_of(has_textures)[j].frame || writes_of(has_textures)[i].binding
                != writes_of(has_textures)[j].binding,
        writes_of(has_textures).len() == MAX_FRAMES_IN_FLIGHT * (if has_textures {
            5int
        } else {
            4
        }),
{
    assert forall|i: int| 0 <= i < writes_of(has_textures).len() implies {
        let write = #[trigger] writes_of(has_textures)[i];
        &&& i < 4 * MAX_FRAMES_IN_FLIGHT ==> write == write_at(i / 4, i % 4) && i == 4
            * write.frame + write.binding && write.binding < 4
        &&& i >= 4 * MAX_FRAMES_IN_FLIGHT ==> write == write_at(i - 4 * MAX_FRAMES_IN_FLIGHT, 4)
            && write.binding == 4 && write.frame == i - 4 * MAX_FRAMES_IN_FLIGHT
    } by {}
}

/// Lists the descriptors of the scene.
pub fn scene_writes(num_textures: usize) -> (writes: Vec<SceneWrite>)
    ensures
        writes@ == writes_of(num_textures > 0),
        forall|i: int|
            0 <= i < writes.len() ==> match (#[trigger] writes@[i]).binding {
                0u32 => writes@[i].resource == SceneResource::Uniforms,
                1u32 => writes@[i].resource == SceneResource::Transforms,
                2u32 => writes@[i].resource == SceneResource::DrawData,
                3u32 => writes@[i].resource == SceneResource::MaterialConstants,
                4u32 => writes@[i].resource == SceneResource::Textures,
                _ => false,
            },
{
    proof {
        writes_bind_their_resources(num_textures > 0);
    }
    let mut writes: Vec<SceneWrite> = Vec::new();
    let mut frame: usize = 0;
    while frame < MAX_FRAMES_IN_FLIGHT
        invariant
            frame <= MAX_FRAMES_IN_FLIGHT,
            writes.len() == 4 * frame,
            forall|i: int| 0 <= i < writes.len() ==> #[trigger] writes@[i] == write_at(i / 4, i % 4),
        decreases MAX_FRAMES_IN_FLIGHT - frame,
    {
        writes.push(buffer_write(frame, 0));
        writes.push(buffer_write(frame, 1));
        writes.push(buffer_write(frame, 2));
        writes.push(buffer_write(frame, 3));
        frame += 1;
    }
    let ghost buffers = writes@;
    assert(buffers =~= writes_of(false));
    if num_textures > 0 {
        let mut frame: usize = 0;
        while frame < MAX_FRAMES_IN_FLIGHT
            invariant
                frame <= MAX_FRAMES_IN_FLIGHT,
                buffers == writes_of(false),
                writes@ == buffers + Seq::new(frame as nat, |i: int| write_at(i, 4)),
            decreases MAX_FRAMES_IN_FLIGHT - frame,
        {
            writes.push(buffer_write(frame, 4));
            frame += 1;
            assert(writes@ =~= buffers + Seq::new(frame as nat, |i: int| write_at(i, 4)));
        }
    }
    writes
}

/// Every descriptor has its own binding in its frame, and all of them have one where there are
/// textures.
pub proof fn writes_cover_bindings(frame: int, binding: int, has_textures: bool)
    requires
        0 <= frame < MAX_FRAMES_IN_FLIGHT,
        0 <= binding < 5,
        binding < 4 || has_textures,
    ensures
        writes_of(has_textures).contains(write_at(frame, binding)),
{
    let writes = writes_of(has_textures);
    let i = if binding < 4 {
        4 * frame + binding
    } else {
        4 * MAX_FRAMES_IN_FLIGHT + frame
    };
    assert(writes[i] == write_at(frame, binding));
}

/// A direction that the camera moves in: along its own axes forward and right, and upwards.
#[derive(Clone, Copy, PartialEq, Eq, Structural, Debug)]
pub struct CameraMovement {
    pub forward: i32,
    pub right: i32,
    pub up: i32,
}

/// One of two opposite directions, or none where both or neither are asked for.
pub open spec fn direction(keys: KeyInput, positive: Seq<char>, negative: Seq<char>) -> int {
    (if keys.state_of(positive) == ElementState::Pressed {
        1int
    } else {
        0
    }) - (if keys.state_of(negative) == ElementState::Pressed {
        1int
    } else {
        0
    })
}

fn axis(keys: &KeyInput, positive: &str, negative: &str) -> (result: i32)
    ensures
        result == direction(*keys, positive@, negative@),
        -1 <= result <= 1,
{
    let mut result: i32 = 0;
    if keys.is_key_pressed(positive) {
        result += 1;
    }
    if keys.is_key_pressed(negative) {
        result -= 1;
    }
    result
}

/// Where the keys move the camera.
pub fn camera_movement(keys: &KeyInput) -> (movement: CameraMovement)
    ensures
        movement.forward == direction(*keys, "w"@, "s"@),
        movement.right == direction(*keys, "d"@, "a"@),
        movement.up == direction(*keys, "e"@, "q"@),
{
    CameraMovement {
        forward: axis(keys, "w", "s"),
        right: axis(keys, "d", "a"),
        up: axis(keys, "e", "q"),
    }
}

/// The number of draws of the first `n` models.
pub open spec fn draw_count(models: Seq<SceneModel>, n: nat) -> nat {
    scene_draws(models, n).len()
}

proof fn draw_count_grows(models: Seq<SceneModel>, m: nat, n: nat)
    requires
        m <= n,
    ensures
        draw_count(models, m) <= draw_count(models, n),
    decreases n,
{
    if m < n {
        draw_count_grows(models, m, (n - 1) as nat);
    }
}

/// Counts the models and their draws, which decide the sizes of the buffers of a level.
pub fn count_models(models: &Vec<SceneModel>) -> (counts: (usize, usize))
    requires
        draw_count(models@, models@.len()) <= usize::MAX,
    ensures
        counts.0 == models.len(),
        counts.1 == draw_count(models@, models@.len()),
{
    let mut num_draws: usize = 0;
    let mut m: usize = 0;
    while m < models.len()
        invariant
            m <= models.len(),
            draw_count(models@, models@.len()) <= usize::MAX,
            num_draws == draw_count(models@, m as nat),
        decreases models.len() - m,
    {
        proof {
            draw_count_grows(models@, (m + 1) as nat, models@.len());
        }
        num_draws += models[m].materials.len();
        m += 1;
    }
    (models.len(), num_draws)
}

/// Every material of the models is one of the level.
pub open spec fn materials_known(models: Seq<SceneModel>, table: PipelineTable) -> bool {
    forall|m: int, e: int|
        0 <= m < models.len() && 0 <= e < models[m].materials.len() ==> (
        #[trigger] models[m].materials@[e]) < table.material_pipelines.len()
}

proof fn draws_covered(models: Seq<SceneModel>, table: PipelineTable, n: nat)
    requires
        materials_known(models, table),
        n <= models.len(),
    ensures
        table.covers(scene_draws(models, n)),
    decreases n,
{
    if n > 0 {
        draws_covered(models, table, (n - 1) as nat);
        let before = scene_draws(models, (n - 1) as nat);
        let own = model_draws(models[n - 1], n - 1);
        assert forall|d: int| 0 <= d < scene_draws(models, n).len() implies (
        #[trigger] scene_draws(models, n)[d]).material < table.material_pipelines.len() by {
            if d < before.len() {
                assert(scene_draws(models, n)[d] == before[d]);
            } else {
                assert(scene_draws(models, n)[d] == own[d - before.len()]);
                assert(models[n - 1].materials@[d - before.len()] < table.material_pipelines.len());
            }
        }
    }
}

/// What is drawn in a frame.
pub struct ScenePlan {
    pub draws: Vec<SceneDraw>,
    pub ranges: Vec<PipelineDrawSlice>,
}

/// Plans what is drawn in a frame: the draws of all models, sorted, in runs of the same pipeline.
pub fn plan_scene(models: &Vec<SceneModel>, table: &PipelineTable) -> (plan: ScenePlan)
    requires
        table.wf(),
        models_numbered(models@),
        materials_known(models@, *table),
        draw_count(models@, models@.len()) <= u32::MAX,
    ensures
        draws_sorted(*table, scene_draws(models@, models@.len()), plan.draws@),
        plan.draws.len() == draw_count(models@, models@.len()),
        divides(*table, plan.draws@, plan.ranges@),
{
    let all = list_draws(models);
    proof {
        draws_covered(models@, *table, models@.len());
    }
    let draws = sort_draws(table, &all);
    proof {
        let order = choose|order: Seq<usize>| #[trigger]
            is_draw_order(*table, all@, order) && draws@ == Seq::new(
                order.len(),
                |k: int| all@[order[k] as int],
            );
        assert forall|d: int| 0 <= d < draws@.len() implies (#[trigger] draws@[d]).material
            < table.material_pipelines.len() by {
            assert(draws@[d] == all@[order[d] as int]);
        }
    }
    let ranges = pipeline_draw_ranges(table, &draws);
    ScenePlan { draws, ranges }
}

/// A draw of a run of commands in the indirect buffer.
#[derive(Clone, Copy, PartialEq, Eq, Debug)]
pub struct IndirectDraw {
    pub pipeline: u32,
    pub push_stage: u32,
    pub push_offset: u32,
    pub push_bytes: [u8; 4],
    pub buffer_offset: u64,
    pub draw_count: u32,
    pub stride: u32,
}

/// The draw of a run.
pub open spec fn draws_run(
    slice: PipelineDrawSlice,
    frame_offset: u64,
    draw: IndirectDraw,
) -> bool {
    &&& draw.pipeline == slice.pipeline
    &&& draw.push_stage == STAGE_VERTEX
    &&& draw.push_offset == 0
    &&& draw.push_bytes@[0] == slice.offset % 256
    &&& draw.push_bytes@[1] == slice.offset / 0x100 % 256
    &&& draw.push_bytes@[2] == slice.offset / 0x1_0000 % 256
    &&& draw.push_bytes@[3] == slice.offset / 0x100_0000
    &&& draw.buffer_offset == frame_offset + slice.offset * DRAW_COMMAND_SIZE
    &&& draw.draw_count == slice.len
    &&& draw.stride == DRAW_COMMAND_SIZE
}

/// Plans the drawing of the runs of a frame; nothing where there is no pipeline to draw with.
/// `frame_offset` is where the commands of the frame are in the indirect buffer.
pub fn plan_render(
    draw_layout: Option<u64>,
    ranges: &Vec<PipelineDrawSlice>,
    frame_offset: u64,
) -> (draws: Option<Vec<IndirectDraw>>)
    requires
        forall|s: int|
            0 <= s < ranges.len() ==> frame_offset + (#[trigger] ranges@[s]).offset
                * DRAW_COMMAND_SIZE <= u64::MAX,
    ensures
        draws is Some <==> draw_layout is Some,
        draws matches Some(d) ==> d.len() == ranges.len() && forall|s: int|
            0 <= s < ranges.len() ==> draws_run(ranges@[s], frame_offset, #[trigger] d@[s]),
{
    if draw_layout.is_none() {
        return None;
    }
    let mut draws: Vec<IndirectDraw> = Vec::with_capacity(ranges.len());
    let mut s: usize = 0;
    while s < ranges.len()
        invariant
            s <= ranges.len(),
            forall|s: int|
                0 <= s < ranges.len() ==> frame_offset + (#[trigger] ranges@[s]).offset
                    * DRAW_COMMAND_SIZE <= u64::MAX,
            draws.len() == s,
            forall|k: int|
                0 <= k < s ==> draws_run(ranges@[k], frame_offset, #[trigger] draws@[k]),
        decreases ranges.len() - s,
    {
        let slice = ranges[s];
        draws.push(
            IndirectDraw {
                pipeline: slice.pipeline,
                push_stage: STAGE_VERTEX,
                push_offset: 0,
                push_bytes: slice.draw_offset_push_constant(),
                buffer_offset: frame_offset + slice.draw_offset(),
                draw_count: slice.len(),
                stride: DRAW_COMMAND_SIZE as u32,
            },
        );
        s += 1;
    }
    Some(draws)
}

/// A key moves the camera forward along its direction, the opposite key backward, and the two of
/// them together not at all.
pub proof fn keys_move_along_their_direction(
    keys: KeyInput,
    positive: Seq<char>,
    negative: Seq<char>,
)
    ensures
        ({
            let (p, n) = (
                keys.state_of(positive) is Pressed,
                keys.state_of(negative) is Pressed,
            );
            &&& p && !n <==> direction(keys, positive, negative) == 1
            &&& n && !p <==> direction(keys, positive, negative) == -1
            &&& p == n <==> direction(keys, positive, negative) == 0
            &&& direction(keys, positive, negative) == -direction(keys, negative, positive)
        }),
{
}

/// A run is drawn with its own pipeline, from its own commands: as many as it has, twenty bytes
/// apart, from its offset on in the part of the buffer that the frame has. The vertex shader is
/// told the offset in four bytes, the lowest first.
pub proof fn runs_draw_their_own_commands(
    slice: PipelineDrawSlice,
    frame_offset: u64,
    draw: IndirectDraw,
)
    requires
        draws_run(slice, frame_offset, draw),
    ensures
        draw.pipeline == slice.pipeline,
        draw.draw_count == slice.len,
        draw.stride == 20,
        draw.buffer_offset == frame_offset + 20 * slice.offset,
        draw.push_bytes@[0] + 256 * (draw.push_bytes@[1] + 256 * (draw.push_bytes@[2] + 256
            * draw.push_bytes@[3])) == slice.offset,
        draw.push_stage == 1,
        draw.push_offset == 0,
{
}

/// The draws of a scene are counted model by model, one for each material.
pub proof fn draws_are_counted_by_material(models: Seq<SceneModel>, n: nat)
    ensures
        draw_count(models, 0) == 0,
        draw_count(models, n + 1) == draw_count(models, n) + models[n as int].materials.len(),
{
}

} // verus!
