//! The draws of a scene: which mesh elements are drawn with which pipelines, in which order.

use crate::level::order::{text_eq, DrawKey};
#[allow(unused_imports)]
use crate::level::order::{
    dictionary_order, draw_le, first_difference, text_le, text_le_antisymmetric,
};
use crate::materials::material_manager::MaterialManager;
use crate::meshes::mesh_manager::{MeshElementDrawData, MeshManager};
#[allow(unused_imports)]
use crate::meshes::mesh::Mesh;
#[allow(unused_imports)]
use crate::meshes::mesh_manager::{
    all_elements, draw_data, element_indices, element_vertices, elements_before, indices_before,
    meshes_numbered, vertices_before, MeshBufferOffset,
};
#[allow(unused_imports)]
use crate::meshes::optimise::MeshElementOffset;
use crate::sort::stable_order;
#[allow(unused_imports)]
use crate::sort::{is_stable_order, stands_before, SortKey};
use vstd::prelude::*;

verus! {

/// The size of an indirect draw command.
pub const DRAW_COMMAND_SIZE: u64 = 20;

/// A model of a scene: its mesh, and the material of each of its elements.
pub struct SceneModel {
    pub mesh: u32,
    pub materials: Vec<u32>,
}

/// A draw of a scene: an element of a mesh with a material, at the transform of its model.
#[derive(Clone, Copy, PartialEq, Eq, Structural, Debug)]
pub struct SceneDraw {
    pub mesh: u32,
    pub element: u32,
    pub material: u32,
    pub transform_index: u32,
}

/// The draws of model `m`, one for each material.
pub open spec fn model_draws(model: SceneModel, m: int) -> Seq<SceneDraw> {
    Seq::new(
        model.materials@.len(),
        |e: int|
            SceneDraw {
                mesh: model.mesh,
                element: e as u32,
                material: model.materials@[e],
                transform_index: m as u32,
            },
    )
}

/// The draws of the first `n` models, in order.
pub open spec fn scene_draws(models: Seq<SceneModel>, n: nat) -> Seq<SceneDraw>
    decreases n,
{
    if n == 0 {
        seq![]
    } else {
        scene_draws(models, (n - 1) as nat) + model_draws(models[n - 1], n - 1)
    }
}

/// The models and their elements can be numbered.
pub open spec fn models_numbered(models: Seq<SceneModel>) -> bool {
    &&& models.len() <= u32::MAX
    &&& forall|m: int| 0 <= m < models.len() ==> (#[trigger] models[m]).materials.len() <= u32::MAX
}

/// Lists the draws of a scene.
pub fn list_draws(models: &Vec<SceneModel>) -> (draws: Vec<SceneDraw>)
    requires
        models_numbered(models@),
    ensures
        draws@ == scene_draws(models@, models@.len()),
{
    let mut draws: Vec<SceneDraw> = Vec::new();
    let mut m: usize = 0;
    while m < models.len()
        invariant
            m <= models.len(),
            models_numbered(models@),
            draws@ == scene_draws(models@, m as nat),
        decreases models.len() - m,
    {
        let model = &models[m];
        let ghost before = draws@;
        let mut e: usize = 0;
        assert(draws@ =~= before + model_draws(*model, m as int).take(0));
        assert(models@[m as int].materials.len() <= u32::MAX);
        while e < model.materials.len()
            invariant
                e <= model.materials.len() <= u32::MAX,
                m <= u32::MAX,
                draws@ == before + model_draws(*model, m as int).take(e as int),
            decreases model.materials.len() - e,
        {
            draws.push(
                SceneDraw {
                    mesh: model.mesh,
                    element: e as u32,
                    material: model.materials[e],
                    transform_index: m as u32,
                },
            );
            e += 1;
            assert(draws@ =~= before + model_draws(*model, m as int).take(e as int));
        }
        proof {
            let own = model_draws(*model, m as int);
            assert(own.take(own.len() as int) =~= own);
        }
        m += 1;
    }
    draws
}

/// The pipelines of the materials of a level, by their ids.
pub struct PipelineTable {
    /// The id of each pipeline.
    pub ids: Vec<Vec<char>>,
    /// The pipeline of each material.
    pub material_pipelines: Vec<u32>,
}

impl PipelineTable {
    /// Every material has a pipeline.
    pub open spec fn wf(self) -> bool {
        forall|m: int|
            0 <= m < self.material_pipelines.len() ==> (#[trigger] self.material_pipelines@[m])
                < self.ids.len()
    }

    /// The draws use materials of the level.
    pub open spec fn covers(self, draws: Seq<SceneDraw>) -> bool {
        forall|d: int|
            0 <= d < draws.len() ==> (#[trigger] draws[d]).material < self.material_pipelines.len()
    }

    /// The pipeline of a draw.
    pub open spec fn pipeline_of(self, draw: SceneDraw) -> u32 {
        self.material_pipelines@[draw.material as int]
    }

    /// The id of the pipeline of a draw.
    pub open spec fn id_of(self, draw: SceneDraw) -> Seq<char> {
        self.ids@[self.pipeline_of(draw) as int]@
    }

    /// By what a draw is ordered.
    pub open spec fn key_of(self, draw: SceneDraw) -> (Seq<char>, u32, u32) {
        (self.id_of(draw), draw.mesh, draw.element)
    }

    fn id(&self, draw: SceneDraw) -> (id: &Vec<char>)
        requires
            self.wf(),
            draw.material < self.material_pipelines.len(),
        ensures
            id@ == self.id_of(draw),
    {
        assert(self.material_pipelines@[draw.material as int] < self.ids.len());
        &self.ids[self.material_pipelines[draw.material as usize] as usize]
    }
}

/// Draw `a` of `draws` goes before draw `b`: by pipeline id, mesh and element, and by position
/// where these are the same.
pub open spec fn goes_before(table: PipelineTable, draws: Seq<SceneDraw>, a: int, b: int) -> bool {
    let (x, y) = (table.key_of(draws[a]), table.key_of(draws[b]));
    draw_le(x, y) && (draw_le(y, x) ==> a < b)
}

/// `order` lists the draws, each once, in the order in which they go.
pub open spec fn is_draw_order(table: PipelineTable, draws: Seq<SceneDraw>, order: Seq<usize>) -> bool {
    &&& order.len() == draws.len()
    &&& forall|i: int| 0 <= i < order.len() ==> (#[trigger] order[i]) < draws.len()
    &&& forall|d: int| 0 <= d < draws.len() ==> order.contains(#[trigger] (d as usize))
    &&& forall|i: int, j: int|
        0 <= i < j < order.len() ==> #[trigger] goes_before(
            table,
            draws,
            order[i] as int,
            order[j] as int,
        )
}

/// `sorted` holds `draws` by pipeline id, then mesh, then mesh element; equal ones keep their
/// order.
pub open spec fn draws_sorted(
    table: PipelineTable,
    draws: Seq<SceneDraw>,
    sorted: Seq<SceneDraw>,
) -> bool {
    exists|order: Seq<usize>| #[trigger]
        is_draw_order(table, draws, order) && sorted == Seq::new(
            order.len(),
            |k: int| draws[order[k] as int],
        )
}

/// Sorts draws by pipeline id, then mesh, then mesh element.
pub fn sort_draws(table: &PipelineTable, draws: &Vec<SceneDraw>) -> (sorted: Vec<SceneDraw>)
    requires
        table.wf(),
        table.covers(draws@),
    ensures
        draws_sorted(*table, draws@, sorted@),
        table.covers(sorted@),
        sorted.len() == draws.len(),
        forall|i: int, j: int|
            0 <= i < j < sorted.len() ==> #[trigger] draw_le(
                table.key_of(sorted@[i]),
                table.key_of(sorted@[j]),
            ),
{
    let mut keys: Vec<DrawKey> = Vec::with_capacity(draws.len());
    let mut i: usize = 0;
    while i < draws.len()
        invariant
            i <= draws.len(),
            table.wf(),
            table.covers(draws@),
            keys.len() == i,
            forall|k: int| 0 <= k < i ==> (#[trigger] keys@[k])@ == table.key_of(draws@[k]),
        decreases draws.len() - i,
    {
        let draw: SceneDraw = draws[i];
        assert(draws@[i as int].material < table.material_pipelines.len());
        keys.push(DrawKey { pipeline_id: table.id(draw), mesh: draw.mesh, element: draw.element });
        i += 1;
    }
    let order = stable_order(&keys);
    let mut sorted: Vec<SceneDraw> = Vec::with_capacity(draws.len());
    let mut k: usize = 0;
    while k < order.len()
        invariant
            k <= order.len() == draws.len() == keys.len(),
            is_stable_order(keys@, order@),
            sorted.len() == k,
            forall|l: int| 0 <= l < k ==> #[trigger] sorted@[l] == draws@[order@[l] as int],
        decreases order.len() - k,
    {
        assert(order@[k as int] < draws.len());
        sorted.push(draws[order[k]]);
        k += 1;
    }
    proof {
        assert forall|i: int, j: int| 0 <= i < j < order.len() implies #[trigger] goes_before(
            *table,
            draws@,
            order@[i] as int,
            order@[j] as int,
        ) by {
            assert(stands_before(keys@, order@[i] as int, order@[j] as int));
            assert(keys@[order@[i] as int]@ == table.key_of(draws@[order@[i] as int]));
            assert(keys@[order@[j] as int]@ == table.key_of(draws@[order@[j] as int]));
        }
        assert(is_draw_order(*table, draws@, order@));
        assert(sorted@ =~= Seq::new(order@.len(), |k: int| draws@[order@[k] as int]));
        assert forall|i: int, j: int| 0 <= i < j < sorted.len() implies #[trigger] draw_le(
            table.key_of(sorted@[i]),
            table.key_of(sorted@[j]),
        ) by {
            assert(goes_before(*table, draws@, order@[i] as int, order@[j] as int));
        }
        assert forall|d: int| 0 <= d < sorted.len() implies (#[trigger] sorted@[d]).material
            < table.material_pipelines.len() by {
            assert(order@[d] < draws.len());
            assert(draws@[order@[d] as int].material < table.material_pipelines.len());
        }
    }
    sorted
}

/// A run of draws that use the same pipeline.
#[derive(Clone, Copy, PartialEq, Eq, Structural, Debug)]
pub struct PipelineDrawSlice {
    pub pipeline: u32,
    pub offset: u32,
    pub len: u32,
}

impl PipelineDrawSlice {
    /// The offset as the bytes that are pushed to the shader: least significant first.
    pub fn draw_offset_push_constant(&self) -> (bytes: [u8; 4])
        ensures
            bytes@[0] == self.offset % 256,
            bytes@[1] == self.offset / 0x100 % 256,
            bytes@[2] == self.offset / 0x1_0000 % 256,
            bytes@[3] == self.offset / 0x100_0000,
    {
        let o: u32 = self.offset;
        [
            (o % 256) as u8,
            (o / 0x100 % 256) as u8,
            (o / 0x1_0000 % 256) as u8,
            (o / 0x100_0000) as u8,
        ]
    }

    /// The offset of the first draw command of the run.
    pub fn draw_offset(&self) -> (offset: u64)
        ensures
            offset == self.offset * DRAW_COMMAND_SIZE,
    {
        self.offset as u64 * DRAW_COMMAND_SIZE
    }

    /// The number of draws in the run.
    pub fn len(&self) -> (len: u32)
        ensures
            len == self.len,
    {
        self.len
    }
}

/// `slice` is a run of `draws` that cannot be made longer: its draws have the pipeline id of its
/// first draw, and the draw behind it has not.
pub open spec fn is_run(table: PipelineTable, draws: Seq<SceneDraw>, slice: PipelineDrawSlice) -> bool {
    let end = slice.offset + slice.len;
    &&& 0 < slice.len
    &&& end <= draws.len()
    &&& slice.pipeline == table.pipeline_of(draws[slice.offset as int])
    &&& forall|d: int|
        slice.offset <= d < end ==> table.id_of(#[trigger] draws[d]) == table.id_of(
            draws[slice.offset as int],
        )
    &&& end < draws.len() ==> table.id_of(draws[end]) != table.id_of(draws[slice.offset as int])
}

/// `slices` divides `draws` into runs.
pub open spec fn divides(
    table: PipelineTable,
    draws: Seq<SceneDraw>,
    slices: Seq<PipelineDrawSlice>,
) -> bool {
    &&& forall|s: int| 0 <= s < slices.len() ==> is_run(table, draws, #[trigger] slices[s])
    &&& forall|s: int|
        0 <= s && s + 1 < slices.len() ==> (#[trigger] slices[s]).offset + slices[s].len
            == slices[s + 1].offset
    &&& slices.len() == 0 <==> draws.len() == 0
    &&& slices.len() > 0 ==> slices[0].offset == 0 && slices.last().offset + slices.last().len
        == draws.len()
}

/// Divides draws into runs of the same pipeline.
pub fn pipeline_draw_ranges(table: &PipelineTable, draws: &Vec<SceneDraw>) -> (slices: Vec<
    PipelineDrawSlice,
>)
    requires
        table.wf(),
        table.covers(draws@),
        draws.len() <= u32::MAX,
    ensures
        divides(*table, draws@, slices@),
{
    let mut slices: Vec<PipelineDrawSlice> = Vec::new();
    let mut start: usize = 0;
    while start < draws.len()
        invariant
            start <= draws.len() <= u32::MAX,
            table.wf(),
            table.covers(draws@),
            forall|s: int|
                0 <= s < slices.len() ==> is_run(*table, draws@, #[trigger] slices@[s]),
            forall|s: int|
                0 <= s && s + 1 < slices.len() ==> (#[trigger] slices@[s]).offset + slices@[s].len
                    == slices@[s + 1].offset,
            slices.len() == 0 <==> start == 0,
            slices.len() > 0 ==> slices@[0].offset == 0 && slices@.last().offset
                + slices@.last().len == start,
        decreases draws.len() - start,
    {
        let first: SceneDraw = draws[start];
        assert(draws@[start as int].material < table.material_pipelines.len());
        let id = table.id(first);
        let mut end: usize = start + 1;
        while end < draws.len() && text_eq(table.id(draws[end]), id)
            invariant
                start < end <= draws.len() <= u32::MAX,
                table.wf(),
                table.covers(draws@),
                id@ == table.id_of(draws@[start as int]),
                forall|d: int|
                    start <= d < end ==> table.id_of(#[trigger] draws@[d]) == table.id_of(
                        draws@[start as int],
                    ),
            decreases draws.len() - end,
        {
            end += 1;
        }
        let slice = PipelineDrawSlice {
            pipeline: table.material_pipelines[first.material as usize],
            offset: start as u32,
            len: (end - start) as u32,
        };
        assert(is_run(*table, draws@, slice));
        slices.push(slice);
        start = end;
    }
    slices
}

/// In a sorted scene every pipeline id has one run at most: the ids of the runs increase.
pub proof fn one_run_per_pipeline(
    table: PipelineTable,
    draws: Seq<SceneDraw>,
    slices: Seq<PipelineDrawSlice>,
    s: int,
    t: int,
)
    requires
        divides(table, draws, slices),
        forall|i: int, j: int|
            0 <= i < j < draws.len() ==> #[trigger] draw_le(
                table.key_of(draws[i]),
                table.key_of(draws[j]),
            ),
        0 <= s < t < slices.len(),
    ensures
        text_le(
            table.id_of(draws[slices[s].offset as int]),
            table.id_of(draws[slices[t].offset as int]),
        ),
        table.id_of(draws[slices[s].offset as int]) != table.id_of(
            draws[slices[t].offset as int],
        ),
    decreases t - s,
{
    let (a, b) = (slices[s].offset as int, slices[t].offset as int);
    runs_increase(table, draws, slices, s, t);
    let next = slices[s + 1].offset as int;
    assert(is_run(table, draws, slices[s]));
    assert(is_run(table, draws, slices[s + 1]));
    assert(is_run(table, draws, slices[t]));
    assert(draw_le(table.key_of(draws[a]), table.key_of(draws[b])));
    assert(draw_le(table.key_of(draws[a]), table.key_of(draws[next])));
    if t > s + 1 {
        runs_increase(table, draws, slices, s + 1, t);
        assert(draw_le(table.key_of(draws[next]), table.key_of(draws[b])));
        if table.id_of(draws[a]) == table.id_of(draws[b]) {
            one_run_per_pipeline(table, draws, slices, s + 1, t);
            text_le_antisymmetric(table.id_of(draws[a]), table.id_of(draws[next]));
        }
    }
    if table.id_of(draws[a]) == table.id_of(draws[b]) {
        assert(false);
    }
}

proof fn runs_increase(
    table: PipelineTable,
    draws: Seq<SceneDraw>,
    slices: Seq<PipelineDrawSlice>,
    s: int,
    t: int,
)
    requires
        divides(table, draws, slices),
        0 <= s < t < slices.len(),
    ensures
        slices[s].offset + slices[s].len <= slices[t].offset,
        slices[s].offset < slices[t].offset,
    decreases t - s,
{
    assert(is_run(table, draws, slices[s]));
    if s + 1 < t {
        runs_increase(table, draws, slices, s + 1, t);
    }
}

/// An indirect draw command.
#[derive(Clone, Copy, PartialEq, Eq, Structural, Debug)]
pub struct DrawIndexedIndirectCommand {
    pub index_count: u32,
    pub instance_count: u32,
    pub first_index: u32,
    pub vertex_offset: i32,
    pub first_instance: u32,
}

/// What the shaders are told of a draw.
#[derive(Clone, Copy, PartialEq, Eq, Structural, Debug)]
pub struct DrawData {
    pub material: u64,
    pub transform_index: u32,
    pub padding: u32,
}

/// The command that draws an element once.
pub open spec fn command_for(data: MeshElementDrawData) -> DrawIndexedIndirectCommand {
    DrawIndexedIndirectCommand {
        index_count: data.index_count,
        instance_count: 1,
        first_index: data.first_index,
        vertex_offset: data.vertex_offset,
        first_instance: 0,
    }
}

/// The element and the material of a draw are among those of the level.
pub open spec fn draw_known(meshes: MeshManager, materials: MaterialManager, draw: SceneDraw) -> bool {
    &&& draw.mesh < meshes.spec_meshes().len()
    &&& draw.element < meshes.spec_meshes()[draw.mesh as int].spec_elements().len()
    &&& draw.material < materials.spec_indices().len()
}

/// What the shaders are told of a draw: where the data of its material is, and its transform.
pub open spec fn data_for(materials: MaterialManager, draw: SceneDraw) -> DrawData {
    DrawData {
        material: materials.spec_addresses()[materials.spec_indices()[draw.material as int] as int],
        transform_index: draw.transform_index,
        padding: 0,
    }
}

/// What is drawn for the element of a draw.
pub open spec fn element_for(meshes: MeshManager, draw: SceneDraw) -> MeshElementDrawData {
    meshes.spec_element_draw_data()[meshes.spec_meshes()[draw.mesh as int].spec_level_element_offset()
        + draw.element]
}

/// Writes the draw commands and the draw data of a scene into buffers with room for `capacity`
/// draws; draws for which there is no room are left out.
pub fn write_draws(
    draws: &Vec<SceneDraw>,
    meshes: &MeshManager,
    materials: &MaterialManager,
    capacity: usize,
) -> (written: (Vec<DrawData>, Vec<DrawIndexedIndirectCommand>))
    requires
        meshes.wf(),
        materials.wf(),
        forall|d: int|
            0 <= d < draws.len() ==> draw_known(*meshes, *materials, #[trigger] draws@[d]),
    ensures
        ({
            let n = if draws@.len() <= capacity {
                draws@.len() as int
            } else {
                capacity as int
            };
            &&& written.0.len() == n
            &&& written.1.len() == n
            &&& forall|d: int|
                0 <= d < n ==> #[trigger] written.0@[d] == data_for(*materials, draws@[d])
            &&& forall|d: int|
                0 <= d < n ==> #[trigger] written.1@[d] == command_for(
                    element_for(*meshes, draws@[d]),
                )
        }),
{
    let mut data: Vec<DrawData> = Vec::new();
    let mut commands: Vec<DrawIndexedIndirectCommand> = Vec::new();
    let n: usize = if draws.len() <= capacity {
        draws.len()
    } else {
        capacity
    };
    let mut d: usize = 0;
    proof {
        meshes.wf_means();
    }
    while d < n
        invariant
            d <= n <= draws.len(),
            data.len() == d,
            commands.len() == d,
            meshes.wf(),
            meshes_numbered(meshes.spec_meshes()),
            materials.wf(),
            forall|d: int|
                0 <= d < draws.len() ==> draw_known(*meshes, *materials, #[trigger] draws@[d]),
            forall|k: int| 0 <= k < d ==> #[trigger] data@[k] == data_for(*materials, draws@[k]),
            forall|k: int|
                0 <= k < d ==> #[trigger] commands@[k] == command_for(
                    element_for(*meshes, draws@[k]),
                ),
        decreases n - d,
    {
        let draw: SceneDraw = draws[d];
        assert(draw_known(*meshes, *materials, draws@[d as int]));
        let mesh = &meshes.meshes()[draw.mesh as usize];
        assert(meshes.spec_meshes()[draw.mesh as int].spec_level_index() == draw.mesh);
        let element: MeshElementDrawData = meshes.get_element_draw_data_for_mesh(mesh)[draw.element as usize];
        data.push(
            DrawData {
                material: materials.get_material_addr(draw.material),
                transform_index: draw.transform_index,
                padding: 0,
            },
        );
        commands.push(
            DrawIndexedIndirectCommand {
                index_count: element.index_count,
                instance_count: 1,
                first_index: element.first_index,
                vertex_offset: element.vertex_offset,
                first_instance: 0,
            },
        );
        d += 1;
    }
    (data, commands)
}

/// The draws list the models: those of model `m` start at `starts[m]` and end where those of the
/// next one start. Draw `e` of a model is of element `e` of its mesh, with material `e` of the
/// model, at the transform with the number of the model.
pub open spec fn lists_models(
    models: Seq<SceneModel>,
    draws: Seq<SceneDraw>,
    starts: Seq<int>,
) -> bool {
    &&& starts.len() == models.len() + 1
    &&& starts[0] == 0
    &&& starts[models.len() as int] == draws.len()
    &&& forall|m: int|
        0 <= m < models.len() ==> starts[m] + (#[trigger] models[m]).materials.len() == starts[m + 1]
    &&& forall|m: int, e: int|
        0 <= m < models.len() && 0 <= e < models[m].materials.len() ==> #[trigger] is_draw_of(
            models,
            draws,
            starts[m] + e,
            m,
            e,
        )
}

/// Draw `d` is of element `e` of the mesh of model `m`, with its material and its transform.
pub open spec fn is_draw_of(
    models: Seq<SceneModel>,
    draws: Seq<SceneDraw>,
    d: int,
    m: int,
    e: int,
) -> bool {
    &&& 0 <= d < draws.len()
    &&& draws[d].mesh == models[m].mesh
    &&& draws[d].element == e
    &&& draws[d].material == models[m].materials@[e]
    &&& draws[d].transform_index == m
}

proof fn model_draws_at(models: Seq<SceneModel>, n: nat, m: int)
    requires
        0 <= m < n <= models.len(),
    ensures
        scene_draws(models, m as nat).len() + models[m].materials.len() <= scene_draws(
            models,
            n,
        ).len(),
        forall|e: int|
            0 <= e < models[m].materials.len() ==> #[trigger] model_draws(models[m], m)[e]
                == scene_draws(models, n)[scene_draws(models, m as nat).len() + e],
    decreases n,
{
    let before = scene_draws(models, (n - 1) as nat);
    if m < n - 1 {
        model_draws_at(models, (n - 1) as nat, m);
    }
}

/// Every element of every model is drawn once, with its own material and at the transform of its
/// model, model after model.
pub proof fn draws_list_their_models(models: Seq<SceneModel>)
    requires
        models_numbered(models),
    ensures
        exists|starts: Seq<int>| lists_models(models, scene_draws(models, models.len()), starts),
{
    let n = models.len();
    let draws = scene_draws(models, n);
    let starts = Seq::new(n + 1, |m: int| scene_draws(models, m as nat).len() as int);
    assert forall|m: int| 0 <= m < models.len() implies starts[m] + (
    #[trigger] models[m]).materials.len() == starts[m + 1] by {
        assert(scene_draws(models, (m + 1) as nat) == scene_draws(models, m as nat) + model_draws(
            models[m],
            m,
        ));
    }
    assert forall|m: int, e: int|
        0 <= m < models.len() && 0 <= e < models[m].materials.len() implies #[trigger] is_draw_of(
        models,
        draws,
        starts[m] + e,
        m,
        e,
    ) by {
        model_draws_at(models, n, m);
        assert(model_draws(models[m], m)[e] == draws[starts[m] + e]);
        assert(models[m].materials.len() <= u32::MAX);
    }
    assert(starts[0] == scene_draws(models, 0).len());
    assert(starts[n as int] == scene_draws(models, n).len());
    assert(lists_models(models, draws, starts));
}

/// Sorted draws go by the ids of their pipelines in the order of a dictionary, then by mesh, then
/// by mesh element; and they are the draws that were sorted, each once, with equal ones in the
/// order in which they were.
pub proof fn sorted_draws_go_by_pipeline(
    table: PipelineTable,
    draws: Seq<SceneDraw>,
    sorted: Seq<SceneDraw>,
)
    requires
        draws_sorted(table, draws, sorted),
        draws.len() <= usize::MAX,
    ensures
        forall|i: int, j: int|
            #![trigger sorted[i], sorted[j]]
            0 <= i < j < sorted.len() ==> {
                let (a, b) = (sorted[i], sorted[j]);
                let x = table.ids@[table.material_pipelines@[a.material as int] as int]@;
                let y = table.ids@[table.material_pipelines@[b.material as int] as int]@;
                &&& exists|k: int| first_difference(x, y, k)
                &&& x == y ==> a.mesh <= b.mesh
                &&& x == y && a.mesh == b.mesh ==> a.element <= b.element
            },
        exists|order: Seq<usize>| keeps_draws(draws, sorted, order),
{
    let order = choose|order: Seq<usize>| #[trigger]
        is_draw_order(table, draws, order) && sorted == Seq::new(
            order.len(),
            |k: int| draws[order[k] as int],
        );
    assert forall|i: int, j: int|
        #![trigger sorted[i], sorted[j]]
        0 <= i < j < sorted.len() implies {
        let (a, b) = (sorted[i], sorted[j]);
        let x = table.ids@[table.material_pipelines@[a.material as int] as int]@;
        let y = table.ids@[table.material_pipelines@[b.material as int] as int]@;
        &&& exists|k: int| first_difference(x, y, k)
        &&& x == y ==> a.mesh <= b.mesh
        &&& x == y && a.mesh == b.mesh ==> a.element <= b.element
    } by {
        assert(goes_before(table, draws, order[i] as int, order[j] as int));
        let (a, b) = (sorted[i], sorted[j]);
        let x = table.ids@[table.material_pipelines@[a.material as int] as int]@;
        let y = table.ids@[table.material_pipelines@[b.material as int] as int]@;
        dictionary_order(x, y);
        if x == y {
            assert(first_difference(x, y, x.len() as int));
        }
    }
    assert forall|i: int, j: int| 0 <= i < j < order.len() implies order[i] != order[j] && (
    #[trigger] sorted[i] == #[trigger] sorted[j] ==> order[i] < order[j]) by {
        assert(goes_before(table, draws, order[i] as int, order[j] as int));
        let x = table.key_of(draws[order[i] as int]);
        assert(draw_le(x, x));
    }
    assert forall|k: int| 0 <= k < order.len() implies (#[trigger] order[k]) < draws.len()
        && sorted[k] == draws[order[k] as int] by {}
    assert(sorted.len() == draws.len());
    assert(keeps_draws(draws, sorted, order));
}

/// `sorted` holds draw `order[k]` at place `k`, and each draw once; equal draws keep their order.
pub open spec fn keeps_draws(
    draws: Seq<SceneDraw>,
    sorted: Seq<SceneDraw>,
    order: Seq<usize>,
) -> bool {
    &&& sorted.len() == draws.len()
    &&& order.len() == draws.len()
    &&& forall|k: int|
        0 <= k < order.len() ==> (#[trigger] order[k]) < draws.len() && sorted[k]
            == draws[order[k] as int]
    &&& forall|i: int, j: int|
        0 <= i < j < order.len() ==> order[i] != order[j] && (#[trigger] sorted[i]
            == #[trigger] sorted[j] ==> order[i] < order[j])
}

/// The elements of a mesh stand one after the other, and fill its vertices and its indices.
pub open spec fn elements_fill(mesh: Mesh) -> bool {
    let elements = mesh.spec_elements();
    &&& elements.len() > 0
    &&& elements[0].vertex_offset == 0
    &&& elements[0].index_offset == 0
    &&& forall|e: int|
        0 <= e && e + 1 < elements.len() ==> (#[trigger] elements[e]).vertex_offset
            + elements[e].vertex_count == elements[e + 1].vertex_offset && elements[e].index_offset
            + elements[e].index_count == elements[e + 1].index_offset
    &&& elements.last().vertex_offset + elements.last().vertex_count
        == mesh.spec_buffer().spec_num_vertices()
    &&& elements.last().index_offset + elements.last().index_count
        == mesh.spec_buffer().spec_num_indices()
}

/// A draw command draws its element once: as many indices as the element has, from where the
/// indices of the element are among those of all meshes, and with the vertices of the element
/// likewise.
pub proof fn commands_draw_their_elements(meshes: MeshManager, draw: SceneDraw)
    requires
        meshes.wf(),
        draw.mesh < meshes.spec_meshes().len(),
        draw.element < meshes.spec_meshes()[draw.mesh as int].spec_elements().len(),
        forall|m: int|
            0 <= m < meshes.spec_meshes().len() ==> elements_fill(
                #[trigger] meshes.spec_meshes()[m],
            ),
    ensures
        ({
            let all = meshes.spec_meshes();
            let element = all[draw.mesh as int].spec_elements()[draw.element as int];
            let command = command_for(element_for(meshes, draw));
            let vertex = vertices_before(all, draw.mesh as nat) + element.vertex_offset;
            &&& command.index_count == element.index_count
            &&& command.instance_count == 1
            &&& command.first_instance == 0
            &&& command.first_index == indices_before(all, draw.mesh as nat) + element.index_offset
            &&& vertex <= i32::MAX ==> command.vertex_offset == vertex
        }),
{
    meshes.wf_means();
    let all = meshes.spec_meshes();
    let n = all.len();
    let m = draw.mesh as int;
    let elements = all_elements(all, n);
    let k = elements_before(all, m as nat) + draw.element;
    element_place(all, n, m, draw.element as int);
    assert(meshes.spec_element_draw_data()[k as int] == draw_data(elements, k as int));
    let place = element_vertices(elements, k as nat);
    sums_within(elements, k as nat);
    assert(place < 0x8000_0000 ==> (place as u32) as i32 == place);
}

proof fn sums_within(elements: Seq<MeshElementOffset>, k: nat)
    requires
        k <= elements.len(),
    ensures
        element_vertices(elements, k) <= element_vertices(elements, elements.len()),
        element_indices(elements, k) <= element_indices(elements, elements.len()),
    decreases elements.len() - k,
{
    if k < elements.len() {
        sums_within(elements, k + 1);
    }
}

/// Sums over the elements of two lists.
proof fn sums_split(a: Seq<MeshElementOffset>, b: Seq<MeshElementOffset>, n: nat)
    requires
        n <= b.len(),
    ensures
        element_vertices(a + b, a.len() + n) == element_vertices(a, a.len()) + element_vertices(
            b,
            n,
        ),
        element_indices(a + b, a.len() + n) == element_indices(a, a.len()) + element_indices(b, n),
    decreases n,
{
    if n == 0 {
        sums_of_prefix(a, b, a.len());
    } else {
        sums_split(a, b, (n - 1) as nat);
        assert((a + b)[a.len() + n - 1] == b[n - 1]);
    }
}

proof fn sums_of_prefix(a: Seq<MeshElementOffset>, b: Seq<MeshElementOffset>, n: nat)
    requires
        n <= a.len(),
    ensures
        element_vertices(a + b, n) == element_vertices(a, n),
        element_indices(a + b, n) == element_indices(a, n),
    decreases n,
{
    if n > 0 {
        sums_of_prefix(a, b, (n - 1) as nat);
        assert((a + b)[n - 1] == a[n - 1]);
    }
}

/// The offsets of the elements of a mesh are the sums of what stands before them.
proof fn offsets_are_sums(mesh: Mesh, e: nat)
    requires
        elements_fill(mesh),
        e < mesh.spec_elements().len(),
    ensures
        element_vertices(mesh.spec_elements(), e) == mesh.spec_elements()[e as int].vertex_offset,
        element_indices(mesh.spec_elements(), e) == mesh.spec_elements()[e as int].index_offset,
    decreases e,
{
    if e > 0 {
        offsets_are_sums(mesh, (e - 1) as nat);
        assert(mesh.spec_elements()[e - 1].vertex_offset >= 0);
    }
}

proof fn totals(meshes: Seq<Mesh>, n: nat)
    requires
        n <= meshes.len(),
        forall|m: int| 0 <= m < meshes.len() ==> elements_fill(#[trigger] meshes[m]),
    ensures
        all_elements(meshes, n).len() == elements_before(meshes, n),
        element_vertices(all_elements(meshes, n), elements_before(meshes, n)) == vertices_before(
            meshes,
            n,
        ),
        element_indices(all_elements(meshes, n), elements_before(meshes, n)) == indices_before(
            meshes,
            n,
        ),
    decreases n,
{
    if n > 0 {
        let m = (n - 1) as nat;
        totals(meshes, m);
        let own = meshes[m as int].spec_elements();
        assert(elements_fill(meshes[m as int]));
        sums_split(all_elements(meshes, m), own, own.len());
        offsets_are_sums(meshes[m as int], (own.len() - 1) as nat);
    }
}

proof fn element_place(meshes: Seq<Mesh>, n: nat, m: int, e: int)
    requires
        0 <= m < n <= meshes.len(),
        0 <= e < meshes[m].spec_elements().len(),
        forall|m: int| 0 <= m < meshes.len() ==> elements_fill(#[trigger] meshes[m]),
    ensures
        ({
            let k = elements_before(meshes, m as nat) + e;
            let all = all_elements(meshes, n);
            let element = meshes[m].spec_elements()[e];
            &&& 0 <= k < all.len()
            &&& all[k] == element
            &&& element_vertices(all, k as nat) == vertices_before(meshes, m as nat)
                + element.vertex_offset
            &&& element_indices(all, k as nat) == indices_before(meshes, m as nat)
                + element.index_offset
        }),
    decreases n,
{
    let l = (n - 1) as nat;
    let before = all_elements(meshes, l);
    let own = meshes[l as int].spec_elements();
    let k = elements_before(meshes, m as nat) + e;
    if m == l {
        totals(meshes, l);
        assert(elements_fill(meshes[m]));
        offsets_are_sums(meshes[m], e as nat);
        sums_split(before, own, e as nat);
        assert((before + own)[k] == own[e]);
    } else {
        element_place(meshes, l, m, e);
        sums_of_prefix(before, own, k as nat);
        assert((before + own)[k] == before[k]);
    }
}

/// A draw reads what the megabuffer has from its own mesh: index `i` of its element is copied from
/// index `i` behind the offset of the element in the buffer of the mesh.
pub proof fn draws_read_their_own_mesh(
    meshes: MeshManager,
    draw: SceneDraw,
    offsets: Seq<MeshBufferOffset>,
    i: int,
)
    requires
        meshes.wf(),
        draw.mesh < meshes.spec_meshes().len(),
        draw.element < meshes.spec_meshes()[draw.mesh as int].spec_elements().len(),
        forall|m: int|
            0 <= m < meshes.spec_meshes().len() ==> elements_fill(
                #[trigger] meshes.spec_meshes()[m],
            ),
        forall|m: int, v: int|
            #![trigger meshes.spec_meshes()[m], offsets[v]]
            0 <= m < meshes.spec_meshes().len() && indices_before(meshes.spec_meshes(), m as nat)
                <= v < indices_before(meshes.spec_meshes(), (m + 1) as nat) ==> offsets[v] == (
            MeshBufferOffset {
                buffer_index: m as u32,
                offset: indices_before(meshes.spec_meshes(), m as nat) as u32,
            }),
        0 <= i < command_for(element_for(meshes, draw)).index_count,
    ensures
        ({
            let element =
                meshes.spec_meshes()[draw.mesh as int].spec_elements()[draw.element as int];
            let place = command_for(element_for(meshes, draw)).first_index + i;
            &&& offsets[place].buffer_index == draw.mesh
            &&& place - offsets[place].offset == element.index_offset + i
        }),
{
    commands_draw_their_elements(meshes, draw);
    meshes.wf_means();
    let all = meshes.spec_meshes();
    let m = draw.mesh as int;
    let elements = all[m].spec_elements();
    assert(elements_fill(all[m]));
    element_ends_within(all[m], draw.element as int);
    assert(indices_before(all, (m + 1) as nat) == indices_before(all, m as nat)
        + all[m].spec_buffer().spec_num_indices());
    indices_before_grow(all, (m + 1) as nat, all.len());
    let place = command_for(element_for(meshes, draw)).first_index + i;
    assert(offsets[place].buffer_index == m);
}

proof fn indices_before_grow(meshes: Seq<Mesh>, m: nat, n: nat)
    requires
        m <= n,
    ensures
        indices_before(meshes, m) <= indices_before(meshes, n),
    decreases n,
{
    if m < n {
        indices_before_grow(meshes, m, (n - 1) as nat);
    }
}

proof fn element_ends_within(mesh: Mesh, e: int)
    requires
        elements_fill(mesh),
        0 <= e < mesh.spec_elements().len(),
    ensures
        mesh.spec_elements()[e].index_offset + mesh.spec_elements()[e].index_count
            <= mesh.spec_buffer().spec_num_indices(),
    decreases mesh.spec_elements().len() - e,
{
    if e + 1 < mesh.spec_elements().len() {
        element_ends_within(mesh, e + 1);
        assert(mesh.spec_elements()[e].index_offset >= 0);
    }
}

/// The shaders are told where the data of the material of a draw is, and the transform of its
/// model.
pub proof fn draws_are_told_their_material(materials: MaterialManager, draw: SceneDraw)
    ensures
        data_for(materials, draw).material
            == materials.spec_addresses()[materials.spec_indices()[draw.material as int] as int],
        data_for(materials, draw).transform_index == draw.transform_index,
        data_for(materials, draw).padding == 0,
{
}

} // verus!
