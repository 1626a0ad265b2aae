//! The materials of a level while it is loaded, and the data that shaders read of them.

use crate::index_map::{insert_name, name_count, name_index, new_names};
#[allow(unused_imports)]
use crate::index_map::{entry_at, has_name, insert_keeps_distinct, name_entries, names_distinct};
use crate::level::draw::PipelineTable;
use crate::materials::config::SubresourcePath;
#[allow(unused_imports)]
use crate::materials::config::subresource_key;
use crate::materials::constant::{ResourceBinding, ResourceConstant, ResourceRef, TEXTURE_BIT};
#[allow(unused_imports)]
use crate::materials::constant::{
    constant_data, constant_zero, shows_constant, unbound_binding, words_show_constants,
};
use crate::materials::material::{Material, ResourceBindings};
#[allow(unused_imports)]
use crate::path::{is_path, render, render_behind, PartView};
use crate::pipelines::config::PipelineBindingDataSize;
use crate::pipelines::pipeline::{GraphicsPipeline, Pipeline};
#[allow(unused_imports)]
use crate::resource_paths::{absolute_paths_name_their_base, resolved, ResourcePathBase};
use crate::text::chars_of;
use crate::utils::arc_final_owner::share;
use indexmap::IndexMap;
use std::sync::Arc;
use vstd::hash_map::StringHashMap;
use vstd::prelude::*;

verus! {

/// The material that is used where none is given.
pub const DEFAULT_MATERIAL: &'static str = "/engine/materials/default";

/// The views of some groups.
pub open spec fn group_views(groups: Seq<Vec<u32>>) -> Seq<Seq<u32>> {
    groups.map_values(|g: Vec<u32>| g@)
}

/// Material `m` stands at position `j` of group `g`.
pub open spec fn stands_at(groups: Seq<Seq<u32>>, m: int, g: int, j: int) -> bool {
    0 <= g < groups.len() && 0 <= j < groups[g].len() && groups[g][j] == m
}

/// Material `m` stands in some group.
pub open spec fn stands(groups: Seq<Seq<u32>>, m: int) -> bool {
    exists|g: int, j: int| stands_at(groups, m, g, j)
}

/// Every one of `n` materials stands in one group, once, and nothing else does.
pub open spec fn grouped(groups: Seq<Seq<u32>>, n: nat) -> bool {
    &&& forall|g: int, j: int|
        0 <= g < groups.len() && 0 <= j < groups[g].len() ==> (#[trigger] groups[g][j]) < n
    &&& forall|m: int| 0 <= m < n ==> #[trigger] stands(groups, m)
    &&& forall|m: int, g: int, j: int, h: int, k: int|
        #![trigger stands_at(groups, m, g, j), stands_at(groups, m, h, k)]
        stands_at(groups, m, g, j) && stands_at(groups, m, h, k) ==> g == h && j == k
}

/// The materials of each group use the pipeline of the group.
pub open spec fn groups_match(
    groups: Seq<Seq<u32>>,
    entries: Seq<(Seq<char>, u32)>,
    materials: Seq<Material>,
) -> bool {
    &&& groups.len() == entries.len()
    &&& forall|g: int, j: int|
        0 <= g < groups.len() && 0 <= j < groups[g].len()
            ==> materials[(#[trigger] groups[g][j]) as int].spec_pipeline().id@ == entries[g].0
}

/// The materials that were loaded for a level so far.
pub struct LoadingMaterialManager {
    resource_path_map: StringHashMap<u32>,
    materials: Vec<Material>,
    pipelines: IndexMap<String, u32>,
    group_pipelines: Vec<Arc<GraphicsPipeline>>,
    groups: Vec<Vec<u32>>,
}

/// The materials of a level, once all are loaded.
pub struct LoadedMaterials {
    pub materials: Vec<Material>,
    /// The pipelines that the materials use.
    pub pipelines: Vec<Arc<GraphicsPipeline>>,
    /// The materials of each pipeline.
    pub groups: Vec<Vec<u32>>,
}

impl LoadedMaterials {
    /// Every material stands in the group of its pipeline, once.
    pub open spec fn wf(self) -> bool {
        let groups = group_views(self.groups@);
        &&& self.materials.len() <= u32::MAX
        &&& self.groups.len() == self.pipelines.len()
        &&& self.groups.len() <= u32::MAX
        &&& grouped(groups, self.materials@.len())
        &&& materials_before(groups, groups.len()) == self.materials@.len()
        &&& forall|m: int, g: int, j: int| #[trigger]
            stands_at(groups, m, g, j) ==> self.materials@[m].spec_pipeline().id@
                == self.pipelines@[g].id@
    }

    /// The ids of the pipelines, and the pipeline of each material.
    pub fn pipeline_table(&self) -> (table: PipelineTable)
        requires
            self.wf(),
        ensures
            table.wf(),
            table.ids.len() == self.pipelines.len(),
            forall|g: int|
                0 <= g < table.ids.len() ==> (#[trigger] table.ids@[g])@ == self.pipelines@[g].id@,
            table.material_pipelines.len() == self.materials.len(),
            forall|m: int|
                0 <= m < self.materials.len() ==> self.pipelines@[(
                #[trigger] table.material_pipelines@[m]) as int].id@
                    == self.materials@[m].spec_pipeline().id@,
    {
        let ghost groups = group_views(self.groups@);
        let mut ids: Vec<Vec<char>> = Vec::with_capacity(self.pipelines.len());
        let mut material_pipelines: Vec<u32> = Vec::new();
        material_pipelines.resize(self.materials.len(), 0);
        let mut g: usize = 0;
        while g < self.groups.len()
            invariant
                self.wf(),
                groups == group_views(self.groups@),
                g <= self.groups.len(),
                ids.len() == g,
                forall|h: int|
                    0 <= h < g ==> (#[trigger] ids@[h])@ == self.pipelines@[h].id@,
                material_pipelines.len() == self.materials.len(),
                forall|m: int, h: int, k: int| #[trigger]
                    stands_at(groups, m, h, k) && h < g ==> material_pipelines@[m] == h,
            decreases self.groups.len() - g,
        {
            ids.push(chars_of(self.pipelines[g].id()));
            let group = &self.groups[g];
            assert(group@ == groups[g as int]);
            let mut j: usize = 0;
            while j < group.len()
                invariant
                    self.wf(),
                    groups == group_views(self.groups@),
                    g < self.groups.len(),
                    group@ == groups[g as int],
                    j <= group.len(),
                    material_pipelines.len() == self.materials.len(),
                    forall|m: int, h: int, k: int| #[trigger]
                        stands_at(groups, m, h, k) && (h < g || h == g && k < j)
                            ==> material_pipelines@[m] == h,
                decreases group.len() - j,
            {
                let material: u32 = group[j];
                assert(groups[g as int][j as int] < self.materials.len());
                assert(stands_at(groups, material as int, g as int, j as int));
                material_pipelines.set(material as usize, g as u32);
                j += 1;
            }
            g += 1;
        }
        proof {
            assert forall|m: int| 0 <= m < self.materials.len() implies (
            #[trigger] material_pipelines@[m]) < ids.len() && self.pipelines@[material_pipelines@[m] as int].id@
                == self.materials@[m].spec_pipeline().id@ by {
                assert(stands(groups, m));
                let (h, k) = choose|h: int, k: int| stands_at(groups, m, h, k);
                assert(stands_at(groups, m, h, k));
            }
        }
        PipelineTable { ids, material_pipelines }
    }
}

impl LoadingMaterialManager {
    /// The material that was loaded for each path.
    pub closed spec fn loaded(self) -> Map<Seq<char>, u32> {
        self.resource_path_map@
    }

    pub closed spec fn spec_materials(self) -> Seq<Material> {
        self.materials@
    }

    /// The pipelines that the materials use, in the order in which they were first used.
    pub closed spec fn pipeline_ids(self) -> Seq<Seq<char>> {
        name_entries(self.pipelines).map_values(|e: (Seq<char>, u32)| e.0)
    }

    /// The pipelines themselves, in the same order: of each name the one that was used first.
    pub closed spec fn spec_pipelines(self) -> Seq<GraphicsPipeline> {
        self.group_pipelines@.map_values(|p: Arc<GraphicsPipeline>| *p)
    }

    /// The materials of each pipeline, in the order in which they were loaded.
    pub closed spec fn spec_groups(self) -> Seq<Seq<u32>> {
        group_views(self.groups@)
    }

    /// The materials are numbered in order and grouped by their pipelines.
    pub closed spec fn wf(self) -> bool {
        let entries = name_entries(self.pipelines);
        let groups = group_views(self.groups@);
        &&& self.materials.len() <= u32::MAX
        &&& self.groups.len() <= self.materials.len()
        &&& forall|i: int|
            0 <= i < self.materials.len() ==> (#[trigger] self.materials@[i]).spec_level_index() == i
        &&& names_distinct(entries)
        &&& groups_match(groups, entries, self.materials@)
        &&& self.group_pipelines.len() == entries.len()
        &&& forall|g: int|
            0 <= g < entries.len() ==> (#[trigger] self.group_pipelines@[g]).id@ == entries[g].0
        &&& grouped(groups, self.materials@.len())
        &&& materials_before(groups, groups.len()) == self.materials@.len()
        &&& forall|k: Seq<char>| #[trigger]
            self.resource_path_map@.contains_key(k) ==> self.resource_path_map@[k]
                < self.materials.len()
    }

    /// What a well-formed manager promises: every material stands in the group of its pipeline,
    /// once, and pipelines are listed once.
    pub proof fn wf_means(self)
        requires
            self.wf(),
        ensures
            grouped(self.spec_groups(), self.spec_materials().len()),
            materials_before(self.spec_groups(), self.spec_groups().len())
                == self.spec_materials().len(),
            self.pipeline_ids().len() == self.spec_groups().len(),
            self.pipeline_ids().no_duplicates(),
            forall|m: int, g: int, j: int| #[trigger]
                stands_at(self.spec_groups(), m, g, j)
                    ==> self.spec_materials()[m].spec_pipeline().id@ == self.pipeline_ids()[g],
            forall|i: int|
                0 <= i < self.spec_materials().len() ==> (
                #[trigger] self.spec_materials()[i]).spec_level_index() == i,
            forall|k: Seq<char>| #[trigger]
                self.loaded().contains_key(k) ==> self.loaded()[k] < self.spec_materials().len(),
    {
        let entries = name_entries(self.pipelines);
        let groups = self.spec_groups();
        assert forall|m: int, g: int, j: int| #[trigger] stands_at(groups, m, g, j) implies
            self.spec_materials()[m].spec_pipeline().id@ == self.pipeline_ids()[g] by {
            assert(self.materials@[groups[g][j] as int].spec_pipeline().id@ == entries[g].0);
        }
        assert forall|i: int, j: int|
            0 <= i < self.pipeline_ids().len() && 0 <= j < self.pipeline_ids().len() && i
                != j implies self.pipeline_ids()[i] != self.pipeline_ids()[j] by {
            if i < j {
                assert(entries[i].0 != entries[j].0);
            } else {
                assert(entries[j].0 != entries[i].0);
            }
        }
    }

    /// No materials yet.
    pub fn new() -> (manager: Self)
        ensures
            manager.wf(),
            manager.loaded() == Map::<Seq<char>, u32>::empty(),
            manager.spec_materials() == Seq::<Material>::empty(),
            manager.pipeline_ids() == Seq::<Seq<char>>::empty(),
            manager.spec_pipelines() == Seq::<GraphicsPipeline>::empty(),
    {
        let manager = LoadingMaterialManager {
            resource_path_map: StringHashMap::new(),
            materials: Vec::new(),
            pipelines: new_names(),
            group_pipelines: Vec::new(),
            groups: Vec::new(),
        };
        assert(manager.pipeline_ids() =~= seq![]);
        assert(manager.spec_pipelines() =~= seq![]);
        manager
    }

    /// The material that was loaded for a path.
    pub fn find_material(&self, path: &SubresourcePath) -> (index: Option<u32>)
        ensures
            index == (if self.loaded().contains_key(subresource_key(path@)) {
                Some(self.loaded()[subresource_key(path@)])
            } else {
                None
            }),
    {
        match self.resource_path_map.get(path.key().as_str()) {
            Some(index) => Some(*index),
            None => None,
        }
    }

    /// A loaded material.
    pub fn material(&self, index: u32) -> (material: &Material)
        requires
            index < self.spec_materials().len(),
        ensures
            *material == self.spec_materials()[index as int],
    {
        &self.materials[index as usize]
    }

    /// Adds a material.
    pub fn add_material(
        &mut self,
        path: SubresourcePath,
        pipeline: Arc<GraphicsPipeline>,
        bindings: ResourceBindings,
    ) -> (index: u32)
        requires
            old(self).wf(),
            old(self).spec_materials().len() < u32::MAX,
        ensures
            final(self).wf(),
            index == old(self).spec_materials().len(),
            final(self).loaded() == old(self).loaded().insert(subresource_key(path@), index),
            final(self).spec_materials().len() == index + 1,
            final(self).spec_materials().drop_last() == old(self).spec_materials(),
            final(self).spec_materials().last().spec_path() == path,
            final(self).spec_materials().last().spec_pipeline() == *pipeline,
            final(self).spec_materials().last().bindings() == bindings@,
            final(self).pipeline_ids() == (if old(self).pipeline_ids().contains(pipeline.id@) {
                old(self).pipeline_ids()
            } else {
                old(self).pipeline_ids().push(pipeline.id@)
            }),
            final(self).spec_pipelines() == (if old(self).pipeline_ids().contains(pipeline.id@) {
                old(self).spec_pipelines()
            } else {
                old(self).spec_pipelines().push(*pipeline)
            }),
            final(self).spec_groups() == (if old(self).pipeline_ids().contains(pipeline.id@) {
                let g = old(self).pipeline_ids().index_of(pipeline.id@);
                old(self).spec_groups().update(g, old(self).spec_groups()[g].push(index))
            } else {
                old(self).spec_groups().push(seq![index])
            }),
    {
        let index: u32 = self.materials.len() as u32;
        let ghost entries = name_entries(self.pipelines);
        let ghost groups = group_views(self.groups@);
        let ghost materials = self.materials@;
        let key = path.key();
        let group: usize = match name_index(&self.pipelines, pipeline.id()) {
            Some(group) => {
                proof {
                    assert(entry_at(entries, pipeline.id@, group as int));
                    assert(self.pipeline_ids()[group as int] == pipeline.id@);
                    assert(self.pipeline_ids().contains(pipeline.id@));
                    let g = self.pipeline_ids().index_of(pipeline.id@);
                    assert(entries[g].0 == entries[group as int].0);
                }
                group
            },
            None => {
                let group: usize = name_count(&self.pipelines);
                insert_name(&mut self.pipelines, pipeline.cloned_id(), group as u32);
                self.group_pipelines.push(share(&pipeline));
                self.groups.push(Vec::new());
                proof {
                    let now = name_entries(self.pipelines);
                    assert(now == entries.push((pipeline.id@, group as u32)));
                    insert_keeps_distinct(entries, pipeline.id@, group as u32);
                    assert(!old(self).pipeline_ids().contains(pipeline.id@)) by {
                        if old(self).pipeline_ids().contains(pipeline.id@) {
                            let i = old(self).pipeline_ids().index_of(pipeline.id@);
                            assert(entry_at(entries, pipeline.id@, i));
                        }
                    }
                    assert(self.pipeline_ids() =~= old(self).pipeline_ids().push(pipeline.id@));
                    assert(self.spec_pipelines() =~= old(self).spec_pipelines().push(*pipeline));
                    assert(group_views(self.groups@) =~= groups.push(seq![]));
                    push_empty_group(groups, materials.len());
                    materials_before_same(groups, groups.push(seq![]), groups.len());
                }
                group
            },
        };
        let ghost between = group_views(self.groups@);
        self.groups[group].push(index);
        self.materials.push(Material::new(path, pipeline, bindings, index));
        self.resource_path_map.insert(key, index);
        proof {
            let after = group_views(self.groups@);
            let all = self.materials@;
            let now = name_entries(self.pipelines);
            assert(all.drop_last() =~= materials);
            assert(after =~= between.update(group as int, between[group as int].push(index)));
            assert(after =~= old(self).spec_groups().push(seq![index]) || between == groups);
            push_into_group(between, group as int, index, materials.len());
            materials_before_more(between, group as int, index, between.len());
            assert(now[group as int].0 == pipeline.id@);
            assert(grouped(between, materials.len()));
            assert(groups_match(between, now, materials));
            assert(groups_match(after, now, all)) by {
                assert forall|g: int, j: int|
                    0 <= g < after.len() && 0 <= j < after[g].len() implies all[(
                #[trigger] after[g][j]) as int].spec_pipeline().id@ == now[g].0 by {
                    if g == group && j == between[g].len() {
                        assert(after[g][j] == index);
                    } else {
                        assert(after[g][j] == between[g][j]);
                        assert(between[g][j] < materials.len());
                        assert(all[between[g][j] as int] == materials[between[g][j] as int]);
                    }
                }
            }
        }
        index
    }

    /// The number of pipelines that the materials use.
    pub fn num_pipelines(&self) -> (n: u32)
        requires
            self.wf(),
        ensures
            n == self.pipeline_ids().len(),
    {
        name_count(&self.pipelines) as u32
    }

    /// The materials and the pipelines that they use.
    pub fn finalise_loading(self) -> (loaded: LoadedMaterials)
        requires
            self.wf(),
        ensures
            loaded.materials@ == self.spec_materials(),
            loaded.pipelines.len() == self.pipeline_ids().len(),
            forall|g: int|
                0 <= g < loaded.pipelines.len() ==> (#[trigger] loaded.pipelines@[g]).id@
                    == self.pipeline_ids()[g],
            loaded.pipelines@.map_values(|p: Arc<GraphicsPipeline>| *p) == self.spec_pipelines(),
            group_views(loaded.groups@) == self.spec_groups(),
            loaded.wf(),
    {
        let loaded = LoadedMaterials {
            materials: self.materials,
            pipelines: self.group_pipelines,
            groups: self.groups,
        };
        proof {
            let groups = group_views(loaded.groups@);
            assert forall|m: int, g: int, j: int| #[trigger] stands_at(groups, m, g, j) implies
                loaded.materials@[m].spec_pipeline().id@ == loaded.pipelines@[g].id@ by {
                assert(loaded.materials@[groups[g][j] as int].spec_pipeline().id@ == name_entries(
                    self.pipelines,
                )[g].0);
            }
        }
        loaded
    }
}

proof fn push_empty_group(groups: Seq<Seq<u32>>, n: nat)
    requires
        grouped(groups, n),
    ensures
        grouped(groups.push(seq![]), n),
{
    let more = groups.push(seq![]);
    assert forall|m: int| 0 <= m < n implies #[trigger] stands(more, m) by {
        assert(stands(groups, m));
        let (g, j) = choose|g: int, j: int| #[trigger] stands_at(groups, m, g, j);
        assert(stands_at(more, m, g, j));
    }
    assert forall|g: int, j: int| 0 <= g < more.len() && 0 <= j < more[g].len() implies (
    #[trigger] more[g][j]) < n by {
        assert(more[g][j] == groups[g][j]);
    }
    assert forall|m: int, g: int, j: int, h: int, k: int|
        #![trigger stands_at(more, m, g, j), stands_at(more, m, h, k)]
        stands_at(more, m, g, j) && stands_at(more, m, h, k) implies g == h && j == k by {
        assert(stands_at(groups, m, g, j));
        assert(stands_at(groups, m, h, k));
    }
}

proof fn materials_before_same(a: Seq<Seq<u32>>, b: Seq<Seq<u32>>, n: nat)
    requires
        n <= a.len(),
        n <= b.len(),
        forall|g: int| 0 <= g < n ==> a[g] == b[g],
    ensures
        materials_before(a, n) == materials_before(b, n),
    decreases n,
{
    if n > 0 {
        materials_before_same(a, b, (n - 1) as nat);
    }
}

proof fn materials_before_more(groups: Seq<Seq<u32>>, g0: int, index: u32, n: nat)
    requires
        0 <= g0 < n <= groups.len(),
    ensures
        materials_before(groups.update(g0, groups[g0].push(index)), n) == materials_before(
            groups,
            n,
        ) + 1,
    decreases n,
{
    let more = groups.update(g0, groups[g0].push(index));
    if g0 == n - 1 {
        materials_before_same(groups, more, (n - 1) as nat);
    } else {
        materials_before_more(groups, g0, index, (n - 1) as nat);
    }
}

proof fn push_into_group(groups: Seq<Seq<u32>>, g0: int, index: u32, n: nat)
    requires
        grouped(groups, n),
        0 <= g0 < groups.len(),
        index == n,
    ensures
        grouped(groups.update(g0, groups[g0].push(index)), n + 1),
{
    let more = groups.update(g0, groups[g0].push(index));
    let last = groups[g0].len() as int;
    assert forall|m: int| 0 <= m < n + 1 implies #[trigger] stands(more, m) by {
        if m < n {
            assert(stands(groups, m));
            let (g, j) = choose|g: int, j: int| #[trigger] stands_at(groups, m, g, j);
            assert(stands_at(more, m, g, j));
        } else {
            assert(stands_at(more, m, g0, last));
        }
    }
    assert forall|g: int, j: int| 0 <= g < more.len() && 0 <= j < more[g].len() implies (
    #[trigger] more[g][j]) < n + 1 by {
        if g != g0 || j != last {
            assert(more[g][j] == groups[g][j]);
        }
    }
    assert forall|m: int, g: int, j: int, h: int, k: int|
        #![trigger stands_at(more, m, g, j), stands_at(more, m, h, k)]
        stands_at(more, m, g, j) && stands_at(more, m, h, k) implies g == h && j == k by {
        if m < n {
            assert(stands_at(groups, m, g, j));
            assert(stands_at(groups, m, h, k));
        } else {
            if g != g0 || j != last {
                assert(groups[g][j] < n);
            }
            if h != g0 || k != last {
                assert(groups[h][k] < n);
            }
        }
    }
}

/// The bind points of a pipeline, with the type of value that each takes.
pub struct PipelineBindings {
    pub bind_points: Vec<(String, PipelineBindingDataSize)>,
}

/// The bind points of a pipeline.
pub open spec fn shows_bindings(pipeline: GraphicsPipeline, bindings: PipelineBindings) -> bool {
    &&& bindings.bind_points.len() == pipeline.bindings@.len()
    &&& forall|b: int|
        0 <= b < pipeline.bindings@.len() ==> (#[trigger] bindings.bind_points@[b]).0@
            == pipeline.bindings@[b].0 && bindings.bind_points@[b].1 == pipeline.bindings@[b].1.ty
}

/// Lists the bind points of some pipelines.
pub fn bindings_of(pipelines: &Vec<Arc<GraphicsPipeline>>) -> (bindings: Vec<PipelineBindings>)
    ensures
        bindings.len() == pipelines.len(),
        forall|g: int|
            0 <= g < pipelines.len() ==> shows_bindings(*pipelines@[g], #[trigger] bindings@[g]),
{
    let mut bindings: Vec<PipelineBindings> = Vec::with_capacity(pipelines.len());
    let mut g: usize = 0;
    while g < pipelines.len()
        invariant
            g <= pipelines.len(),
            bindings.len() == g,
            forall|k: int|
                0 <= k < g ==> shows_bindings(*pipelines@[k], #[trigger] bindings@[k]),
        decreases pipelines.len() - g,
    {
        let own = &pipelines[g].bindings;
        let len: usize = own.len();
        let mut bind_points: Vec<(String, PipelineBindingDataSize)> = Vec::with_capacity(len);
        let mut b: usize = 0;
        while b < len
            invariant
                b <= len == own@.len(),
                bind_points.len() == b,
                forall|k: int|
                    0 <= k < b ==> (#[trigger] bind_points@[k]).0@ == own@[k].0 && bind_points@[k].1
                        == own@[k].1.ty,
            decreases len - b,
        {
            if let Some((name, binding)) = own.entry(b) {
                bind_points.push((name.clone(), binding.ty));
            }
            b += 1;
        }
        bindings.push(PipelineBindings { bind_points });
        g += 1;
    }
    bindings
}

/// What a material binds to a bind point.
pub open spec fn slot(material: Material, bind_point: (String, PipelineBindingDataSize)) -> ResourceBinding {
    if material.bindings().contains_key(bind_point.0@) {
        material.bindings()[bind_point.0@]
    } else {
        unbound_binding(bind_point.1)
    }
}

/// What a material binds to the bind points of its pipeline, in order.
pub open spec fn material_slots(material: Material, pipeline: PipelineBindings) -> Seq<
    ResourceBinding,
> {
    pipeline.bind_points@.map_values(|b: (String, PipelineBindingDataSize)| slot(material, b))
}

/// What the first `n` materials of a group bind, in order.
pub open spec fn group_slots(
    materials: Seq<Material>,
    group: Seq<u32>,
    pipeline: PipelineBindings,
    n: nat,
) -> Seq<ResourceBinding>
    decreases n,
{
    if n == 0 {
        seq![]
    } else {
        group_slots(materials, group, pipeline, (n - 1) as nat) + material_slots(
            materials[group[n - 1] as int],
            pipeline,
        )
    }
}

/// What the materials of the first `n` groups bind, in order.
pub open spec fn all_slots(
    materials: Seq<Material>,
    groups: Seq<Seq<u32>>,
    pipelines: Seq<PipelineBindings>,
    n: nat,
) -> Seq<ResourceBinding>
    decreases n,
{
    if n == 0 {
        seq![]
    } else {
        all_slots(materials, groups, pipelines, (n - 1) as nat) + group_slots(
            materials,
            groups[n - 1],
            pipelines[n - 1],
            groups[n - 1].len(),
        )
    }
}

/// The constants that some bindings need: a zero constant first, and one for each constant that
/// is not zero.
pub open spec fn constants_of(slots: Seq<ResourceBinding>) -> Seq<Seq<u32>>
    decreases slots.len(),
{
    if slots.len() == 0 {
        seq![seq![0u32, 0u32, 0u32, 0u32]]
    } else {
        let front = constants_of(slots.drop_last());
        match slots.last() {
            ResourceBinding::Constant(constant) => if constant_zero(constant) {
                front
            } else {
                front.push(constant_data(constant))
            },
            ResourceBinding::Texture(_) => front,
        }
    }
}

/// The reference for binding `i`: a texture, the zero constant, or the constant that it adds.
pub open spec fn ref_of(slots: Seq<ResourceBinding>, i: int) -> u32 {
    match slots[i] {
        ResourceBinding::Texture(index) => (index + TEXTURE_BIT) as u32,
        ResourceBinding::Constant(constant) => if constant_zero(constant) {
            0
        } else {
            constants_of(slots.take(i)).len() as u32
        },
    }
}

/// Every reference leads to what is bound: a texture by its number, a constant to its data.
pub proof fn refs_lead_to_bindings(slots: Seq<ResourceBinding>, i: int)
    requires
        0 <= i < slots.len(),
        slots.len() < TEXTURE_BIT,
        slots[i] matches ResourceBinding::Texture(index) ==> index < TEXTURE_BIT,
    ensures
        match slots[i] {
            ResourceBinding::Texture(index) => ref_of(slots, i) >= TEXTURE_BIT && ref_of(slots, i)
                - TEXTURE_BIT == index,
            ResourceBinding::Constant(constant) => {
                &&& ref_of(slots, i) < TEXTURE_BIT
                &&& ref_of(slots, i) < constants_of(slots).len()
                &&& if constant_zero(constant) {
                    constants_of(slots)[ref_of(slots, i) as int] == seq![0u32, 0u32, 0u32, 0u32]
                } else {
                    constants_of(slots)[ref_of(slots, i) as int] == constant_data(constant)
                }
            },
        },
{
    constants_grow(slots, i as nat, slots.len());
    constants_grow(slots, (i + 1) as nat, slots.len());
    constants_grow(slots, 0, slots.len());
    assert(slots.take(slots.len() as int) =~= slots);
    assert(slots.take(i + 1).drop_last() =~= slots.take(i));
    assert(slots.take(0) =~= seq![]);
}

proof fn constants_grow(slots: Seq<ResourceBinding>, m: nat, n: nat)
    requires
        m <= n <= slots.len(),
    ensures
        1 <= constants_of(slots.take(m as int)).len() <= m + 1,
        constants_of(slots.take(m as int)).len() <= constants_of(slots.take(n as int)).len(),
        constants_of(slots.take(n as int)).len() <= n + 1,
        forall|k: int|
            0 <= k < constants_of(slots.take(m as int)).len() ==> #[trigger] constants_of(
                slots.take(n as int),
            )[k] == constants_of(slots.take(m as int))[k],
    decreases n,
{
    if n > 0 {
        assert(slots.take(n as int).drop_last() =~= slots.take(n - 1));
        if m < n {
            constants_grow(slots, m, (n - 1) as nat);
        } else {
            constants_grow(slots, (n - 1) as nat, (n - 1) as nat);
        }
    }
}

/// The data of all materials: the references of all pipelines one after the other, where those of
/// each pipeline start, and the constants.
pub struct MaterialData {
    pub refs: Vec<u32>,
    pub group_starts: Vec<usize>,
    pub constants: Vec<[u32; 4]>,
}

/// The words of some constants.
pub open spec fn constant_views(constants: Seq<[u32; 4]>) -> Seq<Seq<u32>> {
    constants.map_values(|c: [u32; 4]| c@)
}

/// The textures that some bindings refer to can be referred to.
pub open spec fn textures_in_range(slots: Seq<ResourceBinding>) -> bool {
    forall|i: int|
        0 <= i < slots.len() ==> ((#[trigger] slots[i]) matches ResourceBinding::Texture(index)
            ==> index < TEXTURE_BIT)
}

fn encode_binding(binding: ResourceBinding, refs: &mut Vec<u32>, constants: &mut Vec<[u32; 4]>, slots: Ghost<Seq<ResourceBinding>>)
    requires
        binding matches ResourceBinding::Texture(index) ==> index < TEXTURE_BIT,
        old(constants).len() < TEXTURE_BIT,
        constant_views(old(constants)@) == constants_of(slots@),
        old(refs).len() == slots@.len(),
        forall|i: int| 0 <= i < slots@.len() ==> #[trigger] old(refs)@[i] == ref_of(slots@, i),
    ensures
        constant_views(final(constants)@) == constants_of(slots@.push(binding)),
        final(refs).len() == slots@.len() + 1,
        forall|i: int|
            0 <= i <= slots@.len() ==> #[trigger] final(refs)@[i] == ref_of(
                slots@.push(binding),
                i,
            ),
{
    let ghost all = slots@.push(binding);
    proof {
        assert(all.drop_last() =~= slots@);
        assert(all.take(slots@.len() as int) =~= slots@);
        assert(constants_of(slots@).len() == constants@.len());
    }
    let resource: ResourceRef = match binding {
        ResourceBinding::Texture(index) => ResourceRef::texture(index),
        ResourceBinding::Constant(constant) => constant.write_constant(constants),
    };
    refs.push(resource.0);
    proof {
        let before = constant_views(old(constants)@);
        let after = constant_views(constants@);
        if let ResourceBinding::Constant(constant) = binding {
            if !constant_zero(constant) {
                assert(constants@.drop_last() == old(constants)@);
                assert forall|k: int| 0 <= k < before.len() implies after[k] == before[k] by {
                    assert(constants@.drop_last()[k] == constants@[k]);
                }
                assert(after =~= before.push(constant_data(constant)));
            }
        }
        assert(after =~= constants_of(all));
        assert forall|i: int| 0 <= i <= slots@.len() implies #[trigger] refs@[i] == ref_of(all, i) by {
            if i < slots@.len() {
                assert(refs@[i] == old(refs)@[i]);
                assert(all.take(i) =~= slots@.take(i));
            }
        }
    }
}

/// Encodes the bindings of all materials, pipeline by pipeline.
pub fn encode_materials(
    materials: &Vec<Material>,
    groups: &Vec<Vec<u32>>,
    pipelines: &Vec<PipelineBindings>,
) -> (data: MaterialData)
    requires
        groups.len() == pipelines.len(),
        forall|g: int, j: int|
            0 <= g < groups.len() && 0 <= j < groups@[g].len() ==> (#[trigger] groups@[g]@[j])
                < materials.len(),
        all_slots(materials@, group_views(groups@), pipelines@, groups@.len()).len() < TEXTURE_BIT
            - 1,
        textures_in_range(all_slots(materials@, group_views(groups@), pipelines@, groups@.len())),
    ensures
        ({
            let slots = all_slots(materials@, group_views(groups@), pipelines@, groups@.len());
            &&& data.refs.len() == slots.len()
            &&& forall|i: int| 0 <= i < slots.len() ==> #[trigger] data.refs@[i] == ref_of(slots, i)
            &&& constant_views(data.constants@) == constants_of(slots)
            &&& data.group_starts.len() == groups.len() + 1
            &&& forall|g: int|
                0 <= g <= groups.len() ==> #[trigger] data.group_starts@[g] == all_slots(
                    materials@,
                    group_views(groups@),
                    pipelines@,
                    g as nat,
                ).len()
        }),
{
    let ghost views = group_views(groups@);
    let ghost total = all_slots(materials@, views, pipelines@, groups@.len());
    let mut refs: Vec<u32> = Vec::new();
    let mut group_starts: Vec<usize> = Vec::new();
    let mut constants: Vec<[u32; 4]> = Vec::new();
    let zero: [u32; 4] = [0, 0, 0, 0];
    constants.push(zero);
    let ghost mut slots: Seq<ResourceBinding> = seq![];
    proof {
        assert(zero@ =~= seq![0u32, 0u32, 0u32, 0u32]);
        assert(constant_views(constants@) =~= constants_of(slots));
    }
    let mut g: usize = 0;
    while g < groups.len()
        invariant
            g <= groups.len() == pipelines.len(),
            views == group_views(groups@),
            total == all_slots(materials@, views, pipelines@, groups@.len()),
            total.len() < TEXTURE_BIT - 1,
            textures_in_range(total),
            forall|g: int, j: int|
                0 <= g < groups.len() && 0 <= j < groups@[g].len() ==> (#[trigger] groups@[g]@[j])
                    < materials.len(),
            slots == all_slots(materials@, views, pipelines@, g as nat),
            refs.len() == slots.len(),
            forall|i: int| 0 <= i < slots.len() ==> #[trigger] refs@[i] == ref_of(slots, i),
            constant_views(constants@) == constants_of(slots),
            group_starts.len() == g,
            forall|h: int|
                0 <= h < g ==> #[trigger] group_starts@[h] == all_slots(
                    materials@,
                    views,
                    pipelines@,
                    h as nat,
                ).len(),
        decreases groups.len() - g,
    {
        group_starts.push(refs.len());
        let group = &groups[g];
        let pipeline = &pipelines[g];
        let ghost before = slots;
        assert(views[g as int] == group@);
        let mut j: usize = 0;
        assert(slots =~= before + group_slots(materials@, group@, *pipeline, 0));
        while j < group.len()
            invariant
                g < groups.len() == pipelines.len(),
                j <= group.len(),
                views == group_views(groups@),
                views[g as int] == group@,
                *pipeline == pipelines@[g as int],
                total == all_slots(materials@, views, pipelines@, groups@.len()),
                total.len() < TEXTURE_BIT - 1,
                textures_in_range(total),
                forall|k: int| 0 <= k < group.len() ==> (#[trigger] group@[k]) < materials.len(),
                before == all_slots(materials@, views, pipelines@, g as nat),
                slots == before + group_slots(materials@, group@, *pipeline, j as nat),
                refs.len() == slots.len(),
                forall|i: int| 0 <= i < slots.len() ==> #[trigger] refs@[i] == ref_of(slots, i),
                constant_views(constants@) == constants_of(slots),
            decreases group.len() - j,
        {
            let material = &materials[group[j] as usize];
            let ghost inner = slots;
            let ghost own = material_slots(*material, *pipeline);
            let mut b: usize = 0;
            assert(slots =~= inner + own.take(0));
            while b < pipeline.bind_points.len()
                invariant
                    g < groups.len() == pipelines.len(),
                    j < group.len(),
                    views == group_views(groups@),
                    views[g as int] == group@,
                    *pipeline == pipelines@[g as int],
                    *material == materials@[group@[j as int] as int],
                    total == all_slots(materials@, views, pipelines@, groups@.len()),
                    total.len() < TEXTURE_BIT - 1,
                    textures_in_range(total),
                    before == all_slots(materials@, views, pipelines@, g as nat),
                    inner == before + group_slots(materials@, group@, *pipeline, j as nat),
                    own == material_slots(*material, *pipeline),
                    b <= pipeline.bind_points.len() == own.len(),
                    slots == inner + own.take(b as int),
                    refs.len() == slots.len(),
                    forall|i: int| 0 <= i < slots.len() ==> #[trigger] refs@[i] == ref_of(slots, i),
                    constant_views(constants@) == constants_of(slots),
                decreases pipeline.bind_points.len() - b,
            {
                let bind_point = &pipeline.bind_points[b];
                let binding: ResourceBinding = match material.get_resource_binding(
                    bind_point.0.as_str(),
                ) {
                    Some(binding) => binding,
                    None => bind_point.1.unbound(),
                };
                proof {
                    assert(binding == own[b as int]);
                    slots_prefix(materials@, views, pipelines@, g as nat, groups@.len());
                    group_slots_prefix(
                        materials@,
                        group@,
                        *pipeline,
                        (j + 1) as nat,
                        group@.len(),
                    );
                    let at = slots.len() as int;
                    slots_prefix(materials@, views, pipelines@, (g + 1) as nat, groups@.len());
                    assert(group_slots(materials@, group@, *pipeline, (j + 1) as nat)
                        == group_slots(materials@, group@, *pipeline, j as nat) + own);
                    assert(at == before.len() + group_slots(
                        materials@,
                        group@,
                        *pipeline,
                        j as nat,
                    ).len() + b);
                    assert(group_slots(materials@, group@, *pipeline, (j + 1) as nat)[at
                        - before.len()] == own[b as int]);
                    assert(all_slots(materials@, views, pipelines@, (g + 1) as nat)[at]
                        == group_slots(materials@, group@, *pipeline, group@.len())[at
                        - before.len()]);
                    assert(total[at] == binding);
                    constants_grow(slots, slots.len(), slots.len());
                    assert(slots.take(slots.len() as int) =~= slots);
                    assert(constants@.len() == constants_of(slots).len());
                }
                encode_binding(binding, &mut refs, &mut constants, Ghost(slots));
                proof {
                    assert(slots.push(binding) =~= inner + own.take(b + 1));
                    slots = slots.push(binding);
                }
                b += 1;
            }
            proof {
                assert(own.take(own.len() as int) =~= own);
                assert(slots =~= before + group_slots(
                    materials@,
                    group@,
                    *pipeline,
                    (j + 1) as nat,
                ));
            }
            j += 1;
        }
        g += 1;
    }
    group_starts.push(refs.len());
    MaterialData { refs, group_starts, constants }
}

proof fn slots_prefix(
    materials: Seq<Material>,
    groups: Seq<Seq<u32>>,
    pipelines: Seq<PipelineBindings>,
    m: nat,
    n: nat,
)
    requires
        m <= n,
    ensures
        all_slots(materials, groups, pipelines, m).len() <= all_slots(
            materials,
            groups,
            pipelines,
            n,
        ).len(),
        forall|i: int|
            0 <= i < all_slots(materials, groups, pipelines, m).len() ==> #[trigger] all_slots(
                materials,
                groups,
                pipelines,
                n,
            )[i] == all_slots(materials, groups, pipelines, m)[i],
    decreases n,
{
    if m < n {
        slots_prefix(materials, groups, pipelines, m, (n - 1) as nat);
    }
}

proof fn group_slots_prefix(
    materials: Seq<Material>,
    group: Seq<u32>,
    pipeline: PipelineBindings,
    m: nat,
    n: nat,
)
    requires
        m <= n,
    ensures
        group_slots(materials, group, pipeline, m).len() <= group_slots(
            materials,
            group,
            pipeline,
            n,
        ).len(),
        forall|i: int|
            0 <= i < group_slots(materials, group, pipeline, m).len() ==> #[trigger] group_slots(
                materials,
                group,
                pipeline,
                n,
            )[i] == group_slots(materials, group, pipeline, m)[i],
    decreases n,
{
    if m < n {
        group_slots_prefix(materials, group, pipeline, m, (n - 1) as nat);
    }
}

/// The number of materials in the first `n` groups.
pub open spec fn materials_before(groups: Seq<Seq<u32>>, n: nat) -> nat
    decreases n,
{
    if n == 0 {
        0
    } else {
        materials_before(groups, (n - 1) as nat) + groups[n - 1].len()
    }
}

/// Where the data of material `j` of group `g` is: the materials of a group follow one another,
/// with four bytes for each bind point.
pub open spec fn data_address(addresses: Seq<u64>, binding_counts: Seq<usize>, g: int, j: int) -> int {
    addresses[g] + 4 * (j * binding_counts[g])
}

/// Where the data of the materials of a level is.
pub struct MaterialManager {
    material_indices: Vec<u32>,
    material_data_addresses: Vec<u64>,
}

proof fn materials_before_grows(groups: Seq<Seq<u32>>, m: nat, n: nat)
    requires
        m <= n,
    ensures
        materials_before(groups, m) <= materials_before(groups, n),
    decreases n,
{
    if m < n {
        materials_before_grows(groups, m, (n - 1) as nat);
    }
}

impl MaterialManager {
    pub closed spec fn spec_indices(self) -> Seq<u32> {
        self.material_indices@
    }

    pub closed spec fn spec_addresses(self) -> Seq<u64> {
        self.material_data_addresses@
    }

    /// Every material finds its data through its index.
    pub open spec fn wf(self) -> bool {
        forall|m: int|
            0 <= m < self.spec_indices().len() ==> (#[trigger] self.spec_indices()[m])
                < self.spec_addresses().len()
    }

    /// Records where the data of each material is, given the address of the buffer of each group
    /// and the number of bind points of each pipeline.
    ///
    /// The data is in a different order than the materials, because it is grouped by pipeline.
    pub fn new(
        groups: &Vec<Vec<u32>>,
        addresses: &Vec<u64>,
        binding_counts: &Vec<usize>,
        num_materials: usize,
    ) -> (manager: Self)
        requires
            addresses.len() == groups.len(),
            binding_counts.len() == groups.len(),
            num_materials <= u32::MAX,
            grouped(group_views(groups@), num_materials as nat),
            materials_before(group_views(groups@), groups@.len()) == num_materials,
            forall|g: int|
                0 <= g < groups.len() ==> (#[trigger] addresses@[g]) + 4 * (groups@[g].len()
                    * binding_counts@[g]) <= u64::MAX,
        ensures
            manager.wf(),
            manager.spec_indices().len() == num_materials,
            manager.spec_addresses().len() == num_materials,
            forall|m: int, g: int, j: int| #[trigger]
                stands_at(group_views(groups@), m, g, j) ==> {
                    &&& manager.spec_indices()[m] == materials_before(group_views(groups@), g as nat)
                        + j
                    &&& manager.spec_addresses()[manager.spec_indices()[m] as int] == data_address(
                        addresses@,
                        binding_counts@,
                        g,
                        j,
                    )
                },
    {
        let ghost views = group_views(groups@);
        let mut material_indices: Vec<u32> = Vec::with_capacity(num_materials);
        let mut i: usize = 0;
        while i < num_materials
            invariant
                i <= num_materials,
                material_indices.len() == i,
                forall|k: int| 0 <= k < i ==> material_indices@[k] == 0,
            decreases num_materials - i,
        {
            material_indices.push(0);
            i += 1;
        }
        let mut material_data_addresses: Vec<u64> = Vec::with_capacity(num_materials);
        let mut g: usize = 0;
        while g < groups.len()
            invariant
                g <= groups.len() == addresses.len() == binding_counts.len(),
                num_materials <= u32::MAX,
                views == group_views(groups@),
                grouped(views, num_materials as nat),
                materials_before(views, groups@.len()) == num_materials,
                forall|g: int|
                    0 <= g < groups.len() ==> (#[trigger] addresses@[g]) + 4 * (groups@[g].len()
                        * binding_counts@[g]) <= u64::MAX,
                material_indices.len() == num_materials,
                material_data_addresses.len() == materials_before(views, g as nat),
                forall|k: int|
                    0 <= k < material_indices.len() ==> (#[trigger] material_indices@[k])
                        < num_materials,
                forall|m: int, h: int, j: int| #[trigger]
                    stands_at(views, m, h, j) && h < g ==> {
                        &&& material_indices@[m] == materials_before(views, h as nat) + j
                        &&& materials_before(views, h as nat) + j < material_data_addresses.len()
                        &&& material_data_addresses@[materials_before(views, h as nat) + j]
                            == data_address(addresses@, binding_counts@, h, j)
                    },
            decreases groups.len() - g,
        {
            let group = &groups[g];
            let address: u64 = addresses[g];
            let count: usize = binding_counts[g];
            proof {
                assert(views[g as int] == group@);
                assert(addresses@[g as int] + 4 * (group.len() * count) <= u64::MAX);
                materials_before_grows(views, (g + 1) as nat, groups@.len());
            }
            let mut j: usize = 0;
            while j < group.len()
                invariant
                    g < groups.len() == addresses.len() == binding_counts.len(),
                    num_materials <= u32::MAX,
                    views == group_views(groups@),
                    views[g as int] == group@,
                    grouped(views, num_materials as nat),
                    materials_before(views, g as nat) + group.len() <= num_materials,
                    address == addresses@[g as int],
                    count == binding_counts@[g as int],
                    address + 4 * (group.len() * count) <= u64::MAX,
                    j <= group.len(),
                    material_indices.len() == num_materials,
                    material_data_addresses.len() == materials_before(views, g as nat) + j,
                    forall|k: int|
                        0 <= k < material_indices.len() ==> (#[trigger] material_indices@[k])
                            < num_materials,
                    forall|m: int, h: int, k: int| #[trigger]
                        stands_at(views, m, h, k) && (h < g || (h == g && k < j)) ==> {
                            &&& material_indices@[m] == materials_before(views, h as nat) + k
                            &&& materials_before(views, h as nat) + k
                                < material_data_addresses.len()
                            &&& material_data_addresses@[materials_before(views, h as nat) + k]
                                == data_address(addresses@, binding_counts@, h, k)
                        },
                decreases group.len() - j,
            {
                let m: u32 = group[j];
                let index: u32 = material_data_addresses.len() as u32;
                proof {
                    assert(views[g as int][j as int] < num_materials);
                    assert(stands_at(views, m as int, g as int, j as int));
                    assert(j * count <= group.len() * count) by (nonlinear_arith)
                        requires
                            j <= group.len(),
                            count >= 0,
                    ;
                    assert(0 <= j * count) by (nonlinear_arith);
                    assert(4 * (j * count) <= u64::MAX);
                }
                let offset: u64 = j as u64 * count as u64;
                material_data_addresses.push(address + 4 * offset);
                material_indices.set(m as usize, index);
                j += 1;
            }
            proof {
                assert forall|m: int, h: int, k: int| #[trigger]
                    stands_at(views, m, h, k) && h < g + 1 implies {
                    &&& material_indices@[m] == materials_before(views, h as nat) + k
                    &&& materials_before(views, h as nat) + k < material_data_addresses.len()
                    &&& material_data_addresses@[materials_before(views, h as nat) + k]
                        == data_address(addresses@, binding_counts@, h, k)
                } by {
                    assert(h < g || (h == g && k < group.len()));
                }
            }
            g += 1;
        }
        MaterialManager { material_indices, material_data_addresses }
    }

    /// The position of the data of a material.
    pub fn get_material_index(&self, level_index: u32) -> (index: u32)
        requires
            level_index < self.spec_indices().len(),
        ensures
            index == self.spec_indices()[level_index as int],
    {
        self.material_indices[level_index as usize]
    }

    /// The address of the data of a material.
    pub fn get_material_addr(&self, level_index: u32) -> (address: u64)
        requires
            self.wf(),
            level_index < self.spec_indices().len(),
        ensures
            address == self.spec_addresses()[self.spec_indices()[level_index as int] as int],
    {
        self.material_data_addresses[self.get_material_index(level_index) as usize]
    }
}

/// The size of the buffer of the materials of a pipeline: four bytes for each bind point of each
/// material.
pub fn material_buffer_size(num_materials: usize, num_bindings: usize) -> (size: u64)
    requires
        num_materials * num_bindings * 4 <= usize::MAX,
    ensures
        size == num_materials * num_bindings * 4,
{
    assert(num_materials * num_bindings >= 0) by (nonlinear_arith);
    (num_materials * num_bindings * 4) as u64
}

/// The size of the buffer of constants.
pub fn constants_buffer_size(num_constants: usize) -> (size: u64)
    requires
        num_constants * 16 <= usize::MAX,
    ensures
        size == num_constants * 16,
{
    (num_constants * 16) as u64
}

/// A reference of a shader leads to a binding: the top bit and the number of a texture, or the
/// number of a constant whose words show it.
pub open spec fn leads_to_binding(
    reference: u32,
    constants: Seq<[u32; 4]>,
    binding: ResourceBinding,
) -> bool {
    match binding {
        ResourceBinding::Texture(index) => reference == 0x8000_0000 + index,
        ResourceBinding::Constant(constant) => {
            &&& reference < 0x8000_0000
            &&& reference < constants.len()
            &&& shows_constant(constants[reference as int]@, constant)
        },
    }
}

proof fn group_slot_at(
    materials: Seq<Material>,
    group: Seq<u32>,
    pipeline: PipelineBindings,
    n: nat,
    j: int,
    b: int,
)
    requires
        0 <= j < n,
        0 <= b < pipeline.bind_points@.len(),
    ensures
        group_slots(materials, group, pipeline, n).len() == n * pipeline.bind_points@.len(),
        0 <= j * pipeline.bind_points@.len() + b < n * pipeline.bind_points@.len(),
        group_slots(materials, group, pipeline, n)[j * pipeline.bind_points@.len() + b] == slot(
            materials[group[j] as int],
            pipeline.bind_points@[b],
        ),
    decreases n,
{
    let k = pipeline.bind_points@.len();
    let m = (n - 1) as nat;
    let before = group_slots(materials, group, pipeline, m);
    group_slots_len(materials, group, pipeline, n);
    group_slots_len(materials, group, pipeline, m);
    assert(n * k == m * k + k) by (nonlinear_arith)
        requires
            n == m + 1,
    ;
    if j == m {
        assert(j * k + b == before.len() + b);
    } else {
        group_slot_at(materials, group, pipeline, m, j, b);
    }
}

proof fn group_slots_len(
    materials: Seq<Material>,
    group: Seq<u32>,
    pipeline: PipelineBindings,
    n: nat,
)
    ensures
        group_slots(materials, group, pipeline, n).len() == n * pipeline.bind_points@.len(),
    decreases n,
{
    let k = pipeline.bind_points@.len();
    if n > 0 {
        let m = (n - 1) as nat;
        group_slots_len(materials, group, pipeline, m);
        assert(n * k == m * k + k) by (nonlinear_arith)
            requires
                n == m + 1,
        ;
    } else {
        assert(0 * k == 0);
    }
}

/// For every bind point of its pipeline, the reference of a material leads to what the material
/// binds under the name of the bind point, or to the default where it binds nothing: zero, magenta
/// or straight up. The references of a material stand together, in the order of the bind points,
/// and those of the materials of a pipeline follow one another.
pub proof fn materials_lead_to_their_bindings(
    materials: Seq<Material>,
    groups: Seq<Seq<u32>>,
    pipelines: Seq<PipelineBindings>,
    data: MaterialData,
    g: int,
    j: int,
    b: int,
)
    requires
        ({
            let slots = all_slots(materials, groups, pipelines, groups.len());
            &&& slots.len() < TEXTURE_BIT - 1
            &&& textures_in_range(slots)
            &&& data.refs.len() == slots.len()
            &&& forall|i: int| 0 <= i < slots.len() ==> #[trigger] data.refs@[i] == ref_of(slots, i)
            &&& constant_views(data.constants@) == constants_of(slots)
            &&& data.group_starts.len() == groups.len() + 1
            &&& forall|h: int|
                0 <= h <= groups.len() ==> #[trigger] data.group_starts@[h] == all_slots(
                    materials,
                    groups,
                    pipelines,
                    h as nat,
                ).len()
        }),
        0 <= g < groups.len(),
        0 <= j < groups[g].len(),
        0 <= b < pipelines[g].bind_points@.len(),
    ensures
        ({
            let count = pipelines[g].bind_points@.len();
            let material = materials[groups[g][j] as int];
            let (name, ty) = pipelines[g].bind_points@[b];
            let one = 0x3f80_0000u32;
            let binding = if material.bindings().contains_key(name@) {
                material.bindings()[name@]
            } else {
                ResourceBinding::Constant(
                    match ty {
                        PipelineBindingDataSize::Float => ResourceConstant::Float(0),
                        PipelineBindingDataSize::Float2 => ResourceConstant::Float2(0, 0),
                        PipelineBindingDataSize::Float3 => ResourceConstant::Float3(one, 0, one),
                        PipelineBindingDataSize::Float4 => ResourceConstant::Float4(
                            one,
                            0,
                            one,
                            one,
                        ),
                        PipelineBindingDataSize::Normal => ResourceConstant::Float3(0, 0, one),
                    },
                )
            };
            let i = data.group_starts@[g] + j * count + b;
            &&& data.group_starts@[0] == 0
            &&& data.group_starts@[g + 1] == data.group_starts@[g] + groups[g].len() * count
            &&& 0 <= i < data.refs.len()
            &&& leads_to_binding(data.refs@[i], data.constants@, binding)
        }),
{
    let n = groups.len();
    let slots = all_slots(materials, groups, pipelines, n);
    let count = pipelines[g].bind_points@.len();
    let start = all_slots(materials, groups, pipelines, g as nat);
    let end = all_slots(materials, groups, pipelines, (g + 1) as nat);
    let own = group_slots(materials, groups[g], pipelines[g], groups[g].len());
    group_slot_at(materials, groups[g], pipelines[g], groups[g].len(), j, b);
    slots_prefix(materials, groups, pipelines, (g + 1) as nat, n);
    assert(end == start + own);
    let i = start.len() + (j * count + b);
    assert(end[i] == own[j * count + b]);
    assert(slots[i] == end[i]);
    refs_lead_to_bindings(slots, i);
    assert(data.group_starts@[g] == start.len());
    assert(data.group_starts@[g + 1] == end.len());
    assert(data.refs@[i] == ref_of(slots, i));
    match slots[i] {
        ResourceBinding::Constant(constant) => {
            words_show_constants(constant);
            let r = data.refs@[i] as int;
            assert(constant_views(data.constants@)[r] == data.constants@[r]@);
        },
        ResourceBinding::Texture(_) => {},
    }
}

/// The data of the first material of a pipeline is at the start of its buffer, and that of every
/// other follows the one before it: four bytes for each bind point.
pub proof fn material_data_follow_one_another(
    addresses: Seq<u64>,
    binding_counts: Seq<usize>,
    g: int,
    j: int,
)
    ensures
        data_address(addresses, binding_counts, g, 0) == addresses[g],
        data_address(addresses, binding_counts, g, j + 1) == data_address(
            addresses,
            binding_counts,
            g,
            j,
        ) + 4 * binding_counts[g],
{
    let n = binding_counts[g] as int;
    assert((j + 1) * n == j * n + n) by (nonlinear_arith);
    assert(0 * n == 0);
}

/// The pipelines are counted from zero: before the first group there are no materials, and each
/// group adds its own.
pub proof fn groups_follow_one_another(groups: Seq<Seq<u32>>, g: nat)
    requires
        g < groups.len(),
    ensures
        materials_before(groups, 0) == 0,
        materials_before(groups, g + 1) == materials_before(groups, g) + groups[g as int].len(),
{
}

/// The default material is the one called `default` among the materials of the engine, wherever it
/// is asked for.
pub proof fn default_material_is_of_the_engine(
    relative_to: Option<(ResourcePathBase, Seq<PartView>)>,
)
    ensures
        resolved(DEFAULT_MATERIAL@, relative_to) == Some(
            (
                ResourcePathBase::Engine,
                seq![PartView::Normal("materials"@), PartView::Normal("default"@)],
            ),
        ),
{
    reveal_strlit("/engine/materials/default");
    reveal_strlit("/engine/");
    reveal_strlit("materials");
    reveal_strlit("default");
    let (front, name) = (
        seq![PartView::Normal("materials"@)],
        seq![PartView::Normal("default"@)],
    );
    assert("materials"@.len() == 9 && "default"@.len() == 7);
    let path = seq![PartView::Normal("materials"@), PartView::Normal("default"@)];
    assert(front[0] != PartView::Root);
    render_behind(front, name);
    assert(front + name =~= path);
    assert(is_path(path));
    absolute_paths_name_their_base(path, relative_to);
    assert(DEFAULT_MATERIAL@ =~= "/engine/"@ + render(path));
}

} // verus!
