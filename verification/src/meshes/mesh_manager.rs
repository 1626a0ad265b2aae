//! The meshes of a level while it is loaded, and the megabuffer that holds all of them.

use crate::maths::{div_ceil, grid_size_for_count};
#[allow(unused_imports)]
use crate::maths::{is_grid, rows_for};
use crate::meshes::mesh::Mesh;
use crate::meshes::buffer::MeshBuffer;
use crate::meshes::optimise::MeshElementOffset;
use crate::resource_paths::ResourcePath;
#[allow(unused_imports)]
use crate::resource_paths::resource_key;
use vstd::hash_map::StringHashMap;
use vstd::prelude::*;

verus! {

/// The number of work groups that a dispatch can have in each dimension.
pub const MAX_DISPATCH_GROUPS_PER_DIMENSION: u32 = 65535;

/// How many places of a dispatch grid may be left unused.
pub const MAX_UNUSED_GROUPS: u32 = 5;

/// The buffers that the megabuffer shaders read and write.
pub const NUM_MEGABUFFER_STORAGE_BUFFERS: usize = 6;

/// The pipeline that copies vertices into the megabuffer.
pub const VERTEX_COPY_PIPELINE_ID: &'static str = "/engine/megabuffer/vertex_copy";

/// The pipeline that copies indices into the megabuffer.
pub const INDEX_COPY_PIPELINE_ID: &'static str = "/engine/megabuffer/index_copy";

/// The size of a vertex of the vertex megabuffer: a position and a texture coordinate.
pub const MEGABUFFER_VERTEX_SIZE: u64 = 20;

/// The size of an index of the index megabuffer.
pub const MEGABUFFER_INDEX_SIZE: u64 = 4;

/// The number of elements of the first `n` meshes.
pub open spec fn elements_before(meshes: Seq<Mesh>, n: nat) -> nat
    decreases n,
{
    if n == 0 {
        0
    } else {
        elements_before(meshes, (n - 1) as nat) + meshes[n - 1].spec_elements().len()
    }
}

/// The number of vertices of the first `n` meshes.
pub open spec fn vertices_before(meshes: Seq<Mesh>, n: nat) -> nat
    decreases n,
{
    if n == 0 {
        0
    } else {
        vertices_before(meshes, (n - 1) as nat) + meshes[n - 1].spec_buffer().spec_num_vertices() as nat
    }
}

/// The number of indices of the first `n` meshes.
pub open spec fn indices_before(meshes: Seq<Mesh>, n: nat) -> nat
    decreases n,
{
    if n == 0 {
        0
    } else {
        indices_before(meshes, (n - 1) as nat) + meshes[n - 1].spec_buffer().spec_num_indices() as nat
    }
}

/// The meshes are numbered in order, and so are their elements.
pub open spec fn meshes_numbered(meshes: Seq<Mesh>) -> bool {
    &&& meshes.len() <= u32::MAX
    &&& elements_before(meshes, meshes.len()) <= u32::MAX
    &&& forall|i: int|
        0 <= i < meshes.len() ==> {
            &&& (#[trigger] meshes[i]).wf()
            &&& meshes[i].spec_level_index() == i
            &&& meshes[i].spec_level_element_offset() == elements_before(meshes, i as nat)
        }
}

/// The meshes that were loaded for a level so far.
pub struct LoadingMeshManager {
    resource_path_map: StringHashMap<u32>,
    meshes: Vec<Mesh>,
    element_offset: u32,
}

impl LoadingMeshManager {
    /// The mesh that was loaded for each resource.
    pub closed spec fn loaded(self) -> Map<Seq<char>, u32> {
        self.resource_path_map@
    }

    pub closed spec fn spec_meshes(self) -> Seq<Mesh> {
        self.meshes@
    }

    /// The meshes are numbered in the order in which they were loaded, one resource each.
    pub closed spec fn wf(self) -> bool {
        &&& meshes_numbered(self.meshes@)
        &&& self.element_offset == elements_before(self.meshes@, self.meshes@.len())
        &&& forall|k: Seq<char>| #[trigger]
            self.resource_path_map@.contains_key(k) ==> self.resource_path_map@[k] < self.meshes.len()
    }

    /// What a well-formed manager promises.
    pub proof fn wf_numbered(self)
        requires
            self.wf(),
        ensures
            meshes_numbered(self.spec_meshes()),
            forall|k: Seq<char>| #[trigger]
                self.loaded().contains_key(k) ==> self.loaded()[k] < self.spec_meshes().len(),
    {
    }

    /// No meshes yet.
    pub fn new() -> (manager: Self)
        ensures
            manager.wf(),
            manager.loaded() == Map::<Seq<char>, u32>::empty(),
            manager.spec_meshes() == Seq::<Mesh>::empty(),
    {
        LoadingMeshManager {
            resource_path_map: StringHashMap::new(),
            meshes: Vec::new(),
            element_offset: 0,
        }
    }

    /// The mesh that was loaded for a resource.
    pub fn find_mesh(&self, resource_path: &ResourcePath) -> (index: Option<u32>)
        ensures
            index == (if self.loaded().contains_key(resource_key(resource_path@)) {
                Some(self.loaded()[resource_key(resource_path@)])
            } else {
                None
            }),
    {
        match self.resource_path_map.get(resource_path.key().as_str()) {
            Some(index) => Some(*index),
            None => None,
        }
    }

    /// A loaded mesh.
    pub fn mesh(&self, index: u32) -> (mesh: &Mesh)
        requires
            index < self.spec_meshes().len(),
        ensures
            *mesh == self.spec_meshes()[index as int],
    {
        &self.meshes[index as usize]
    }

    /// Adds the mesh that was loaded for a resource.
    pub fn add_mesh(
        &mut self,
        resource_path: &ResourcePath,
        buffer: MeshBuffer,
        elements: Vec<MeshElementOffset>,
    ) -> (index: u32)
        requires
            old(self).wf(),
            buffer.wf(),
            old(self).spec_meshes().len() < u32::MAX,
            elements_before(old(self).spec_meshes(), old(self).spec_meshes().len())
                + elements.len() <= u32::MAX,
        ensures
            final(self).wf(),
            index == old(self).spec_meshes().len(),
            final(self).loaded() == old(self).loaded().insert(
                resource_key(resource_path@),
                index,
            ),
            final(self).spec_meshes().len() == index + 1,
            final(self).spec_meshes().drop_last() == old(self).spec_meshes(),
            final(self).spec_meshes().last().spec_buffer() == buffer,
            final(self).spec_meshes().last().spec_elements() == elements@,
    {
        let index: u32 = self.meshes.len() as u32;
        let mesh = Mesh::new(buffer, elements, index, self.element_offset);
        let ghost before = self.meshes@;
        self.element_offset = self.element_offset + mesh.num_elements();
        self.resource_path_map.insert(resource_path.key(), index);
        self.meshes.push(mesh);
        proof {
            let after = self.meshes@;
            assert(after.drop_last() =~= before);
            assert forall|n: nat| n <= before.len() implies elements_before(after, n)
                == elements_before(before, n) by {
                elements_before_prefix(before, after, n);
            }
            assert(elements_before(after, after.len()) == elements_before(before, before.len())
                + mesh.spec_elements().len());
        }
        index
    }

    /// The loaded meshes.
    pub fn finalise_loading(self) -> (meshes: Vec<Mesh>)
        requires
            self.wf(),
        ensures
            meshes@ == self.spec_meshes(),
            meshes_numbered(meshes@),
    {
        self.meshes
    }
}

proof fn elements_before_prefix(front: Seq<Mesh>, all: Seq<Mesh>, n: nat)
    requires
        n <= front.len() <= all.len(),
        forall|i: int| 0 <= i < front.len() ==> all[i] == front[i],
    ensures
        elements_before(all, n) == elements_before(front, n),
    decreases n,
{
    if n > 0 {
        elements_before_prefix(front, all, (n - 1) as nat);
    }
}

/// The buffer that a vertex or index of the megabuffer comes from, and where that buffer starts
/// in the megabuffer.
#[derive(Clone, Copy, PartialEq, Eq, Structural, Debug)]
pub struct MeshBufferOffset {
    pub buffer_index: u32,
    pub offset: u32,
}

/// What to draw for a mesh element.
#[derive(Clone, Copy, PartialEq, Eq, Structural, Debug)]
pub struct MeshElementDrawData {
    pub vertex_offset: i32,
    pub first_index: u32,
    pub index_count: u32,
}

/// What the shader that copies into the megabuffer is told.
#[derive(Clone, Copy, PartialEq, Eq, Structural, Debug)]
pub struct MegabufferPushConstants {
    pub group_count_x: u32,
    pub num_threads: u32,
}

/// The elements of the first `n` meshes, in order.
pub open spec fn all_elements(meshes: Seq<Mesh>, n: nat) -> Seq<MeshElementOffset>
    decreases n,
{
    if n == 0 {
        seq![]
    } else {
        all_elements(meshes, (n - 1) as nat) + meshes[n - 1].spec_elements()
    }
}

/// The vertices of the first `n` elements.
pub open spec fn element_vertices(elements: Seq<MeshElementOffset>, n: nat) -> nat
    decreases n,
{
    if n == 0 {
        0
    } else {
        element_vertices(elements, (n - 1) as nat) + elements[n - 1].vertex_count as nat
    }
}

/// The indices of the first `n` elements.
pub open spec fn element_indices(elements: Seq<MeshElementOffset>, n: nat) -> nat
    decreases n,
{
    if n == 0 {
        0
    } else {
        element_indices(elements, (n - 1) as nat) + elements[n - 1].index_count as nat
    }
}

/// What to draw for element `k`: its indices behind those of the elements before it, and its
/// vertices likewise.
pub open spec fn draw_data(elements: Seq<MeshElementOffset>, k: int) -> MeshElementDrawData {
    MeshElementDrawData {
        vertex_offset: (element_vertices(elements, k as nat) as u32) as i32,
        first_index: element_indices(elements, k as nat) as u32,
        index_count: elements[k].index_count,
    }
}

/// Everything in the megabuffer can be numbered.
pub open spec fn megabuffer_fits(meshes: Seq<Mesh>) -> bool {
    let elements = all_elements(meshes, meshes.len());
    &&& vertices_before(meshes, meshes.len()) <= u32::MAX
    &&& indices_before(meshes, meshes.len()) <= u32::MAX
    &&& element_vertices(elements, elements.len()) <= u32::MAX
    &&& element_indices(elements, elements.len()) <= u32::MAX
}

proof fn element_sums_grow(elements: Seq<MeshElementOffset>, m: nat, n: nat)
    requires
        m <= n,
    ensures
        element_vertices(elements, m) <= element_vertices(elements, n),
        element_indices(elements, m) <= element_indices(elements, n),
    decreases n,
{
    if m < n {
        element_sums_grow(elements, m, (n - 1) as nat);
    }
}

proof fn mesh_sums_grow(meshes: Seq<Mesh>, m: nat, n: nat)
    requires
        m <= n,
    ensures
        vertices_before(meshes, m) <= vertices_before(meshes, n),
        indices_before(meshes, m) <= indices_before(meshes, n),
        elements_before(meshes, m) <= elements_before(meshes, n),
    decreases n,
{
    if m < n {
        mesh_sums_grow(meshes, m, (n - 1) as nat);
    }
}

/// The elements of mesh `i` stand together among all elements, at its element offset.
proof fn all_elements_of_mesh(meshes: Seq<Mesh>, n: nat, i: int)
    requires
        0 <= i < n,
    ensures
        all_elements(meshes, n).len() == elements_before(meshes, n),
        elements_before(meshes, i as nat) + meshes[i].spec_elements().len() <= elements_before(
            meshes,
            n,
        ),
        all_elements(meshes, n).subrange(
            elements_before(meshes, i as nat) as int,
            (elements_before(meshes, i as nat) + meshes[i].spec_elements().len()) as int,
        ) == meshes[i].spec_elements(),
    decreases n,
{
    all_elements_len(meshes, n);
    all_elements_len(meshes, (n - 1) as nat);
    let from = elements_before(meshes, i as nat) as int;
    let to = from + meshes[i].spec_elements().len();
    if i == n - 1 {
        assert(all_elements(meshes, n).subrange(from, to) =~= meshes[i].spec_elements());
    } else {
        all_elements_of_mesh(meshes, (n - 1) as nat, i);
        assert(all_elements(meshes, n).subrange(from, to) =~= all_elements(
            meshes,
            (n - 1) as nat,
        ).subrange(from, to));
    }
}

proof fn all_elements_len(meshes: Seq<Mesh>, n: nat)
    ensures
        all_elements(meshes, n).len() == elements_before(meshes, n),
    decreases n,
{
    if n > 0 {
        all_elements_len(meshes, (n - 1) as nat);
    }
}

/// The meshes of a level.
pub struct MeshManager {
    meshes: Vec<Mesh>,
    element_draw_data: Vec<MeshElementDrawData>,
    num_vertices: u32,
    num_indices: u32,
}

impl MeshManager {
    pub closed spec fn spec_meshes(self) -> Seq<Mesh> {
        self.meshes@
    }

    pub closed spec fn spec_element_draw_data(self) -> Seq<MeshElementDrawData> {
        self.element_draw_data@
    }

    /// The draw data are those of the elements of the meshes, and the totals those of the meshes.
    pub closed spec fn wf(self) -> bool {
        let elements = all_elements(self.meshes@, self.meshes@.len());
        &&& meshes_numbered(self.meshes@)
        &&& megabuffer_fits(self.meshes@)
        &&& self.num_vertices == vertices_before(self.meshes@, self.meshes@.len())
        &&& self.num_indices == indices_before(self.meshes@, self.meshes@.len())
        &&& self.element_draw_data.len() == elements.len()
        &&& forall|k: int|
            0 <= k < elements.len() ==> #[trigger] self.element_draw_data@[k] == draw_data(
                elements,
                k,
            )
    }

    /// What a well-formed manager promises.
    pub proof fn wf_means(self)
        requires
            self.wf(),
        ensures
            meshes_numbered(self.spec_meshes()),
            megabuffer_fits(self.spec_meshes()),
            self.spec_element_draw_data() == Seq::new(
                all_elements(self.spec_meshes(), self.spec_meshes().len()).len(),
                |k: int| draw_data(all_elements(self.spec_meshes(), self.spec_meshes().len()), k),
            ),
    {
        assert(self.spec_element_draw_data() =~= Seq::new(
            all_elements(self.spec_meshes(), self.spec_meshes().len()).len(),
            |k: int| draw_data(all_elements(self.spec_meshes(), self.spec_meshes().len()), k),
        ));
    }

    /// Takes over the meshes that were loaded.
    pub fn new(meshes: Vec<Mesh>) -> (manager: Self)
        requires
            meshes_numbered(meshes@),
            megabuffer_fits(meshes@),
        ensures
            manager.wf(),
            manager.spec_meshes() == meshes@,
    {
        let ghost elements = all_elements(meshes@, meshes@.len());
        let mut num_vertices: u32 = 0;
        let mut num_indices: u32 = 0;
        let mut element_draw_data: Vec<MeshElementDrawData> = Vec::new();
        let mut vertex_offset: u32 = 0;
        let mut first_index: u32 = 0;
        let mut i: usize = 0;
        proof {
            all_elements_len(meshes@, meshes@.len());
        }
        while i < meshes.len()
            invariant
                i <= meshes.len(),
                meshes_numbered(meshes@),
                megabuffer_fits(meshes@),
                elements == all_elements(meshes@, meshes@.len()),
                num_vertices == vertices_before(meshes@, i as nat),
                num_indices == indices_before(meshes@, i as nat),
                element_draw_data.len() == elements_before(meshes@, i as nat),
                elements_before(meshes@, i as nat) <= elements.len(),
                vertex_offset == element_vertices(elements, element_draw_data@.len()),
                first_index == element_indices(elements, element_draw_data@.len()),
                forall|k: int|
                    0 <= k < element_draw_data.len() ==> #[trigger] element_draw_data@[k]
                        == draw_data(elements, k),
            decreases meshes.len() - i,
        {
            let mesh = &meshes[i];
            proof {
                mesh_sums_grow(meshes@, (i + 1) as nat, meshes@.len());
                all_elements_of_mesh(meshes@, meshes@.len(), i as int);
            }
            num_vertices = num_vertices + mesh.num_vertices();
            num_indices = num_indices + mesh.num_indices();
            let n: usize = mesh.num_elements() as usize;
            let ghost start = element_draw_data@.len();
            let mut e: usize = 0;
            while e < n
                invariant
                    e <= n,
                    n == mesh.spec_elements().len(),
                    start + n <= elements.len(),
                    elements.subrange(start as int, start + n) == mesh.spec_elements(),
                    element_vertices(elements, elements.len()) <= u32::MAX,
                    element_indices(elements, elements.len()) <= u32::MAX,
                    element_draw_data.len() == start + e,
                    vertex_offset == element_vertices(elements, element_draw_data@.len()),
                    first_index == element_indices(elements, element_draw_data@.len()),
                    forall|k: int|
                        0 <= k < element_draw_data.len() ==> #[trigger] element_draw_data@[k]
                            == draw_data(elements, k),
                decreases n - e,
            {
                let element: MeshElementOffset = mesh.element(e);
                proof {
                    assert(elements.subrange(start as int, start + n)[e as int] == elements[start
                        + e]);
                    element_sums_grow(elements, (start + e + 1) as nat, elements.len());
                }
                element_draw_data.push(
                    MeshElementDrawData {
                        vertex_offset: vertex_offset as i32,
                        first_index,
                        index_count: element.index_count,
                    },
                );
                vertex_offset = vertex_offset + element.vertex_count;
                first_index = first_index + element.index_count;
                e += 1;
            }
            i += 1;
        }
        MeshManager { meshes, element_draw_data, num_vertices, num_indices }
    }

    /// The meshes.
    pub fn meshes(&self) -> (meshes: &Vec<Mesh>)
        ensures
            meshes@ == self.spec_meshes(),
    {
        &self.meshes
    }

    /// The number of vertices of all meshes.
    pub fn num_vertices(&self) -> (n: u32)
        requires
            self.wf(),
        ensures
            n == vertices_before(self.spec_meshes(), self.spec_meshes().len()),
    {
        self.num_vertices
    }

    /// The number of indices of all meshes.
    pub fn num_indices(&self) -> (n: u32)
        requires
            self.wf(),
        ensures
            n == indices_before(self.spec_meshes(), self.spec_meshes().len()),
    {
        self.num_indices
    }

    /// The sizes of the vertex megabuffer and of the index megabuffer.
    pub fn megabuffer_sizes(&self) -> (sizes: (u64, u64))
        requires
            self.wf(),
        ensures
            sizes.0 == vertices_before(self.spec_meshes(), self.spec_meshes().len())
                * MEGABUFFER_VERTEX_SIZE,
            sizes.1 == indices_before(self.spec_meshes(), self.spec_meshes().len())
                * MEGABUFFER_INDEX_SIZE,
    {
        (
            self.num_vertices as u64 * MEGABUFFER_VERTEX_SIZE,
            self.num_indices as u64 * MEGABUFFER_INDEX_SIZE,
        )
    }

    /// The buffer that each vertex of the megabuffer comes from.
    pub fn vertex_offsets(&self) -> (offsets: Vec<MeshBufferOffset>)
        requires
            self.wf(),
        ensures
            offsets.len() == vertices_before(self.spec_meshes(), self.spec_meshes().len()),
            forall|i: int, v: int|
                #![trigger self.spec_meshes()[i], offsets@[v]]
                0 <= i < self.spec_meshes().len() && vertices_before(self.spec_meshes(), i as nat)
                    <= v < vertices_before(self.spec_meshes(), (i + 1) as nat) ==> offsets@[v] == (
                MeshBufferOffset {
                    buffer_index: i as u32,
                    offset: vertices_before(self.spec_meshes(), i as nat) as u32,
                }),
    {
        let mut offsets: Vec<MeshBufferOffset> = Vec::with_capacity(self.num_vertices as usize);
        let mut i: usize = 0;
        while i < self.meshes.len()
            invariant
                self.wf(),
                i <= self.meshes.len(),
                offsets.len() == vertices_before(self.meshes@, i as nat),
                offsets.len() <= u32::MAX,
                forall|j: int, v: int|
                    #![trigger self.meshes@[j], offsets@[v]]
                    0 <= j < i && vertices_before(self.meshes@, j as nat) <= v < vertices_before(
                        self.meshes@,
                        (j + 1) as nat,
                    ) ==> offsets@[v] == (MeshBufferOffset {
                        buffer_index: j as u32,
                        offset: vertices_before(self.meshes@, j as nat) as u32,
                    }),
            decreases self.meshes.len() - i,
        {
            let offset: u32 = offsets.len() as u32;
            let n: u32 = self.meshes[i].num_vertices();
            let ghost before = offsets@;
            let mut v: u32 = 0;
            while v < n
                invariant
                    v <= n,
                    i <= u32::MAX,
                    offsets.len() == before.len() + v,
                    before.len() == offset,
                    forall|u: int| 0 <= u < before.len() ==> offsets@[u] == before[u],
                    forall|u: int|
                        before.len() <= u < offsets.len() ==> #[trigger] offsets@[u] == (
                        MeshBufferOffset { buffer_index: i as u32, offset }),
                decreases n - v,
            {
                offsets.push(MeshBufferOffset { buffer_index: i as u32, offset });
                v += 1;
            }
            proof {
                mesh_sums_grow(self.meshes@, (i + 1) as nat, self.meshes@.len());
                assert forall|j: int, v: int|
                    #![trigger self.meshes@[j], offsets@[v]]
                    0 <= j < i + 1 && vertices_before(self.meshes@, j as nat) <= v
                        < vertices_before(self.meshes@, (j + 1) as nat) implies offsets@[v] == (
                MeshBufferOffset {
                    buffer_index: j as u32,
                    offset: vertices_before(self.meshes@, j as nat) as u32,
                }) by {
                    if j < i {
                        mesh_sums_grow(self.meshes@, (j + 1) as nat, i as nat);
                        assert(before[v] == offsets@[v]);
                    }
                }
            }
            i += 1;
        }
        offsets
    }

    /// The buffer that each index of the megabuffer comes from.
    pub fn index_offsets(&self) -> (offsets: Vec<MeshBufferOffset>)
        requires
            self.wf(),
        ensures
            offsets.len() == indices_before(self.spec_meshes(), self.spec_meshes().len()),
            forall|i: int, v: int|
                #![trigger self.spec_meshes()[i], offsets@[v]]
                0 <= i < self.spec_meshes().len() && indices_before(self.spec_meshes(), i as nat)
                    <= v < indices_before(self.spec_meshes(), (i + 1) as nat) ==> offsets@[v] == (
                MeshBufferOffset {
                    buffer_index: i as u32,
                    offset: indices_before(self.spec_meshes(), i as nat) as u32,
                }),
    {
        let mut offsets: Vec<MeshBufferOffset> = Vec::with_capacity(self.num_indices as usize);
        let mut i: usize = 0;
        while i < self.meshes.len()
            invariant
                self.wf(),
                i <= self.meshes.len(),
                offsets.len() == indices_before(self.meshes@, i as nat),
                offsets.len() <= u32::MAX,
                forall|j: int, v: int|
                    #![trigger self.meshes@[j], offsets@[v]]
                    0 <= j < i && indices_before(self.meshes@, j as nat) <= v < indices_before(
                        self.meshes@,
                        (j + 1) as nat,
                    ) ==> offsets@[v] == (MeshBufferOffset {
                        buffer_index: j as u32,
                        offset: indices_before(self.meshes@, j as nat) as u32,
                    }),
            decreases self.meshes.len() - i,
        {
            let offset: u32 = offsets.len() as u32;
            let n: u32 = self.meshes[i].num_indices();
            let ghost before = offsets@;
            let mut v: u32 = 0;
            while v < n
                invariant
                    v <= n,
                    i <= u32::MAX,
                    offsets.len() == before.len() + v,
                    before.len() == offset,
                    forall|u: int| 0 <= u < before.len() ==> offsets@[u] == before[u],
                    forall|u: int|
                        before.len() <= u < offsets.len() ==> #[trigger] offsets@[u] == (
                        MeshBufferOffset { buffer_index: i as u32, offset }),
                decreases n - v,
            {
                offsets.push(MeshBufferOffset { buffer_index: i as u32, offset });
                v += 1;
            }
            proof {
                mesh_sums_grow(self.meshes@, (i + 1) as nat, self.meshes@.len());
                assert forall|j: int, v: int|
                    #![trigger self.meshes@[j], offsets@[v]]
                    0 <= j < i + 1 && indices_before(self.meshes@, j as nat) <= v < indices_before(
                        self.meshes@,
                        (j + 1) as nat,
                    ) implies offsets@[v] == (MeshBufferOffset {
                    buffer_index: j as u32,
                    offset: indices_before(self.meshes@, j as nat) as u32,
                }) by {
                    if j < i {
                        mesh_sums_grow(self.meshes@, (j + 1) as nat, i as nat);
                        assert(before[v] == offsets@[v]);
                    }
                }
            }
            i += 1;
        }
        offsets
    }

    /// The addresses of the vertices and of the indices of each mesh.
    pub fn buffer_addresses(&self) -> (addresses: (Vec<u64>, Vec<u64>))
        requires
            self.wf(),
        ensures
            addresses.0@ == self.spec_meshes().map_values(
                |m: Mesh| m.spec_buffer().spec_device_address(),
            ),
            addresses.1@ == self.spec_meshes().map_values(
                |m: Mesh|
                    (m.spec_buffer().spec_device_address()
                        + m.spec_buffer().spec_indices_offset()) as u64,
            ),
    {
        let mut vertices: Vec<u64> = Vec::with_capacity(self.meshes.len());
        let mut indices: Vec<u64> = Vec::with_capacity(self.meshes.len());
        let mut i: usize = 0;
        while i < self.meshes.len()
            invariant
                self.wf(),
                i <= self.meshes.len(),
                vertices.len() == i,
                indices.len() == i,
                forall|k: int|
                    0 <= k < i ==> vertices@[k]
                        == self.meshes@[k].spec_buffer().spec_device_address(),
                forall|k: int|
                    0 <= k < i ==> indices@[k] == self.meshes@[k].spec_buffer().spec_device_address()
                        + self.meshes@[k].spec_buffer().spec_indices_offset(),
            decreases self.meshes.len() - i,
        {
            assert(self.meshes@[i as int].wf());
            vertices.push(self.meshes[i].buffer().vertices_addr());
            indices.push(self.meshes[i].buffer().indices_addr());
            i += 1;
        }
        proof {
            assert(vertices@ =~= self.spec_meshes().map_values(
                |m: Mesh| m.spec_buffer().spec_device_address(),
            ));
            assert(indices@ =~= self.spec_meshes().map_values(
                |m: Mesh|
                    (m.spec_buffer().spec_device_address()
                        + m.spec_buffer().spec_indices_offset()) as u64,
            ));
        }
        (vertices, indices)
    }

    /// What to draw for the elements of a mesh of the level.
    pub fn get_element_draw_data_for_mesh(&self, mesh: &Mesh) -> (data: &[MeshElementDrawData])
        requires
            self.wf(),
            mesh.spec_level_index() < self.spec_meshes().len(),
            *mesh == self.spec_meshes()[mesh.spec_level_index() as int],
        ensures
            data@ == self.spec_element_draw_data().subrange(
                mesh.spec_level_element_offset() as int,
                mesh.spec_level_element_offset() + mesh.spec_elements().len(),
            ),
            data@.len() == mesh.spec_elements().len(),
            mesh.spec_level_element_offset() + mesh.spec_elements().len()
                <= self.spec_element_draw_data().len(),
            forall|e: int|
                0 <= e < data@.len() ==> (#[trigger] data@[e]).index_count
                    == mesh.spec_elements()[e].index_count,
    {
        proof {
            let i = mesh.spec_level_index() as int;
            all_elements_of_mesh(self.meshes@, self.meshes@.len(), i);
            assert(self.meshes@[i].wf());
        }
        let (start, end) = mesh.level_element_range();
        let data = &self.element_draw_data[start..end];
        proof {
            let elements = all_elements(self.meshes@, self.meshes@.len());
            assert forall|e: int| 0 <= e < data@.len() implies (#[trigger] data@[e]).index_count
                == mesh.spec_elements()[e].index_count by {
                assert(data@[e] == self.element_draw_data@[start + e]);
                assert(elements.subrange(start as int, end as int)[e] == elements[start + e]);
            }
        }
        data
    }
}

/// The elements of a level are drawn from ranges of the index megabuffer that follow one another.
pub proof fn draw_ranges_contiguous(elements: Seq<MeshElementOffset>, k: int)
    requires
        0 <= k,
        k + 1 < elements.len(),
        element_indices(elements, elements.len()) <= u32::MAX,
    ensures
        draw_data(elements, 0).first_index == 0,
        draw_data(elements, k).first_index + draw_data(elements, k).index_count == draw_data(
            elements,
            k + 1,
        ).first_index,
{
    element_sums_grow(elements, (k + 1) as nat, elements.len());
}

/// The work groups that copy `count` items, where each group has `threads` threads; nothing where
/// no grid of work groups would do.
pub fn copy_dispatch(count: u32, threads: u32) -> (groups: Option<(u32, u32)>)
    requires
        threads > 0,
    ensures
        ({
            let total = rows_for(count as int, threads as int);
            match groups {
                Some((x, y)) => {
                    &&& total <= x * y <= total + MAX_UNUSED_GROUPS
                    &&& x <= MAX_DISPATCH_GROUPS_PER_DIMENSION
                    &&& y <= MAX_DISPATCH_GROUPS_PER_DIMENSION
                    &&& is_grid(
                        total,
                        MAX_UNUSED_GROUPS as int,
                        MAX_DISPATCH_GROUPS_PER_DIMENSION as int,
                        x as int,
                        y as int,
                    )
                },
                None => {
                    ||| total >= MAX_DISPATCH_GROUPS_PER_DIMENSION
                        * MAX_DISPATCH_GROUPS_PER_DIMENSION
                    ||| exists|x: int, y: int| #[trigger]
                        is_grid(
                            total,
                            MAX_UNUSED_GROUPS as int,
                            MAX_DISPATCH_GROUPS_PER_DIMENSION as int,
                            x,
                            y,
                        ) && (x > MAX_DISPATCH_GROUPS_PER_DIMENSION || y
                            > MAX_DISPATCH_GROUPS_PER_DIMENSION)
                },
            }
        }),
{
    let total: u32 = div_ceil(count, threads);
    match grid_size_for_count(total, MAX_UNUSED_GROUPS, MAX_DISPATCH_GROUPS_PER_DIMENSION) {
        Some((x, y)) => {
            if x > MAX_DISPATCH_GROUPS_PER_DIMENSION || y > MAX_DISPATCH_GROUPS_PER_DIMENSION {
                return None;
            }
            Some((x, y))
        },
        None => None,
    }
}

/// The storage buffers of the megabuffer shaders.
#[derive(Clone, Copy, PartialEq, Eq, Structural, Debug)]
pub enum MegabufferBinding {
    VertexOffsets,
    VertexBuffers,
    VertexMegabuffer,
    IndexOffsets,
    IndexBuffers,
    IndexMegabuffer,
}

/// The storage buffers in the order of their bindings.
pub fn megabuffer_bindings() -> (bindings: [MegabufferBinding; 6])
    ensures
        bindings@ == seq![
            MegabufferBinding::VertexOffsets,
            MegabufferBinding::VertexBuffers,
            MegabufferBinding::VertexMegabuffer,
            MegabufferBinding::IndexOffsets,
            MegabufferBinding::IndexBuffers,
            MegabufferBinding::IndexMegabuffer,
        ],
{
    [
        MegabufferBinding::VertexOffsets,
        MegabufferBinding::VertexBuffers,
        MegabufferBinding::VertexMegabuffer,
        MegabufferBinding::IndexOffsets,
        MegabufferBinding::IndexBuffers,
        MegabufferBinding::IndexMegabuffer,
    ]
}

/// In the megabuffer the vertices, the indices and the elements of every mesh follow those of the
/// mesh before it, and those of the first mesh come first.
pub proof fn meshes_follow_one_another(meshes: Seq<Mesh>, i: nat)
    requires
        i < meshes.len(),
    ensures
        vertices_before(meshes, 0) == 0,
        indices_before(meshes, 0) == 0,
        elements_before(meshes, 0) == 0,
        vertices_before(meshes, i + 1) == vertices_before(meshes, i)
            + meshes[i as int].spec_buffer().spec_num_vertices(),
        indices_before(meshes, i + 1) == indices_before(meshes, i)
            + meshes[i as int].spec_buffer().spec_num_indices(),
        elements_before(meshes, i + 1) == elements_before(meshes, i)
            + meshes[i as int].spec_elements().len(),
{
}

/// Every element is drawn with as many indices as it has, and its vertices and indices start where
/// those of the element before it end.
pub proof fn elements_follow_one_another(elements: Seq<MeshElementOffset>, k: int)
    requires
        0 <= k,
        k + 1 < elements.len(),
        element_vertices(elements, elements.len()) <= i32::MAX,
        element_indices(elements, elements.len()) <= u32::MAX,
    ensures
        draw_data(elements, 0).vertex_offset == 0,
        draw_data(elements, 0).first_index == 0,
        draw_data(elements, k).index_count == elements[k].index_count,
        draw_data(elements, k + 1).vertex_offset == draw_data(elements, k).vertex_offset
            + elements[k].vertex_count,
        draw_data(elements, k + 1).first_index == draw_data(elements, k).first_index
            + elements[k].index_count,
{
    element_sums_grow(elements, k as nat, elements.len());
    element_sums_grow(elements, (k + 1) as nat, elements.len());
    let (a, b) = (
        element_vertices(elements, k as nat),
        element_vertices(elements, (k + 1) as nat),
    );
    assert(b == a + elements[k].vertex_count);
    assert(element_indices(elements, (k + 1) as nat) == element_indices(elements, k as nat)
        + elements[k].index_count);
    assert(element_vertices(elements, 0) == 0 && element_indices(elements, 0) == 0);
    assert(a <= 0x7fff_ffff ==> (a as u32) as i32 == a);
    assert(b <= 0x7fff_ffff ==> (b as u32) as i32 == b);
}

/// The megabuffer is filled by two pipelines of the engine, one for vertices and one for indices;
/// a vertex has five words, and an index one.
pub proof fn megabuffer_is_filled_by_its_pipelines()
    ensures
        VERTEX_COPY_PIPELINE_ID@ == "/engine/megabuffer/vertex_copy"@,
        INDEX_COPY_PIPELINE_ID@ == "/engine/megabuffer/index_copy"@,
        MEGABUFFER_VERTEX_SIZE == 4 * 5,
        MEGABUFFER_INDEX_SIZE == 4,
        MAX_DISPATCH_GROUPS_PER_DIMENSION == 65535,
        MAX_UNUSED_GROUPS == 5,
{
}

} // verus!
