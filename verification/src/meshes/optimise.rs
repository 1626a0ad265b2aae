//! Optimising the elements of a mesh for the GPU, and putting them together again.

use crate::meshes::indexing::distinct;
#[allow(unused_imports)]
use crate::meshes::indexing::{distinct_extends, distinct_items};
use meshopt::VertexDataAdapter;
use vstd::multiset::Multiset;
use vstd::prelude::*;

verus! {

/// A vertex before quantisation, as the bit patterns of its components: position, normal,
/// texture coordinate, tangent and handedness.
pub type VertexBits = [u32; 12];

/// The vertices that `indices` refer to, in order.
pub open spec fn referenced<T>(vertices: Seq<T>, indices: Seq<u32>) -> Seq<T> {
    indices.map_values(|i: u32| vertices[i as int])
}

/// `indices` are whole triangles of `count` vertices.
pub open spec fn triangle_list(indices: Seq<u32>, count: nat) -> bool {
    &&& indices.len() % 3 == 0
    &&& forall|i: int| 0 <= i < indices.len() ==> (#[trigger] indices[i]) < count
}

/// The triangles of an index buffer.
pub open spec fn triangles(indices: Seq<u32>) -> Seq<(u32, u32, u32)> {
    Seq::new(
        indices.len() / 3,
        |t: int| (indices[3 * t], indices[3 * t + 1], indices[3 * t + 2]),
    )
}

/// What becomes of the vertex `v` where the equal ones among the referenced vertices are merged:
/// its position among the distinct ones, or the largest number for a vertex that nothing refers
/// to.
pub open spec fn remapped(vertices: Seq<VertexBits>, indices: Seq<u32>, v: u32) -> u32 {
    if indices.contains(v) {
        distinct(referenced(vertices, indices)).index_of(vertices[v as int]) as u32
    } else {
        u32::MAX
    }
}

/// `meshopt::generate_vertex_remap` numbers the distinct vertices that an index buffer refers to,
/// in the order in which they first occur; vertices are compared bit by bit. It returns how many
/// there are and the number of every vertex.
#[verifier::external_body]
fn generate_vertex_remap(vertices: &Vec<VertexBits>, indices: &Vec<u32>) -> (remap: (
    usize,
    Vec<u32>,
))
    requires
        vertices.len() < u32::MAX,
        triangle_list(indices@, vertices@.len()),
    ensures
        remap.0 == distinct(referenced(vertices@, indices@)).len(),
        remap.1.len() == vertices.len(),
        forall|v: int|
            0 <= v < vertices.len() ==> #[trigger] remap.1[v] == remapped(
                vertices@,
                indices@,
                v as u32,
            ),
{
    meshopt::generate_vertex_remap(vertices, Some(indices.as_slice()))
}

/// `meshopt::remap_vertex_buffer` moves every vertex with a number to that number; where several
/// have the same one the last stays, and a number without a vertex gets zeros.
#[verifier::external_body]
fn remap_vertex_buffer(vertices: &Vec<VertexBits>, count: usize, remap: &Vec<u32>) -> (result: Vec<
    VertexBits,
>)
    requires
        remap.len() == vertices.len(),
        count <= vertices.len(),
        forall|v: int|
            0 <= v < remap.len() ==> (#[trigger] remap[v]) < count || remap[v] == u32::MAX,
    ensures
        result.len() == count,
        forall|v: int|
            0 <= v < remap.len() && (#[trigger] remap[v]) != u32::MAX && (forall|w: int|
                v < w < remap.len() ==> remap[w] != remap[v]) ==> result[remap[v] as int]
                == vertices[v],
        forall|k: int|
            0 <= k < count && !remap@.contains(k as u32) ==> (#[trigger] result[k])@ == Seq::new(
                12,
                |c: int| 0u32,
            ),
{
    meshopt::remap_vertex_buffer(vertices, count, remap)
}

/// `meshopt::remap_index_buffer` replaces every index by its number.
#[verifier::external_body]
fn remap_index_buffer(indices: &Vec<u32>, count: usize, remap: &Vec<u32>) -> (result: Vec<u32>)
    requires
        triangle_list(indices@, remap@.len()),
        forall|i: int| 0 <= i < indices.len() ==> remap[(#[trigger] indices[i]) as int] != u32::MAX,
    ensures
        result.len() == indices.len(),
        forall|i: int|
            0 <= i < indices.len() ==> #[trigger] result[i] == remap[indices[i] as int],
{
    meshopt::remap_index_buffer(Some(indices.as_slice()), count, remap)
}

/// The order in which `meshopt::optimize_vertex_cache_in_place` leaves the triangles `indices`
/// of `count` vertices.
pub uninterp spec fn vertex_cache_order(indices: Seq<u32>, count: nat) -> Seq<u32>;

/// `meshopt::optimize_vertex_cache_in_place` reorders the triangles of an index buffer; the
/// corners of a triangle keep their order. It counts indices in 32 bits.
#[verifier::external_body]
fn optimize_vertex_cache(indices: &mut Vec<u32>, count: usize)
    requires
        old(indices).len() <= u32::MAX,
        count <= u32::MAX,
        triangle_list(old(indices)@, count as nat),
    ensures
        final(indices)@ == vertex_cache_order(old(indices)@, count as nat),
        final(indices)@.len() == old(indices)@.len(),
        triangles(final(indices)@).to_multiset() == triangles(old(indices)@).to_multiset(),
{
    meshopt::optimize_vertex_cache_in_place(indices, count)
}

/// How much worse the vertex cache may do so that less is drawn over: up to a twentieth. These are
/// the bits of a single precision number.
pub const OVERDRAW_THRESHOLD: u32 = 0x3f86_6666;

/// `meshopt::optimize_overdraw_in_place` reorders the triangles of an index buffer by where they
/// are; the corners of a triangle keep their order. The order that results depends on how the
/// machine rounds, and nothing is stated of it. It counts indices in 32 bits.
#[verifier::external_body]
fn optimize_overdraw(indices: &mut Vec<u32>, vertices: &Vec<VertexBits>, threshold: u32)
    requires
        old(indices).len() <= u32::MAX,
        triangle_list(old(indices)@, vertices@.len()),
    ensures
        final(indices)@.len() == old(indices)@.len(),
        triangles(final(indices)@).to_multiset() == triangles(old(indices)@).to_multiset(),
{
    let stride: usize = std::mem::size_of::<VertexBits>();
    let data = VertexDataAdapter::new(bytemuck::cast_slice(vertices), stride, 0).unwrap();
    meshopt::optimize_overdraw_in_place(indices, &data, bytemuck::cast(threshold))
}

/// `meshopt::optimize_vertex_fetch_in_place` puts the vertices in the order in which the index
/// buffer first refers to them, renumbers the indices accordingly, and returns how many vertices
/// are referred to; the vertices behind those stay as they were.
#[verifier::external_body]
fn optimize_vertex_fetch(indices: &mut Vec<u32>, vertices: &mut Vec<VertexBits>) -> (count: usize)
    requires
        old(vertices).len() < u32::MAX,
        triangle_list(old(indices)@, old(vertices)@.len()),
    ensures
        count == distinct(old(indices)@).len(),
        final(indices)@.len() == old(indices)@.len(),
        forall|i: int|
            0 <= i < final(indices)@.len() ==> #[trigger] final(indices)@[i] == distinct(
                old(indices)@,
            ).index_of(old(indices)@[i]),
        final(vertices)@.len() == old(vertices)@.len(),
        forall|k: int|
            0 <= k < final(vertices)@.len() ==> #[trigger] final(vertices)@[k] == (if k < count {
                old(vertices)@[distinct(old(indices)@)[k] as int]
            } else {
                old(vertices)@[k]
            }),
{
    meshopt::optimize_vertex_fetch_in_place(indices, vertices)
}

/// One element of a mesh, with vertices of its own.
pub struct ElementMesh {
    pub vertices: Vec<VertexBits>,
    pub indices: Vec<u32>,
}

impl ElementMesh {
    /// The indices are whole triangles of the vertices, and can be counted.
    pub open spec fn wf(self) -> bool {
        &&& self.vertices.len() < u32::MAX
        &&& self.indices.len() <= u32::MAX
        &&& triangle_list(self.indices@, self.vertices@.len())
    }
}

/// The index of each referenced vertex among the distinct ones.
pub open spec fn merged_indices(vertices: Seq<VertexBits>, indices: Seq<u32>) -> Seq<u32> {
    indices.map_values(
        |i: u32| distinct(referenced(vertices, indices)).index_of(vertices[i as int]) as u32,
    )
}

/// Takes the triangles of an element out of a mesh: its distinct vertices, and its triangles in
/// the order that suits the vertex cache.
pub fn split_element(vertices: &Vec<VertexBits>, indices: &Vec<u32>) -> (element: ElementMesh)
    requires
        vertices.len() < u32::MAX,
        indices.len() <= u32::MAX,
        triangle_list(indices@, vertices@.len()),
    ensures
        element.wf(),
        element.vertices@ == distinct(referenced(vertices@, indices@)),
        element.indices@ == vertex_cache_order(
            merged_indices(vertices@, indices@),
            element.vertices@.len(),
        ),
        element.indices.len() == indices.len(),
        triangles(element.indices@).to_multiset() == triangles(
            merged_indices(vertices@, indices@),
        ).to_multiset(),
{
    let (count, remap) = generate_vertex_remap(vertices, indices);
    let ghost used = referenced(vertices@, indices@);
    let ghost kept = distinct(used);
    proof {
        distinct_items(used);
        referenced_count(vertices@, indices@);
        assert forall|v: int| 0 <= v < remap.len() implies (#[trigger] remap[v]) < count
            || remap[v] == u32::MAX by {
            if indices@.contains(v as u32) {
                let i = indices@.index_of(v as u32);
                assert(used[i] == vertices[v]);
                assert(used.contains(vertices[v]));
                assert(kept.contains(vertices[v]));
            }
        }
        assert forall|i: int| 0 <= i < indices.len() implies remap[(#[trigger] indices[i]) as int]
            != u32::MAX && remap[indices[i] as int] < count && kept[remap[indices[i] as int] as int]
            == vertices[indices[i] as int] by {
            let v = indices[i] as int;
            assert(indices@.contains(indices[i]));
            assert(remap[v] == remapped(vertices@, indices@, v as u32));
            assert(used[i] == vertices[v]);
            assert(used.contains(vertices[v]));
            assert(kept.contains(vertices[v]));
        }
    }
    let element_vertices = remap_vertex_buffer(vertices, count, &remap);
    let mut element_indices = remap_index_buffer(indices, count, &remap);
    proof {
        assert forall|k: int| 0 <= k < count implies #[trigger] element_vertices[k] == kept[k] by {
            last_with_number(vertices@, indices@, remap@, k);
            let v = choose|v: int|
                0 <= v < remap.len() && #[trigger] remap[v] == k && (forall|w: int|
                    v < w < remap.len() ==> remap[w] != remap[v]);
            assert(indices@.contains(v as u32));
            let i = indices@.index_of(v as u32);
            assert(kept[remap[indices[i] as int] as int] == vertices[indices[i] as int]);
        }
        assert(element_vertices@ =~= kept);
        assert(element_indices@ =~= merged_indices(vertices@, indices@));
    }
    optimize_vertex_cache(&mut element_indices, count);
    proof {
        same_triangles_in_range(merged_indices(vertices@, indices@), element_indices@, count as nat);
    }
    ElementMesh { vertices: element_vertices, indices: element_indices }
}

/// Merging equal vertices leaves the geometry alone: every index refers to a vertex equal to the
/// one that it referred to before.
pub proof fn merge_keeps_geometry(vertices: Seq<VertexBits>, indices: Seq<u32>)
    requires
        vertices.len() < u32::MAX,
        triangle_list(indices, vertices.len()),
    ensures
        referenced(
            distinct(referenced(vertices, indices)),
            merged_indices(vertices, indices),
        ) == referenced(vertices, indices),
{
    let used = referenced(vertices, indices);
    let kept = distinct(used);
    distinct_items(used);
    referenced_count(vertices, indices);
    assert forall|i: int| 0 <= i < indices.len() implies #[trigger] referenced(
        kept,
        merged_indices(vertices, indices),
    )[i] == used[i] by {
        assert(used.contains(used[i]));
        assert(kept.contains(used[i]));
    }
    assert(referenced(kept, merged_indices(vertices, indices)) =~= used);
}

/// There are no more distinct referenced vertices than vertices.
proof fn referenced_count(vertices: Seq<VertexBits>, indices: Seq<u32>)
    requires
        triangle_list(indices, vertices.len()),
    ensures
        distinct(referenced(vertices, indices)).len() <= vertices.len(),
{
    let used = referenced(vertices, indices);
    let kept = distinct(used);
    distinct_items(used);
    let all = vertices.to_set();
    assert(kept.to_set().subset_of(all)) by {
        assert forall|x: VertexBits| kept.to_set().contains(x) implies all.contains(x) by {
            assert(kept.contains(x));
            assert(used.contains(x));
            let i = used.index_of(x);
            assert(vertices[indices[i] as int] == x);
        }
    }
    kept.unique_seq_to_set();
    vertices.lemma_cardinality_of_set();
    vstd::seq_lib::seq_to_set_is_finite(vertices);
    vstd::set_lib::lemma_len_subset(kept.to_set(), all);
}

/// Every number that was given out belongs to some last vertex.
proof fn last_with_number(vertices: Seq<VertexBits>, indices: Seq<u32>, remap: Seq<u32>, k: int)
    requires
        vertices.len() < u32::MAX,
        triangle_list(indices, vertices.len()),
        remap.len() == vertices.len(),
        forall|v: int|
            0 <= v < vertices.len() ==> #[trigger] remap[v] == remapped(vertices, indices, v as u32),
        0 <= k < distinct(referenced(vertices, indices)).len() <= vertices.len(),
    ensures
        exists|v: int|
            0 <= v < remap.len() && #[trigger] remap[v] == k && (forall|w: int|
                v < w < remap.len() ==> remap[w] != remap[v]),
{
    let used = referenced(vertices, indices);
    let kept = distinct(used);
    distinct_items(used);
    assert(kept.contains(kept[k]));
    assert(used.contains(kept[k]));
    let i = used.index_of(kept[k]);
    let v0 = indices[i] as int;
    assert(indices.contains(v0 as u32));
    assert(vertices[v0] == kept[k]);
    assert(remap[v0] == k);
    last_such(remap, k, v0);
}

proof fn last_such(remap: Seq<u32>, k: int, from: int)
    requires
        0 <= from < remap.len(),
        remap[from] == k,
    ensures
        exists|v: int|
            from <= v < remap.len() && #[trigger] remap[v] == k && (forall|w: int|
                v < w < remap.len() ==> remap[w] != remap[v]),
    decreases remap.len() - from,
{
    if exists|w: int| from < w < remap.len() && #[trigger] remap[w] == k {
        let w = choose|w: int| from < w < remap.len() && #[trigger] remap[w] == k;
        last_such(remap, k, w);
    } else {
        assert(remap[from] == k);
    }
}

/// Reordering triangles keeps the indices in range.
proof fn same_triangles_in_range(before: Seq<u32>, after: Seq<u32>, count: nat)
    requires
        triangle_list(before, count),
        after.len() == before.len(),
        triangles(after).to_multiset() == triangles(before).to_multiset(),
    ensures
        triangle_list(after, count),
{
    assert forall|i: int| 0 <= i < after.len() implies (#[trigger] after[i]) < count by {
        let t = i / 3;
        let triangle = triangles(after)[t];
        broadcast use vstd::seq_lib::group_to_multiset_ensures;

        assert(triangles(after).contains(triangle));
        assert(triangles(after).to_multiset().count(triangle) > 0);
        assert(triangles(before).contains(triangle));
        let s = triangles(before).index_of(triangle);
        assert(before[3 * s] < count && before[3 * s + 1] < count && before[3 * s + 2] < count);
    }
}

/// Where an element stands in the buffers of its mesh.
#[derive(Clone, Copy, PartialEq, Eq, Structural, Debug)]
pub struct MeshElementOffset {
    pub vertex_offset: u32,
    pub vertex_count: u32,
    pub index_offset: u32,
    pub index_count: u32,
}

/// The vertices in the order in which `indices` first refer to them; vertices that nothing refers
/// to stay where they are.
pub open spec fn fetch_vertices(vertices: Seq<VertexBits>, indices: Seq<u32>) -> Seq<VertexBits> {
    Seq::new(
        vertices.len(),
        |k: int|
            if k < distinct(indices).len() {
                vertices[distinct(indices)[k] as int]
            } else {
                vertices[k]
            },
    )
}

/// The indices renumbered for that order.
pub open spec fn fetch_indices(indices: Seq<u32>) -> Seq<u32> {
    indices.map_values(|i: u32| distinct(indices).index_of(i) as u32)
}

/// Renumbering for vertex fetch leaves the geometry alone: every index refers to the vertex that
/// it referred to before.
pub proof fn fetch_keeps_geometry(vertices: Seq<VertexBits>, indices: Seq<u32>)
    requires
        vertices.len() < u32::MAX,
        triangle_list(indices, vertices.len()),
    ensures
        triangle_list(fetch_indices(indices), vertices.len()),
        referenced(fetch_vertices(vertices, indices), fetch_indices(indices)) == referenced(
            vertices,
            indices,
        ),
{
    let order = distinct(indices);
    distinct_items(indices);
    distinct_below(indices, vertices.len());
    assert forall|i: int| 0 <= i < indices.len() implies (#[trigger] fetch_indices(indices)[i])
        < order.len() && order[fetch_indices(indices)[i] as int] == indices[i] by {
        assert(indices.contains(indices[i]));
        assert(order.contains(indices[i]));
    }
    assert(referenced(fetch_vertices(vertices, indices), fetch_indices(indices)) =~= referenced(
        vertices,
        indices,
    ));
}

/// Renumbering counts up: an index that occurs for the first time gets the number of different
/// indices before it, and one that occurred before gets the number that it got then.
pub proof fn fetch_counts_up(indices: Seq<u32>, i: int)
    requires
        0 <= i < indices.len(),
        distinct(indices).len() <= u32::MAX,
    ensures
        !indices.take(i).contains(indices[i]) ==> fetch_indices(indices)[i] == distinct(
            indices.take(i),
        ).len(),
        forall|j: int|
            0 <= j < i && #[trigger] indices[j] == indices[i] ==> fetch_indices(indices)[i]
                == fetch_indices(indices)[j],
{
    if !indices.take(i).contains(indices[i]) {
        let (front, order) = (distinct(indices.take(i)), distinct(indices));
        let n = front.len() as int;
        distinct_items(indices);
        distinct_items(indices.take(i));
        assert(indices.take(i + 1).drop_last() =~= indices.take(i));
        assert(distinct(indices.take(i + 1)) == front.push(indices[i]));
        distinct_extends(indices.take(i + 1), indices.skip(i + 1));
        assert(indices.take(i + 1) + indices.skip(i + 1) =~= indices);
        assert(distinct(indices.take(i + 1))[n] == indices[i]);
        assert(order[n] == indices[i]);
        assert(order.contains(indices[i]));
    }
}

/// Where no index occurs twice, renumbering counts them: a single triangle has the indices zero,
/// one and two.
pub proof fn fetch_counts_different(indices: Seq<u32>)
    requires
        indices.no_duplicates(),
        indices.len() <= u32::MAX,
    ensures
        forall|i: int| 0 <= i < indices.len() ==> #[trigger] fetch_indices(indices)[i] == i,
{
    distinct_items(indices);
    assert forall|i: int| 0 <= i < indices.len() implies #[trigger] fetch_indices(indices)[i]
        == i by {
        fetch_counts_up(indices, i);
        different_are_distinct(indices.take(i));
    }
}

proof fn different_are_distinct(s: Seq<u32>)
    requires
        s.no_duplicates(),
    ensures
        distinct(s) == s,
    decreases s.len(),
{
    if s.len() > 0 {
        different_are_distinct(s.drop_last());
        assert(s.drop_last().push(s.last()) =~= s);
    }
}

/// Distinct numbers below `n` are at most `n`.
proof fn distinct_below(s: Seq<u32>, n: nat)
    requires
        forall|i: int| 0 <= i < s.len() ==> (#[trigger] s[i]) < n,
    ensures
        distinct(s).len() <= n,
{
    distinct_items(s);
    let kept = distinct(s);
    let ints = kept.map_values(|x: u32| x as int);
    assert(ints.no_duplicates());
    let below = vstd::set_lib::set_int_range(0, n as int);
    vstd::set_lib::lemma_int_range(0, n as int);
    assert(ints.to_set().subset_of(below)) by {
        assert forall|x: int| ints.to_set().contains(x) implies below.contains(x) by {
            assert(ints.contains(x));
            let i = ints.index_of(x);
            assert(kept.contains(kept[i]));
            assert(s.contains(kept[i]));
        }
    }
    ints.unique_seq_to_set();
    vstd::set_lib::lemma_len_subset(ints.to_set(), below);
}

/// A mesh under construction: the vertices and elements placed so far, and the indices of all
/// elements.
pub struct MeshAssembly {
    pub vertices: Vec<VertexBits>,
    pub indices: Vec<u32>,
    pub elements: Vec<MeshElementOffset>,
}

impl MeshAssembly {
    /// The elements stand one after the other in the vertex buffer.
    pub open spec fn wf(self) -> bool {
        &&& self.vertices.len() <= u32::MAX
        &&& self.indices.len() <= u32::MAX
        &&& self.elements.len() == 0 ==> self.vertices.len() == 0
        &&& self.elements.len() > 0 ==> {
            &&& self.elements@[0].vertex_offset == 0
            &&& self.elements@.last().vertex_offset + self.elements@.last().vertex_count
                == self.vertices.len()
        }
        &&& forall|e: int|
            0 <= e && e + 1 < self.elements.len() ==> (
            #[trigger] self.elements@[e]).vertex_offset + self.elements@[e].vertex_count
                == self.elements@[e + 1].vertex_offset
    }

    /// Starts from the indices of all elements, sorted by element.
    pub fn new(indices: Vec<u32>) -> (assembly: Self)
        requires
            indices.len() <= u32::MAX,
        ensures
            assembly.wf(),
            assembly.indices@ == indices@,
            assembly.vertices@ == Seq::<VertexBits>::empty(),
            assembly.elements@ == Seq::<MeshElementOffset>::empty(),
    {
        MeshAssembly { vertices: Vec::new(), indices, elements: Vec::new() }
    }

    /// Places an element: its vertices in fetch order behind those placed before, its indices at
    /// `index_start`.
    pub fn place_element(&mut self, element: ElementMesh, index_start: usize)
        requires
            old(self).wf(),
            element.wf(),
            index_start + element.indices.len() <= old(self).indices.len(),
            old(self).vertices.len() + element.vertices.len() <= u32::MAX,
        ensures
            final(self).wf(),
            final(self).vertices@ == old(self).vertices@ + fetch_vertices(
                element.vertices@,
                element.indices@,
            ),
            final(self).indices@ == old(self).indices@.take(index_start as int) + fetch_indices(
                element.indices@,
            ) + old(self).indices@.skip(index_start + element.indices@.len()),
            final(self).elements@ == old(self).elements@.push(
                MeshElementOffset {
                    vertex_offset: old(self).vertices@.len() as u32,
                    vertex_count: element.vertices@.len() as u32,
                    index_offset: index_start as u32,
                    index_count: element.indices@.len() as u32,
                },
            ),
    {
        let ElementMesh { vertices: mut vertices, indices: mut indices } = element;
        optimize_vertex_fetch(&mut indices, &mut vertices);
        proof {
            distinct_items(element.indices@);
            distinct_below(element.indices@, element.vertices@.len());
            assert forall|i: int| 0 <= i < indices.len() implies #[trigger] indices@[i]
                == fetch_indices(element.indices@)[i] by {
                assert(element.indices@.contains(element.indices@[i]));
                assert(distinct(element.indices@).contains(element.indices@[i]));
            }
            assert(indices@ =~= fetch_indices(element.indices@));
            assert(vertices@ =~= fetch_vertices(element.vertices@, element.indices@));
        }
        let vertex_offset: u32 = self.vertices.len() as u32;
        let vertex_count: u32 = vertices.len() as u32;
        let index_count: u32 = indices.len() as u32;
        self.vertices.append(&mut vertices);
        let ghost all = self.indices@;
        let mut i: usize = 0;
        while i < indices.len()
            invariant
                i <= indices.len(),
                index_start + indices.len() <= self.indices.len(),
                self.indices@ == all.take(index_start as int) + indices@.take(i as int) + all.skip(
                    index_start + i,
                ),
                self.indices.len() == all.len(),
                self.vertices@ == old(self).vertices@ + fetch_vertices(
                    element.vertices@,
                    element.indices@,
                ),
                self.elements@ == old(self).elements@,
            decreases indices.len() - i,
        {
            self.indices.set(index_start + i, indices[i]);
            i += 1;
            assert(self.indices@ =~= all.take(index_start as int) + indices@.take(i as int)
                + all.skip(index_start + i));
        }
        assert(indices@.take(indices@.len() as int) =~= indices@);
        self.elements.push(
            MeshElementOffset {
                vertex_offset,
                vertex_count,
                index_offset: index_start as u32,
                index_count,
            },
        );
    }
}

/// The triangles that an index buffer draws, as the vertices at their corners, in any order.
pub open spec fn geometry(vertices: Seq<VertexBits>, indices: Seq<u32>) -> Multiset<
    (VertexBits, VertexBits, VertexBits),
> {
    triangles(indices).map_values(corners_at(vertices)).to_multiset()
}

/// The vertices at the corners of a triangle.
pub open spec fn corners_at(vertices: Seq<VertexBits>) -> spec_fn((u32, u32, u32)) -> (
    VertexBits,
    VertexBits,
    VertexBits,
) {
    |t: (u32, u32, u32)| (vertices[t.0 as int], vertices[t.1 as int], vertices[t.2 as int])
}

proof fn same_items_same_images<A, B>(before: Seq<A>, after: Seq<A>, f: spec_fn(A) -> B)
    requires
        after.to_multiset() == before.to_multiset(),
    ensures
        after.map_values(f).to_multiset() == before.map_values(f).to_multiset(),
    decreases after.len(),
{
    broadcast use vstd::seq_lib::group_to_multiset_ensures;

    assert(after.len() == after.to_multiset().len());
    assert(before.len() == before.to_multiset().len());
    if after.len() == 0 {
        assert(after.map_values(f) =~= before.map_values(f));
    } else {
        let last = after.last();
        assert(after.contains(last));
        assert(before.to_multiset().count(last) > 0);
        assert(before.contains(last));
        let j = before.index_of(last);
        let (a, b) = (after.drop_last(), before.remove(j));
        assert(a.push(last) =~= after);
        assert(a.to_multiset() =~= b.to_multiset());
        same_items_same_images(b, a, f);
        assert(after.map_values(f) =~= a.map_values(f).push(f(last)));
        assert(b.map_values(f) =~= before.map_values(f).remove(j));
        assert(before.map_values(f)[j] == f(last));
        assert(before.map_values(f).to_multiset() =~= b.map_values(f).to_multiset().insert(f(last)));
    }
}

/// Index buffers that refer to the same vertices in the same order draw the same triangles.
proof fn same_corners_same_geometry(
    vertices: Seq<VertexBits>,
    indices: Seq<u32>,
    other_vertices: Seq<VertexBits>,
    other_indices: Seq<u32>,
)
    requires
        indices.len() % 3 == 0,
        referenced(vertices, indices) == referenced(other_vertices, other_indices),
    ensures
        geometry(vertices, indices) == geometry(other_vertices, other_indices),
{
    let (corners, other) = (
        referenced(vertices, indices),
        referenced(other_vertices, other_indices),
    );
    assert(corners.len() == indices.len() && other.len() == other_indices.len());
    assert forall|t: int| 0 <= t < indices.len() / 3 implies triangles(indices).map_values(
        corners_at(vertices),
    )[t] == triangles(other_indices).map_values(corners_at(other_vertices))[t] by {
        assert(corners[3 * t] == other[3 * t]);
        assert(corners[3 * t + 1] == other[3 * t + 1]);
        assert(corners[3 * t + 2] == other[3 * t + 2]);
    }
    assert(triangles(indices).map_values(corners_at(vertices)) =~= triangles(
        other_indices,
    ).map_values(corners_at(other_vertices)));
}

/// Reorders triangles so that less is drawn over: the order that comes out is the one that the
/// optimiser leaves them in.
fn reduce_overdraw(order: Vec<u32>, vertices: &Vec<VertexBits>) -> (reduced: Vec<u32>)
    requires
        order.len() <= u32::MAX,
        triangle_list(order@, vertices@.len()),
    ensures
        reduced@.len() == order@.len(),
        triangles(reduced@).to_multiset() == triangles(order@).to_multiset(),
        exists|given: &mut Vec<u32>|
            #[trigger] call_ensures(optimize_overdraw, (given, vertices, OVERDRAW_THRESHOLD), ())
                && given@ == order@ && final(given)@ == reduced@,
{
    let mut reduced = order;
    optimize_overdraw(&mut reduced, vertices, OVERDRAW_THRESHOLD);
    reduced
}

/// `reduced` is the order in which the optimiser left the triangles `order` of some vertices. Only
/// a call of the optimiser shows this.
pub closed spec fn overdraw_reduced(
    order: Seq<u32>,
    vertices: Seq<VertexBits>,
    reduced: Seq<u32>,
) -> bool {
    exists|given: Vec<u32>, corners: &Vec<VertexBits>, made: Vec<u32>|
        #[trigger] call_ensures(reduce_overdraw, (given, corners), made) && given@ == order
            && corners@ == vertices && made@ == reduced
}

/// Optimises an element for drawing: its distinct vertices in the order in which they are read,
/// and its triangles in an order that suits the vertex cache and draws little over.
pub fn optimise_element(vertices: &Vec<VertexBits>, indices: &Vec<u32>) -> (element: ElementMesh)
    requires
        vertices.len() < u32::MAX,
        indices.len() <= u32::MAX,
        triangle_list(indices@, vertices@.len()),
    ensures
        element.wf(),
        element.vertices@ == distinct(referenced(vertices@, indices@)),
        element.indices.len() == indices.len(),
        geometry(element.vertices@, element.indices@) == geometry(vertices@, indices@),
        overdraw_reduced(
            vertex_cache_order(merged_indices(vertices@, indices@), element.vertices@.len()),
            element.vertices@,
            element.indices@,
        ),
{
    let ElementMesh { vertices: kept, indices: order } = split_element(vertices, indices);
    let ghost split = order@;
    let order = reduce_overdraw(order, &kept);
    proof {
        let merged = merged_indices(vertices@, indices@);
        same_triangles_in_range(split, order@, kept@.len());
        same_items_same_images(triangles(merged), triangles(order@), corners_at(kept@));
        merge_keeps_geometry(vertices@, indices@);
        same_corners_same_geometry(kept@, merged, vertices@, indices@);
    }
    ElementMesh { vertices: kept, indices: order }
}

/// The indices of an element.
pub open spec fn indices_in(indices: Seq<u32>, range: (usize, usize)) -> Seq<u32> {
    indices.subrange(range.0 as int, range.1 as int)
}

/// The ranges divide `len` indices into whole triangles, one range after the other.
pub open spec fn ranges_divide(ranges: Seq<(usize, usize)>, len: int) -> bool {
    &&& forall|e: int|
        0 <= e < ranges.len() ==> (#[trigger] ranges[e]).0 <= ranges[e].1 <= len && ranges[e].0 % 3
            == 0 && ranges[e].1 % 3 == 0
    &&& ranges.len() > 0 ==> ranges[0].0 == 0
    &&& forall|e: int|
        0 <= e && e + 1 < ranges.len() ==> (#[trigger] ranges[e]).1 == ranges[e + 1].0
}

/// The vertices of an element of an assembled mesh.
pub open spec fn vertices_in(vertices: Seq<VertexBits>, element: MeshElementOffset) -> Seq<
    VertexBits,
> {
    vertices.subrange(
        element.vertex_offset as int,
        element.vertex_offset + element.vertex_count,
    )
}

/// `vertices` and `indices` are the triangles `order` of the vertices `kept`, put in the order in
/// which they are read.
pub open spec fn in_fetch_order(
    kept: Seq<VertexBits>,
    order: Seq<u32>,
    vertices: Seq<VertexBits>,
    indices: Seq<u32>,
) -> bool {
    &&& order.len() == indices.len()
    &&& triangle_list(order, kept.len())
    &&& vertices == fetch_vertices(kept, order)
    &&& indices == fetch_indices(order)
}

/// Element `e` of an assembled mesh draws what the indices in its range drew before: its triangles
/// are in the order that the optimisers left them in, its distinct vertices are put in the order in
/// which they are read, and its indices refer to these alone.
pub open spec fn element_kept(
    vertices: Seq<VertexBits>,
    indices: Seq<u32>,
    range: (usize, usize),
    assembly: MeshAssembly,
    e: int,
) -> bool {
    let element = assembly.elements@[e];
    let kept = distinct(referenced(vertices, indices_in(indices, range)));
    let own_vertices = vertices_in(assembly.vertices@, element);
    let own_indices = indices_in(assembly.indices@, range);
    &&& element.index_offset == range.0
    &&& element.index_count == range.1 - range.0
    &&& element.vertex_count == kept.len()
    &&& element.vertex_offset + element.vertex_count <= assembly.vertices.len()
    &&& triangle_list(own_indices, element.vertex_count as nat)
    &&& exists|order: Seq<u32>| #[trigger]
        in_fetch_order(kept, order, own_vertices, own_indices) && overdraw_reduced(
            vertex_cache_order(merged_indices(vertices, indices_in(indices, range)), kept.len()),
            kept,
            order,
        )
    &&& geometry(own_vertices, own_indices) == geometry(vertices, indices_in(indices, range))
}

/// Optimises every element of a mesh, and puts the elements together: the vertices of each
/// element stand together, and its indices, in its range, count from the first of them.
#[verifier::rlimit(40)]
pub fn optimise_mesh(
    vertices: &Vec<VertexBits>,
    indices: &Vec<u32>,
    ranges: &Vec<(usize, usize)>,
) -> (assembly: MeshAssembly)
    requires
        vertices.len() < u32::MAX,
        indices.len() <= u32::MAX,
        triangle_list(indices@, vertices@.len()),
        ranges_divide(ranges@, indices.len() as int),
    ensures
        assembly.wf(),
        assembly.indices.len() == indices.len(),
        assembly.elements.len() == ranges.len(),
        forall|e: int|
            0 <= e < ranges.len() ==> #[trigger] element_kept(
                vertices@,
                indices@,
                ranges@[e],
                assembly,
                e,
            ),
{
    let mut assembly = MeshAssembly::new(copy_indices(indices, 0, indices.len()));
    assert(indices@.subrange(0, indices.len() as int) =~= indices@);
    let mut e: usize = 0;
    while e < ranges.len()
        invariant
            e <= ranges.len(),
            vertices.len() < u32::MAX,
            indices.len() <= u32::MAX,
            triangle_list(indices@, vertices@.len()),
            ranges_divide(ranges@, indices.len() as int),
            assembly.wf(),
            assembly.indices.len() == indices.len(),
            assembly.elements.len() == e,
            e == 0 ==> assembly.vertices.len() == 0,
            e > 0 ==> assembly.vertices.len() <= ranges@[e - 1].1,
            forall|k: int|
                0 <= k < e ==> #[trigger] element_kept(vertices@, indices@, ranges@[k], assembly, k),
        decreases ranges.len() - e,
    {
        let range: (usize, usize) = ranges[e];
        let ghost (before, sub) = (assembly, indices_in(indices@, range));
        proof {
            assert(ranges@[e as int].0 <= ranges@[e as int].1);
            if e > 0 {
                assert(ranges@[e - 1].1 == ranges@[e as int].0);
            }
            distinct_items(referenced(vertices@, sub));
        }
        let element = optimise_element(vertices, &copy_indices(indices, range.0, range.1));
        let ghost (own_vertices, own_indices) = (element.vertices@, element.indices@);
        assembly.place_element(element, range.0);
        proof {
            assert(overdraw_reduced(
                vertex_cache_order(merged_indices(vertices@, sub), own_vertices.len()),
                own_vertices,
                own_indices,
            ));
            assert(placed(before, own_vertices, own_indices, range, assembly));
            new_element_kept(vertices@, indices@, range, before, own_vertices, own_indices, assembly);
            assert forall|k: int| 0 <= k < e implies #[trigger] element_kept(
                vertices@,
                indices@,
                ranges@[k],
                assembly,
                k,
            ) by {
                assert(element_kept(vertices@, indices@, ranges@[k], before, k));
                ranges_ascend(ranges@, indices.len() as int, k, e as int);
                old_element_kept(
                    vertices@,
                    indices@,
                    ranges@[k],
                    k,
                    before,
                    own_vertices,
                    own_indices,
                    range,
                    assembly,
                );
            }
        }
        e += 1;
    }
    assembly
}

/// An element of one triangle with three different corners has the indices zero, one and two.
pub proof fn lone_triangle_counts_up(
    vertices: Seq<VertexBits>,
    indices: Seq<u32>,
    range: (usize, usize),
    assembly: MeshAssembly,
    e: int,
)
    requires
        element_kept(vertices, indices, range, assembly, e),
        range.1 == range.0 + 3,
        range.1 <= indices.len(),
        range.1 <= assembly.indices.len(),
        distinct(referenced(vertices, indices_in(indices, range))).len() == 3,
    ensures
        indices_in(assembly.indices@, range) == seq![0u32, 1u32, 2u32],
{
    broadcast use vstd::seq_lib::group_to_multiset_ensures;

    let sub = indices_in(indices, range);
    let used = referenced(vertices, sub);
    let kept = distinct(used);
    let own_vertices = vertices_in(assembly.vertices@, assembly.elements@[e]);
    let own = indices_in(assembly.indices@, range);
    let order = choose|order: Seq<u32>| #[trigger]
        in_fetch_order(kept, order, own_vertices, own);
    all_distinct(used);
    let before = triangles(sub).map_values(corners_at(vertices));
    let after = triangles(own).map_values(corners_at(own_vertices));
    assert(before.len() == 1 && after.len() == 1);
    assert(after.contains(after[0]));
    assert(after.to_multiset().count(after[0]) > 0);
    assert(before.contains(after[0]));
    assert(after[0] == before[0]);
    assert(used[0] != used[1] && used[0] != used[2] && used[1] != used[2]);
    assert(before[0] == (used[0], used[1], used[2]));
    assert(own[0] != own[1] && own[0] != own[2] && own[1] != own[2]);
    assert(fetch_indices(order)[0] == own[0] && fetch_indices(order)[1] == own[1]
        && fetch_indices(order)[2] == own[2]);
    assert(order.no_duplicates());
    fetch_counts_different(order);
    assert(own =~= seq![0u32, 1u32, 2u32]);
}

/// A sequence of which nothing is left out holds nothing twice.
proof fn all_distinct<T>(s: Seq<T>)
    requires
        distinct(s).len() == s.len(),
    ensures
        s.no_duplicates(),
    decreases s.len(),
{
    if s.len() > 0 {
        let front = s.drop_last();
        distinct_items(front);
        all_distinct(front);
        assert forall|i: int, j: int| 0 <= i < s.len() && 0 <= j < s.len() && i != j implies s[i]
            != s[j] by {
            if i == s.len() - 1 {
                assert(front.contains(front[j]));
            } else if j == s.len() - 1 {
                assert(front.contains(front[i]));
            } else {
                assert(front[i] != front[j]);
            }
        }
    }
}

/// An element with the given vertices and indices was placed in a range.
spec fn placed(
    before: MeshAssembly,
    own_vertices: Seq<VertexBits>,
    own_indices: Seq<u32>,
    range: (usize, usize),
    after: MeshAssembly,
) -> bool {
    &&& own_vertices.len() < u32::MAX
    &&& triangle_list(own_indices, own_vertices.len())
    &&& before.vertices@.len() + own_vertices.len() <= u32::MAX
    &&& range.0 + own_indices.len() == range.1 <= before.indices.len() <= u32::MAX
    &&& after.vertices@ == before.vertices@ + fetch_vertices(own_vertices, own_indices)
    &&& after.indices@ == before.indices@.take(range.0 as int) + fetch_indices(own_indices)
        + before.indices@.skip(range.1 as int)
    &&& after.elements@ == before.elements@.push(
        MeshElementOffset {
            vertex_offset: before.vertices@.len() as u32,
            vertex_count: own_vertices.len() as u32,
            index_offset: range.0 as u32,
            index_count: own_indices.len() as u32,
        },
    )
}

proof fn new_element_kept(
    vertices: Seq<VertexBits>,
    indices: Seq<u32>,
    range: (usize, usize),
    before: MeshAssembly,
    own_vertices: Seq<VertexBits>,
    own_indices: Seq<u32>,
    after: MeshAssembly,
)
    requires
        placed(before, own_vertices, own_indices, range, after),
        own_vertices == distinct(referenced(vertices, indices_in(indices, range))),
        geometry(own_vertices, own_indices) == geometry(vertices, indices_in(indices, range)),
        overdraw_reduced(
            vertex_cache_order(
                merged_indices(vertices, indices_in(indices, range)),
                own_vertices.len(),
            ),
            own_vertices,
            own_indices,
        ),
    ensures
        element_kept(vertices, indices, range, after, before.elements@.len() as int),
{
    fetch_keeps_geometry(own_vertices, own_indices);
    same_corners_same_geometry(
        own_vertices,
        own_indices,
        fetch_vertices(own_vertices, own_indices),
        fetch_indices(own_indices),
    );
    let last = after.elements@[before.elements@.len() as int];
    assert(vertices_in(after.vertices@, last) =~= fetch_vertices(own_vertices, own_indices));
    assert(indices_in(after.indices@, range) =~= fetch_indices(own_indices));
    assert(in_fetch_order(
        own_vertices,
        own_indices,
        vertices_in(after.vertices@, last),
        indices_in(after.indices@, range),
    ));
}

proof fn old_element_kept(
    vertices: Seq<VertexBits>,
    indices: Seq<u32>,
    old_range: (usize, usize),
    k: int,
    before: MeshAssembly,
    own_vertices: Seq<VertexBits>,
    own_indices: Seq<u32>,
    range: (usize, usize),
    after: MeshAssembly,
)
    requires
        placed(before, own_vertices, own_indices, range, after),
        0 <= k < before.elements@.len(),
        element_kept(vertices, indices, old_range, before, k),
        old_range.0 <= old_range.1 <= range.0,
    ensures
        element_kept(vertices, indices, old_range, after, k),
{
    let kept = before.elements@[k];
    assert(after.elements@[k] == kept);
    assert(vertices_in(after.vertices@, kept) =~= vertices_in(before.vertices@, kept));
    assert(indices_in(after.indices@, old_range) =~= indices_in(before.indices@, old_range));
}

/// Ranges that divide something come one after the other.
proof fn ranges_ascend(ranges: Seq<(usize, usize)>, len: int, i: int, j: int)
    requires
        ranges_divide(ranges, len),
        0 <= i < j < ranges.len(),
    ensures
        ranges[i].1 <= ranges[j].0,
    decreases j - i,
{
    assert(ranges[i].1 == ranges[i + 1].0);
    if i + 1 < j {
        ranges_ascend(ranges, len, i + 1, j);
        assert(ranges[i + 1].0 <= ranges[i + 1].1);
    }
}

/// Copies a range of indices.
fn copy_indices(indices: &Vec<u32>, start: usize, end: usize) -> (copy: Vec<u32>)
    requires
        start <= end <= indices.len(),
    ensures
        copy@ == indices@.subrange(start as int, end as int),
{
    let mut copy: Vec<u32> = Vec::with_capacity(end - start);
    let mut i: usize = start;
    while i < end
        invariant
            start <= i <= end <= indices.len(),
            copy@ == indices@.subrange(start as int, i as int),
        decreases end - i,
    {
        copy.push(indices[i]);
        i += 1;
        assert(copy@ =~= indices@.subrange(start as int, i as int));
    }
    copy
}

} // verus!
