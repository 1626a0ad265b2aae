//! Indexing: one vertex per distinct corner, triangles sorted by mesh element, and the range of
//! indices that each element takes.

use crate::sort::stable_order;
#[allow(unused_imports)]
use crate::sort::{is_stable_order, stands_before, SortKey};
use vstd::prelude::*;

verus! {

/// The distinct items of `s`, in the order in which they first occur.
pub open spec fn distinct<T>(s: Seq<T>) -> Seq<T>
    decreases s.len(),
{
    if s.len() == 0 {
        seq![]
    } else {
        let front = distinct(s.drop_last());
        if front.contains(s.last()) {
            front
        } else {
            front.push(s.last())
        }
    }
}

/// The items that `distinct` keeps are those of the sequence, each once.
pub proof fn distinct_items<T>(s: Seq<T>)
    ensures
        distinct(s).no_duplicates(),
        distinct(s).len() <= s.len(),
        forall|x: T| #[trigger] distinct(s).contains(x) <==> s.contains(x),
    decreases s.len(),
{
    if s.len() > 0 {
        let front = s.drop_last();
        let kept = distinct(front);
        let all = distinct(s);
        distinct_items(front);
        assert(all == if kept.contains(s.last()) {
            kept
        } else {
            kept.push(s.last())
        });
        assert forall|x: T| s.contains(x) implies #[trigger] all.contains(x) by {
            let i = s.index_of(x);
            assert(s[i] == x);
            if i < front.len() {
                assert(front[i] == x);
                assert(front.contains(x));
                assert(kept.contains(x));
            }
            if kept.contains(x) {
                let j = kept.index_of(x);
                assert(all[j] == x);
            } else {
                assert(all[kept.len() as int] == x);
            }
        }
        assert forall|x: T| #[trigger] all.contains(x) implies s.contains(x) by {
            let j = all.index_of(x);
            assert(all[j] == x);
            if j < kept.len() {
                assert(kept[j] == x);
                assert(kept.contains(x));
                let i = front.index_of(x);
                assert(s[i] == x);
            } else {
                assert(s[s.len() - 1] == x);
            }
        }
    }
}

/// What follows a sequence does not move the items that were already kept.
pub proof fn distinct_extends<T>(s: Seq<T>, t: Seq<T>)
    ensures
        distinct(s).len() <= distinct(s + t).len(),
        forall|i: int| 0 <= i < distinct(s).len() ==> distinct(s + t)[i] == distinct(s)[i],
    decreases t.len(),
{
    if t.len() == 0 {
        assert(s + t =~= s);
    } else {
        distinct_extends(s, t.drop_last());
        assert((s + t).drop_last() =~= s + t.drop_last());
    }
}

/// What a polygon stores for each of its corners.
#[derive(Clone, Copy, PartialEq, Eq, Structural, Debug)]
pub enum CornerFormat {
    /// The position.
    P,
    /// The position and the texture coordinate.
    PT,
    /// The position and the normal.
    PN,
    /// The position, the texture coordinate and the normal.
    PTN,
}

/// A polygon of a model; the corners are `(position, texture coordinate, normal)` and are kept
/// only where all three are stored.
pub enum Polygon {
    P,
    PT,
    PN,
    PTN(Vec<(usize, usize, usize)>),
}

impl View for Polygon {
    type V = (CornerFormat, Seq<(usize, usize, usize)>);

    open spec fn view(&self) -> Self::V {
        match *self {
            Polygon::P => (CornerFormat::P, seq![]),
            Polygon::PT => (CornerFormat::PT, seq![]),
            Polygon::PN => (CornerFormat::PN, seq![]),
            Polygon::PTN(corners) => (CornerFormat::PTN, corners@),
        }
    }
}

/// The polygons of a model that share a material, as ranges of polygon indices.
pub struct PolygonGroup {
    pub material: String,
    pub ranges: Vec<(usize, usize)>,
}

/// The views of some polygons.
pub open spec fn polygon_views(polygons: Seq<Polygon>) -> Seq<(CornerFormat, Seq<(usize, usize, usize)>)> {
    polygons.map_values(|p: Polygon| p@)
}

/// How many positions, texture coordinates and normals a model stores.
#[derive(Clone, Copy, PartialEq, Eq, Structural, Debug)]
pub struct AttributeCounts {
    pub positions: usize,
    pub tex_coords: usize,
    pub normals: usize,
}

/// A model that cannot be turned into a mesh.
#[derive(Clone, Copy, PartialEq, Eq, Structural, Debug)]
pub enum MeshFault {
    NoNormalsNoTexCoords,
    NoNormals,
    NoTexCoords,
    NotTriangulated,
    IndexOutOfRange,
    TooManyVertices,
}

/// The corner refers to stored attributes.
pub open spec fn corner_in_range(corner: (usize, usize, usize), counts: AttributeCounts) -> bool {
    corner.0 < counts.positions && corner.1 < counts.tex_coords && corner.2 < counts.normals
}

/// Why a polygon cannot be part of a mesh, if it cannot.
pub open spec fn polygon_fault(
    polygon: (CornerFormat, Seq<(usize, usize, usize)>),
    counts: AttributeCounts,
) -> Option<MeshFault> {
    match polygon.0 {
        CornerFormat::P => Some(MeshFault::NoNormalsNoTexCoords),
        CornerFormat::PT => Some(MeshFault::NoNormals),
        CornerFormat::PN => Some(MeshFault::NoTexCoords),
        CornerFormat::PTN => if polygon.1.len() != 3 {
            Some(MeshFault::NotTriangulated)
        } else if forall|c: int| 0 <= c < 3 ==> corner_in_range(#[trigger] polygon.1[c], counts) {
            None
        } else {
            Some(MeshFault::IndexOutOfRange)
        },
    }
}

/// A polygon to visit, and the element that it belongs to.
pub open spec fn range_visits(range: (usize, usize), element: u32) -> Seq<(usize, u32)> {
    Seq::new(
        if range.0 <= range.1 {
            (range.1 - range.0) as nat
        } else {
            0
        },
        |k: int| ((range.0 + k) as usize, element),
    )
}

/// The visits of some ranges, one range after the other.
pub open spec fn ranges_visits(ranges: Seq<(usize, usize)>, element: u32) -> Seq<(usize, u32)>
    decreases ranges.len(),
{
    if ranges.len() == 0 {
        seq![]
    } else {
        ranges_visits(ranges.drop_last(), element) + range_visits(ranges.last(), element)
    }
}

/// The visits of some groups whose elements are `elements`, one group after the other.
pub open spec fn group_visits(groups: Seq<PolygonGroup>, elements: Seq<u32>) -> Seq<(usize, u32)>
    decreases groups.len(),
{
    if groups.len() == 0 {
        seq![]
    } else {
        group_visits(groups.drop_last(), elements) + ranges_visits(
            groups.last().ranges@,
            elements[groups.len() - 1],
        )
    }
}

/// The ranges of every group lie inside the `n` polygons of the model.
pub open spec fn groups_in_range(groups: Seq<PolygonGroup>, n: nat) -> bool {
    forall|g: int, r: int|
        0 <= g < groups.len() && 0 <= r < groups[g].ranges.len() ==> (
        #[trigger] groups[g].ranges@[r]).0 <= groups[g].ranges@[r].1 <= n
}

/// Lists the polygons of `groups` with their elements, in order.
pub fn visit_groups(groups: &Vec<PolygonGroup>, elements: &Vec<u32>) -> (visits: Vec<(usize, u32)>)
    requires
        groups.len() == elements.len(),
    ensures
        visits@ == group_visits(groups@, elements@),
{
    let mut visits: Vec<(usize, u32)> = Vec::new();
    let mut g: usize = 0;
    while g < groups.len()
        invariant
            g <= groups.len(),
            groups.len() == elements.len(),
            visits@ == group_visits(groups@.take(g as int), elements@),
        decreases groups.len() - g,
    {
        let ranges = &groups[g].ranges;
        let element: u32 = elements[g];
        let ghost before = visits@;
        let mut r: usize = 0;
        while r < ranges.len()
            invariant
                r <= ranges.len(),
                visits@ == before + ranges_visits(ranges@.take(r as int), element),
            decreases ranges.len() - r,
        {
            let range: (usize, usize) = ranges[r];
            let ghost inner = visits@;
            let mut p: usize = range.0;
            while p < range.1
                invariant
                    range.0 <= p,
                    p <= range.1 || p == range.0,
                    visits@ == inner + range_visits((range.0, p), element),
                decreases range.1 - p,
            {
                visits.push((p, element));
                p += 1;
                assert(visits@ =~= inner + range_visits((range.0, p), element));
            }
            proof {
                assert(range_visits((range.0, p), element) =~= range_visits(range, element));
                assert(ranges@.take(r + 1).drop_last() =~= ranges@.take(r as int));
                assert(visits@ =~= before + ranges_visits(ranges@.take(r + 1), element));
            }
            r += 1;
        }
        proof {
            assert(ranges@.take(ranges@.len() as int) =~= ranges@);
            assert(groups@.take(g + 1).drop_last() =~= groups@.take(g as int));
        }
        g += 1;
    }
    assert(groups@.take(groups@.len() as int) =~= groups@);
    visits
}

/// What a vertex is made of: the indices of its position, normal and texture coordinate.
pub open spec fn vertex_key(corner: (usize, usize, usize)) -> (usize, usize, usize) {
    (corner.0, corner.2, corner.1)
}

/// The vertex keys of the corners of the visited polygons, in order.
pub open spec fn corner_keys(
    polygons: Seq<(CornerFormat, Seq<(usize, usize, usize)>)>,
    visits: Seq<(usize, u32)>,
) -> Seq<(usize, usize, usize)>
    decreases visits.len(),
{
    if visits.len() == 0 {
        seq![]
    } else {
        let corners = polygons[visits.last().0 as int].1;
        corner_keys(polygons, visits.drop_last()) + seq![
            vertex_key(corners[0]),
            vertex_key(corners[1]),
            vertex_key(corners[2]),
        ]
    }
}

/// More distinct vertices than 32 bits can number.
pub open spec fn too_many_vertices(keys: Seq<(usize, usize, usize)>) -> bool {
    distinct(keys).len() > 0x1_0000_0000
}

/// The first `t` visits can be part of a mesh.
pub open spec fn visits_sound(
    polygons: Seq<(CornerFormat, Seq<(usize, usize, usize)>)>,
    counts: AttributeCounts,
    visits: Seq<(usize, u32)>,
    t: int,
) -> bool {
    &&& forall|s: int|
        0 <= s < t ==> polygon_fault(polygons[(#[trigger] visits[s]).0 as int], counts) is None
    &&& !too_many_vertices(corner_keys(polygons, visits.take(t)))
}

/// Visit `t` is the first that cannot be part of a mesh, because of `fault`.
pub open spec fn first_fault(
    polygons: Seq<(CornerFormat, Seq<(usize, usize, usize)>)>,
    counts: AttributeCounts,
    visits: Seq<(usize, u32)>,
    t: int,
    fault: MeshFault,
) -> bool {
    let own = polygon_fault(polygons[visits[t].0 as int], counts);
    &&& 0 <= t < visits.len()
    &&& visits_sound(polygons, counts, visits, t)
    &&& {
        ||| own == Some(fault)
        ||| own is None && fault == MeshFault::TooManyVertices && too_many_vertices(
            corner_keys(polygons, visits.take(t + 1)),
        )
    }
}

/// A triangle of vertex indices, and its element.
#[derive(Clone, Copy, PartialEq, Eq, Structural, Debug)]
pub struct Triangle {
    pub a: u32,
    pub b: u32,
    pub c: u32,
    pub element: u32,
}

/// The triangle of a visit, where `vertices` are the distinct vertices.
pub open spec fn triangle_of(
    polygons: Seq<(CornerFormat, Seq<(usize, usize, usize)>)>,
    visit: (usize, u32),
    vertices: Seq<(usize, usize, usize)>,
) -> Triangle {
    let corners = polygons[visit.0 as int].1;
    Triangle {
        a: vertices.index_of(vertex_key(corners[0])) as u32,
        b: vertices.index_of(vertex_key(corners[1])) as u32,
        c: vertices.index_of(vertex_key(corners[2])) as u32,
        element: visit.1,
    }
}

/// The triangles of some visits, where `vertices` are the distinct vertices.
pub open spec fn visit_triangles(
    polygons: Seq<(CornerFormat, Seq<(usize, usize, usize)>)>,
    visits: Seq<(usize, u32)>,
    vertices: Seq<(usize, usize, usize)>,
) -> Seq<Triangle> {
    visits.map_values(|visit: (usize, u32)| triangle_of(polygons, visit, vertices))
}

/// A mesh with one vertex per distinct corner.
pub struct IndexedMesh {
    /// The `(position, normal, texture coordinate)` of each vertex.
    pub vertices: Vec<(usize, usize, usize)>,
    pub triangles: Vec<Triangle>,
}

/// The vertices found so far, with the vertices of each position.
struct VertexIndexer {
    buckets: Vec<Vec<u32>>,
    vertices: Vec<(usize, usize, usize)>,
}

impl VertexIndexer {
    spec fn wf(self, positions: nat) -> bool {
        &&& self.buckets.len() == positions
        &&& self.vertices@.no_duplicates()
        &&& self.vertices.len() <= 0x1_0000_0000
        &&& forall|v: int|
            #![trigger self.vertices@[v]]
            0 <= v < self.vertices.len() ==> self.vertices@[v].0 < positions
                && self.buckets@[self.vertices@[v].0 as int]@.contains(v as u32)
        &&& forall|p: int, k: int|
            0 <= p < positions && 0 <= k < self.buckets@[p].len() ==> (
            #[trigger] self.buckets@[p]@[k]) < self.vertices.len()
    }

    fn new(positions: usize) -> (indexer: Self)
        ensures
            indexer.wf(positions as nat),
            indexer.vertices@ == Seq::<(usize, usize, usize)>::empty(),
    {
        let mut buckets: Vec<Vec<u32>> = Vec::with_capacity(positions);
        let mut i: usize = 0;
        while i < positions
            invariant
                i <= positions,
                buckets.len() == i,
                forall|p: int| 0 <= p < i ==> (#[trigger] buckets@[p]).len() == 0,
            decreases positions - i,
        {
            buckets.push(Vec::new());
            i += 1;
        }
        VertexIndexer { buckets, vertices: Vec::new() }
    }

    /// The index of the vertex `key`, which is added where it is new; nothing where it is new
    /// and cannot be numbered.
    fn index(&mut self, key: (usize, usize, usize), positions: Ghost<nat>) -> (index: Option<u32>)
        requires
            old(self).wf(positions@),
            key.0 < positions@,
        ensures
            final(self).wf(positions@),
            final(self).vertices@.len() >= old(self).vertices@.len(),
            match index {
                Some(i) => {
                    &&& final(self).vertices@ == (if old(self).vertices@.contains(key) {
                        old(self).vertices@
                    } else {
                        old(self).vertices@.push(key)
                    })
                    &&& i < final(self).vertices@.len()
                    &&& final(self).vertices@[i as int] == key
                },
                None => {
                    &&& !old(self).vertices@.contains(key)
                    &&& old(self).vertices@.len() == 0x1_0000_0000
                },
            },
    {
        let mut k: usize = 0;
        while k < self.buckets[key.0].len()
            invariant
                self.wf(positions@),
                *self == *old(self),
                key.0 < positions@,
                k <= self.buckets@[key.0 as int].len(),
                forall|l: int|
                    0 <= l < k ==> self.vertices@[(#[trigger] self.buckets@[key.0 as int]@[l]) as int]
                        != key,
            decreases self.buckets@[key.0 as int].len() - k,
        {
            let v: u32 = self.buckets[key.0][k];
            let vertex: (usize, usize, usize) = self.vertices[v as usize];
            if vertex.0 == key.0 && vertex.1 == key.1 && vertex.2 == key.2 {
                proof {
                    assert(self.vertices@.contains(key));
                }
                return Some(v);
            }
            k += 1;
        }
        proof {
            if self.vertices@.contains(key) {
                let v = self.vertices@.index_of(key);
                assert(self.vertices@[v] == key);
                let b = self.buckets@[key.0 as int]@;
                assert(b.contains(v as u32));
                let l = b.index_of(v as u32);
                assert(self.vertices@[b[l] as int] != key);
                assert(false);
            }
        }
        if self.vertices.len() as u64 > u32::MAX as u64 {
            return None;
        }
        let index: u32 = self.vertices.len() as u32;
        let ghost before = *self;
        self.vertices.push(key);
        self.buckets[key.0].push(index);
        proof {
            assert forall|v: int|
                #![trigger self.vertices@[v]]
                0 <= v < self.vertices.len() implies self.vertices@[v].0 < positions@
                && self.buckets@[self.vertices@[v].0 as int]@.contains(v as u32) by {
                let p = self.vertices@[v].0 as int;
                if v < before.vertices.len() {
                    assert(self.vertices@[v] == before.vertices@[v]);
                    assert(before.buckets@[p]@.contains(v as u32));
                    let l = before.buckets@[p]@.index_of(v as u32);
                    assert(self.buckets@[p]@[l] == v as u32);
                } else {
                    assert(self.buckets@[p]@[before.buckets@[p].len() as int] == index);
                }
            }
        }
        Some(index)
    }
}

/// Turns the visited polygons of a model into an indexed mesh.
pub fn index_polygons(
    polygons: &Vec<Polygon>,
    counts: AttributeCounts,
    visits: &Vec<(usize, u32)>,
) -> (result: Result<IndexedMesh, MeshFault>)
    requires
        forall|s: int| 0 <= s < visits.len() ==> (#[trigger] visits[s]).0 < polygons.len(),
    ensures
        match result {
            Ok(mesh) => {
                &&& visits_sound(polygon_views(polygons@), counts, visits@, visits@.len() as int)
                &&& mesh.vertices@ == distinct(corner_keys(polygon_views(polygons@), visits@))
                &&& mesh.triangles@ == visit_triangles(
                    polygon_views(polygons@),
                    visits@,
                    mesh.vertices@,
                )
            },
            Err(fault) => exists|t: int|
                first_fault(polygon_views(polygons@), counts, visits@, t, fault),
        },
{
    let ghost views = polygon_views(polygons@);
    let mut indexer = VertexIndexer::new(counts.positions);
    let mut triangles: Vec<Triangle> = Vec::with_capacity(visits.len());
    let mut t: usize = 0;
    proof {
        assert(visits@.take(0) =~= seq![]);
    }
    while t < visits.len()
        invariant
            t <= visits.len(),
            views == polygon_views(polygons@),
            forall|s: int| 0 <= s < visits.len() ==> (#[trigger] visits[s]).0 < polygons.len(),
            indexer.wf(counts.positions as nat),
            indexer.vertices@ == distinct(corner_keys(views, visits@.take(t as int))),
            visits_sound(views, counts, visits@, t as int),
            triangles.len() == t,
            forall|s: int|
                0 <= s < t ==> #[trigger] triangles@[s] == triangle_of(
                    views,
                    visits[s],
                    indexer.vertices@,
                ),
            forall|s: int, c: int|
                0 <= s < t && 0 <= c < 3 ==> indexer.vertices@.contains(
                    vertex_key(#[trigger] views[visits[s].0 as int].1[c]),
                ),
        decreases visits.len() - t,
    {
        let polygon = &polygons[visits[t].0];
        let ghost view = views[visits[t as int].0 as int];
        let corners = match check_polygon(polygon, counts) {
            Ok(corners) => corners,
            Err(fault) => {
                proof {
                    assert(first_fault(views, counts, visits@, t as int, fault));
                }
                return Err(fault);
            },
        };
        let ghost before = indexer.vertices@;
        let ghost k0 = corner_keys(views, visits@.take(t as int));
        let ghost (key0, key1, key2) = (
            vertex_key(view.1[0]),
            vertex_key(view.1[1]),
            vertex_key(view.1[2]),
        );
        proof {
            assert(visits@.take(t + 1).drop_last() =~= visits@.take(t as int));
            assert(corner_keys(views, visits@.take(t + 1)) == k0 + seq![key0, key1, key2]);
            assert(k0 + seq![key0] =~= k0.push(key0));
            assert(k0 + seq![key0, key1] =~= k0.push(key0).push(key1));
            assert(k0 + seq![key0, key1, key2] =~= k0.push(key0).push(key1).push(key2));
            assert(k0.push(key0).drop_last() =~= k0);
            assert(k0.push(key0).push(key1).drop_last() =~= k0.push(key0));
            assert(k0.push(key0).push(key1).push(key2).drop_last() =~= k0.push(key0).push(key1));
            distinct_extends(k0, seq![key0, key1, key2]);
            distinct_extends(k0.push(key0), seq![key1, key2]);
            assert(k0.push(key0) + seq![key1, key2] =~= k0 + seq![key0, key1, key2]);
            distinct_extends(k0.push(key0).push(key1), seq![key2]);
            assert(k0.push(key0).push(key1) + seq![key2] =~= k0 + seq![key0, key1, key2]);
        }
        let corner: (usize, usize, usize) = corners[0];
        assert(corner_in_range(view.1[0], counts));
        let a: u32 = match indexer.index((corner.0, corner.2, corner.1), Ghost(counts.positions as nat)) {
            Some(index) => index,
            None => {
                proof {
                    assert(first_fault(views, counts, visits@, t as int, MeshFault::TooManyVertices));
                }
                return Err(MeshFault::TooManyVertices);
            },
        };
        let corner: (usize, usize, usize) = corners[1];
        assert(corner_in_range(view.1[1], counts));
        let b: u32 = match indexer.index((corner.0, corner.2, corner.1), Ghost(counts.positions as nat)) {
            Some(index) => index,
            None => {
                proof {
                    assert(first_fault(views, counts, visits@, t as int, MeshFault::TooManyVertices));
                }
                return Err(MeshFault::TooManyVertices);
            },
        };
        let corner: (usize, usize, usize) = corners[2];
        assert(corner_in_range(view.1[2], counts));
        let c: u32 = match indexer.index((corner.0, corner.2, corner.1), Ghost(counts.positions as nat)) {
            Some(index) => index,
            None => {
                proof {
                    assert(first_fault(views, counts, visits@, t as int, MeshFault::TooManyVertices));
                }
                return Err(MeshFault::TooManyVertices);
            },
        };
        triangles.push(Triangle { a, b, c, element: visits[t].1 });
        proof {
            let after = indexer.vertices@;
            assert(after == distinct(corner_keys(views, visits@.take(t + 1))));
            assert(after[a as int] == key0 && after[b as int] == key1 && after[c as int] == key2);
            assert forall|s: int, d: int| 0 <= s < t + 1 && 0 <= d < 3 implies after.contains(
                vertex_key(#[trigger] views[visits[s].0 as int].1[d]),
            ) by {
                let key = vertex_key(views[visits[s].0 as int].1[d]);
                if s < t {
                    assert(before.contains(key));
                    let i = before.index_of(key);
                    assert(after[i] == key);
                }
            }
            assert forall|s: int| 0 <= s < t + 1 implies #[trigger] triangles@[s] == triangle_of(
                views,
                visits[s],
                after,
            ) by {
                let corners = views[visits[s].0 as int].1;
                if s < t {
                    assert(before.contains(vertex_key(corners[0])));
                    assert(before.contains(vertex_key(corners[1])));
                    assert(before.contains(vertex_key(corners[2])));
                    index_of_kept(before, after, vertex_key(corners[0]));
                    index_of_kept(before, after, vertex_key(corners[1]));
                    index_of_kept(before, after, vertex_key(corners[2]));
                } else {
                    assert(after.contains(vertex_key(corners[0])));
                    assert(after.contains(vertex_key(corners[1])));
                    assert(after.contains(vertex_key(corners[2])));
                }
            }
        }
        t += 1;
    }
    proof {
        assert(visits@.take(visits@.len() as int) =~= visits@);
        assert(triangles@ =~= visit_triangles(views, visits@, indexer.vertices@));
    }
    Ok(IndexedMesh { vertices: indexer.vertices, triangles })
}

proof fn index_of_kept<T>(before: Seq<T>, after: Seq<T>, x: T)
    requires
        before.contains(x),
        after.no_duplicates(),
        before.len() <= after.len(),
        forall|i: int| 0 <= i < before.len() ==> after[i] == before[i],
    ensures
        before.index_of(x) == after.index_of(x),
{
    let i = before.index_of(x);
    assert(after[i] == x);
    assert(after.contains(x));
}

fn check_corner(corner: (usize, usize, usize), counts: AttributeCounts) -> (ok: bool)
    ensures
        ok == corner_in_range(corner, counts),
{
    corner.0 < counts.positions && corner.1 < counts.tex_coords && corner.2 < counts.normals
}

fn check_polygon<'a>(polygon: &'a Polygon, counts: AttributeCounts) -> (result: Result<
    &'a Vec<(usize, usize, usize)>,
    MeshFault,
>)
    ensures
        match result {
            Ok(corners) => polygon_fault(polygon@, counts) is None && corners@ == polygon@.1,
            Err(fault) => polygon_fault(polygon@, counts) == Some(fault),
        },
{
    match polygon {
        Polygon::P => Err(MeshFault::NoNormalsNoTexCoords),
        Polygon::PT => Err(MeshFault::NoNormals),
        Polygon::PN => Err(MeshFault::NoTexCoords),
        Polygon::PTN(corners) => {
            if corners.len() != 3 {
                return Err(MeshFault::NotTriangulated);
            }
            let ok: bool = check_corner(corners[0], counts) && check_corner(corners[1], counts)
                && check_corner(corners[2], counts);
            if ok {
                assert forall|c: int| 0 <= c < 3 implies corner_in_range(
                    #[trigger] polygon@.1[c],
                    counts,
                ) by {
                    assert(c == 0 || c == 1 || c == 2);
                }
                Ok(corners)
            } else {
                assert(!corner_in_range(polygon@.1[0], counts) || !corner_in_range(
                    polygon@.1[1],
                    counts,
                ) || !corner_in_range(polygon@.1[2], counts));
                Err(MeshFault::IndexOutOfRange)
            }
        },
    }
}

/// The elements of some triangles.
pub open spec fn elements_of(triangles: Seq<Triangle>) -> Seq<u32> {
    triangles.map_values(|t: Triangle| t.element)
}

/// `sorted` holds `triangles` by element; those of one element keep their order.
pub open spec fn sorted_by_element(triangles: Seq<Triangle>, sorted: Seq<Triangle>) -> bool {
    exists|order: Seq<usize>| #[trigger]
        is_stable_order(elements_of(triangles), order) && sorted == Seq::new(
            order.len(),
            |k: int| triangles[order[k] as int],
        )
}

/// Sorts triangles by element.
pub fn sort_triangles(triangles: &Vec<Triangle>) -> (sorted: Vec<Triangle>)
    ensures
        sorted_by_element(triangles@, sorted@),
        sorted.len() == triangles.len(),
        forall|i: int, j: int|
            0 <= i <= j < sorted.len() ==> (#[trigger] sorted[i]).element <= (
            #[trigger] sorted[j]).element,
{
    let mut keys: Vec<u32> = Vec::with_capacity(triangles.len());
    let mut i: usize = 0;
    while i < triangles.len()
        invariant
            i <= triangles.len(),
            keys@ == elements_of(triangles@).take(i as int),
        decreases triangles.len() - i,
    {
        keys.push(triangles[i].element);
        i += 1;
        assert(keys@ =~= elements_of(triangles@).take(i as int));
    }
    assert(keys@ =~= elements_of(triangles@));
    let order = stable_order(&keys);
    let mut sorted: Vec<Triangle> = Vec::with_capacity(triangles.len());
    let mut k: usize = 0;
    while k < order.len()
        invariant
            k <= order.len(),
            is_stable_order(elements_of(triangles@), order@),
            sorted.len() == k,
            forall|l: int| 0 <= l < k ==> sorted@[l] == triangles[order[l] as int],
        decreases order.len() - k,
    {
        assert(order[k as int] < triangles.len());
        sorted.push(triangles[order[k]]);
        k += 1;
    }
    proof {
        assert(sorted@ =~= Seq::new(order@.len(), |k: int| triangles[order[k] as int]));
        assert forall|i: int, j: int| 0 <= i <= j < sorted.len() implies (
        #[trigger] sorted[i]).element <= (#[trigger] sorted[j]).element by {
            if i < j {
                assert(stands_before(elements_of(triangles@), order[i] as int, order[j] as int));
            }
        }
    }
    sorted
}

/// The triangles are sorted by element, and there are `elements` elements.
pub open spec fn grouped_by_element(triangles: Seq<Triangle>, elements: nat) -> bool {
    &&& forall|t: int| 0 <= t < triangles.len() ==> (#[trigger] triangles[t]).element < elements
    &&& forall|s: int, t: int|
        0 <= s <= t < triangles.len() ==> (#[trigger] triangles[s]).element <= (
        #[trigger] triangles[t]).element
}

/// Some triangle belongs to `element`.
pub open spec fn element_used(triangles: Seq<Triangle>, element: int) -> bool {
    exists|t: int| 0 <= t < triangles.len() && (#[trigger] triangles[t]).element == element
}

/// `range` is the range of indices of the triangles of `element`: three indices per triangle.
pub open spec fn is_element_range(
    triangles: Seq<Triangle>,
    element: int,
    range: (usize, usize),
) -> bool {
    &&& range.0 % 3 == 0
    &&& range.1 % 3 == 0
    &&& range.0 < range.1 <= 3 * triangles.len()
    &&& forall|t: int|
        0 <= t < triangles.len() ==> ((#[trigger] triangles[t]).element == element <==> range.0
            <= 3 * t < range.1)
}

/// The range of indices of each element; nothing where an element has no triangle.
pub fn element_index_ranges(triangles: &Vec<Triangle>, num_elements: u32) -> (ranges: Option<
    Vec<(usize, usize)>,
>)
    requires
        grouped_by_element(triangles@, num_elements as nat),
        3 * triangles.len() <= usize::MAX,
    ensures
        ranges is Some <==> forall|e: int|
            0 <= e < num_elements ==> #[trigger] element_used(triangles@, e),
        ranges matches Some(r) ==> r.len() == num_elements && forall|e: int|
            0 <= e < num_elements ==> is_element_range(triangles@, e, #[trigger] r[e]),
        ranges matches Some(r) ==> (num_elements > 0 ==> r[0].0 == 0 && r[num_elements - 1].1 == 3
            * triangles.len()) && forall|e: int|
            0 <= e && e + 1 < num_elements ==> (#[trigger] r[e]).1 == r[e + 1].0,
{
    let mut ranges: Vec<(usize, usize)> = Vec::with_capacity(num_elements as usize);
    let mut start: usize = 0;
    let mut e: u32 = 0;
    while e < num_elements
        invariant
            e <= num_elements,
            grouped_by_element(triangles@, num_elements as nat),
            3 * triangles.len() <= usize::MAX,
            start <= triangles.len(),
            ranges.len() == e,
            e == 0 ==> start == 0,
            e > 0 ==> ranges[0].0 == 0 && ranges[e - 1].1 == 3 * start,
            forall|k: int| 0 <= k && k + 1 < e ==> (#[trigger] ranges[k]).1 == ranges[k + 1].0,
            forall|k: int| 0 <= k < e ==> is_element_range(triangles@, k, #[trigger] ranges[k]),
            forall|k: int| 0 <= k < e ==> #[trigger] element_used(triangles@, k),
            forall|t: int|
                0 <= t < triangles.len() ==> ((#[trigger] triangles[t]).element < e <==> t < start),
        decreases num_elements - e,
    {
        if start == triangles.len() || triangles[start].element != e {
            proof {
                assert(!element_used(triangles@, e as int)) by {
                    if element_used(triangles@, e as int) {
                        let t = choose|t: int|
                            0 <= t < triangles@.len() && (#[trigger] triangles@[t]).element == e as int;
                        assert(t >= start);
                        assert(triangles@[start as int].element <= triangles@[t].element);
                    }
                }
            }
            return None;
        }
        let mut end: usize = start;
        while end < triangles.len() && triangles[end].element == e
            invariant
                start <= end <= triangles.len(),
                start < triangles.len(),
                triangles[start as int].element == e,
                forall|t: int| start <= t < end ==> (#[trigger] triangles[t]).element == e,
            decreases triangles.len() - end,
        {
            end += 1;
        }
        assert(end > start) by {
            if end == start {
                assert(triangles[end as int].element == e);
            }
        }
        let range: (usize, usize) = (3 * start, 3 * end);
        proof {
            assert forall|t: int| 0 <= t < triangles.len() implies ((
            #[trigger] triangles[t]).element == e <==> range.0 <= 3 * t < range.1) && (
            triangles[t].element < e + 1 <==> t < end) by {
                if t >= end {
                    assert(triangles[end as int].element <= triangles[t].element);
                    assert(triangles[start as int].element <= triangles[end as int].element);
                }
            }
            assert(is_element_range(triangles@, e as int, range));
            assert(triangles@[start as int].element == e as int);
            assert(element_used(triangles@, e as int));
        }
        ranges.push(range);
        start = end;
        e += 1;
    }
    proof {
        if start < triangles.len() {
            assert(triangles[start as int].element < num_elements);
        }
    }
    Some(ranges)
}

/// A polygon is refused for the first of these reasons: that corners have no normals, no texture
/// coordinates or neither, that there are not three of them, or that one refers to something that
/// is not stored.
pub proof fn polygons_are_refused_for_a_reason(
    format: CornerFormat,
    corners: Seq<(usize, usize, usize)>,
    counts: AttributeCounts,
)
    ensures
        ({
            let fault = polygon_fault((format, corners), counts);
            &&& fault == Some(MeshFault::NoNormalsNoTexCoords) <==> format is P
            &&& fault == Some(MeshFault::NoNormals) <==> format is PT
            &&& fault == Some(MeshFault::NoTexCoords) <==> format is PN
            &&& fault == Some(MeshFault::NotTriangulated) <==> format is PTN && corners.len() != 3
            &&& fault is None ==> format is PTN && corners.len() == 3 && forall|c: int|
                0 <= c < 3 ==> (#[trigger] corners[c]).0 < counts.positions && corners[c].1
                    < counts.tex_coords && corners[c].2 < counts.normals
            &&& fault == Some(MeshFault::IndexOutOfRange) ==> format is PTN && exists|c: int|
                0 <= c < 3 && !((#[trigger] corners[c]).0 < counts.positions && corners[c].1
                    < counts.tex_coords && corners[c].2 < counts.normals)
            &&& fault != Some(MeshFault::TooManyVertices)
        }),
{
    if polygon_fault((format, corners), counts) is None {
        assert forall|c: int| 0 <= c < 3 implies (#[trigger] corners[c]).0 < counts.positions
            && corners[c].1 < counts.tex_coords && corners[c].2 < counts.normals by {
            assert(corner_in_range(corners[c], counts));
        }
    } else if polygon_fault((format, corners), counts) == Some(MeshFault::IndexOutOfRange) {
        let c = choose|c: int| 0 <= c < 3 && !corner_in_range(#[trigger] corners[c], counts);
        assert(!(corners[c].0 < counts.positions && corners[c].1 < counts.tex_coords
            && corners[c].2 < counts.normals));
    }
}

} // verus!
