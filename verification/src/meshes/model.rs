//! Loading a model file: from its text to the vertices, indices and elements of a mesh.

use crate::meshes::indexing::{
    element_index_ranges, AttributeCounts, MeshFault, PolygonGroup, Triangle,
};
#[allow(unused_imports)]
use crate::meshes::indexing::{
    corner_in_range, corner_keys, distinct, distinct_items, element_used, elements_of, first_fault, group_visits,
    grouped_by_element, is_element_range, polygon_fault, ranges_visits, sorted_by_element, triangle_of, vertex_key,
    visit_triangles, visits_sound, CornerFormat,
};
use crate::meshes::load::{
    flatten_triangles, index_model, load_model, ElementOrders, ObjFault,
};
#[allow(unused_imports)]
use crate::meshes::load::{
    element_orders, flat_indices, group_elements, lists_meshes, material_names,
    materials_named, model_visits, mtl_lines, obj_model, obj_rejected, obj_unsupported, ObjView,
};
#[allow(unused_imports)]
use crate::meshes::optimise::{ranges_divide, triangle_list};
#[allow(unused_imports)]
use crate::meshes::statements::obj_supported;
#[allow(unused_imports)]
use crate::sort::is_stable_order;
use vstd::prelude::*;

verus! {

/// Why a model cannot be loaded.
pub enum LoadFault {
    /// The model file does not parse.
    Obj(ObjFault),
    /// The material library defines a material without a name.
    UnnamedMaterial,
    /// The polygons do not make a mesh.
    Mesh(MeshFault),
    /// An element has no triangles.
    EmptyElement,
    /// There are more indices or vertices than can be numbered.
    TooLarge,
}

/// The position, the normal and the texture coordinate of a vertex as the file stores them, each
/// number by its bits.
#[derive(Clone, Copy, PartialEq, Eq, Debug)]
pub struct VertexAttributes {
    pub position: [u32; 3],
    pub normal: [u32; 3],
    pub tex_coord: [u32; 2],
}

/// A model that was loaded.
pub struct LoadedObj {
    pub vertices: Vec<VertexAttributes>,
    pub indices: Vec<u32>,
    /// The range of indices of each element.
    pub ranges: Vec<(usize, usize)>,
}

/// The text of a material library, where there is one.
pub open spec fn library_text(mtl: Option<&str>) -> Option<Seq<char>> {
    match mtl {
        Some(text) => Some(text@),
        None => None,
    }
}

/// The materials of a model, in the order of their elements.
pub open spec fn library_names(mtl: Option<Seq<char>>) -> Seq<Seq<char>> {
    match mtl {
        Some(text) => material_names(mtl_lines(text)),
        None => seq![],
    }
}

/// Every material of a model has a name.
pub open spec fn library_named(mtl: Option<Seq<char>>) -> bool {
    mtl matches Some(text) ==> materials_named(mtl_lines(text))
}

/// The number of elements: one for each material, and at least one.
pub open spec fn element_count(names: Seq<Seq<char>>) -> nat {
    if names.len() == 0 {
        1
    } else {
        names.len()
    }
}

/// `sorted` are the triangles of the polygons of a model, by element, where the groups of polygons
/// come in the order of `groups`, and `vertices` are their vertices.
pub open spec fn indexed(
    view: ObjView,
    names: Seq<Seq<char>>,
    groups: Seq<PolygonGroup>,
    vertices: Seq<(usize, usize, usize)>,
    sorted: Seq<Triangle>,
) -> bool {
    let visits = model_visits(groups, element_orders(names));
    &&& lists_meshes(groups, view.meshes)
    &&& visits_sound(view.polygons, view.counts(), visits, visits.len() as int)
    &&& vertices == distinct(corner_keys(view.polygons, visits))
    &&& sorted_by_element(visit_triangles(view.polygons, visits, vertices), sorted)
}

/// The attributes that a model stores for a vertex.
pub open spec fn attributes_of(view: ObjView, key: (usize, usize, usize)) -> VertexAttributes {
    VertexAttributes {
        position: view.positions[key.0 as int],
        normal: view.normals[key.1 as int],
        tex_coord: view.tex_coords[key.2 as int],
    }
}

/// The attributes of all vertices.
pub open spec fn vertices_of(view: ObjView, keys: Seq<(usize, usize, usize)>) -> Seq<
    VertexAttributes,
> {
    Seq::new(keys.len(), |i: int| attributes_of(view, keys[i]))
}

/// Every element has its range of triangles.
pub open spec fn ranges_by_element(sorted: Seq<Triangle>, count: nat, ranges: Seq<(usize, usize)>) -> bool {
    &&& ranges.len() == count
    &&& forall|e: int| 0 <= e < count ==> is_element_range(sorted, e, #[trigger] ranges[e])
}

impl LoadedObj {
    /// The indices are whole triangles of the vertices, divided among the elements.
    pub open spec fn wf(self) -> bool {
        &&& self.vertices.len() < u32::MAX
        &&& self.indices.len() <= u32::MAX
        &&& triangle_list(self.indices@, self.vertices@.len())
        &&& ranges_divide(self.ranges@, self.indices.len() as int)
    }

    /// The mesh is that of a model whose groups of polygons come in some order.
    pub open spec fn is_mesh_of(self, view: ObjView, names: Seq<Seq<char>>) -> bool {
        exists|
            groups: Seq<PolygonGroup>,
            keys: Seq<(usize, usize, usize)>,
            sorted: Seq<Triangle>,
        |
            {
                &&& #[trigger] indexed(view, names, groups, keys, sorted)
                &&& self.vertices@ == vertices_of(view, keys)
                &&& self.indices@ == flat_indices(sorted)
                &&& ranges_by_element(sorted, element_count(names), self.ranges@)
            }
    }
}

/// The polygons of a model do not make a mesh.
pub open spec fn has_fault(view: ObjView, names: Seq<Seq<char>>, fault: MeshFault) -> bool {
    exists|groups: Seq<PolygonGroup>, t: int|
        lists_meshes(groups, view.meshes) && #[trigger] first_fault(
            view.polygons,
            view.counts(),
            model_visits(groups, element_orders(names)),
            t,
            fault,
        )
}

/// An element of a model has no triangles.
pub open spec fn has_empty_element(view: ObjView, names: Seq<Seq<char>>) -> bool {
    exists|
        groups: Seq<PolygonGroup>,
        vertices: Seq<(usize, usize, usize)>,
        sorted: Seq<Triangle>,
        e: int,
    |
        #[trigger] indexed(view, names, groups, vertices, sorted) && 0 <= e < element_count(names)
            && !#[trigger] element_used(sorted, e)
}

/// A model has more indices or vertices than can be numbered.
pub open spec fn is_too_large(view: ObjView, names: Seq<Seq<char>>) -> bool {
    exists|
        groups: Seq<PolygonGroup>,
        vertices: Seq<(usize, usize, usize)>,
        sorted: Seq<Triangle>,
    | #[trigger]
        indexed(view, names, groups, vertices, sorted) && (vertices.len() >= u32::MAX || 3
            * sorted.len() > u32::MAX)
}

/// Loads a model from the text of its file and that of its material library, where it has one.
pub fn load_obj(obj: &str, mtl: Option<&str>) -> (result: Result<LoadedObj, LoadFault>)
    requires
        mtl matches Some(text) ==> text@.len() < u32::MAX,
    ensures
        ({
            let library = library_text(mtl);
            let names = library_names(library);
            match result {
                Ok(mesh) => {
                    &&& obj_supported(obj@)
                    &&& obj_model(obj@) matches Some(view) && mesh.is_mesh_of(view, names)
                    &&& library_named(library)
                    &&& mesh.wf()
                    &&& exists|places: Seq<(Seq<char>, int, int)>|
                        shows_all(mesh, obj_model(obj@)->0, names, places)
                },
                Err(LoadFault::Obj(ObjFault::Unsupported)) => obj_unsupported(obj@),
                Err(LoadFault::Obj(ObjFault::Invalid(_))) => obj_rejected(obj@),
                Err(LoadFault::UnnamedMaterial) => {
                    &&& obj_supported(obj@)
                    &&& obj_model(obj@) is Some
                    &&& !library_named(library)
                },
                Err(LoadFault::Mesh(fault)) => {
                    &&& obj_supported(obj@)
                    &&& library_named(library)
                    &&& obj_model(obj@) matches Some(view) && has_fault(view, names, fault)
                },
                Err(LoadFault::EmptyElement) => {
                    &&& obj_supported(obj@)
                    &&& library_named(library)
                    &&& obj_model(obj@) matches Some(view) && has_empty_element(view, names)
                },
                Err(LoadFault::TooLarge) => {
                    &&& obj_supported(obj@)
                    &&& library_named(library)
                    &&& obj_model(obj@) matches Some(view) && is_too_large(view, names)
                },
            }
        }),
{
    let ghost names = library_names(library_text(mtl));
    let model = match load_model(obj) {
        Ok(model) => model,
        Err(fault) => {
            return Err(LoadFault::Obj(fault));
        },
    };
    let elements = match mtl {
        Some(text) => match ElementOrders::parse_mtl(text) {
            Some(elements) => elements,
            None => {
                return Err(LoadFault::UnnamedMaterial);
            },
        },
        None => ElementOrders::none(),
    };
    let ghost view = obj_model(obj@)->0;
    let ghost groups = model.groups@;
    let counts = model.counts();
    assert(counts == view.counts());
    let mesh = match index_model(&model.polygons, &model.groups, counts, &elements) {
        Ok(mesh) => mesh,
        Err(fault) => {
            assert(has_fault(view, names, fault));
            return Err(LoadFault::Mesh(fault));
        },
    };
    let (keys, triangles) = (mesh.vertices, mesh.triangles);
    assert(indexed(view, names, groups, keys@, triangles@));
    if keys.len() as u64 >= u32::MAX as u64 || triangles.len() as u64 > u32::MAX as u64 / 3 {
        return Err(LoadFault::TooLarge);
    }
    let num_elements: u32 = elements.num_elements();
    proof {
        triangles_in_range(view, names, groups, keys@, triangles@, elements);
    }
    let ranges = match element_index_ranges(&triangles, num_elements) {
        Some(ranges) => ranges,
        None => {
            proof {
                let e = choose|e: int|
                    0 <= e < num_elements && !#[trigger] element_used(triangles@, e);
                assert(!element_used(triangles@, e));
            }
            return Err(LoadFault::EmptyElement);
        },
    };
    let indices = flatten_triangles(&triangles);
    let ghost visits = model_visits(groups, element_orders(names));
    let mut vertices: Vec<VertexAttributes> = Vec::with_capacity(keys.len());
    let mut i: usize = 0;
    proof {
        keys_in_range(view.polygons, view.counts(), visits);
        let corners = corner_keys(view.polygons, visits);
        distinct_items(corners);
        assert forall|k: int| 0 <= k < keys.len() implies key_in_range(
            #[trigger] keys@[k],
            view.counts(),
        ) by {
            assert(keys@.contains(keys@[k]));
            assert(corners.contains(keys@[k]));
            let c = corners.index_of(keys@[k]);
            assert(key_in_range(corners[c], view.counts()));
        }
    }
    while i < keys.len()
        invariant
            i <= keys.len(),
            model.shows(view),
            forall|k: int| 0 <= k < keys.len() ==> key_in_range(#[trigger] keys@[k], view.counts()),
            vertices@ == vertices_of(view, keys@).take(i as int),
        decreases keys.len() - i,
    {
        let (position, normal, tex_coord): (usize, usize, usize) = keys[i];
        assert(key_in_range(keys@[i as int], view.counts()));
        vertices.push(
            VertexAttributes {
                position: model.positions[position],
                normal: model.normals[normal],
                tex_coord: model.tex_coords[tex_coord],
            },
        );
        i += 1;
        assert(vertices@ =~= vertices_of(view, keys@).take(i as int));
    }
    assert(vertices@ =~= vertices_of(view, keys@));
    let mesh = LoadedObj { vertices, indices, ranges };
    proof {
        assert(triangle_list(mesh.indices@, mesh.vertices@.len())) by {
            assert forall|i: int| 0 <= i < mesh.indices.len() implies (#[trigger] mesh.indices@[i])
                < mesh.vertices@.len() by {
                assert(triangle_within(triangles@[i / 3], mesh.vertices@.len()));
            }
        }
        assert(ranges_divide(mesh.ranges@, mesh.indices.len() as int)) by {
            assert forall|e: int| 0 <= e < mesh.ranges@.len() implies (
            #[trigger] mesh.ranges@[e]).0 <= mesh.ranges@[e].1 <= mesh.indices.len()
                && mesh.ranges@[e].0 % 3 == 0 && mesh.ranges@[e].1 % 3 == 0 by {
                assert(is_element_range(triangles@, e, mesh.ranges@[e]));
            }
        }
        assert(ranges_by_element(triangles@, element_count(names), mesh.ranges@));
        assert(mesh.is_mesh_of(view, names));
        meshes_show_their_polygons(mesh, view, names);
    }
    Ok(mesh)
}

/// The attributes of a vertex are stored.
spec fn key_in_range(key: (usize, usize, usize), counts: AttributeCounts) -> bool {
    key.0 < counts.positions && key.1 < counts.normals && key.2 < counts.tex_coords
}

/// The attributes of all corners of sound polygons are stored.
proof fn keys_in_range(
    polygons: Seq<(CornerFormat, Seq<(usize, usize, usize)>)>,
    counts: AttributeCounts,
    visits: Seq<(usize, u32)>,
)
    requires
        forall|s: int|
            0 <= s < visits.len() ==> polygon_fault(
                polygons[(#[trigger] visits[s]).0 as int],
                counts,
            ) is None,
    ensures
        forall|k: int|
            0 <= k < corner_keys(polygons, visits).len() ==> key_in_range(
                #[trigger] corner_keys(polygons, visits)[k],
                counts,
            ),
    decreases visits.len(),
{
    if visits.len() > 0 {
        let front = visits.drop_last();
        assert forall|s: int| 0 <= s < front.len() implies polygon_fault(
            polygons[(#[trigger] front[s]).0 as int],
            counts,
        ) is None by {
            assert(front[s] == visits[s]);
        }
        keys_in_range(polygons, counts, front);
        let corners = polygons[visits.last().0 as int].1;
        assert(visits.last() == visits[visits.len() - 1]);
        assert(corner_in_range(corners[0], counts));
        assert(corner_in_range(corners[1], counts));
        assert(corner_in_range(corners[2], counts));
        let (keys, before) = (corner_keys(polygons, visits), corner_keys(polygons, front));
        assert forall|k: int| 0 <= k < keys.len() implies key_in_range(#[trigger] keys[k], counts) by {
            if k < before.len() {
                assert(keys[k] == before[k]);
            }
        }
    }
}

/// The corners of a triangle are vertices.
spec fn triangle_within(triangle: Triangle, count: nat) -> bool {
    triangle.a < count && triangle.b < count && triangle.c < count
}

/// The triangles of a model have corners among its vertices, and belong to its elements.
proof fn triangles_in_range(
    view: ObjView,
    names: Seq<Seq<char>>,
    groups: Seq<PolygonGroup>,
    vertices: Seq<(usize, usize, usize)>,
    sorted: Seq<Triangle>,
    elements: ElementOrders,
)
    requires
        indexed(view, names, groups, vertices, sorted),
        elements.describes(names),
        names.len() <= u32::MAX,
        vertices.len() < u32::MAX,
    ensures
        forall|t: int| 0 <= t < sorted.len() ==> triangle_within(#[trigger] sorted[t], vertices.len()),
        grouped_by_element(sorted, element_count(names)),
{
    let visits = model_visits(groups, element_orders(names));
    let drawn = visit_triangles(view.polygons, visits, vertices);
    let order = choose|order: Seq<usize>| #[trigger]
        is_stable_order(elements_of(drawn), order) && sorted == Seq::new(
            order.len(),
            |k: int| drawn[order[k] as int],
        );
    let own = group_elements(groups, element_orders(names));
    assert forall|g: int| 0 <= g < own.len() implies (#[trigger] own[g]) < element_count(names) by {
        orders_below(names, groups[g].material@);
    }
    elements_below(groups, own, element_count(names));
    distinct_items(corner_keys(view.polygons, visits));
    assert forall|t: int| 0 <= t < sorted.len() implies triangle_within(
        #[trigger] sorted[t],
        vertices.len(),
    ) && sorted[t].element < element_count(names) by {
        let v = order[t] as int;
        assert(0 <= v < visits.len());
        assert(sorted[t] == triangle_of(view.polygons, visits[v], vertices));
        keys_of_visit(view.polygons, visits, v);
        assert(visits[v].1 < element_count(names));
    }
    assert forall|s: int, t: int| 0 <= s <= t < sorted.len() implies (
    #[trigger] sorted[s]).element <= (#[trigger] sorted[t]).element by {
        if s < t {
            assert(crate::sort::stands_before(elements_of(drawn), order[s] as int, order[t] as int));
        }
    }
}

/// The element of a material is less than the number of materials.
proof fn orders_below(names: Seq<Seq<char>>, name: Seq<char>)
    requires
        names.len() <= u32::MAX,
    ensures
        element_orders(names).contains_key(name) ==> element_orders(names)[name] < names.len(),
    decreases names.len(),
{
    if names.len() > 0 {
        orders_below(names.drop_last(), name);
    }
}

/// The visits of some groups belong to the elements of the groups.
proof fn elements_below(groups: Seq<PolygonGroup>, elements: Seq<u32>, n: nat)
    requires
        elements.len() >= groups.len(),
        forall|g: int| 0 <= g < elements.len() ==> (#[trigger] elements[g]) < n,
    ensures
        forall|s: int|
            0 <= s < group_visits(groups, elements).len() ==> (
            #[trigger] group_visits(groups, elements)[s]).1 < n,
    decreases groups.len(),
{
    if groups.len() > 0 {
        elements_below(groups.drop_last(), elements, n);
        let element = elements[groups.len() - 1];
        element_of_ranges(groups.last().ranges@, element);
        let before = group_visits(groups.drop_last(), elements);
        let own = ranges_visits(groups.last().ranges@, element);
        assert forall|s: int| 0 <= s < group_visits(groups, elements).len() implies (
        #[trigger] group_visits(groups, elements)[s]).1 < n by {
            if s < before.len() {
                assert(group_visits(groups, elements)[s] == before[s]);
            } else {
                assert(group_visits(groups, elements)[s] == own[s - before.len()]);
            }
        }
    }
}

proof fn element_of_ranges(ranges: Seq<(usize, usize)>, element: u32)
    ensures
        forall|s: int|
            0 <= s < ranges_visits(ranges, element).len() ==> (
            #[trigger] ranges_visits(ranges, element)[s]).1 == element,
    decreases ranges.len(),
{
    if ranges.len() > 0 {
        element_of_ranges(ranges.drop_last(), element);
        let before = ranges_visits(ranges.drop_last(), element);
        assert forall|s: int| 0 <= s < ranges_visits(ranges, element).len() implies (
        #[trigger] ranges_visits(ranges, element)[s]).1 == element by {
            if s < before.len() {
                assert(ranges_visits(ranges, element)[s] == before[s]);
            }
        }
    }
}

/// The corners of a visited polygon have vertices.
proof fn keys_of_visit(
    polygons: Seq<(CornerFormat, Seq<(usize, usize, usize)>)>,
    visits: Seq<(usize, u32)>,
    v: int,
)
    requires
        0 <= v < visits.len(),
    ensures
        ({
            let corners = polygons[visits[v].0 as int].1;
            let keys = distinct(corner_keys(polygons, visits));
            &&& keys.contains(vertex_key(corners[0]))
            &&& keys.contains(vertex_key(corners[1]))
            &&& keys.contains(vertex_key(corners[2]))
        }),
    decreases visits.len(),
{
    let corners = polygons[visits[v].0 as int].1;
    let keys = corner_keys(polygons, visits);
    let front = corner_keys(polygons, visits.drop_last());
    distinct_items(keys);
    distinct_items(front);
    if v == visits.len() - 1 {
        assert(keys[front.len() as int] == vertex_key(corners[0]));
        assert(keys[front.len() as int + 1] == vertex_key(corners[1]));
        assert(keys[front.len() as int + 2] == vertex_key(corners[2]));
    } else {
        keys_of_visit(polygons, visits.drop_last(), v);
        assert(front.contains(vertex_key(corners[0])));
        assert(front.contains(vertex_key(corners[1])));
        assert(front.contains(vertex_key(corners[2])));
        assert(keys[front.index_of(vertex_key(corners[0]))] == vertex_key(corners[0]));
        assert(keys[front.index_of(vertex_key(corners[1]))] == vertex_key(corners[1]));
        assert(keys[front.index_of(vertex_key(corners[2]))] == vertex_key(corners[2]));
    }
    assert(keys.contains(vertex_key(corners[0])));
    assert(keys.contains(vertex_key(corners[1])));
    assert(keys.contains(vertex_key(corners[2])));
}

/// Range `r` of the polygons of the material `place.0` holds polygon `place.2`, where `r` is
/// `place.1`.
pub open spec fn is_place(view: ObjView, place: (Seq<char>, int, int)) -> bool {
    &&& view.meshes.contains_key(place.0)
    &&& 0 <= place.1 < view.meshes[place.0].len()
    &&& view.meshes[place.0][place.1].0 <= place.2 < view.meshes[place.0][place.1].1
}

/// `element` is that of a material: the place of its last definition in the library, or the first
/// element where the library does not define it.
pub open spec fn is_element_of(names: Seq<Seq<char>>, material: Seq<char>, element: int) -> bool {
    if names.contains(material) {
        &&& 0 <= element < names.len()
        &&& names[element] == material
        &&& forall|i: int| element < i < names.len() ==> #[trigger] names[i] != material
    } else {
        element == 0
    }
}

/// Corner `c` of triangle `t` has the position, the texture coordinate and the normal that corner
/// `c` of polygon `p` refers to.
pub open spec fn corner_shown(mesh: LoadedObj, view: ObjView, t: int, p: int, c: int) -> bool {
    let corner = view.polygons[p].1[c];
    let vertex = mesh.vertices@[mesh.indices@[3 * t + c] as int];
    &&& vertex.position == view.positions[corner.0 as int]
    &&& vertex.tex_coord == view.tex_coords[corner.1 as int]
    &&& vertex.normal == view.normals[corner.2 as int]
}

/// Triangle `t` is the polygon at a place: its corners in order, in the range of indices of the
/// element of its material.
pub open spec fn shows_polygon(
    mesh: LoadedObj,
    view: ObjView,
    names: Seq<Seq<char>>,
    t: int,
    place: (Seq<char>, int, int),
) -> bool {
    &&& is_place(view, place)
    &&& view.polygons[place.2].1.len() == 3
    &&& corner_shown(mesh, view, t, place.2, 0)
    &&& corner_shown(mesh, view, t, place.2, 1)
    &&& corner_shown(mesh, view, t, place.2, 2)
    &&& exists|e: int|
        #![trigger mesh.ranges@[e]]
        0 <= e < mesh.ranges.len() && is_element_of(names, place.0, e) && mesh.ranges@[e].0 <= 3 * t
            < mesh.ranges@[e].1
}

/// Corner `c` of the polygon at a place.
pub open spec fn corner_of(view: ObjView, place: (Seq<char>, int, int), c: int) -> (
    usize,
    usize,
    usize,
) {
    view.polygons[place.2].1[c]
}

/// Some index is that of vertex `v`.
pub open spec fn vertex_used(mesh: LoadedObj, v: int) -> bool {
    exists|i: int| 0 <= i < mesh.indices.len() && #[trigger] mesh.indices@[i] == v
}

/// Triangle `t` of a mesh is the polygon at `places[t]` of the file; the polygons of all materials
/// are there, each once; two corners share a vertex just where the file gives them the same
/// position, texture coordinate and normal; and every vertex is one of a corner.
pub open spec fn shows_all(
    mesh: LoadedObj,
    view: ObjView,
    names: Seq<Seq<char>>,
    places: Seq<(Seq<char>, int, int)>,
) -> bool {
    &&& mesh.indices.len() == 3 * places.len()
    &&& places.no_duplicates()
    &&& forall|place: (Seq<char>, int, int)| #[trigger]
        places.contains(place) <==> is_place(view, place)
    &&& forall|t: int|
        0 <= t < places.len() ==> shows_polygon(mesh, view, names, t, #[trigger] places[t])
    &&& forall|s: int, b: int, t: int, c: int|
        #![trigger corner_of(view, places[s], b), corner_of(view, places[t], c)]
        0 <= s < places.len() && 0 <= b < 3 && 0 <= t < places.len() && 0 <= c < 3 ==> (
        mesh.indices@[3 * s + b] == mesh.indices@[3 * t + c] <==> corner_of(view, places[s], b)
            == corner_of(view, places[t], c))
    &&& forall|v: int| 0 <= v < mesh.vertices.len() ==> #[trigger] vertex_used(mesh, v)
}

/// A loaded mesh shows the polygons of the file: every corner of every triangle has the position,
/// the texture coordinate and the normal that the file gives to that corner, every polygon of
/// every material is one triangle of the element of that material, and corners share a vertex
/// just where all three are the same.
pub proof fn meshes_show_their_polygons(mesh: LoadedObj, view: ObjView, names: Seq<Seq<char>>)
    requires
        mesh.is_mesh_of(view, names),
        mesh.wf(),
        names.len() <= u32::MAX,
    ensures
        exists|places: Seq<(Seq<char>, int, int)>| shows_all(mesh, view, names, places),
{
    let (groups, keys, sorted) = choose|
        groups: Seq<PolygonGroup>,
        keys: Seq<(usize, usize, usize)>,
        sorted: Seq<Triangle>,
    |
        {
            &&& #[trigger] indexed(view, names, groups, keys, sorted)
            &&& mesh.vertices@ == vertices_of(view, keys)
            &&& mesh.indices@ == flat_indices(sorted)
            &&& ranges_by_element(sorted, element_count(names), mesh.ranges@)
        };
    let own = group_elements(groups, element_orders(names));
    let visits = group_visits(groups, own);
    assert(visits == model_visits(groups, element_orders(names)));
    let drawn = visit_triangles(view.polygons, visits, keys);
    let order = choose|order: Seq<usize>| #[trigger]
        is_stable_order(elements_of(drawn), order) && sorted == Seq::new(
            order.len(),
            |k: int| drawn[order[k] as int],
        );
    places_of_groups(groups, own);
    let all = group_places(groups);
    let places = Seq::new(order.len(), |k: int| all[order[k] as int]);
    let corners = corner_keys(view.polygons, visits);
    distinct_items(corners);
    assert(order.len() == visits.len());
    assert(mesh.indices.len() == 3 * places.len());
    assert(places.no_duplicates()) by {
        assert forall|s: int, t: int| 0 <= s < t < places.len() implies places[s] != places[t] by {
            assert(crate::sort::stands_before(elements_of(drawn), order[s] as int, order[t] as int));
            assert(order[s] != order[t]);
        }
    }
    assert forall|place: (Seq<char>, int, int)| #[trigger]
        places.contains(place) <==> is_place(view, place) by {
        if places.contains(place) {
            let t = places.index_of(place);
            assert(all[order[t] as int] == place);
            assert(place_in(groups, place));
            let g = choose|g: int|
                0 <= g < groups.len() && (#[trigger] groups[g]).material@ == place.0 && 0 <= place.1
                    < groups[g].ranges.len() && groups[g].ranges@[place.1].0 <= place.2
                    < groups[g].ranges@[place.1].1;
            assert(view.meshes[groups[g].material@] == groups[g].ranges@);
        }
        if is_place(view, place) {
            let g = choose|g: int|
                0 <= g < groups.len() && (#[trigger] groups[g]).material@ == place.0;
            assert(view.meshes[groups[g].material@] == groups[g].ranges@);
            assert(place_in(groups, place));
            assert(all.contains(place));
            let i = all.index_of(place);
            order_reaches(elements_of(drawn), order, i);
            let t = choose|t: int| 0 <= t < order.len() && #[trigger] order[t] == i;
            assert(places[t] == place);
        }
    }
    assert forall|t: int, c: int| 0 <= t < places.len() && 0 <= c < 3 implies ({
        let i = mesh.indices@[3 * t + c] as int;
        &&& 0 <= i < keys.len()
        &&& keys[i] == vertex_key(#[trigger] corner_of(view, places[t], c))
    }) by {
        let v = order[t] as int;
        assert(visits[v].0 == all[v].2);
        keys_of_visit(view.polygons, visits, v);
        assert(sorted[t] == triangle_of(view.polygons, visits[v], keys));
        assert((3 * t + c) / 3 == t && (3 * t + c) % 3 == c);
        let key = vertex_key(corner_of(view, places[t], c));
        assert(c == 0 || c == 1 || c == 2);
        assert(keys.contains(key));
        assert(mesh.indices@[3 * t + c] == keys.index_of(key) as u32);
        assert(keys.index_of(key) < keys.len() == mesh.vertices.len());
    }
    assert forall|t: int| 0 <= t < places.len() implies shows_polygon(
        mesh,
        view,
        names,
        t,
        #[trigger] places[t],
    ) by {
        let v = order[t] as int;
        let p = places[t].2;
        assert(places.contains(places[t]));
        assert(visits[v].0 == p);
        assert(polygon_fault(view.polygons[visits[v].0 as int], view.counts()) is None);
        assert forall|c: int| 0 <= c < 3 implies #[trigger] corner_shown(mesh, view, t, p, c) by {
            let corner = corner_of(view, places[t], c);
            let i = mesh.indices@[3 * t + c] as int;
            assert(mesh.vertices@[i] == attributes_of(view, keys[i]));
            assert(keys[i] == vertex_key(corner));
        }
        let e = sorted[t].element as int;
        let g = choose|g: int|
            0 <= g < groups.len() && (#[trigger] groups[g]).material@ == places[t].0 && own[g]
                == visits[v].1;
        element_of_name(names, groups[g].material@);
        assert(own[g] == e);
        orders_below(names, groups[g].material@);
        assert(is_element_of(names, places[t].0, e));
        assert(e < element_count(names));
        assert(is_element_range(sorted, e, mesh.ranges@[e]));
        assert(sorted[t].element == e);
    }
    assert forall|s: int, b: int, t: int, c: int|
        #![trigger corner_of(view, places[s], b), corner_of(view, places[t], c)]
        0 <= s < places.len() && 0 <= b < 3 && 0 <= t < places.len() && 0 <= c < 3 implies (
    mesh.indices@[3 * s + b] == mesh.indices@[3 * t + c] <==> corner_of(view, places[s], b)
        == corner_of(view, places[t], c)) by {
        let (i, j) = (mesh.indices@[3 * s + b] as int, mesh.indices@[3 * t + c] as int);
        assert(keys[i] == vertex_key(corner_of(view, places[s], b)));
        assert(keys[j] == vertex_key(corner_of(view, places[t], c)));
    }
    assert forall|v: int| 0 <= v < mesh.vertices.len() implies #[trigger] vertex_used(mesh, v) by {
        assert(keys.contains(keys[v]));
        assert(corners.contains(keys[v]));
        visit_of_key(view.polygons, visits, corners.index_of(keys[v]));
        let (u, c) = choose|u: int, c: int|
            0 <= u < visits.len() && 0 <= c < 3 && vertex_key(
                #[trigger] view.polygons[visits[u].0 as int].1[c],
            ) == corners[corners.index_of(keys[v])];
        order_reaches(elements_of(drawn), order, u);
        let t = choose|t: int| 0 <= t < order.len() && #[trigger] order[t] == u;
        assert(all[u].2 == visits[u].0);
        let i = mesh.indices@[3 * t + c] as int;
        assert(keys[i] == vertex_key(corner_of(view, places[t], c)));
        assert(i == v);
        assert(mesh.indices@[3 * t + c] == v);
    }
    assert(shows_all(mesh, view, names, places));
}

/// Every item has its place in a stable order.
proof fn order_reaches(items: Seq<u32>, order: Seq<usize>, i: int)
    requires
        is_stable_order(items, order),
        0 <= i < items.len() <= usize::MAX,
    ensures
        exists|t: int| 0 <= t < order.len() && #[trigger] order[t] == i,
{
    assert(order.contains(i as usize));
    let t = order.index_of(i as usize);
    assert(order[t] == i);
}

/// The corner that a key is that of.
proof fn visit_of_key(
    polygons: Seq<(CornerFormat, Seq<(usize, usize, usize)>)>,
    visits: Seq<(usize, u32)>,
    k: int,
)
    requires
        0 <= k < corner_keys(polygons, visits).len(),
    ensures
        exists|u: int, c: int|
            0 <= u < visits.len() && 0 <= c < 3 && vertex_key(
                #[trigger] polygons[visits[u].0 as int].1[c],
            ) == corner_keys(polygons, visits)[k],
    decreases visits.len(),
{
    if visits.len() > 0 {
        let front = visits.drop_last();
        let before = corner_keys(polygons, front);
        let last = visits.len() - 1;
        if k < before.len() {
            visit_of_key(polygons, front, k);
            let (u, c) = choose|u: int, c: int|
                0 <= u < front.len() && 0 <= c < 3 && vertex_key(
                    #[trigger] polygons[front[u].0 as int].1[c],
                ) == before[k];
            assert(vertex_key(polygons[visits[u].0 as int].1[c]) == corner_keys(
                polygons,
                visits,
            )[k]);
        } else {
            let c = k - before.len();
            assert(vertex_key(polygons[visits[last].0 as int].1[c]) == corner_keys(
                polygons,
                visits,
            )[k]);
        }
    }
}

/// The element of a material is the place of its last definition.
proof fn element_of_name(names: Seq<Seq<char>>, name: Seq<char>)
    requires
        names.len() <= u32::MAX,
    ensures
        element_orders(names).contains_key(name) <==> names.contains(name),
        element_orders(names).contains_key(name) ==> is_element_of(
            names,
            name,
            element_orders(names)[name] as int,
        ),
    decreases names.len(),
{
    if names.len() > 0 {
        let front = names.drop_last();
        element_of_name(front, name);
        if names.last() == name {
            assert(names[names.len() - 1] == name);
        } else {
            if front.contains(name) {
                let i = front.index_of(name);
                assert(names[i] == name);
                let e = element_orders(front)[name] as int;
                assert(names[e] == name);
                assert forall|i: int| e < i < names.len() implies #[trigger] names[i] != name by {
                    if i < front.len() {
                        assert(front[i] == names[i]);
                    }
                }
            }
            if names.contains(name) {
                let i = names.index_of(name);
                assert(front[i] == name);
            }
        }
    }
}

/// The polygons of a range, in order.
spec fn range_places(material: Seq<char>, r: int, range: (usize, usize)) -> Seq<
    (Seq<char>, int, int),
> {
    Seq::new(
        if range.0 <= range.1 {
            (range.1 - range.0) as nat
        } else {
            0
        },
        |k: int| (material, r, range.0 + k),
    )
}

/// The polygons of some ranges, in order.
spec fn ranges_places(material: Seq<char>, ranges: Seq<(usize, usize)>) -> Seq<
    (Seq<char>, int, int),
>
    decreases ranges.len(),
{
    if ranges.len() == 0 {
        seq![]
    } else {
        ranges_places(material, ranges.drop_last()) + range_places(
            material,
            ranges.len() - 1,
            ranges.last(),
        )
    }
}

/// The polygons of some groups, in order.
spec fn group_places(groups: Seq<PolygonGroup>) -> Seq<(Seq<char>, int, int)>
    decreases groups.len(),
{
    if groups.len() == 0 {
        seq![]
    } else {
        group_places(groups.drop_last()) + ranges_places(
            groups.last().material@,
            groups.last().ranges@,
        )
    }
}

/// Some group has a polygon at that place.
spec fn place_in(groups: Seq<PolygonGroup>, place: (Seq<char>, int, int)) -> bool {
    exists|g: int|
        0 <= g < groups.len() && (#[trigger] groups[g]).material@ == place.0 && 0 <= place.1
            < groups[g].ranges.len() && groups[g].ranges@[place.1].0 <= place.2
            < groups[g].ranges@[place.1].1
}

proof fn places_of_ranges(material: Seq<char>, ranges: Seq<(usize, usize)>, element: u32)
    ensures
        ranges_places(material, ranges).len() == ranges_visits(ranges, element).len(),
        ranges_places(material, ranges).no_duplicates(),
        forall|i: int|
            #![trigger ranges_places(material, ranges)[i]]
            #![trigger ranges_visits(ranges, element)[i]]
            0 <= i < ranges_places(material, ranges).len() ==> {
                let place = ranges_places(material, ranges)[i];
                &&& ranges_visits(ranges, element)[i] == (place.2 as usize, element)
                &&& place.2 == place.2 as usize
                &&& place.0 == material
                &&& 0 <= place.1 < ranges.len()
                &&& ranges[place.1].0 <= place.2 < ranges[place.1].1
            },
        forall|place: (Seq<char>, int, int)|
            place.0 == material && 0 <= place.1 < ranges.len() && ranges[place.1].0 <= place.2
                < ranges[place.1].1 ==> #[trigger] ranges_places(material, ranges).contains(place),
    decreases ranges.len(),
{
    if ranges.len() > 0 {
        let front = ranges.drop_last();
        let last = ranges.last();
        let r = ranges.len() - 1;
        places_of_ranges(material, front, element);
        let (before, own) = (ranges_places(material, front), range_places(material, r, last));
        let all = ranges_places(material, ranges);
        assert(all == before + own);
        assert forall|i: int, j: int| 0 <= i < j < all.len() implies all[i] != all[j] by {
            if j < before.len() {
                assert(all[i] == before[i] && all[j] == before[j]);
            } else if i < before.len() {
                assert(all[i] == before[i]);
                assert(before[i].1 < r);
                assert(all[j] == own[j - before.len()]);
            } else {
                assert(all[i] == own[i - before.len()]);
                assert(all[j] == own[j - before.len()]);
            }
        }
        assert forall|i: int|
            #![trigger all[i]]
            #![trigger ranges_visits(ranges, element)[i]]
            0 <= i < all.len() implies {
            let place = all[i];
            &&& ranges_visits(ranges, element)[i] == (place.2 as usize, element)
            &&& place.2 == place.2 as usize
            &&& place.0 == material
            &&& 0 <= place.1 < ranges.len()
            &&& ranges[place.1].0 <= place.2 < ranges[place.1].1
        } by {
            if i < before.len() {
                assert(all[i] == before[i]);
                assert(ranges_visits(ranges, element)[i] == ranges_visits(front, element)[i]);
                assert(ranges[before[i].1] == front[before[i].1]);
            } else {
                assert(all[i] == own[i - before.len()]);
                assert(ranges_visits(ranges, element)[i] == crate::meshes::indexing::range_visits(
                    last,
                    element,
                )[i - before.len()]);
            }
        }
        assert forall|place: (Seq<char>, int, int)|
            place.0 == material && 0 <= place.1 < ranges.len() && ranges[place.1].0 <= place.2
                < ranges[place.1].1 implies #[trigger] all.contains(place) by {
            if place.1 < r {
                assert(front[place.1] == ranges[place.1]);
                assert(before.contains(place));
                let i = before.index_of(place);
                assert(all[i] == place);
            } else {
                let k = place.2 - last.0;
                assert(own[k] == place);
                assert(all[before.len() + k] == place);
            }
        }
    }
}

proof fn places_of_groups(groups: Seq<PolygonGroup>, elements: Seq<u32>)
    requires
        elements.len() >= groups.len(),
        forall|g: int, h: int|
            0 <= g < h < groups.len() ==> (#[trigger] groups[g]).material@ != (
            #[trigger] groups[h]).material@,
    ensures
        group_places(groups).len() == group_visits(groups, elements).len(),
        group_places(groups).no_duplicates(),
        forall|i: int|
            #![trigger group_places(groups)[i]]
            #![trigger group_visits(groups, elements)[i]]
            0 <= i < group_places(groups).len() ==> {
                let place = group_places(groups)[i];
                &&& group_visits(groups, elements)[i].0 == place.2
                &&& place_in(groups, place)
                &&& exists|g: int|
                    0 <= g < groups.len() && (#[trigger] groups[g]).material@ == place.0
                        && elements[g] == group_visits(groups, elements)[i].1
            },
        forall|place: (Seq<char>, int, int)|
            place_in(groups, place) ==> #[trigger] group_places(groups).contains(place),
    decreases groups.len(),
{
    if groups.len() > 0 {
        let front = groups.drop_last();
        let last = groups.last();
        let n = groups.len() - 1;
        assert forall|g: int, h: int| 0 <= g < h < front.len() implies (
        #[trigger] front[g]).material@ != (#[trigger] front[h]).material@ by {
            assert(groups[g].material@ != groups[h].material@);
        }
        places_of_groups(front, elements);
        places_of_ranges(last.material@, last.ranges@, elements[n]);
        let (before, own) = (group_places(front), ranges_places(last.material@, last.ranges@));
        let all = group_places(groups);
        assert(all == before + own);
        let visits = group_visits(groups, elements);
        assert forall|i: int, j: int| 0 <= i < j < all.len() implies all[i] != all[j] by {
            if j < before.len() {
                assert(all[i] == before[i] && all[j] == before[j]);
            } else if i < before.len() {
                assert(all[i] == before[i]);
                assert(place_in(front, before[i]));
                let g = choose|g: int|
                    0 <= g < front.len() && (#[trigger] front[g]).material@ == before[i].0;
                assert(groups[g].material@ != groups[n].material@);
                assert(all[j] == own[j - before.len()]);
            } else {
                assert(all[i] == own[i - before.len()]);
                assert(all[j] == own[j - before.len()]);
            }
        }
        assert forall|i: int|
            #![trigger all[i]]
            #![trigger visits[i]]
            0 <= i < all.len() implies {
            let place = all[i];
            &&& visits[i].0 == place.2
            &&& place_in(groups, place)
            &&& exists|g: int|
                0 <= g < groups.len() && (#[trigger] groups[g]).material@ == place.0 && elements[g]
                    == visits[i].1
        } by {
            let place = all[i];
            if i < before.len() {
                assert(all[i] == before[i]);
                assert(visits[i] == group_visits(front, elements)[i]);
                assert(place_in(front, place));
                let g = choose|g: int|
                    0 <= g < front.len() && (#[trigger] front[g]).material@ == place.0 && 0
                        <= place.1 < front[g].ranges.len() && front[g].ranges@[place.1].0
                        <= place.2 < front[g].ranges@[place.1].1;
                assert(groups[g] == front[g]);
                let h = choose|h: int|
                    0 <= h < front.len() && (#[trigger] front[h]).material@ == place.0
                        && elements[h] == visits[i].1;
                assert(groups[h] == front[h]);
            } else {
                assert(all[i] == own[i - before.len()]);
                assert(visits[i] == ranges_visits(last.ranges@, elements[n])[i - before.len()]);
                assert(groups[n] == last);
            }
        }
        assert forall|place: (Seq<char>, int, int)| place_in(
            groups,
            place,
        ) implies #[trigger] all.contains(place) by {
            let g = choose|g: int|
                0 <= g < groups.len() && (#[trigger] groups[g]).material@ == place.0 && 0 <= place.1
                    < groups[g].ranges.len() && groups[g].ranges@[place.1].0 <= place.2
                    < groups[g].ranges@[place.1].1;
            if g < n {
                assert(front[g] == groups[g]);
                assert(place_in(front, place));
                assert(before.contains(place));
                let i = before.index_of(place);
                assert(all[i] == place);
            } else {
                assert(own.contains(place));
                let i = own.index_of(place);
                assert(all[before.len() + i] == place);
            }
        }
    }
}

} // verus!
