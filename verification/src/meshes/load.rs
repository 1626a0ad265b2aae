//! Turning a parsed model into vertex and index buffers.

use crate::meshes::indexing::{
    index_polygons, sort_triangles, visit_groups, AttributeCounts, CornerFormat, IndexedMesh,
    MeshFault, Polygon, PolygonGroup, Triangle,
};
#[allow(unused_imports)]
use crate::meshes::indexing::{
    corner_keys, distinct, first_fault, group_visits, groups_in_range, polygon_views, range_visits,
    ranges_visits, sorted_by_element, visit_triangles, visits_sound,
};
use crate::meshes::statements::find_unsupported;
#[allow(unused_imports)]
use crate::meshes::statements::{
    degrees_text, obj_supported, states_degree, supported_part, unsupported_words,
};
use crate::text::{chars_of, find_char, find_word, string_of, str_eq};
#[allow(unused_imports)]
use crate::text::{after_first_word, first_word, split};
use obj::raw::object::Polygon as RawPolygon;
use vstd::hash_map::StringHashMap;
use vstd::prelude::*;

verus! {

/// The line of a material library starts the definition of a material.
pub open spec fn starts_material(line: Seq<char>) -> bool {
    first_word(line) == "newmtl"@
}

/// The name in such a line: empty where it is missing.
pub open spec fn material_name(line: Seq<char>) -> Seq<char> {
    first_word(after_first_word(line))
}

/// Every line that starts a material names it.
pub open spec fn materials_named(lines: Seq<Seq<char>>) -> bool {
    forall|i: int|
        0 <= i < lines.len() && #[trigger] starts_material(lines[i]) ==> material_name(
            lines[i],
        ).len() > 0
}

/// The names of the materials that `lines` define, in order.
pub open spec fn material_names(lines: Seq<Seq<char>>) -> Seq<Seq<char>>
    decreases lines.len(),
{
    if lines.len() == 0 {
        seq![]
    } else if starts_material(lines.last()) {
        material_names(lines.drop_last()).push(material_name(lines.last()))
    } else {
        material_names(lines.drop_last())
    }
}

/// The element that each material name stands for: its position among the definitions, the last
/// one where a name is defined more than once.
pub open spec fn element_orders(names: Seq<Seq<char>>) -> Map<Seq<char>, u32>
    decreases names.len(),
{
    if names.len() == 0 {
        Map::empty()
    } else {
        element_orders(names.drop_last()).insert(names.last(), (names.len() - 1) as u32)
    }
}

/// The lines of a material library.
pub open spec fn mtl_lines(text: Seq<char>) -> Seq<Seq<char>> {
    split(text, '\n')
}

/// The elements of a mesh, ordered by the material definitions of its material library.
pub struct ElementOrders {
    orders: StringHashMap<u32>,
    count: u32,
}

impl ElementOrders {
    pub closed spec fn orders(self) -> Map<Seq<char>, u32> {
        self.orders@
    }

    pub closed spec fn count(self) -> nat {
        self.count as nat
    }

    /// `self` holds the elements of the materials `names`.
    pub open spec fn describes(self, names: Seq<Seq<char>>) -> bool {
        &&& self.orders() == element_orders(names)
        &&& self.count() == names.len()
    }

    /// A mesh without a material library: one element.
    pub fn none() -> (elements: Self)
        ensures
            elements.describes(seq![]),
    {
        ElementOrders { orders: StringHashMap::new(), count: 0 }
    }

    /// Reads the material names out of a material library; nothing where a definition lacks its
    /// name.
    pub fn parse_mtl(text: &str) -> (elements: Option<Self>)
        requires
            text@.len() < u32::MAX,
        ensures
            elements is Some <==> materials_named(mtl_lines(text@)),
            elements matches Some(e) ==> e.describes(material_names(mtl_lines(text@))),
    {
        let chars = chars_of(text);
        let mut orders: StringHashMap<u32> = StringHashMap::new();
        let mut count: u32 = 0;
        let mut start: usize = 0;
        let ghost mut lines: Seq<Seq<char>> = seq![];
        proof {
            assert(chars@.skip(0) =~= chars@);
            assert(lines + mtl_lines(chars@) =~= mtl_lines(chars@));
        }
        while start <= chars.len()
            invariant
                chars@ == text@,
                chars.len() < u32::MAX,
                start <= chars.len() + 1,
                start > chars.len() ==> lines == mtl_lines(text@),
                start <= chars.len() ==> lines + split(chars@.skip(start as int), '\n') == mtl_lines(text@),
                materials_named(lines),
                orders@ == element_orders(material_names(lines)),
                count == material_names(lines).len(),
                count <= start,
            decreases chars.len() + 1 - start,
        {
            let end: usize = find_char(&chars, start, '\n');
            let ghost rest = chars@.skip(start as int);
            let ghost line = chars@.subrange(start as int, end as int);
            proof {
                if end < chars.len() {
                    assert(rest.take(end - start) =~= line);
                    assert(rest.skip(end - start + 1) =~= chars@.skip(end + 1));
                    assert(split(rest, '\n') == seq![line] + split(chars@.skip(end + 1), '\n'));
                    assert(lines + (seq![line] + split(chars@.skip(end + 1), '\n'))
                        =~= lines.push(line) + split(chars@.skip(end + 1), '\n'));
                } else {
                    assert(rest =~= line);
                    assert(split(rest, '\n') == seq![line]);
                    assert(lines + seq![line] =~= lines.push(line));
                }
                assert(mtl_lines(text@)[lines.len() as int] == line);
                assert(lines.push(line).drop_last() =~= lines);
                assert forall|i: int|
                    0 <= i < lines.len() && #[trigger] starts_material(
                        lines.push(line)[i],
                    ) implies material_name(lines.push(line)[i]).len() > 0 by {
                    assert(lines.push(line)[i] == lines[i]);
                }
            }
            let word = find_word(&chars, start, end);
            if str_eq(string_of(&chars, word.0, word.1).as_str(), "newmtl") {
                let name = find_word(&chars, word.1, end);
                proof {
                    assert(starts_material(line));
                    assert(chars@.subrange(name.0 as int, name.1 as int) == material_name(line));
                }
                if name.0 == name.1 {
                    proof {
                        let all = mtl_lines(text@);
                        let i = lines.len() as int;
                        assert(starts_material(all[i]) && material_name(all[i]).len() == 0);
                    }
                    return None;
                }
                orders.insert(string_of(&chars, name.0, name.1), count);
                proof {
                    let names = material_names(lines);
                    assert(names.push(material_name(line)).drop_last() =~= names);
                    reveal_strlit("newmtl");
                    assert(first_word(line).len() == 6);
                }
                count += 1;
            }
            proof {
                lines = lines.push(line);
            }
            start = end + 1;
        }
        Some(ElementOrders { orders, count })
    }

    /// The element of the material `name`: the first one for a name without a definition.
    pub fn element_index(&self, name: &str) -> (index: u32)
        ensures
            index == (if self.orders().contains_key(name@) {
                self.orders()[name@]
            } else {
                0
            }),
    {
        match self.orders.get(name) {
            Some(index) => *index,
            None => 0,
        }
    }

    /// The number of elements: at least one.
    pub fn num_elements(&self) -> (n: u32)
        ensures
            n == (if self.count() == 0 {
                1
            } else {
                self.count()
            }),
    {
        if self.count == 0 {
            1
        } else {
            self.count
        }
    }
}

/// The error of the model parser.
#[verifier::external_type_specification]
#[verifier::external_body]
pub struct ExObjError(obj::ObjError);

/// The model that the parser returns.
#[verifier::external_type_specification]
#[verifier::external_body]
pub struct ExRawObj(obj::raw::RawObj);

/// What a model file says: the attributes that it stores, each number by its bits, its polygons,
/// and the ranges of polygons that each material has.
pub struct ObjView {
    pub positions: Seq<[u32; 3]>,
    pub tex_coords: Seq<[u32; 2]>,
    pub normals: Seq<[u32; 3]>,
    pub polygons: Seq<(CornerFormat, Seq<(usize, usize, usize)>)>,
    pub meshes: Map<Seq<char>, Seq<(usize, usize)>>,
}

impl ObjView {
    /// How many positions, texture coordinates and normals are stored.
    pub open spec fn counts(self) -> AttributeCounts {
        AttributeCounts {
            positions: self.positions.len() as usize,
            tex_coords: self.tex_coords.len() as usize,
            normals: self.normals.len() as usize,
        }
    }

    /// The ranges of polygons lie inside the polygons.
    pub open spec fn ranges_within(self) -> bool {
        forall|name: Seq<char>, r: int|
            self.meshes.contains_key(name) && 0 <= r < self.meshes[name].len() ==> (
            #[trigger] self.meshes[name][r]).0 <= self.meshes[name][r].1 <= self.polygons.len()
    }
}

/// What `obj::raw::parse_obj` reads out of a model file; nothing where it rejects the file.
pub uninterp spec fn obj_model(text: Seq<char>) -> Option<ObjView>;

/// What a model of the parser holds.
pub uninterp spec fn raw_contents(raw: obj::raw::RawObj) -> ObjView;

/// `obj::raw::parse_obj` parses a model file. The ranges of polygons that it collects for each
/// material lie inside the polygons.
#[verifier::external_body]
fn parse_obj(text: &str) -> (result: Result<obj::raw::RawObj, obj::ObjError>)
    requires
        obj_supported(text@),
    ensures
        match result {
            Ok(raw) => obj_model(text@) == Some(raw_contents(raw)) && raw_contents(
                raw,
            ).ranges_within(),
            Err(_) => obj_model(text@) is None,
        },
{
    obj::raw::parse_obj(text.as_bytes())
}

/// The fields `positions`, `tex_coords` and `normals` of `obj::raw::RawObj`: the first three, two
/// and three numbers of each of their entries, by their bits.
#[verifier::external_body]
fn raw_attributes(raw: &obj::raw::RawObj) -> (attributes: (
    Vec<[u32; 3]>,
    Vec<[u32; 2]>,
    Vec<[u32; 3]>,
))
    ensures
        attributes.0@ == raw_contents(*raw).positions,
        attributes.1@ == raw_contents(*raw).tex_coords,
        attributes.2@ == raw_contents(*raw).normals,
{
    (
        raw.positions.iter().map(|p| bytemuck::cast([p.0, p.1, p.2])).collect(),
        raw.tex_coords.iter().map(|t| bytemuck::cast([t.0, t.1])).collect(),
        raw.normals.iter().map(|n| bytemuck::cast([n.0, n.1, n.2])).collect(),
    )
}

/// The field `polygons` of `obj::raw::RawObj`; the corners are kept for those that have all
/// attributes.
#[verifier::external_body]
fn raw_polygons(raw: &obj::raw::RawObj) -> (polygons: Vec<Polygon>)
    ensures
        polygon_views(polygons@) == raw_contents(*raw).polygons,
{
    raw.polygons.iter().map(|p| match p {
        RawPolygon::P(_) => Polygon::P,
        RawPolygon::PT(_) => Polygon::PT,
        RawPolygon::PN(_) => Polygon::PN,
        RawPolygon::PTN(corners) => Polygon::PTN(corners.clone()),
    }).collect()
}

/// `groups` lists `meshes`, each once, in any order.
pub open spec fn lists_meshes(
    groups: Seq<PolygonGroup>,
    meshes: Map<Seq<char>, Seq<(usize, usize)>>,
) -> bool {
    &&& forall|g: int|
        0 <= g < groups.len() ==> meshes.contains_key((#[trigger] groups[g]).material@)
            && meshes[groups[g].material@] == groups[g].ranges@
    &&& forall|g: int, h: int|
        0 <= g < h < groups.len() ==> (#[trigger] groups[g]).material@ != (
        #[trigger] groups[h]).material@
    &&& forall|name: Seq<char>| #[trigger]
        meshes.contains_key(name) ==> exists|g: int|
            0 <= g < groups.len() && (#[trigger] groups[g]).material@ == name
}

/// The field `meshes` of `obj::raw::RawObj`. The materials come in the order in which a hash map
/// is walked, of which nothing is stated.
#[verifier::external_body]
fn raw_groups(raw: &obj::raw::RawObj) -> (groups: Vec<PolygonGroup>)
    ensures
        lists_meshes(groups@, raw_contents(*raw).meshes),
{
    raw.meshes.iter().map(|(name, group)| PolygonGroup {
        material: name.clone(),
        ranges: group.polygons.iter().map(|r| (r.start, r.end)).collect(),
    }).collect()
}

/// A parsed model.
pub struct ParsedObj {
    pub positions: Vec<[u32; 3]>,
    pub tex_coords: Vec<[u32; 2]>,
    pub normals: Vec<[u32; 3]>,
    pub polygons: Vec<Polygon>,
    pub groups: Vec<PolygonGroup>,
}

impl ParsedObj {
    /// The parsed model says what the file says.
    pub open spec fn shows(self, view: ObjView) -> bool {
        &&& self.positions@ == view.positions
        &&& self.tex_coords@ == view.tex_coords
        &&& self.normals@ == view.normals
        &&& polygon_views(self.polygons@) == view.polygons
        &&& lists_meshes(self.groups@, view.meshes)
    }

    /// How many positions, texture coordinates and normals are stored.
    pub fn counts(&self) -> (counts: AttributeCounts)
        ensures
            counts.positions == self.positions.len(),
            counts.tex_coords == self.tex_coords.len(),
            counts.normals == self.normals.len(),
    {
        AttributeCounts {
            positions: self.positions.len(),
            tex_coords: self.tex_coords.len(),
            normals: self.normals.len(),
        }
    }
}

/// A model file that does not parse.
pub enum ObjFault {
    /// A statement that the parser has no implementation of.
    Unsupported,
    /// The parser's own error.
    Invalid(obj::ObjError),
}

/// The parser rejects what it reads up to the first statement of which it has no implementation:
/// an earlier statement, or the degrees that this one states.
pub open spec fn rejected_before(text: Seq<char>) -> bool {
    ||| obj_model(supported_part(text)) is None
    ||| states_degree(unsupported_words(text)) && obj_model(
        degrees_text(unsupported_words(text)),
    ) is None
}

/// The parser rejects a model file: the first fault in it is one that the parser reports.
pub open spec fn obj_rejected(text: Seq<char>) -> bool {
    if obj_supported(text) {
        obj_model(text) is None
    } else {
        rejected_before(text)
    }
}

/// The parser has no implementation of a statement that it gets to.
pub open spec fn obj_unsupported(text: Seq<char>) -> bool {
    !obj_supported(text) && !rejected_before(text)
}

/// Parses a model file.
pub fn load_model(text: &str) -> (result: Result<ParsedObj, ObjFault>)
    ensures
        match result {
            Ok(model) => {
                &&& obj_supported(text@)
                &&& obj_model(text@) matches Some(view) && model.shows(view)
                &&& groups_in_range(model.groups@, model.polygons@.len())
            },
            Err(ObjFault::Unsupported) => obj_unsupported(text@),
            Err(ObjFault::Invalid(_)) => obj_rejected(text@),
        },
{
    if let Some(unsupported) = find_unsupported(text) {
        match parse_obj(unsupported.before.as_str()) {
            Ok(_) => {},
            Err(e) => {
                return Err(ObjFault::Invalid(e));
            },
        }
        if let Some(degrees) = unsupported.degrees {
            match parse_obj(degrees.as_str()) {
                Ok(_) => {},
                Err(e) => {
                    return Err(ObjFault::Invalid(e));
                },
            }
        }
        return Err(ObjFault::Unsupported);
    }
    match parse_obj(text) {
        Ok(raw) => {
            let (positions, tex_coords, normals) = raw_attributes(&raw);
            let polygons = raw_polygons(&raw);
            let groups = raw_groups(&raw);
            let ghost view = raw_contents(raw);
            assert(groups_in_range(groups@, polygons@.len())) by {
                assert(polygons@.len() == view.polygons.len());
                assert forall|g: int, r: int|
                    0 <= g < groups.len() && 0 <= r < groups@[g].ranges.len() implies (
                #[trigger] groups@[g].ranges@[r]).0 <= groups@[g].ranges@[r].1 <= polygons@.len() by {
                    let name = groups@[g].material@;
                    assert(view.meshes[name][r] == groups@[g].ranges@[r]);
                }
            }
            Ok(ParsedObj { positions, tex_coords, normals, polygons, groups })
        },
        Err(e) => Err(ObjFault::Invalid(e)),
    }
}

/// The element of each group.
pub open spec fn group_elements(groups: Seq<PolygonGroup>, orders: Map<Seq<char>, u32>) -> Seq<u32> {
    groups.map_values(
        |g: PolygonGroup|
            if orders.contains_key(g.material@) {
                orders[g.material@]
            } else {
                0u32
            },
    )
}

/// The polygons of a model with their elements, in order.
pub open spec fn model_visits(groups: Seq<PolygonGroup>, orders: Map<Seq<char>, u32>) -> Seq<
    (usize, u32),
> {
    group_visits(groups, group_elements(groups, orders))
}

/// Turns a parsed model into an indexed mesh whose triangles are sorted by element.
pub fn index_model(
    polygons: &Vec<Polygon>,
    groups: &Vec<PolygonGroup>,
    counts: AttributeCounts,
    elements: &ElementOrders,
) -> (result: Result<IndexedMesh, MeshFault>)
    requires
        groups_in_range(groups@, polygons@.len()),
    ensures
        ({
            let views = polygon_views(polygons@);
            let visits = model_visits(groups@, elements.orders());
            match result {
                Ok(mesh) => {
                    &&& visits_sound(views, counts, visits, visits.len() as int)
                    &&& mesh.vertices@ == distinct(corner_keys(views, visits))
                    &&& sorted_by_element(
                        visit_triangles(views, visits, mesh.vertices@),
                        mesh.triangles@,
                    )
                },
                Err(fault) => exists|t: int|
                    first_fault(views, counts, visits, t, fault),
            }
        }),
{
    let mut group_element: Vec<u32> = Vec::with_capacity(groups.len());
    let mut g: usize = 0;
    while g < groups.len()
        invariant
            g <= groups.len(),
            group_element@ == group_elements(groups@, elements.orders()).take(g as int),
        decreases groups.len() - g,
    {
        group_element.push(elements.element_index(groups[g].material.as_str()));
        g += 1;
        assert(group_element@ =~= group_elements(groups@, elements.orders()).take(g as int));
    }
    assert(group_element@ =~= group_elements(groups@, elements.orders()));
    let visits = visit_groups(groups, &group_element);
    proof {
        visits_in_range(groups@, group_element@, polygons@.len());
    }
    assert(visits@ == model_visits(groups@, elements.orders()));
    match index_polygons(polygons, counts, &visits) {
        Ok(mesh) => {
            let triangles = sort_triangles(&mesh.triangles);
            Ok(IndexedMesh { vertices: mesh.vertices, triangles })
        },
        Err(fault) => Err(fault),
    }
}

proof fn visits_in_range(groups: Seq<PolygonGroup>, elements: Seq<u32>, n: nat)
    requires
        groups_in_range(groups, n),
    ensures
        forall|s: int|
            0 <= s < group_visits(groups, elements).len() ==> (
            #[trigger] group_visits(groups, elements)[s]).0 < n,
    decreases groups.len(),
{
    if groups.len() > 0 {
        let front = groups.drop_last();
        assert(groups_in_range(front, n)) by {
            assert forall|g: int, r: int|
                0 <= g < front.len() && 0 <= r < front[g].ranges.len() implies (
            #[trigger] front[g].ranges@[r]).0 <= front[g].ranges@[r].1 <= n by {
                assert(groups[g].ranges@[r].0 <= groups[g].ranges@[r].1 <= n);
            }
        }
        visits_in_range(front, elements, n);
        let last = groups.last();
        assert forall|r: int| 0 <= r < last.ranges@.len() implies (
        #[trigger] last.ranges@[r]).0 <= last.ranges@[r].1 <= n by {
            assert(groups[groups.len() - 1].ranges@[r].0 <= n);
        }
        let element = elements[groups.len() - 1];
        range_visits_in_range(last.ranges@, element, n);
        let before = group_visits(front, elements);
        assert forall|s: int| 0 <= s < group_visits(groups, elements).len() implies (
        #[trigger] group_visits(groups, elements)[s]).0 < n by {
            if s < before.len() {
                assert(group_visits(groups, elements)[s] == before[s]);
            } else {
                assert(group_visits(groups, elements)[s] == ranges_visits(last.ranges@, element)[s
                    - before.len()]);
            }
        }
    }
}

proof fn range_visits_in_range(ranges: Seq<(usize, usize)>, element: u32, n: nat)
    requires
        forall|r: int| 0 <= r < ranges.len() ==> (#[trigger] ranges[r]).0 <= ranges[r].1 <= n,
    ensures
        forall|s: int|
            0 <= s < ranges_visits(ranges, element).len() ==> (
            #[trigger] ranges_visits(ranges, element)[s]).0 < n,
    decreases ranges.len(),
{
    if ranges.len() > 0 {
        let front = ranges_visits(ranges.drop_last(), element);
        range_visits_in_range(ranges.drop_last(), element, n);
        assert(ranges.last() == ranges[ranges.len() - 1]);
        assert forall|s: int| 0 <= s < ranges_visits(ranges, element).len() implies (
        #[trigger] ranges_visits(ranges, element)[s]).0 < n by {
            if s < front.len() {
                assert(ranges_visits(ranges, element)[s] == front[s]);
            } else {
                assert(ranges_visits(ranges, element)[s] == range_visits(ranges.last(), element)[s
                    - front.len()]);
            }
        }
    }
}

/// The indices of some triangles.
pub open spec fn flat_indices(triangles: Seq<Triangle>) -> Seq<u32> {
    Seq::new(
        3 * triangles.len(),
        |i: int|
            if i % 3 == 0 {
                triangles[i / 3].a
            } else if i % 3 == 1 {
                triangles[i / 3].b
            } else {
                triangles[i / 3].c
            },
    )
}

/// Writes triangles as an index buffer.
pub fn flatten_triangles(triangles: &Vec<Triangle>) -> (indices: Vec<u32>)
    ensures
        indices@ == flat_indices(triangles@),
{
    let mut indices: Vec<u32> = Vec::new();
    let mut t: usize = 0;
    while t < triangles.len()
        invariant
            t <= triangles.len(),
            indices@ == flat_indices(triangles@).take(3 * t),
        decreases triangles.len() - t,
    {
        let triangle: Triangle = triangles[t];
        indices.push(triangle.a);
        indices.push(triangle.b);
        indices.push(triangle.c);
        t += 1;
        assert(indices@ =~= flat_indices(triangles@).take(3 * t));
    }
    assert(indices@ =~= flat_indices(triangles@));
    indices
}

/// The materials of a library are those that its lines define, in order: `at[k]` is the line that
/// defines material `k`, a line whose first word is `newmtl` and whose second word is the name.
pub open spec fn defined_at(
    lines: Seq<Seq<char>>,
    names: Seq<Seq<char>>,
    at: Seq<int>,
) -> bool {
    &&& at.len() == names.len()
    &&& forall|k: int|
        0 <= k < at.len() ==> {
            let line = lines[#[trigger] at[k]];
            &&& 0 <= at[k] < lines.len()
            &&& first_word(line) == seq!['n', 'e', 'w', 'm', 't', 'l']
            &&& names[k] == first_word(after_first_word(line))
        }
    &&& forall|k: int, l: int| 0 <= k < l < at.len() ==> #[trigger] at[k] < #[trigger] at[l]
    &&& forall|i: int|
        0 <= i < lines.len() && first_word(#[trigger] lines[i]) == seq!['n', 'e', 'w', 'm', 't', 'l']
            ==> at.contains(i)
}

/// Every line of a material library that defines a material counts, and no other, in order.
pub proof fn materials_in_order(lines: Seq<Seq<char>>)
    ensures
        exists|at: Seq<int>| defined_at(lines, material_names(lines), at),
    decreases lines.len(),
{
    reveal_strlit("newmtl");
    assert("newmtl"@ =~= seq!['n', 'e', 'w', 'm', 't', 'l']);
    if lines.len() == 0 {
        assert(defined_at(lines, material_names(lines), seq![]));
    } else {
        let front = lines.drop_last();
        materials_in_order(front);
        let before = choose|at: Seq<int>| defined_at(front, material_names(front), at);
        let last = lines.len() - 1;
        let at = if starts_material(lines.last()) {
            before.push(last)
        } else {
            before
        };
        assert forall|k: int| 0 <= k < at.len() implies {
            let line = lines[#[trigger] at[k]];
            &&& 0 <= at[k] < lines.len()
            &&& first_word(line) == seq!['n', 'e', 'w', 'm', 't', 'l']
            &&& material_names(lines)[k] == first_word(after_first_word(line))
        } by {
            if k < before.len() {
                assert(at[k] == before[k]);
                assert(lines[before[k]] == front[before[k]]);
            }
        }
        assert forall|k: int, l: int| 0 <= k < l < at.len() implies #[trigger] at[k]
            < #[trigger] at[l] by {
            assert(at[k] == before[k]);
            if l < before.len() {
                assert(at[l] == before[l]);
            }
        }
        assert forall|i: int|
            0 <= i < lines.len() && first_word(#[trigger] lines[i]) == seq![
                'n',
                'e',
                'w',
                'm',
                't',
                'l',
            ] implies at.contains(i) by {
            if i < last {
                assert(front[i] == lines[i]);
                assert(before.contains(i));
                let k = before.index_of(i);
                assert(at[k] == i);
            } else {
                assert(at[at.len() - 1] == i);
            }
        }
        assert(defined_at(lines, material_names(lines), at));
    }
}

/// Every model file has one outcome: it is read, or rejected, or holds something that the parser
/// has no implementation of. It is read just where the parser accepts all of it; and what the
/// parser has no implementation of counts only where it accepts all that stands before.
pub proof fn model_files_have_one_outcome(text: Seq<char>)
    ensures
        ({
            let read = obj_supported(text) && obj_model(text) is Some;
            let (rejected, unsupported) = (obj_rejected(text), obj_unsupported(text));
            &&& read || rejected || unsupported
            &&& !(read && rejected) && !(read && unsupported) && !(rejected && unsupported)
            &&& unsupported ==> !obj_supported(text) && obj_model(supported_part(text)) is Some
            &&& obj_supported(text) ==> !unsupported
        }),
{
}

} // verus!
