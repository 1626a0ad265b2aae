//! Shapes that every level can use.

use vstd::prelude::*;

verus! {

/// The number of corners of a quad.
pub const NUM_QUAD_VERTICES: usize = 4;

/// The number of corners of an octagon.
pub const NUM_OCTAGON_VERTICES: usize = 8;

/// The triangles of a quad.
pub open spec fn quad_triangles() -> Seq<u16> {
    seq![0, 1, 2, 2, 3, 0]
}

/// The triangles of an octagon.
pub open spec fn octagon_triangles() -> Seq<u16> {
    seq![0, 1, 2, 0, 2, 7, 2, 3, 7, 3, 6, 7, 3, 4, 6, 4, 5, 6]
}

/// The triangles of a quad.
pub fn quad_indices() -> (indices: [u16; 6])
    ensures
        indices@ == quad_triangles(),
{
    let indices: [u16; 6] = [0, 1, 2, 2, 3, 0];
    assert(indices@ =~= quad_triangles());
    indices
}

/// The triangles of an octagon.
pub fn octagon_indices() -> (indices: [u16; 18])
    ensures
        indices@ == octagon_triangles(),
{
    let indices: [u16; 18] = [0, 1, 2, 0, 2, 7, 2, 3, 7, 3, 6, 7, 3, 4, 6, 4, 5, 6];
    assert(indices@ =~= octagon_triangles());
    indices
}

/// The indices make triangles of corners that exist, and every corner is used. There are two
/// triangles less than corners, as in every polygon.
pub open spec fn covers_polygon(triangles: Seq<u16>, num_vertices: int) -> bool {
    &&& triangles.len() == 3 * (num_vertices - 2)
    &&& forall|i: int| 0 <= i < triangles.len() ==> (#[trigger] triangles[i]) < num_vertices
    &&& forall|v: u16| v < num_vertices ==> #[trigger] triangles.contains(v)
    &&& forall|t: int|
        #![trigger triangles[3 * t]]
        0 <= t < num_vertices - 2 ==> triangles[3 * t] != triangles[3 * t + 1]
            && triangles[3 * t + 1] != triangles[3 * t + 2] && triangles[3 * t]
            != triangles[3 * t + 2]
}

/// The triangles of the quad cover it.
pub proof fn quad_covered()
    ensures
        covers_polygon(quad_triangles(), NUM_QUAD_VERTICES as int),
{
    let triangles = quad_triangles();
    assert forall|v: u16| v < NUM_QUAD_VERTICES implies #[trigger] triangles.contains(v) by {
        assert(triangles[0] == 0 && triangles[1] == 1 && triangles[2] == 2 && triangles[4] == 3);
    }
}

/// The triangles of the octagon cover it.
pub proof fn octagon_covered()
    ensures
        covers_polygon(octagon_triangles(), NUM_OCTAGON_VERTICES as int),
{
    let triangles = octagon_triangles();
    assert forall|v: u16| v < NUM_OCTAGON_VERTICES implies #[trigger] triangles.contains(v) by {
        assert(triangles[0] == 0 && triangles[1] == 1 && triangles[2] == 2 && triangles[5] == 7);
        assert(triangles[7] == 3 && triangles[10] == 6 && triangles[13] == 4 && triangles[16] == 5);
    }
}

/// The corners of every triangle follow one another around the polygon, so that all triangles face
/// the same way; and every edge of the polygon is an edge of some triangle, in that direction.
pub open spec fn goes_around(triangles: Seq<u16>, num_vertices: int) -> bool {
    &&& forall|t: int|
        #![trigger triangles[3 * t]]
        0 <= t < num_vertices - 2 ==> {
            let (a, b, c) = (triangles[3 * t], triangles[3 * t + 1], triangles[3 * t + 2]);
            a < b < c || b < c < a || c < a < b
        }
    &&& forall|v: int| 0 <= v < num_vertices ==> #[trigger] has_edge(triangles, num_vertices, v)
}

/// The edge from corner `v` to the next one is an edge of some triangle.
pub open spec fn has_edge(triangles: Seq<u16>, num_vertices: int, v: int) -> bool {
    exists|i: int|
        #![trigger triangles[i]]
        0 <= i < triangles.len() && triangles[i] == v && triangles[if i % 3 == 2 {
            i - 2
        } else {
            i + 1
        }] == (v + 1) % num_vertices
}

/// The triangles of the quad and those of the octagon go around them.
pub proof fn shapes_face_one_way()
    ensures
        goes_around(quad_triangles(), 4),
        goes_around(octagon_triangles(), 8),
{
    let q = quad_triangles();
    assert(q[0] == 0 && q[1] == 1 && q[2] == 2 && q[3] == 2 && q[4] == 3 && q[5] == 0);
    assert forall|v: int| 0 <= v < 4 implies #[trigger] has_edge(q, 4, v) by {
        let i = if v < 2 {
            v
        } else {
            v + 1
        };
        assert(q[i] == v);
    }
    assert forall|t: int|
        #![trigger q[3 * t]]
        0 <= t < 2 implies {
        let (a, b, c) = (q[3 * t], q[3 * t + 1], q[3 * t + 2]);
        a < b < c || b < c < a || c < a < b
    } by {
        assert(t == 0 || t == 1);
    }
    let o = octagon_triangles();
    assert(o[0] == 0 && o[1] == 1 && o[2] == 2 && o[3] == 0 && o[4] == 2 && o[5] == 7);
    assert(o[6] == 2 && o[7] == 3 && o[8] == 7 && o[9] == 3 && o[10] == 6 && o[11] == 7);
    assert(o[12] == 3 && o[13] == 4 && o[14] == 6 && o[15] == 4 && o[16] == 5 && o[17] == 6);
    assert forall|v: int| 0 <= v < 8 implies #[trigger] has_edge(o, 8, v) by {
        let i = if v == 0 {
            0
        } else if v == 1 {
            1
        } else if v == 2 {
            6
        } else if v == 3 {
            12
        } else if v == 4 {
            15
        } else if v == 5 {
            16
        } else if v == 6 {
            10
        } else {
            5int
        };
        assert(o[i] == v);
    }
    assert forall|t: int|
        #![trigger o[3 * t]]
        0 <= t < 6 implies {
        let (a, b, c) = (o[3 * t], o[3 * t + 1], o[3 * t + 2]);
        a < b < c || b < c < a || c < a < b
    } by {
        assert(t == 0 || t == 1 || t == 2 || t == 3 || t == 4 || t == 5);
    }
}

} // verus!
