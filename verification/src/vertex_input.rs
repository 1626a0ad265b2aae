//! How vertices are read from buffers.

use crate::vk::{FORMAT_R32G32B32_SFLOAT, FORMAT_R32G32_SFLOAT};
use vstd::prelude::*;

verus! {

/// When the next item is read.
#[derive(Clone, Copy, PartialEq, Eq, Structural, Debug)]
pub enum InputRate {
    Vertex,
    Instance,
}

/// A buffer that items are read from.
#[derive(Clone, Copy, PartialEq, Eq, Structural, Debug)]
pub struct VertexBinding {
    pub binding: u32,
    pub stride: u32,
    pub input_rate: InputRate,
}

/// A part of an item that a shader reads.
#[derive(Clone, Copy, PartialEq, Eq, Structural, Debug)]
pub struct VertexAttribute {
    pub binding: u32,
    pub location: u32,
    pub format: i32,
    pub offset: u32,
}

/// The offset of field `i`, where the fields follow each other without gaps.
pub open spec fn field_offset(sizes: Seq<nat>, i: nat) -> nat
    decreases i,
{
    if i == 0 {
        0
    } else {
        field_offset(sizes, (i - 1) as nat) + sizes[i - 1]
    }
}

/// Items that can be read from buffers. Their fields are made of words of four bytes, so that
/// they follow each other without gaps.
pub trait BindableVertex: Sized {
    /// The sizes of the fields.
    spec fn sizes() -> Seq<nat>;

    /// The fields that shaders read, with their formats, in the order of their locations.
    spec fn attribute_fields() -> Seq<(int, i32)>;

    /// When the next item is read.
    spec fn input_rate() -> InputRate;

    /// Every field is made of words, and those that shaders read exist.
    proof fn fields_fit()
        ensures
            forall|i: int|
                0 <= i < Self::sizes().len() ==> (#[trigger] Self::sizes()[i]) % 4 == 0
                    && Self::sizes()[i] > 0,
            forall|a: int|
                0 <= a < Self::attribute_fields().len() ==> 0 <= (
                #[trigger] Self::attribute_fields()[a]).0 < Self::sizes().len(),
            field_offset(Self::sizes(), Self::sizes().len()) <= u32::MAX,
    ;

    /// The buffer that the items are read from.
    fn binding_description() -> (binding: VertexBinding)
        ensures
            binding.binding == 0,
            binding.stride == field_offset(Self::sizes(), Self::sizes().len()),
            binding.input_rate == Self::input_rate(),
    ;

    /// The parts that shaders read.
    fn attribute_descriptions() -> (attributes: Vec<VertexAttribute>)
        ensures
            attributes.len() == Self::attribute_fields().len(),
            forall|a: int|
                0 <= a < attributes.len() ==> {
                    &&& (#[trigger] attributes@[a]).binding == 0
                    &&& attributes@[a].location == a
                    &&& attributes@[a].format == Self::attribute_fields()[a].1
                    &&& attributes@[a].offset == field_offset(
                        Self::sizes(),
                        Self::attribute_fields()[a].0 as nat,
                    )
                },
    ;
}

proof fn offsets_grow(sizes: Seq<nat>, m: nat, n: nat)
    requires
        m <= n,
    ensures
        field_offset(sizes, m) <= field_offset(sizes, n),
    decreases n,
{
    if m < n {
        offsets_grow(sizes, m, (n - 1) as nat);
    }
}

/// What a shader reads of an item lies in the item.
pub proof fn attributes_in_stride<V: BindableVertex>(a: int)
    requires
        0 <= a < V::attribute_fields().len(),
    ensures
        field_offset(V::sizes(), V::attribute_fields()[a].0 as nat)
            + V::sizes()[V::attribute_fields()[a].0] <= field_offset(V::sizes(), V::sizes().len()),
{
    V::fields_fit();
    let field = V::attribute_fields()[a].0;
    offsets_grow(V::sizes(), (field + 1) as nat, V::sizes().len());
}

/// The bits of a vertex with a place in a texture.
#[derive(Clone, Copy, PartialEq, Eq, Debug)]
pub struct Vertex {
    pub position: [u32; 3],
    pub tex_coord: [u32; 2],
}

impl BindableVertex for Vertex {
    open spec fn sizes() -> Seq<nat> {
        seq![12, 8]
    }

    open spec fn attribute_fields() -> Seq<(int, i32)> {
        seq![(0, FORMAT_R32G32B32_SFLOAT), (1, FORMAT_R32G32_SFLOAT)]
    }

    open spec fn input_rate() -> InputRate {
        InputRate::Vertex
    }

    proof fn fields_fit() {
        reveal_with_fuel(field_offset, 3);
    }

    fn binding_description() -> (binding: VertexBinding) {
        proof {
            reveal_with_fuel(field_offset, 3);
        }
        VertexBinding { binding: 0, stride: 20, input_rate: InputRate::Vertex }
    }

    fn attribute_descriptions() -> (attributes: Vec<VertexAttribute>) {
        proof {
            reveal_with_fuel(field_offset, 3);
        }
        let mut attributes: Vec<VertexAttribute> = Vec::new();
        attributes.push(
            VertexAttribute {
                binding: 0,
                location: 0,
                format: FORMAT_R32G32B32_SFLOAT,
                offset: 0,
            },
        );
        attributes.push(
            VertexAttribute { binding: 0, location: 1, format: FORMAT_R32G32_SFLOAT, offset: 12 },
        );
        attributes
    }
}

/// The bits of a vertex with a colour and a place in a texture.
#[derive(Clone, Copy, PartialEq, Eq, Debug)]
pub struct ColouredVertex {
    pub position: [u32; 3],
    pub colour: [u32; 3],
    pub tex_coord: [u32; 2],
}

impl BindableVertex for ColouredVertex {
    open spec fn sizes() -> Seq<nat> {
        seq![12, 12, 8]
    }

    open spec fn attribute_fields() -> Seq<(int, i32)> {
        seq![
            (0, FORMAT_R32G32B32_SFLOAT),
            (1, FORMAT_R32G32B32_SFLOAT),
            (2, FORMAT_R32G32_SFLOAT),
        ]
    }

    open spec fn input_rate() -> InputRate {
        InputRate::Vertex
    }

    proof fn fields_fit() {
        reveal_with_fuel(field_offset, 4);
    }

    fn binding_description() -> (binding: VertexBinding) {
        proof {
            reveal_with_fuel(field_offset, 4);
        }
        VertexBinding { binding: 0, stride: 32, input_rate: InputRate::Vertex }
    }

    fn attribute_descriptions() -> (attributes: Vec<VertexAttribute>) {
        proof {
            reveal_with_fuel(field_offset, 4);
        }
        let mut attributes: Vec<VertexAttribute> = Vec::new();
        attributes.push(
            VertexAttribute {
                binding: 0,
                location: 0,
                format: FORMAT_R32G32B32_SFLOAT,
                offset: 0,
            },
        );
        attributes.push(
            VertexAttribute {
                binding: 0,
                location: 1,
                format: FORMAT_R32G32B32_SFLOAT,
                offset: 12,
            },
        );
        attributes.push(
            VertexAttribute { binding: 0, location: 2, format: FORMAT_R32G32_SFLOAT, offset: 24 },
        );
        attributes
    }
}

/// The fields follow one another: the first is at the start, and each of the others where the one
/// before it ends.
pub proof fn fields_follow_one_another(sizes: Seq<nat>, i: nat)
    requires
        i < sizes.len(),
    ensures
        field_offset(sizes, 0) == 0,
        field_offset(sizes, i + 1) == field_offset(sizes, i) + sizes[i as int],
{
}

/// The number of bytes of a format of single precision numbers.
pub open spec fn format_size(format: i32) -> int {
    if format == 103 {
        8
    } else if format == 106 {
        12
    } else if format == 109 {
        16
    } else {
        0
    }
}

/// Shaders read whole fields of vertices, with formats of their sizes: the position first, then
/// the colour where there is one, and the place in the texture last.
pub proof fn vertices_are_read_field_by_field()
    ensures
        Vertex::attribute_fields().len() == 2,
        ColouredVertex::attribute_fields().len() == 3,
        forall|a: int|
            0 <= a < 2 ==> (#[trigger] Vertex::attribute_fields()[a]).0 == a && format_size(
                Vertex::attribute_fields()[a].1,
            ) == Vertex::sizes()[a],
        forall|a: int|
            0 <= a < 3 ==> (#[trigger] ColouredVertex::attribute_fields()[a]).0 == a && format_size(
                ColouredVertex::attribute_fields()[a].1,
            ) == ColouredVertex::sizes()[a],
        Vertex::sizes().len() == 2 && field_offset(Vertex::sizes(), 1) == 12 && field_offset(
            Vertex::sizes(),
            2,
        ) == 20,
        ColouredVertex::sizes().len() == 3 && field_offset(ColouredVertex::sizes(), 1) == 12
            && field_offset(ColouredVertex::sizes(), 2) == 24 && field_offset(
            ColouredVertex::sizes(),
            3,
        ) == 32,
        Vertex::input_rate() is Vertex,
        ColouredVertex::input_rate() is Vertex,
{
    reveal_with_fuel(field_offset, 4);
    assert forall|a: int| 0 <= a < 2 implies (#[trigger] Vertex::attribute_fields()[a]).0 == a
        && format_size(Vertex::attribute_fields()[a].1) == Vertex::sizes()[a] by {
        assert(a == 0 || a == 1);
    }
    assert forall|a: int| 0 <= a < 3 implies (#[trigger] ColouredVertex::attribute_fields()[a]).0
        == a && format_size(ColouredVertex::attribute_fields()[a].1)
        == ColouredVertex::sizes()[a] by {
        assert(a == 0 || a == 1 || a == 2);
    }
}

} // verus!
