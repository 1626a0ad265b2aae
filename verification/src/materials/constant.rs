//! The resources that materials bind: textures, and constants as bit patterns.

use crate::pipelines::config::PipelineBindingDataSize;
#[allow(unused_imports)]
use vstd::arithmetic::power2::pow2;
#[allow(unused_imports)]
use vstd::arithmetic::power2::lemma2_to64;
use vstd::prelude::*;

verus! {

/// The bit pattern of the single precision number one.
pub const ONE_BITS: u32 = 0x3f80_0000;

/// A constant; numbers in single precision are given by their bit patterns.
#[derive(Copy, Clone, PartialEq, Eq, Structural, Debug)]
pub enum ResourceConstant {
    Int(i32),
    RGB(u8, u8, u8),
    Float(u32),
    Float2(u32, u32),
    Float3(u32, u32, u32),
    Float4(u32, u32, u32, u32),
}

/// The bit pattern of a single precision zero, of either sign.
pub open spec fn bits_zero(bits: u32) -> bool {
    bits == 0 || bits == 0x8000_0000
}

/// A colour component between zero and one is at least `2^-colour_shift(value)`.
pub open spec fn colour_shift(value: u8) -> int {
    if value >= 128 {
        1
    } else if value >= 64 {
        2
    } else if value >= 32 {
        3
    } else if value >= 16 {
        4
    } else if value >= 8 {
        5
    } else if value >= 4 {
        6
    } else if value >= 2 {
        7
    } else {
        8
    }
}

/// Two to the power of 24 to 31.
pub open spec fn mantissa_scale(shift: int) -> int {
    if shift == 1 {
        0x100_0000
    } else if shift == 2 {
        0x200_0000
    } else if shift == 3 {
        0x400_0000
    } else if shift == 4 {
        0x800_0000
    } else if shift == 5 {
        0x1000_0000
    } else if shift == 6 {
        0x2000_0000
    } else if shift == 7 {
        0x4000_0000
    } else {
        0x8000_0000
    }
}

/// The bit pattern of the single precision number nearest to `value / 255`: the exponent, and
/// the mantissa rounded to 24 bits of which the first is left out. (A tie cannot occur, because
/// 255 is odd.)
pub open spec fn colour_bits(value: u8) -> u32 {
    if value == 0 {
        0
    } else {
        let shift = colour_shift(value);
        let mantissa = (2 * value * mantissa_scale(shift) + 255) / 510;
        ((126 - shift) * 0x80_0000 + mantissa) as u32
    }
}

/// `bits` is the bit pattern of the single precision number nearest to `value / 255`: zero, or a
/// number of 24 bits times a power of two that is off by no more than half of its last bit.
pub open spec fn nearest_fraction(value: u8, bits: u32) -> bool {
    if value == 0 {
        bits == 0
    } else {
        let exponent = bits as int / 0x80_0000;
        let mantissa = 0x80_0000 + bits as int % 0x80_0000;
        &&& 119 <= exponent <= 127
        &&& -255 <= 2 * (255 * mantissa - value * pow2((150 - exponent) as nat)) <= 255
    }
}

/// A colour component is encoded as the nearest number between zero and one: none as zero, all as
/// one, and more as more.
pub proof fn colours_are_fractions(value: u8)
    ensures
        nearest_fraction(value, colour_bits(value)),
        colour_bits(0) == 0,
        colour_bits(255) == 0x3f80_0000,
        forall|other: u8| value < other ==> colour_bits(value) < #[trigger] colour_bits(other),
{
    powers();
    let shift = colour_shift(value);
    let scale = mantissa_scale(shift);
    if value > 0 {
        let mantissa = (2 * value * scale + 255) / 510;
        mantissa_bounds(value);
        if mantissa == 0x100_0000 {
            assert(value == 255);
        }
    }
    mantissa_bounds(255);
    assert forall|other: u8| value < other implies colour_bits(value) < #[trigger] colour_bits(
        other,
    ) by {
        mantissa_bounds(other);
        if value > 0 {
            let m = (2 * value * scale + 255) / 510;
            let s = mantissa_scale(colour_shift(other));
            let n = (2 * other * s + 255) / 510;
            assert(m < 0x100_0000);
            if colour_shift(other) == shift {
                assert(other * scale >= value * scale + scale) by (nonlinear_arith)
                    requires
                        other >= value + 1,
                        scale > 0,
                ;
                assert(m < n);
            } else {
                assert(colour_shift(other) < shift);
            }
            assert(colour_bits(value) == (126 - shift) * 0x80_0000 + m);
            assert(colour_bits(other) == (126 - colour_shift(other)) * 0x80_0000 + n);
        }
    }
}

proof fn powers()
    ensures
        pow2(23) == 0x80_0000,
        pow2(24) == 0x100_0000,
        pow2(25) == 0x200_0000,
        pow2(26) == 0x400_0000,
        pow2(27) == 0x800_0000,
        pow2(28) == 0x1000_0000,
        pow2(29) == 0x2000_0000,
        pow2(30) == 0x4000_0000,
        pow2(31) == 0x8000_0000,
{
    lemma2_to64();
}

proof fn mantissa_bounds(value: u8)
    requires
        value > 0,
    ensures
        ({
            let scale = mantissa_scale(colour_shift(value));
            let mantissa = (2 * value * scale + 255) / 510;
            &&& 0x80_0000 <= mantissa <= 0x100_0000
            &&& mantissa == 0x100_0000 <==> value == 255
            &&& -255 <= 2 * (255 * mantissa - value * scale) <= 255
        }),
{
    let scale = mantissa_scale(colour_shift(value));
    let n = 2 * value * scale;
    assert(n == 2 * (value * scale)) by (nonlinear_arith)
        requires
            n == 2 * value * scale,
    ;
    if value >= 128 {
        assert(scale == 0x100_0000);
    } else if value >= 64 {
        assert(scale == 0x200_0000);
    } else if value >= 32 {
        assert(scale == 0x400_0000);
    } else if value >= 16 {
        assert(scale == 0x800_0000);
    } else if value >= 8 {
        assert(scale == 0x1000_0000);
    } else if value >= 4 {
        assert(scale == 0x2000_0000);
    } else if value >= 2 {
        assert(scale == 0x4000_0000);
    } else {
        assert(scale == 0x8000_0000);
    }
}

/// Component `k` of a constant stands in word `k` of its data, and the words behind the last
/// component are zero: whole numbers by their own bits, colours as fractions.
pub proof fn components_stand_in_order(constant: ResourceConstant)
    ensures
        constant_data(constant).len() == 4,
        ({
            let data = constant_data(constant);
            match constant {
                ResourceConstant::Int(i) => {
                    &&& data[0] == i || data[0] == i + 0x1_0000_0000
                    &&& data[1] == 0 && data[2] == 0 && data[3] == 0
                },
                ResourceConstant::RGB(r, g, b) => {
                    &&& nearest_fraction(r, data[0])
                    &&& nearest_fraction(g, data[1])
                    &&& nearest_fraction(b, data[2])
                    &&& data[3] == 0
                },
                ResourceConstant::Float(x) => {
                    data[0] == x && data[1] == 0 && data[2] == 0 && data[3] == 0
                },
                ResourceConstant::Float2(x, y) => {
                    data[0] == x && data[1] == y && data[2] == 0 && data[3] == 0
                },
                ResourceConstant::Float3(x, y, z) => {
                    data[0] == x && data[1] == y && data[2] == z && data[3] == 0
                },
                ResourceConstant::Float4(x, y, z, w) => {
                    data[0] == x && data[1] == y && data[2] == z && data[3] == w
                },
            }
        }),
{
    match constant {
        ResourceConstant::RGB(r, g, b) => {
            colours_are_fractions(r);
            colours_are_fractions(g);
            colours_are_fractions(b);
        },
        ResourceConstant::Int(i) => {
            assert(i < 0 ==> i as u32 == i + 0x1_0000_0000) by (bit_vector);
        },
        _ => {},
    }
}

/// A constant is taken for zero just where all of its words are zeros, of either sign for numbers
/// in single precision.
pub proof fn zero_constants_have_zero_words(constant: ResourceConstant)
    ensures
        constant_zero(constant) <==> forall|k: int|
            0 <= k < 4 ==> (#[trigger] constant_data(constant)[k] == 0 || (constant_data(
                constant,
            )[k] == 0x8000_0000 && !(constant is Int))),
{
    let data = constant_data(constant);
    components_stand_in_order(constant);
    let all = data[0] == 0 || data[0] == 0x8000_0000;
    match constant {
        ResourceConstant::RGB(r, g, b) => {
            colours_are_fractions(r);
            colours_are_fractions(g);
            colours_are_fractions(b);
            colours_are_fractions(0);
        },
        _ => {},
    }
    if constant_zero(constant) {
        assert forall|k: int| 0 <= k < 4 implies (#[trigger] data[k] == 0 || (data[k] == 0x8000_0000
            && !(constant is Int))) by {
            assert(k == 0 || k == 1 || k == 2 || k == 3);
        }
    } else {
        assert(!(data[0] == 0 || (data[0] == 0x8000_0000 && !(constant is Int))) || !(data[1] == 0
            || (data[1] == 0x8000_0000 && !(constant is Int))) || !(data[2] == 0 || (data[2]
            == 0x8000_0000 && !(constant is Int))) || !(data[3] == 0 || (data[3] == 0x8000_0000
            && !(constant is Int))));
    }
}

/// The words of a constant.
pub open spec fn constant_data(constant: ResourceConstant) -> Seq<u32> {
    match constant {
        ResourceConstant::Int(i) => seq![i as u32, 0u32, 0u32, 0u32],
        ResourceConstant::RGB(r, g, b) => seq![colour_bits(r), colour_bits(g), colour_bits(b), 0u32],
        ResourceConstant::Float(x) => seq![x, 0u32, 0u32, 0u32],
        ResourceConstant::Float2(x, y) => seq![x, y, 0u32, 0u32],
        ResourceConstant::Float3(x, y, z) => seq![x, y, z, 0u32],
        ResourceConstant::Float4(x, y, z, w) => seq![x, y, z, w],
    }
}

/// Every component of the constant is zero.
pub open spec fn constant_zero(constant: ResourceConstant) -> bool {
    match constant {
        ResourceConstant::Int(i) => i == 0,
        ResourceConstant::RGB(r, g, b) => r == 0 && g == 0 && b == 0,
        ResourceConstant::Float(x) => bits_zero(x),
        ResourceConstant::Float2(x, y) => bits_zero(x) && bits_zero(y),
        ResourceConstant::Float3(x, y, z) => bits_zero(x) && bits_zero(y) && bits_zero(z),
        ResourceConstant::Float4(x, y, z, w) => bits_zero(x) && bits_zero(y) && bits_zero(z)
            && bits_zero(w),
    }
}

fn is_zero_bits(bits: u32) -> (zero: bool)
    ensures
        zero == bits_zero(bits),
{
    bits == 0 || bits == 0x8000_0000
}

impl ResourceConstant {
    /// Tests that every component is zero.
    pub fn is_zero(&self) -> (zero: bool)
        ensures
            zero == constant_zero(*self),
    {
        match *self {
            ResourceConstant::Int(i) => i == 0,
            ResourceConstant::RGB(r, g, b) => r == 0 && g == 0 && b == 0,
            ResourceConstant::Float(x) => is_zero_bits(x),
            ResourceConstant::Float2(x, y) => is_zero_bits(x) && is_zero_bits(y),
            ResourceConstant::Float3(x, y, z) => is_zero_bits(x) && is_zero_bits(y)
                && is_zero_bits(z),
            ResourceConstant::Float4(x, y, z, w) => is_zero_bits(x) && is_zero_bits(y)
                && is_zero_bits(z) && is_zero_bits(w),
        }
    }

    /// The bit pattern of `value / 255` in single precision.
    pub fn colour_component_encode(value: u8) -> (bits: u32)
        ensures
            bits == colour_bits(value),
    {
        if value == 0 {
            return 0;
        }
        let (shift, scale): (u64, u64) = if value >= 128 {
            (1, 0x100_0000)
        } else if value >= 64 {
            (2, 0x200_0000)
        } else if value >= 32 {
            (3, 0x400_0000)
        } else if value >= 16 {
            (4, 0x800_0000)
        } else if value >= 8 {
            (5, 0x1000_0000)
        } else if value >= 4 {
            (6, 0x2000_0000)
        } else if value >= 2 {
            (7, 0x4000_0000)
        } else {
            (8, 0x8000_0000)
        };
        assert(2 * value as u64 * scale <= 0x200_0000_0000) by (nonlinear_arith)
            requires
                value <= 255,
                scale <= 0x8000_0000,
        ;
        let mantissa: u64 = (2 * value as u64 * scale + 255) / 510;
        assert(mantissa <= 0x100_0000) by (nonlinear_arith)
            requires
                mantissa == (2 * value * scale + 255) / 510,
                (scale == 0x100_0000 && value <= 255) || (scale == 0x200_0000 && value < 128) || (
                scale == 0x400_0000 && value < 64) || (scale == 0x800_0000 && value < 32) || (scale
                    == 0x1000_0000 && value < 16) || (scale == 0x2000_0000 && value < 8) || (scale
                    == 0x4000_0000 && value < 4) || (scale == 0x8000_0000 && value < 2),
        ;
        ((126 - shift) * 0x80_0000 + mantissa) as u32
    }

    /// The words of the constant.
    pub fn data(&self) -> (data: [u32; 4])
        ensures
            data@ == constant_data(*self),
            match *self {
                ResourceConstant::Int(i) => data[0] == i as u32 && data[1] == 0 && data[2] == 0
                    && data[3] == 0,
                ResourceConstant::RGB(r, g, b) => nearest_fraction(r, data[0]) && nearest_fraction(
                    g,
                    data[1],
                ) && nearest_fraction(b, data[2]) && data[3] == 0,
                ResourceConstant::Float(x) => data[0] == x && data[1] == 0 && data[2] == 0
                    && data[3] == 0,
                ResourceConstant::Float2(x, y) => data[0] == x && data[1] == y && data[2] == 0
                    && data[3] == 0,
                ResourceConstant::Float3(x, y, z) => data[0] == x && data[1] == y && data[2] == z
                    && data[3] == 0,
                ResourceConstant::Float4(x, y, z, w) => data[0] == x && data[1] == y && data[2] == z
                    && data[3] == w,
            },
    {
        proof {
            components_stand_in_order(*self);
        }
        let data: [u32; 4] = match *self {
            ResourceConstant::Int(i) => [i as u32, 0, 0, 0],
            ResourceConstant::RGB(r, g, b) => [
                Self::colour_component_encode(r),
                Self::colour_component_encode(g),
                Self::colour_component_encode(b),
                0,
            ],
            ResourceConstant::Float(x) => [x, 0, 0, 0],
            ResourceConstant::Float2(x, y) => [x, y, 0, 0],
            ResourceConstant::Float3(x, y, z) => [x, y, z, 0],
            ResourceConstant::Float4(x, y, z, w) => [x, y, z, w],
        };
        assert(data@ =~= constant_data(*self));
        data
    }

    /// Writes the constant behind the others and refers to it; a zero constant is the first one.
    pub fn write_constant(&self, constants: &mut Vec<[u32; 4]>) -> (resource: ResourceRef)
        requires
            constant_zero(*self) || old(constants).len() < TEXTURE_BIT,
        ensures
            constant_zero(*self) ==> final(constants)@ == old(constants)@ && resource.0 == 0,
            !constant_zero(*self) ==> {
                &&& final(constants)@.len() == old(constants)@.len() + 1
                &&& final(constants)@.drop_last() == old(constants)@
                &&& final(constants)@.last()@ == constant_data(*self)
                &&& resource.0 == old(constants)@.len()
            },
    {
        if self.is_zero() {
            return ResourceRef::constant(0);
        }
        let resource = ResourceRef::constant(constants.len() as u32);
        let data: [u32; 4] = self.data();
        constants.push(data);
        assert(constants@.drop_last() =~= old(constants)@);
        resource
    }
}

/// The bit of a resource reference that says that it refers to a texture.
pub const TEXTURE_BIT: u32 = 0x8000_0000;

/// A shader reference to a texture or a constant. The top bit is set to indicate a texture.
#[derive(Copy, Clone, PartialEq, Eq, Structural, Debug)]
pub struct ResourceRef(pub u32);

impl ResourceRef {
    /// Refers to a texture.
    pub fn texture(index: u32) -> (resource: Self)
        requires
            index < TEXTURE_BIT,
        ensures
            resource.0 == index + TEXTURE_BIT,
    {
        assert(index < 0x8000_0000 ==> (index | 0x8000_0000u32) == index + 0x8000_0000u32)
            by (bit_vector);
        ResourceRef(index | TEXTURE_BIT)
    }

    /// Refers to a constant.
    pub fn constant(index: u32) -> (resource: Self)
        requires
            index < TEXTURE_BIT,
        ensures
            resource.0 == index,
    {
        ResourceRef(index)
    }
}

/// What is bound to a bind point of a material.
#[derive(Copy, Clone, PartialEq, Eq, Structural, Debug)]
pub enum ResourceBinding {
    Texture(u32),
    Constant(ResourceConstant),
}

/// What is bound to a bind point that a material leaves out.
pub open spec fn unbound_binding(size: PipelineBindingDataSize) -> ResourceBinding {
    ResourceBinding::Constant(
        match size {
            PipelineBindingDataSize::Float => ResourceConstant::Float(0),
            PipelineBindingDataSize::Float2 => ResourceConstant::Float2(0, 0),
            PipelineBindingDataSize::Float3 => ResourceConstant::Float3(ONE_BITS, 0, ONE_BITS),
            PipelineBindingDataSize::Float4 => ResourceConstant::Float4(
                ONE_BITS,
                0,
                ONE_BITS,
                ONE_BITS,
            ),
            PipelineBindingDataSize::Normal => ResourceConstant::Float3(0, 0, ONE_BITS),
        },
    )
}

impl PipelineBindingDataSize {
    /// What is bound to a bind point that a material leaves out.
    pub fn unbound(&self) -> (binding: ResourceBinding)
        ensures
            binding == unbound_binding(*self),
    {
        ResourceBinding::Constant(
            match self {
                PipelineBindingDataSize::Float => ResourceConstant::Float(0),
                PipelineBindingDataSize::Float2 => ResourceConstant::Float2(0, 0),
                PipelineBindingDataSize::Float3 => ResourceConstant::Float3(ONE_BITS, 0, ONE_BITS),
                PipelineBindingDataSize::Float4 => ResourceConstant::Float4(
                    ONE_BITS,
                    0,
                    ONE_BITS,
                    ONE_BITS,
                ),
                PipelineBindingDataSize::Normal => ResourceConstant::Float3(0, 0, ONE_BITS),
            },
        )
    }
}

/// Two bit patterns of the same number: the same pattern, or zeros of either sign.
pub open spec fn same_number(word: u32, bits: u32) -> bool {
    word == bits || ((word == 0 || word == 0x8000_0000) && (bits == 0 || bits == 0x8000_0000))
}

/// Four words show a constant: component `k` in word `k`, and zeros behind the last.
pub open spec fn shows_constant(words: Seq<u32>, constant: ResourceConstant) -> bool {
    &&& words.len() == 4
    &&& match constant {
        ResourceConstant::Int(i) => (words[0] == i || words[0] == i + 0x1_0000_0000) && words[1]
            == 0 && words[2] == 0 && words[3] == 0,
        ResourceConstant::RGB(r, g, b) => nearest_fraction(r, words[0]) && nearest_fraction(
            g,
            words[1],
        ) && nearest_fraction(b, words[2]) && words[3] == 0,
        ResourceConstant::Float(x) => same_number(words[0], x) && words[1] == 0 && words[2] == 0
            && words[3] == 0,
        ResourceConstant::Float2(x, y) => same_number(words[0], x) && same_number(words[1], y)
            && words[2] == 0 && words[3] == 0,
        ResourceConstant::Float3(x, y, z) => same_number(words[0], x) && same_number(words[1], y)
            && same_number(words[2], z) && words[3] == 0,
        ResourceConstant::Float4(x, y, z, w) => same_number(words[0], x) && same_number(words[1], y)
            && same_number(words[2], z) && same_number(words[3], w),
    }
}

/// The words of a constant show it; and where a constant is taken for zero, four zeros do.
pub proof fn words_show_constants(constant: ResourceConstant)
    ensures
        shows_constant(constant_data(constant), constant),
        constant_zero(constant) ==> shows_constant(seq![0u32, 0u32, 0u32, 0u32], constant),
{
    components_stand_in_order(constant);
}

/// What is shown where a material binds nothing: zero for one or two numbers, a full magenta for
/// colours, and the direction straight up for normals.
pub proof fn unbound_values(size: PipelineBindingDataSize, binding: ResourceBinding)
    requires
        binding == unbound_binding(size),
    ensures
        binding matches ResourceBinding::Constant(constant) && {
            let words = constant_data(constant);
            let one = 0x3f80_0000u32;
            &&& size is Float || size is Float2 ==> words == seq![0u32, 0u32, 0u32, 0u32]
            &&& size is Float3 ==> words == seq![one, 0u32, one, 0u32]
            &&& size is Float4 ==> words == seq![one, 0u32, one, one]
            &&& size is Normal ==> words == seq![0u32, 0u32, one, 0u32]
        },
{
}

/// The default of a bind point has as many components as the bind point takes.
pub proof fn unbound_values_fit(size: PipelineBindingDataSize)
    ensures
        unbound_binding(size) matches ResourceBinding::Constant(constant) && (match constant {
            ResourceConstant::Float(_) => size.spec_layout().size == 4,
            ResourceConstant::Float2(_, _) => size.spec_layout().size == 8,
            ResourceConstant::Float3(_, _, _) => size.spec_layout().size == 12,
            ResourceConstant::Float4(_, _, _, _) => size.spec_layout().size == 16,
            _ => false,
        }),
{
}

/// A reference is that of a texture just where its top bit is set, and the other bits are the
/// number of the texture or of the constant.
pub proof fn references_tell_textures_from_constants(texture: u32, constant: u32)
    requires
        texture < 0x8000_0000,
        constant < 0x8000_0000,
    ensures
        ({
            let a = ResourceRef((texture + TEXTURE_BIT) as u32);
            let b = ResourceRef(constant);
            &&& a.0 / 0x8000_0000 == 1 && a.0 % 0x8000_0000 == texture
            &&& b.0 / 0x8000_0000 == 0 && b.0 % 0x8000_0000 == constant
            &&& a != b
        }),
{
}

} // verus!
