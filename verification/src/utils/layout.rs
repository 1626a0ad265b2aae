//! Sizes and alignments.

use vstd::arithmetic::power2::pow2;
use vstd::prelude::*;

verus! {

/// The least multiple of `alignment` that is at least `value`.
pub open spec fn aligned(value: int, alignment: int) -> int {
    ((value + alignment - 1) / alignment) * alignment
}

/// An alignment: a power of two.
pub open spec fn is_alignment(alignment: usize) -> bool {
    exists|n: nat| n < usize::BITS && alignment == #[trigger] pow2(n)
}

/// What `aligned` stands for.
pub proof fn aligned_is_least(value: int, alignment: int)
    requires
        0 <= value,
        0 < alignment,
    ensures
        aligned(value, alignment) % alignment == 0,
        value <= aligned(value, alignment) < value + alignment,
        forall|m: int|
            #![trigger m % alignment]
            value <= m && m % alignment == 0 ==> aligned(value, alignment) <= m,
{
    let x = value + alignment - 1;
    let r = aligned(value, alignment);
    vstd::arithmetic::div_mod::lemma_fundamental_div_mod(x, alignment);
    assert(alignment * (x / alignment) == r) by (nonlinear_arith)
        requires
            r == (x / alignment) * alignment,
    ;
    vstd::arithmetic::div_mod::lemma_mod_multiples_basic(x / alignment, alignment);
    assert forall|m: int| #![trigger m % alignment] value <= m && m % alignment == 0 implies r
        <= m by {
        vstd::arithmetic::div_mod::lemma_fundamental_div_mod(m, alignment);
        let k = m / alignment;
        let q = x / alignment;
        if m < r {
            assert(k < q) by (nonlinear_arith)
                requires
                    alignment * k == m,
                    alignment * q == r,
                    m < r,
                    0 < alignment,
            ;
            assert(alignment * k <= alignment * q - alignment) by (nonlinear_arith)
                requires
                    k <= q - 1,
                    0 < alignment,
            ;
        }
    }
}

/// Rounds a value up to a multiple of an alignment.
pub fn align_up(value: usize, alignment: usize) -> (result: usize)
    requires
        alignment >= 1,
        value + alignment - 1 <= usize::MAX,
    ensures
        result == ((value + alignment - 1) as usize & !((alignment - 1) as usize)),
        is_alignment(alignment) ==> result == aligned(value as int, alignment as int),
{
    let x: usize = value + (alignment - 1);
    let mask: usize = alignment - 1;
    proof {
        if is_alignment(alignment) {
            let n = choose|n: nat| n < usize::BITS && alignment == #[trigger] pow2(n);
            vstd::bits::lemma_usize_low_bits_mask_is_mod(x, n);
            assert(vstd::bits::low_bits_mask(n) == mask);
            assert((x & !mask) == x - (x & mask)) by (bit_vector);
            vstd::arithmetic::div_mod::lemma_fundamental_div_mod(x as int, alignment as int);
            assert(alignment * (x as int / alignment as int) == (x as int / alignment as int)
                * alignment) by (nonlinear_arith);
        }
    }
    x & !mask
}

/// Rounds a value up to a multiple of an alignment.
pub fn round_up(value: usize, alignment: usize) -> (result: usize)
    requires
        alignment >= 1,
        value + alignment - 1 <= usize::MAX,
    ensures
        result == aligned(value as int, alignment as int),
{
    let x: usize = value + (alignment - 1);
    proof {
        vstd::arithmetic::div_mod::lemma_fundamental_div_mod(x as int, alignment as int);
        assert(alignment * (x as int / alignment as int) == (x as int / alignment as int)
            * alignment) by (nonlinear_arith);
    }
    x / alignment * alignment
}

/// The size and alignment of a block of memory.
#[derive(Clone, Copy, PartialEq, Eq, Structural, Debug)]
pub struct Layout {
    pub size: usize,
    pub align: usize,
}

/// The end of the first `n` fields, which stand one after the other, each at its alignment.
pub open spec fn field_end(fields: Seq<Layout>, n: nat) -> int
    decreases n,
{
    if n == 0 {
        0
    } else {
        aligned(field_end(fields, (n - 1) as nat), fields[n - 1].align as int) + fields[n - 1].size
    }
}

/// The offset of field `n`.
pub open spec fn field_offset(fields: Seq<Layout>, n: int) -> int {
    aligned(field_end(fields, n as nat), fields[n].align as int)
}

/// The largest alignment of the first `n` fields.
pub open spec fn largest_align(fields: Seq<Layout>, n: nat) -> int
    decreases n,
{
    if n == 0 {
        1
    } else if fields[n - 1].align > largest_align(fields, (n - 1) as nat) {
        fields[n - 1].align as int
    } else {
        largest_align(fields, (n - 1) as nat)
    }
}

/// What the first `n` fields take at most, padding counted.
pub open spec fn room(fields: Seq<Layout>, n: nat) -> int
    decreases n,
{
    if n == 0 {
        0
    } else {
        room(fields, (n - 1) as nat) + fields[n - 1].size + fields[n - 1].align
    }
}

proof fn room_grows(fields: Seq<Layout>, m: nat, n: nat)
    requires
        m <= n <= fields.len(),
    ensures
        0 <= room(fields, m) <= room(fields, n),
    decreases n,
{
    if n > 0 {
        room_grows(fields, 0, (n - 1) as nat);
        if m < n {
            room_grows(fields, m, (n - 1) as nat);
        }
    }
}

proof fn largest_align_grows(fields: Seq<Layout>, m: nat, n: nat)
    requires
        m <= n <= fields.len(),
    ensures
        1 <= largest_align(fields, m) <= largest_align(fields, n),
    decreases n,
{
    if n > 0 {
        largest_align_grows(fields, 0, (n - 1) as nat);
        if m < n {
            largest_align_grows(fields, m, (n - 1) as nat);
        }
    }
}

/// The layout of a C struct: its fields in order, each at its alignment; the struct has the
/// largest alignment of its fields and is padded to it.
pub struct CStructLayout {
    offsets: Vec<usize>,
    size: usize,
    align: usize,
}

impl CStructLayout {
    pub closed spec fn offsets(self) -> Seq<usize> {
        self.offsets@
    }

    pub closed spec fn spec_size(self) -> usize {
        self.size
    }

    pub closed spec fn spec_align(self) -> usize {
        self.align
    }

    /// `self` is the layout of a struct of `fields`.
    pub open spec fn lays_out(self, fields: Seq<Layout>) -> bool {
        &&& self.offsets().len() == fields.len()
        &&& forall|i: int|
            0 <= i < fields.len() ==> #[trigger] self.offsets()[i] == field_offset(fields, i)
        &&& self.spec_align() == largest_align(fields, fields.len())
        &&& self.spec_size() == aligned(
            field_end(fields, fields.len()),
            largest_align(fields, fields.len()),
        )
    }

    /// The struct is small enough for its size to be computed.
    pub open spec fn fits(fields: Seq<Layout>) -> bool {
        &&& forall|i: int| 0 <= i < fields.len() ==> 1 <= (#[trigger] fields[i]).align
        &&& room(fields, fields.len()) + largest_align(fields, fields.len()) <= usize::MAX
    }

    /// Lays out a struct of the given fields.
    pub fn new(fields: &Vec<Layout>) -> (layout: Self)
        requires
            Self::fits(fields@),
        ensures
            layout.lays_out(fields@),
            layout.spec_align() >= 1,
    {
        let mut offsets: Vec<usize> = Vec::with_capacity(fields.len());
        let mut end: usize = 0;
        let mut align: usize = 1;
        let mut i: usize = 0;
        while i < fields.len()
            invariant
                i <= fields.len(),
                Self::fits(fields@),
                offsets.len() == i,
                forall|k: int| 0 <= k < i ==> #[trigger] offsets[k] == field_offset(fields@, k),
                end == field_end(fields@, i as nat),
                end <= room(fields@, i as nat),
                align == largest_align(fields@, i as nat),
                1 <= align,
            decreases fields.len() - i,
        {
            let field: Layout = fields[i];
            proof {
                room_grows(fields@, (i + 1) as nat, fields@.len());
                largest_align_grows(fields@, (i + 1) as nat, fields@.len());
            }
            let offset: usize = round_up(end, field.align);
            proof {
                aligned_is_least(end as int, field.align as int);
            }
            offsets.push(offset);
            end = offset + field.size;
            if field.align > align {
                align = field.align;
            }
            i += 1;
        }
        let size: usize = round_up(end, align);
        CStructLayout { offsets, size, align }
    }

    /// The offset of a field.
    pub fn offset(&self, field: usize) -> (offset: usize)
        requires
            field < self.offsets().len(),
        ensures
            offset == self.offsets()[field as int],
    {
        self.offsets[field]
    }

    /// The number of fields.
    pub fn num_fields(&self) -> (n: usize)
        ensures
            n == self.offsets().len(),
    {
        self.offsets.len()
    }

    /// The size of the struct.
    pub fn size(&self) -> (size: usize)
        ensures
            size == self.spec_size(),
    {
        self.size
    }

    /// The alignment of the struct.
    pub fn align(&self) -> (align: usize)
        ensures
            align == self.spec_align(),
    {
        self.align
    }
}

/// Fields of a C struct stand at their alignment and do not overlap.
pub proof fn fields_disjoint(fields: Seq<Layout>, i: int, j: int)
    requires
        CStructLayout::fits(fields),
        0 <= i < j < fields.len(),
    ensures
        field_offset(fields, i) % (fields[i].align as int) == 0,
        field_offset(fields, i) + fields[i].size <= field_offset(fields, j),
    decreases j,
{
    field_end_nonnegative(fields, i as nat);
    field_end_nonnegative(fields, j as nat);
    aligned_is_least(field_end(fields, i as nat), fields[i].align as int);
    aligned_is_least(field_end(fields, j as nat), fields[j].align as int);
    if j > i + 1 {
        fields_disjoint(fields, i, j - 1);
        assert(field_end(fields, j as nat) == field_offset(fields, j - 1) + fields[j - 1].size);
    }
}

proof fn field_end_nonnegative(fields: Seq<Layout>, n: nat)
    requires
        CStructLayout::fits(fields),
        n <= fields.len(),
    ensures
        field_end(fields, n) >= 0,
    decreases n,
{
    if n > 0 {
        field_end_nonnegative(fields, (n - 1) as nat);
        aligned_is_least(field_end(fields, (n - 1) as nat), fields[n - 1].align as int);
    }
}

/// The fields of a C struct are packed: the first is at the start, and each of the others at the
/// first place behind the one before it that has its alignment.
pub proof fn fields_packed(fields: Seq<Layout>, i: int)
    requires
        CStructLayout::fits(fields),
        0 <= i < fields.len(),
    ensures
        field_offset(fields, 0) == 0,
        field_offset(fields, i) % (fields[i].align as int) == 0,
        i + 1 < fields.len() ==> {
            let (end, align) = (field_offset(fields, i) + fields[i].size, fields[i + 1].align as int);
            &&& end <= field_offset(fields, i + 1) < end + align
            &&& field_offset(fields, i + 1) % align == 0
        },
{
    field_end_nonnegative(fields, i as nat);
    field_end_nonnegative(fields, (i + 1) as nat);
    assert(1 <= fields[i].align && 1 <= fields[0].align);
    aligned_is_least(field_end(fields, i as nat), fields[i].align as int);
    aligned_is_least(0, fields[0].align as int);
    assert(0int % (fields[0].align as int) == 0);
    assert(field_end(fields, 0) == 0);
    if i + 1 < fields.len() {
        assert(1 <= fields[i + 1].align);
        aligned_is_least(field_end(fields, (i + 1) as nat), fields[i + 1].align as int);
        assert(field_end(fields, (i + 1) as nat) == field_offset(fields, i) + fields[i].size);
    }
}

/// A C struct has the largest alignment of its fields, and its size is the first multiple of it
/// behind the last field.
pub proof fn structs_are_padded(layout: CStructLayout, fields: Seq<Layout>)
    requires
        CStructLayout::fits(fields),
        layout.lays_out(fields),
        fields.len() > 0,
    ensures
        forall|i: int|
            0 <= i < fields.len() ==> (#[trigger] fields[i]).align <= layout.spec_align(),
        exists|i: int|
            0 <= i < fields.len() && (#[trigger] fields[i]).align == layout.spec_align(),
        layout.spec_size() as int % (layout.spec_align() as int) == 0,
        ({
            let end = layout.offsets()[fields.len() - 1] + fields.last().size;
            end <= layout.spec_size() < end + layout.spec_align()
        }),
{
    let n = fields.len();
    largest_align_is_largest(fields, n);
    field_end_nonnegative(fields, n);
    aligned_is_least(field_end(fields, n), largest_align(fields, n));
    assert(layout.offsets()[n - 1] == field_offset(fields, n - 1));
}

proof fn largest_align_is_largest(fields: Seq<Layout>, n: nat)
    requires
        CStructLayout::fits(fields),
        0 < n <= fields.len(),
    ensures
        forall|i: int| 0 <= i < n ==> (#[trigger] fields[i]).align <= largest_align(fields, n),
        exists|i: int| 0 <= i < n && (#[trigger] fields[i]).align == largest_align(fields, n),
        largest_align(fields, n) >= 1,
    decreases n,
{
    assert(1 <= fields[n - 1].align);
    if n > 1 {
        largest_align_is_largest(fields, (n - 1) as nat);
        let i = choose|i: int|
            0 <= i < n - 1 && (#[trigger] fields[i]).align == largest_align(
                fields,
                (n - 1) as nat,
            );
        assert(fields[i].align >= 1);
    } else {
        assert(largest_align(fields, 0) == 1);
    }
}

} // verus!
