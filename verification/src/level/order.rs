//! The order of pipeline ids, and of the draws of a scene.

use crate::sort::SortKey;
use vstd::prelude::*;

verus! {

/// Text `a` stands before text `b` in a dictionary, or is the same.
pub open spec fn text_le(a: Seq<char>, b: Seq<char>) -> bool
    decreases a.len(),
{
    if a.len() == 0 {
        true
    } else if b.len() == 0 {
        false
    } else if a[0] != b[0] {
        a[0] < b[0]
    } else {
        text_le(a.drop_first(), b.drop_first())
    }
}

/// Of two texts one stands before the other.
pub proof fn text_le_total(a: Seq<char>, b: Seq<char>)
    ensures
        text_le(a, b) || text_le(b, a),
    decreases a.len(),
{
    if a.len() > 0 && b.len() > 0 && a[0] == b[0] {
        text_le_total(a.drop_first(), b.drop_first());
    }
}

/// The dictionary order is transitive.
pub proof fn text_le_transitive(a: Seq<char>, b: Seq<char>, c: Seq<char>)
    requires
        text_le(a, b),
        text_le(b, c),
    ensures
        text_le(a, c),
    decreases a.len(),
{
    if a.len() > 0 && b.len() > 0 && c.len() > 0 && a[0] == b[0] && b[0] == c[0] {
        text_le_transitive(a.drop_first(), b.drop_first(), c.drop_first());
    }
}

/// Texts that stand before each other are the same.
pub proof fn text_le_antisymmetric(a: Seq<char>, b: Seq<char>)
    requires
        text_le(a, b),
        text_le(b, a),
    ensures
        a == b,
    decreases a.len(),
{
    if a.len() == 0 || b.len() == 0 {
        assert(a =~= b);
    } else {
        text_le_antisymmetric(a.drop_first(), b.drop_first());
        assert(a =~= seq![a[0]] + a.drop_first());
        assert(b =~= seq![b[0]] + b.drop_first());
    }
}

/// Tests the dictionary order.
pub fn text_is_le(a: &Vec<char>, b: &Vec<char>) -> (result: bool)
    ensures
        result == text_le(a@, b@),
{
    let mut i: usize = 0;
    assert(a@.skip(0) =~= a@);
    assert(b@.skip(0) =~= b@);
    while i < a.len()
        invariant
            i <= a.len(),
            i <= b.len(),
            text_le(a@.skip(i as int), b@.skip(i as int)) == text_le(a@, b@),
        decreases a.len() - i,
    {
        if i == b.len() {
            return false;
        }
        if a[i] != b[i] {
            return a[i] < b[i];
        }
        proof {
            assert(a@.skip(i as int).drop_first() =~= a@.skip(i + 1));
            assert(b@.skip(i as int).drop_first() =~= b@.skip(i + 1));
        }
        i += 1;
    }
    true
}

/// Tests that two texts are the same.
pub fn text_eq(a: &Vec<char>, b: &Vec<char>) -> (result: bool)
    ensures
        result == (a@ == b@),
{
    if a.len() != b.len() {
        return false;
    }
    let mut i: usize = 0;
    while i < a.len()
        invariant
            i <= a.len() == b.len(),
            forall|k: int| 0 <= k < i ==> a@[k] == b@[k],
        decreases a.len() - i,
    {
        if a[i] != b[i] {
            return false;
        }
        i += 1;
    }
    assert(a@ =~= b@);
    true
}

/// By what the draws of a scene are ordered: pipeline id, then mesh, then mesh element.
pub struct DrawKey<'a> {
    pub pipeline_id: &'a Vec<char>,
    pub mesh: u32,
    pub element: u32,
}

/// The order of draws.
pub open spec fn draw_le(a: (Seq<char>, u32, u32), b: (Seq<char>, u32, u32)) -> bool {
    if a.0 != b.0 {
        text_le(a.0, b.0)
    } else if a.1 != b.1 {
        a.1 < b.1
    } else {
        a.2 <= b.2
    }
}

impl<'a> View for DrawKey<'a> {
    type V = (Seq<char>, u32, u32);

    open spec fn view(&self) -> Self::V {
        (self.pipeline_id@, self.mesh, self.element)
    }
}

impl<'a> SortKey for DrawKey<'a> {
    open spec fn le(self, other: Self) -> bool {
        draw_le(self@, other@)
    }

    proof fn total(a: Self, b: Self) {
        text_le_total(a.pipeline_id@, b.pipeline_id@);
    }

    proof fn transitive(a: Self, b: Self, c: Self) {
        let (x, y, z) = (a.pipeline_id@, b.pipeline_id@, c.pipeline_id@);
        if x != y && y != z {
            text_le_transitive(x, y, z);
            if x == z {
                text_le_antisymmetric(x, y);
            }
        }
    }

    fn is_le(&self, other: &Self) -> (result: bool) {
        if !text_eq(self.pipeline_id, other.pipeline_id) {
            text_is_le(self.pipeline_id, other.pipeline_id)
        } else if self.mesh != other.mesh {
            self.mesh < other.mesh
        } else {
            self.element <= other.element
        }
    }
}

/// `a` stands before `b` from place `k` on: they agree up to there, and then `a` ends or has the
/// smaller character.
pub open spec fn first_difference(a: Seq<char>, b: Seq<char>, k: int) -> bool {
    &&& 0 <= k <= a.len()
    &&& k <= b.len()
    &&& forall|i: int| 0 <= i < k ==> #[trigger] a[i] == b[i]
    &&& k == a.len() || (k < b.len() && a[k] < b[k])
}

/// A text that stands before another is its start, or has the smaller character where they first
/// differ.
pub proof fn dictionary_order(a: Seq<char>, b: Seq<char>)
    ensures
        text_le(a, b) <==> exists|k: int| first_difference(a, b, k),
    decreases a.len(),
{
    if a.len() == 0 {
        assert(first_difference(a, b, 0));
    } else if b.len() > 0 && a[0] == b[0] {
        let (x, y) = (a.drop_first(), b.drop_first());
        dictionary_order(x, y);
        if text_le(a, b) {
            let k = choose|k: int| first_difference(x, y, k);
            assert forall|i: int| 0 <= i < k + 1 implies #[trigger] a[i] == b[i] by {
                if i > 0 {
                    assert(x[i - 1] == y[i - 1]);
                }
            }
            assert(first_difference(a, b, k + 1));
        }
        if exists|k: int| first_difference(a, b, k) {
            let k = choose|k: int| first_difference(a, b, k);
            assert(k > 0);
            assert forall|i: int| 0 <= i < k - 1 implies #[trigger] x[i] == y[i] by {
                assert(a[i + 1] == b[i + 1]);
            }
            assert(first_difference(x, y, k - 1));
        }
    } else if b.len() > 0 {
        if a[0] < b[0] {
            assert(first_difference(a, b, 0));
        }
        if exists|k: int| first_difference(a, b, k) {
            let k = choose|k: int| first_difference(a, b, k);
            if k > 0 {
                assert(a[0] == b[0]);
            }
        }
    }
}

} // verus!
