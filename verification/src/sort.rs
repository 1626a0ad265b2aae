//! Stable ordering of a sequence of keys.

use vstd::prelude::*;

verus! {

/// A key type with a total preorder that can be tested at run time.
pub trait SortKey: Sized {
    /// `self` may stand before `other`.
    spec fn le(self, other: Self) -> bool;

    proof fn total(a: Self, b: Self)
        ensures
            a.le(b) || b.le(a),
    ;

    proof fn transitive(a: Self, b: Self, c: Self)
        requires
            a.le(b),
            b.le(c),
        ensures
            a.le(c),
    ;

    /// Tests the order.
    fn is_le(&self, other: &Self) -> (result: bool)
        ensures
            result == self.le(*other),
    ;
}

impl SortKey for u32 {
    open spec fn le(self, other: Self) -> bool {
        self <= other
    }

    proof fn total(a: Self, b: Self) {
    }

    proof fn transitive(a: Self, b: Self, c: Self) {
    }

    fn is_le(&self, other: &Self) -> (result: bool) {
        *self <= *other
    }
}

/// The item at index `a` stands before the item at index `b` in a stable ordering of `keys`:
/// by key, and by index where the keys are equivalent.
pub open spec fn stands_before<K: SortKey>(keys: Seq<K>, a: int, b: int) -> bool {
    keys[a].le(keys[b]) && (keys[b].le(keys[a]) ==> a < b)
}

/// `order` lists the indices `lo..hi` of `keys`, each once, in stable order.
pub open spec fn orders_range<K: SortKey>(keys: Seq<K>, lo: int, hi: int, order: Seq<usize>) -> bool {
    &&& order.len() == hi - lo
    &&& forall|i: int| 0 <= i < order.len() ==> lo <= (#[trigger] order[i]) < hi
    &&& forall|x: int| lo <= x < hi ==> order.contains(#[trigger] (x as usize))
    &&& forall|i: int, j: int|
        0 <= i < j < order.len() ==> #[trigger] stands_before(keys, order[i] as int, order[j] as int)
}

/// `order` is the stable ordering of `keys`.
pub open spec fn is_stable_order<K: SortKey>(keys: Seq<K>, order: Seq<usize>) -> bool {
    orders_range(keys, 0, keys.len() as int, order)
}

/// The relation behind a stable ordering is transitive.
pub proof fn stands_before_transitive<K: SortKey>(keys: Seq<K>, a: int, b: int, c: int)
    requires
        stands_before(keys, a, b),
        stands_before(keys, b, c),
    ensures
        stands_before(keys, a, c),
{
    K::transitive(keys[a], keys[b], keys[c]);
    if keys[c].le(keys[a]) {
        K::transitive(keys[c], keys[a], keys[b]);
        K::transitive(keys[b], keys[c], keys[a]);
    }
}

/// Of two different indices, exactly one stands before the other.
pub proof fn stands_before_total<K: SortKey>(keys: Seq<K>, a: int, b: int)
    requires
        a != b,
    ensures
        stands_before(keys, a, b) != stands_before(keys, b, a),
{
    K::total(keys[a], keys[b]);
}

/// A sequence of keys has one stable ordering only.
pub proof fn stable_order_unique<K: SortKey>(keys: Seq<K>, first: Seq<usize>, second: Seq<usize>)
    requires
        is_stable_order(keys, first),
        is_stable_order(keys, second),
        keys.len() <= usize::MAX,
    ensures
        first == second,
{
    assert forall|n: int| 0 <= n <= keys.len() implies first.take(n) == second.take(n) by {
        stable_prefix_unique(keys, first, second, n as nat);
    }
    assert(first.take(keys.len() as int) == first);
    assert(second.take(keys.len() as int) == second);
}

proof fn stable_prefix_unique<K: SortKey>(keys: Seq<K>, first: Seq<usize>, second: Seq<usize>, n: nat)
    requires
        is_stable_order(keys, first),
        is_stable_order(keys, second),
        n <= keys.len() <= usize::MAX,
    ensures
        first.take(n as int) == second.take(n as int),
    decreases n,
{
    if n > 0 {
        let m = (n - 1) as nat;
        stable_prefix_unique(keys, first, second, m);
        assert forall|i: int| 0 <= i < m implies first[i] == second[i] by {
            assert(first.take(m as int)[i] == second.take(m as int)[i]);
        }
        let x = first[m as int];
        let y = second[m as int];
        if x != y {
            // `y` stands somewhere in `first`, and `x` somewhere in `second`, both past `m`.
            assert(first.contains((y as int) as usize));
            assert(second.contains((x as int) as usize));
            let i = first.index_of(y);
            let j = second.index_of(x);
            assert(first[i] == y && second[j] == x);
            if i < m {
                assert(stands_before(keys, second[i] as int, second[m as int] as int));
                assert(false);
            }
            if j < m {
                assert(stands_before(keys, first[j] as int, first[m as int] as int));
                assert(false);
            }
            assert(stands_before(keys, first[m as int] as int, first[i] as int));
            assert(stands_before(keys, second[m as int] as int, second[j] as int));
            stands_before_total(keys, x as int, y as int);
            assert(false);
        }
        assert(first.take(n as int) =~= first.take(m as int).push(x));
        assert(second.take(n as int) =~= second.take(m as int).push(y));
    }
}

fn merge<K: SortKey>(
    keys: &Vec<K>,
    left: &Vec<usize>,
    right: &Vec<usize>,
    lo: usize,
    mid: usize,
    hi: usize,
) -> (order: Vec<usize>)
    requires
        lo <= mid <= hi <= keys.len(),
        orders_range(keys@, lo as int, mid as int, left@),
        orders_range(keys@, mid as int, hi as int, right@),
    ensures
        orders_range(keys@, lo as int, hi as int, order@),
{
    let mut order: Vec<usize> = Vec::with_capacity(hi - lo);
    let mut i: usize = 0;
    let mut j: usize = 0;
    while i < left.len() || j < right.len()
        invariant
            lo <= mid <= hi <= keys.len(),
            orders_range(keys@, lo as int, mid as int, left@),
            orders_range(keys@, mid as int, hi as int, right@),
            i <= left.len(),
            j <= right.len(),
            order.len() == i + j,
            forall|k: int| 0 <= k < order.len() ==> lo <= (#[trigger] order[k]) < hi,
            forall|k: int| 0 <= k < i ==> order@.contains(#[trigger] left[k]),
            forall|k: int| 0 <= k < j ==> order@.contains(#[trigger] right[k]),
            forall|k: int, l: int|
                0 <= k < order.len() && i <= l < left.len() ==> #[trigger] stands_before(
                    keys@,
                    order[k] as int,
                    left[l] as int,
                ),
            forall|k: int, l: int|
                0 <= k < order.len() && j <= l < right.len() ==> #[trigger] stands_before(
                    keys@,
                    order[k] as int,
                    right[l] as int,
                ),
            forall|k: int, l: int|
                0 <= k < l < order.len() ==> #[trigger] stands_before(
                    keys@,
                    order[k] as int,
                    order[l] as int,
                ),
        decreases left.len() + right.len() - i - j,
    {
        let take_left: bool = if i == left.len() {
            false
        } else if j == right.len() {
            true
        } else {
            keys[left[i]].is_le(&keys[right[j]])
        };
        let ghost before = order@;
        if take_left {
            let x: usize = left[i];
            proof {
                assert forall|l: int| j <= l < right.len() implies #[trigger] stands_before(
                    keys@,
                    x as int,
                    right[l] as int,
                ) by {
                    if l > j {
                        assert(stands_before(keys@, right[j as int] as int, right[l] as int));
                        stands_before_transitive(
                            keys@,
                            x as int,
                            right[j as int] as int,
                            right[l] as int,
                        );
                    }
                }
            }
            order.push(x);
            i += 1;
        } else {
            let x: usize = right[j];
            proof {
                if i < left.len() {
                    stands_before_total(keys@, x as int, left[i as int] as int);
                }
                assert forall|l: int| i <= l < left.len() implies #[trigger] stands_before(
                    keys@,
                    x as int,
                    left[l] as int,
                ) by {
                    if l > i {
                        assert(stands_before(keys@, left[i as int] as int, left[l] as int));
                        stands_before_transitive(
                            keys@,
                            x as int,
                            left[i as int] as int,
                            left[l] as int,
                        );
                    }
                }
            }
            order.push(x);
            j += 1;
        }
        proof {
            assert forall|y: usize| before.contains(y) implies order@.contains(y) by {
                let k = before.index_of(y);
                assert(order@[k] == y);
            }
            assert(order@[order@.len() - 1] == order@.last());
            assert(order@.contains(order@.last()));
        }
    }
    proof {
        assert forall|x: int| lo <= x < hi implies order@.contains(#[trigger] (x as usize)) by {
            if x < mid {
                assert(left@.contains(x as usize));
                let k = left@.index_of(x as usize);
                assert(left[k] == x as usize);
            } else {
                assert(right@.contains(x as usize));
                let k = right@.index_of(x as usize);
                assert(right[k] == x as usize);
            }
        }
    }
    order
}

fn order_range<K: SortKey>(keys: &Vec<K>, lo: usize, hi: usize) -> (order: Vec<usize>)
    requires
        lo <= hi <= keys.len(),
    ensures
        orders_range(keys@, lo as int, hi as int, order@),
    decreases hi - lo,
{
    if hi - lo <= 1 {
        let mut order: Vec<usize> = Vec::new();
        if lo < hi {
            order.push(lo);
            assert(order@[0] == lo);
        }
        return order;
    }
    let mid: usize = lo + (hi - lo) / 2;
    let left = order_range(keys, lo, mid);
    let right = order_range(keys, mid, hi);
    merge(keys, &left, &right, lo, mid, hi)
}

/// The indices of `keys` in stable order.
pub fn stable_order<K: SortKey>(keys: &Vec<K>) -> (order: Vec<usize>)
    ensures
        is_stable_order(keys@, order@),
{
    order_range(keys, 0, keys.len())
}

} // verus!
