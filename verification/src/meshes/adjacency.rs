//! Which vertices share a triangle, and the order in which the tangent frames of a mesh are
//! aligned with those of their neighbours.

use smallvec::SmallVec;
use vstd::prelude::*;

verus! {

/// The neighbours of a vertex. Vertices seldom have more than eight, so these are held in place
/// (`smallvec::SmallVec`).
#[verifier::external_body]
pub struct NeighbourList {
    items: SmallVec<[u32; 8]>,
}

/// The items of a list of neighbours.
pub uninterp spec fn neighbour_items(list: NeighbourList) -> Seq<u32>;

impl View for NeighbourList {
    type V = Seq<u32>;

    open spec fn view(&self) -> Seq<u32> {
        neighbour_items(*self)
    }
}

impl NeighbourList {
    /// `SmallVec::new` makes an empty list.
    #[verifier::external_body]
    fn new() -> (list: Self)
        ensures
            neighbour_items(list) == Seq::<u32>::empty(),
    {
        NeighbourList { items: SmallVec::new() }
    }

    /// `SmallVec::push` appends an item.
    #[verifier::external_body]
    fn push(&mut self, vertex: u32)
        ensures
            neighbour_items(*final(self)) == neighbour_items(*old(self)).push(vertex),
    {
        self.items.push(vertex)
    }

    /// `SmallVec::as_slice` shows the items.
    #[verifier::external_body]
    fn as_slice(&self) -> (items: &[u32])
        ensures
            items@ == neighbour_items(*self),
    {
        self.items.as_slice()
    }
}

/// The neighbours that the triangle `(a, b, c)` gives to the vertex `v`.
pub open spec fn triangle_neighbours(a: u32, b: u32, c: u32, v: int) -> Seq<u32> {
    (if a == v {
        seq![b, c]
    } else {
        seq![]
    }) + (if b == v {
        seq![a, c]
    } else {
        seq![]
    }) + (if c == v {
        seq![a, b]
    } else {
        seq![]
    })
}

/// The neighbours of the vertex `v` in the first `t` triangles, in order.
pub open spec fn neighbours(indices: Seq<u32>, t: nat, v: int) -> Seq<u32>
    decreases t,
{
    if t == 0 {
        seq![]
    } else {
        neighbours(indices, (t - 1) as nat, v) + triangle_neighbours(
            indices[3 * (t - 1)],
            indices[3 * (t - 1) + 1],
            indices[3 * (t - 1) + 2],
            v,
        )
    }
}

/// `lists` holds the neighbours of every vertex in the first `t` triangles.
pub open spec fn lists_neighbours(lists: Seq<NeighbourList>, indices: Seq<u32>, t: nat) -> bool {
    forall|v: int| 0 <= v < lists.len() ==> (#[trigger] lists[v])@ == neighbours(indices, t, v)
}

/// Neighbourhood is mutual.
pub proof fn neighbours_symmetric(indices: Seq<u32>, t: nat, v: u32, w: u32)
    requires
        neighbours(indices, t, v as int).contains(w),
    ensures
        neighbours(indices, t, w as int).contains(v),
    decreases t,
{
    if t > 0 {
        let (a, b, c) = (
            indices[3 * (t - 1)],
            indices[3 * (t - 1) + 1],
            indices[3 * (t - 1) + 2],
        );
        let front_v = neighbours(indices, (t - 1) as nat, v as int);
        let front_w = neighbours(indices, (t - 1) as nat, w as int);
        let i = neighbours(indices, t, v as int).index_of(w);
        if i < front_v.len() {
            assert(front_v[i] == w);
            assert(front_v.contains(w));
            neighbours_symmetric(indices, (t - 1) as nat, v, w);
            let j = front_w.index_of(v);
            assert(neighbours(indices, t, w as int)[j] == v);
        } else {
            let own = triangle_neighbours(a, b, c, v as int);
            assert(own[i - front_v.len()] == w);
            assert(own.contains(w));
            triangle_neighbours_items(a, b, c, v, w);
            triangle_neighbours_items(a, b, c, w, v);
            assert(triangle_neighbours(a, b, c, w as int).contains(v));
            let j = triangle_neighbours(a, b, c, w as int).index_of(v);
            assert(neighbours(indices, t, w as int)[front_w.len() + j] == v);
        }
    }
}

proof fn triangle_neighbours_items(a: u32, b: u32, c: u32, v: u32, w: u32)
    ensures
        triangle_neighbours(a, b, c, v as int).contains(w) <==> {
            ||| a == v && (b == w || c == w)
            ||| b == v && (a == w || c == w)
            ||| c == v && (a == w || b == w)
        },
{
    let own = triangle_neighbours(a, b, c, v as int);
    let (x, y, z): (Seq<u32>, Seq<u32>, Seq<u32>) = (
        if a == v {
            seq![b, c]
        } else {
            seq![]
        },
        if b == v {
            seq![a, c]
        } else {
            seq![]
        },
        if c == v {
            seq![a, b]
        } else {
            seq![]
        },
    );
    assert(own == x + y + z);
    if a == v {
        assert(own[0] == b && own[1] == c);
    }
    if b == v {
        assert(own[x.len() as int] == a && own[x.len() as int + 1] == c);
    }
    if c == v {
        assert(own[(x.len() + y.len()) as int] == a && own[(x.len() + y.len()) as int + 1] == b);
    }
}

fn push_two(lists: &mut Vec<NeighbourList>, v: u32, first: u32, second: u32)
    requires
        v < old(lists).len(),
    ensures
        final(lists).len() == old(lists).len(),
        forall|w: int|
            0 <= w < final(lists).len() ==> (#[trigger] final(lists)@[w])@ == old(lists)@[w]@ + (
            if v == w {
                seq![first, second]
            } else {
                seq![]
            }),
{
    lists[v as usize].push(first);
    lists[v as usize].push(second);
    proof {
        assert forall|w: int| 0 <= w < lists.len() implies (#[trigger] lists@[w])@ == old(lists)@[w]@
            + (if v == w {
            seq![first, second]
        } else {
            seq![]
        }) by {
            assert(lists@[w]@ =~= old(lists)@[w]@ + (if v == w {
                seq![first, second]
            } else {
                seq![]
            }));
        }
    }
}

/// Lists the neighbours of the vertices below `indices.len()`.
pub fn build_adjacency(indices: &Vec<u32>) -> (lists: Vec<NeighbourList>)
    requires
        forall|i: int|
            0 <= i < 3 * (indices.len() / 3) ==> (#[trigger] indices[i]) < indices.len(),
    ensures
        lists.len() == indices.len(),
        lists_neighbours(lists@, indices@, (indices.len() / 3) as nat),
{
    let mut lists: Vec<NeighbourList> = Vec::with_capacity(indices.len());
    let mut i: usize = 0;
    while i < indices.len()
        invariant
            i <= indices.len(),
            lists.len() == i,
            forall|v: int| 0 <= v < i ==> (#[trigger] lists[v])@ == Seq::<u32>::empty(),
        decreases indices.len() - i,
    {
        lists.push(NeighbourList::new());
        i += 1;
    }
    let mut t: usize = 0;
    while t < indices.len() / 3
        invariant
            t <= indices.len() / 3,
            lists.len() == indices.len(),
            lists_neighbours(lists@, indices@, t as nat),
            forall|i: int|
                0 <= i < 3 * (indices.len() / 3) ==> (#[trigger] indices[i]) < indices.len(),
        decreases indices.len() / 3 - t,
    {
        let a: u32 = indices[3 * t];
        let b: u32 = indices[3 * t + 1];
        let c: u32 = indices[3 * t + 2];
        let ghost before = lists@;
        push_two(&mut lists, a, b, c);
        push_two(&mut lists, b, a, c);
        push_two(&mut lists, c, a, b);
        proof {
            assert forall|v: int| 0 <= v < lists.len() implies (#[trigger] lists[v])@ == neighbours(
                indices@,
                (t + 1) as nat,
                v,
            ) by {
                assert(before[v]@ == neighbours(indices@, t as nat, v));
                assert(lists[v]@ =~= before[v]@ + triangle_neighbours(a, b, c, v));
            }
        }
        t += 1;
    }
    lists
}

/// The traversal of a mesh from neighbour to neighbour: the next vertex to start from, the
/// vertices that were reached, the reached vertices whose neighbours are still to be visited, and
/// the edges `(from, to)` along which vertices were reached.
pub struct Traversal {
    pub start: nat,
    pub seen: Set<u32>,
    pub stack: Seq<u32>,
    pub edges: Seq<(u32, u32)>,
}

/// The items of `list` that are not in `seen`, each once.
pub open spec fn unseen(list: Seq<u32>, seen: Set<u32>) -> Seq<u32>
    decreases list.len(),
{
    if list.len() == 0 {
        seq![]
    } else {
        let front = unseen(list.drop_last(), seen);
        if seen.contains(list.last()) || front.contains(list.last()) {
            front
        } else {
            front.push(list.last())
        }
    }
}

/// One step: the last vertex on the stack reaches its unseen neighbours; with an empty stack the
/// next vertex starts a new stack unless it was reached before.
pub open spec fn step(lists: Seq<Seq<u32>>, n: nat, s: Traversal) -> Traversal {
    if s.stack.len() > 0 {
        let from = s.stack.last();
        let found = unseen(lists[from as int], s.seen);
        Traversal {
            start: s.start,
            seen: s.seen.union(found.to_set()),
            stack: s.stack.drop_last() + found,
            edges: s.edges + found.map_values(|to: u32| (from, to)),
        }
    } else if s.start < n {
        if s.seen.contains(s.start as u32) {
            Traversal { start: s.start + 1, ..s }
        } else {
            Traversal {
                start: s.start + 1,
                seen: s.seen.insert(s.start as u32),
                stack: seq![s.start as u32],
                edges: s.edges,
            }
        }
    } else {
        s
    }
}

/// The traversal of `n` vertices after `k` steps.
pub open spec fn traverse(lists: Seq<Seq<u32>>, n: nat, k: nat) -> Traversal
    decreases k,
{
    if k == 0 {
        Traversal { start: 0, seen: Set::empty(), stack: seq![], edges: seq![] }
    } else {
        step(lists, n, traverse(lists, n, (k - 1) as nat))
    }
}

/// Nothing is left to do.
pub open spec fn finished(n: nat, s: Traversal) -> bool {
    s.stack.len() == 0 && s.start == n
}

/// The neighbours of the `n` vertices are among them.
pub open spec fn closed_under(lists: Seq<Seq<u32>>, n: nat) -> bool {
    &&& n <= lists.len()
    &&& forall|v: int, k: int|
        0 <= v < n && 0 <= k < lists[v].len() ==> (#[trigger] lists[v][k]) < n
}

/// What holds of a traversal at every step.
pub open spec fn traversal_inv(lists: Seq<Seq<u32>>, n: nat, s: Traversal) -> bool {
    &&& s.start <= n
    &&& s.seen.finite()
    &&& forall|v: u32| #[trigger] s.seen.contains(v) ==> v < n
    &&& forall|v: u32| v < s.start ==> #[trigger] s.seen.contains(v)
    &&& forall|i: int| 0 <= i < s.stack.len() ==> s.seen.contains(#[trigger] s.stack[i])
    &&& forall|i: int|
        0 <= i < s.edges.len() ==> {
            &&& s.seen.contains((#[trigger] s.edges[i]).0)
            &&& s.seen.contains(s.edges[i].1)
            &&& lists[s.edges[i].0 as int].contains(s.edges[i].1)
        }
    &&& forall|i: int, j: int|
        0 <= i < j < s.edges.len() ==> (#[trigger] s.edges[i]).1 != (#[trigger] s.edges[j]).1
}

proof fn unseen_items(list: Seq<u32>, seen: Set<u32>)
    ensures
        unseen(list, seen).no_duplicates(),
        forall|x: u32| #[trigger]
            unseen(list, seen).contains(x) <==> list.contains(x) && !seen.contains(x),
    decreases list.len(),
{
    if list.len() > 0 {
        let front = list.drop_last();
        let kept = unseen(front, seen);
        let all = unseen(list, seen);
        unseen_items(front, seen);
        assert forall|x: u32| #[trigger] all.contains(x) implies list.contains(x)
            && !seen.contains(x) by {
            let i = all.index_of(x);
            assert(all[i] == x);
            if i < kept.len() {
                assert(kept[i] == x);
                assert(kept.contains(x));
                let j = front.index_of(x);
                assert(list[j] == x);
            } else {
                assert(list[list.len() - 1] == x);
            }
        }
        assert forall|x: u32| list.contains(x) && !seen.contains(x) implies #[trigger] all.contains(
            x,
        ) by {
            let j = list.index_of(x);
            assert(list[j] == x);
            if j < front.len() {
                assert(front[j] == x);
                assert(front.contains(x));
                assert(kept.contains(x));
            }
            if kept.contains(x) {
                let i = kept.index_of(x);
                assert(all[i] == x);
            } else {
                assert(all[kept.len() as int] == x);
            }
        }
    }
}

proof fn step_keeps_inv(lists: Seq<Seq<u32>>, n: nat, s: Traversal)
    requires
        closed_under(lists, n),
        n <= u32::MAX,
        traversal_inv(lists, n, s),
    ensures
        traversal_inv(lists, n, step(lists, n, s)),
{
    let r = step(lists, n, s);
    if s.stack.len() > 0 {
        let from = s.stack.last();
        let list = lists[from as int];
        let found = unseen(list, s.seen);
        unseen_items(list, s.seen);
        vstd::seq_lib::seq_to_set_is_finite(found);
        assert(s.seen.contains(from));
        assert forall|x: u32| found.contains(x) implies x < n by {
            assert(list.contains(x));
            let k = list.index_of(x);
            assert(lists[from as int][k] < n);
        }
        assert forall|i: int| 0 <= i < r.stack.len() implies r.seen.contains(
            #[trigger] r.stack[i],
        ) by {
            if i < s.stack.len() - 1 {
                assert(r.stack[i] == s.stack[i]);
            } else {
                assert(r.stack[i] == found[i - (s.stack.len() - 1)]);
                assert(found.contains(r.stack[i]));
            }
        }
        assert forall|i: int| 0 <= i < r.edges.len() implies {
            &&& r.seen.contains((#[trigger] r.edges[i]).0)
            &&& r.seen.contains(r.edges[i].1)
            &&& lists[r.edges[i].0 as int].contains(r.edges[i].1)
            &&& i < s.edges.len() ==> r.edges[i] == s.edges[i]
            &&& i >= s.edges.len() ==> found.contains(r.edges[i].1) && r.edges[i].1 == found[i
                - s.edges.len()]
        } by {
            if i < s.edges.len() {
                assert(r.edges[i] == s.edges[i]);
            } else {
                let to = found[i - s.edges.len()];
                assert(r.edges[i] == (from, to));
                assert(found.contains(to));
            }
        }
        assert forall|i: int, j: int| 0 <= i < j < r.edges.len() implies (
        #[trigger] r.edges[i]).1 != (#[trigger] r.edges[j]).1 by {
            if j < s.edges.len() {
                assert(s.edges[i].1 != s.edges[j].1);
            } else if i < s.edges.len() {
                assert(s.seen.contains(s.edges[i].1));
                assert(!s.seen.contains(r.edges[j].1));
            }
        }
    } else if s.start < n && !s.seen.contains(s.start as u32) {
        assert forall|i: int| 0 <= i < r.stack.len() implies r.seen.contains(
            #[trigger] r.stack[i],
        ) by {
            assert(r.stack[i] == s.start as u32);
        }
    }
}

/// At every step of a traversal each vertex was reached along one edge at most, from a reached
/// neighbour, and every vertex before the next start was reached.
pub proof fn traverse_inv(lists: Seq<Seq<u32>>, n: nat, k: nat)
    requires
        closed_under(lists, n),
        n <= u32::MAX,
    ensures
        traversal_inv(lists, n, traverse(lists, n, k)),
    decreases k,
{
    if k > 0 {
        traverse_inv(lists, n, (k - 1) as nat);
        step_keeps_inv(lists, n, traverse(lists, n, (k - 1) as nat));
    }
}

/// A finished traversal stays as it is, so all finished traversals of a mesh are the same.
pub proof fn traversal_unique(lists: Seq<Seq<u32>>, n: nat, k: nat, l: nat)
    requires
        finished(n, traverse(lists, n, k)),
        finished(n, traverse(lists, n, l)),
    ensures
        traverse(lists, n, k) == traverse(lists, n, l),
{
    if k <= l {
        traversal_stays(lists, n, k, l);
    } else {
        traversal_stays(lists, n, l, k);
    }
}

proof fn traversal_stays(lists: Seq<Seq<u32>>, n: nat, k: nat, l: nat)
    requires
        finished(n, traverse(lists, n, k)),
        k <= l,
    ensures
        traverse(lists, n, l) == traverse(lists, n, k),
    decreases l,
{
    if k < l {
        traversal_stays(lists, n, k, (l - 1) as nat);
    }
}

/// The items of some lists.
pub open spec fn list_views(lists: Seq<NeighbourList>) -> Seq<Seq<u32>> {
    lists.map_values(|l: NeighbourList| l@)
}

proof fn seen_count(seen: Set<u32>, n: nat)
    requires
        seen.finite(),
        forall|v: u32| #[trigger] seen.contains(v) ==> v < n,
    ensures
        seen.len() <= n,
{
    let ints = seen.map(|v: u32| v as int);
    let below = vstd::set_lib::set_int_range(0, n as int);
    vstd::set_lib::lemma_int_range(0, n as int);
    assert(vstd::relations::injective(|v: u32| v as int));
    vstd::set_lib::lemma_map_size(seen, ints, |v: u32| v as int);
    assert(ints.subset_of(below));
    vstd::set_lib::lemma_len_subset(ints, below);
}

/// The edges along which the `n` vertices of a mesh are reached, in order.
///
/// The tangent frame of a vertex is aligned with that of the vertex from which it is reached.
pub fn alignment_order(lists: &Vec<NeighbourList>, n: usize) -> (edges: Vec<(u32, u32)>)
    requires
        n <= u32::MAX,
        closed_under(list_views(lists@), n as nat),
    ensures
        exists|k: nat| #[trigger]
            finished(n as nat, traverse(list_views(lists@), n as nat, k)) && edges@ == traverse(
                list_views(lists@),
                n as nat,
                k,
            ).edges,
        forall|i: int|
            0 <= i < edges.len() ==> (#[trigger] edges[i]).0 < n && edges[i].1 < n,
{
    let ghost views = list_views(lists@);
    let ghost mut k: nat = 0;
    let ghost mut seen: Set<u32> = Set::empty();
    let mut traversed: Vec<bool> = Vec::with_capacity(n);
    let mut i: usize = 0;
    while i < n
        invariant
            i <= n,
            traversed.len() == i,
            forall|v: int| 0 <= v < i ==> !(#[trigger] traversed[v]),
        decreases n - i,
    {
        traversed.push(false);
        i += 1;
    }
    let mut edges: Vec<(u32, u32)> = Vec::new();
    let mut start: usize = 0;
    while start < n
        invariant
            start <= n <= u32::MAX,
            views == list_views(lists@),
            closed_under(views, n as nat),
            traversed.len() == n,
            forall|v: int| 0 <= v < n ==> (#[trigger] traversed[v] <==> seen.contains(v as u32)),
            traverse(views, n as nat, k) == (Traversal {
                start: start as nat,
                seen,
                stack: Seq::<u32>::empty(),
                edges: edges@,
            }),
        decreases n - start,
    {
        if traversed[start] {
            proof {
                k = k + 1;
            }
            start += 1;
            continue;
        }
        traversed.set(start, true);
        let mut stack: Vec<u32> = Vec::new();
        stack.push(start as u32);
        proof {
            k = k + 1;
            seen = seen.insert(start as u32);
            assert(stack@ =~= seq![start as u32]);
            traverse_inv(views, n as nat, k);
            seen_count(seen, n as nat);
        }
        while stack.len() > 0
            invariant
                start < n <= u32::MAX,
                views == list_views(lists@),
                closed_under(views, n as nat),
                traversed.len() == n,
                forall|v: int| 0 <= v < n ==> (#[trigger] traversed[v] <==> seen.contains(v as u32)),
                traverse(views, n as nat, k) == (Traversal {
                    start: (start + 1) as nat,
                    seen,
                    stack: stack@,
                    edges: edges@,
                }),
                seen.finite(),
                seen.len() <= n,
            decreases 2 * (n - seen.len()) + stack.len(),
        {
            let ghost before = traverse(views, n as nat, k);
            proof {
                traverse_inv(views, n as nat, k);
                assert(before.seen.contains(before.stack[before.stack.len() - 1]));
            }
            let from: u32 = stack.pop().unwrap();
            let list = lists[from as usize].as_slice();
            let ghost rest = stack@;
            let ghost mut found: Seq<u32> = seq![];
            let mut j: usize = 0;
            proof {
                assert(views[from as int] == list@);
                assert(list@.take(0) =~= seq![]);
                assert(before.seen.union(found.to_set()) =~= before.seen);
            }
            while j < list.len()
                invariant
                    j <= list.len(),
                    n <= u32::MAX,
                    from < n,
                    views[from as int] == list@,
                    closed_under(views, n as nat),
                    traversed.len() == n,
                    forall|v: int|
                        0 <= v < n ==> (#[trigger] traversed[v] <==> seen.contains(v as u32)),
                    found == unseen(list@.take(j as int), before.seen),
                    seen == before.seen.union(found.to_set()),
                    stack@ == rest + found,
                    edges@ == before.edges + found.map_values(|to: u32| (from, to)),
                    before.seen.finite(),
                    seen.finite(),
                    seen.len() == before.seen.len() + found.len(),
                    forall|v: u32| #[trigger] seen.contains(v) ==> v < n,
                decreases list.len() - j,
            {
                let to: u32 = list[j];
                proof {
                    assert(views[from as int][j as int] < n);
                    assert(list@.take(j + 1).drop_last() =~= list@.take(j as int));
                    assert(list@.take(j + 1).last() == to);
                    unseen_items(list@.take(j as int), before.seen);
                    assert(traversed[to as int] <==> seen.contains((to as int) as u32));
                    assert(found.to_set().contains(to) <==> found.contains(to));
                }
                if !traversed[to as usize] {
                    traversed.set(to as usize, true);
                    edges.push((from, to));
                    stack.push(to);
                    proof {
                        let next = found.push(to);
                        assert(next.to_set() =~= found.to_set().insert(to)) by {
                            assert forall|x: u32| next.to_set().contains(x)
                                <==> found.to_set().insert(to).contains(x) by {
                                if found.contains(x) {
                                    let q = found.index_of(x);
                                    assert(next[q] == x);
                                }
                                if x == to {
                                    assert(next[found.len() as int] == x);
                                }
                                if next.contains(x) && x != to {
                                    let q = next.index_of(x);
                                    assert(found[q] == x);
                                }
                            }
                        }
                        assert(seen.insert(to) =~= before.seen.union(next.to_set()));
                        seen = seen.insert(to);
                        found = next;
                        assert(stack@ =~= rest + found);
                        assert(edges@ =~= before.edges + found.map_values(|to: u32| (from, to)));
                    }
                }
                j += 1;
            }
            proof {
                assert(list@.take(list@.len() as int) =~= list@);
                k = k + 1;
                assert(traverse(views, n as nat, k) == step(views, n as nat, before));
                assert(rest =~= before.stack.drop_last());
                seen_count(seen, n as nat);
            }
        }
        assert(stack@ =~= Seq::<u32>::empty());
        start += 1;
    }
    proof {
        traverse_inv(views, n as nat, k);
        assert(finished(n as nat, traverse(views, n as nat, k)));
    }
    edges
}

/// Packs the fourth component of a quaternion, quantised to eight bits, and the handedness of its
/// tangent frame: the high bit is set for a standard frame, the rest holds the component without
/// its lowest bit.
pub fn pack_w(quantised: u8, standard: bool) -> (packed: u8)
    ensures
        packed == (if standard {
            128int
        } else {
            0
        }) + quantised / 2,
{
    let high_bit: u8 = if standard {
        0x80
    } else {
        0
    };
    let w: u8 = quantised >> 1;
    assert(high_bit == 0x80 || high_bit == 0 ==> (high_bit | (quantised >> 1u8)) == high_bit
        + quantised / 2) by (bit_vector);
    high_bit | w
}

/// The neighbours of a vertex are the vertices that share a triangle with it.
pub proof fn neighbours_share_a_triangle(indices: Seq<u32>, t: nat, v: u32, w: u32)
    ensures
        neighbours(indices, t, v as int).contains(w) <==> exists|s: int| shares(indices, t, v, w, s),
    decreases t,
{
    if t > 0 {
        let m = (t - 1) as nat;
        neighbours_share_a_triangle(indices, m, v, w);
        let (a, b, c) = (indices[3 * (t - 1)], indices[3 * (t - 1) + 1], indices[3 * (t - 1) + 2]);
        triangle_neighbours_items(a, b, c, v, w);
        let (before, own) = (
            neighbours(indices, m, v as int),
            triangle_neighbours(a, b, c, v as int),
        );
        let all = neighbours(indices, t, v as int);
        assert(all == before + own);
        if all.contains(w) {
            let i = all.index_of(w);
            if i < before.len() {
                assert(before[i] == w);
                let s = choose|s: int| shares(indices, m, v, w, s);
                assert(shares(indices, t, v, w, s));
            } else {
                assert(own[i - before.len()] == w);
                assert(own.contains(w));
                assert(shares(indices, t, v, w, m as int));
            }
        }
        if exists|s: int| shares(indices, t, v, w, s) {
            let s = choose|s: int| shares(indices, t, v, w, s);
            if s < m {
                assert(shares(indices, m, v, w, s));
                let i = before.index_of(w);
                assert(all[i] == w);
            } else {
                assert(own.contains(w));
                let i = own.index_of(w);
                assert(all[before.len() + i] == w);
            }
        }
    }
}

/// Triangle `s` has the vertices `v` and `w` at different corners.
pub open spec fn shares(indices: Seq<u32>, t: nat, v: u32, w: u32, s: int) -> bool {
    &&& 0 <= s < t
    &&& {
        ||| indices[3 * s] == v && (indices[3 * s + 1] == w || indices[3 * s + 2] == w)
        ||| indices[3 * s + 1] == v && (indices[3 * s] == w || indices[3 * s + 2] == w)
        ||| indices[3 * s + 2] == v && (indices[3 * s] == w || indices[3 * s + 1] == w)
    }
}

/// Some edge leads to a vertex.
pub open spec fn is_reached(edges: Seq<(u32, u32)>, v: u32) -> bool {
    exists|i: int| 0 <= i < edges.len() && (#[trigger] edges[i]).1 == v
}

/// What a traversal keeps besides: the neighbours of reached vertices that are not on the stack
/// are reached; a reached vertex that no edge leads to is no neighbour of a vertex before it; and
/// edges lead on from where earlier ones led to.
spec fn spreads(lists: Seq<Seq<u32>>, n: nat, s: Traversal) -> bool {
    &&& forall|v: u32, w: u32|
        #![trigger s.seen.contains(v), lists[v as int].contains(w)]
        s.seen.contains(v) && !s.stack.contains(v) && lists[v as int].contains(w)
            ==> s.seen.contains(w)
    &&& forall|v: u32, w: u32|
        #![trigger s.seen.contains(w), lists[v as int].contains(w)]
        s.seen.contains(w) && v < w && lists[v as int].contains(w) ==> is_reached(s.edges, w)
    &&& forall|i: int, j: int|
        0 <= i <= j < s.edges.len() ==> (#[trigger] s.edges[i]).0 != (#[trigger] s.edges[j]).1
}

proof fn step_spreads(lists: Seq<Seq<u32>>, n: nat, s: Traversal)
    requires
        closed_under(lists, n),
        n <= u32::MAX,
        traversal_inv(lists, n, s),
        spreads(lists, n, s),
    ensures
        spreads(lists, n, step(lists, n, s)),
{
    let next = step(lists, n, s);
    if s.stack.len() > 0 {
        let from = s.stack.last();
        let found = unseen(lists[from as int], s.seen);
        unseen_items(lists[from as int], s.seen);
        let added = found.map_values(|to: u32| (from, to));
        assert(s.seen.contains(s.stack[s.stack.len() - 1]));
        assert forall|v: u32, w: u32|
            #![trigger next.seen.contains(v), lists[v as int].contains(w)]
            next.seen.contains(v) && !next.stack.contains(v) && lists[v as int].contains(
                w,
            ) implies next.seen.contains(w) by {
            if found.contains(v) {
                let i = found.index_of(v);
                assert(next.stack[s.stack.len() - 1 + i] == v);
            } else {
                assert(s.seen.contains(v));
                if v == from {
                    if !s.seen.contains(w) {
                        assert(found.contains(w));
                        assert(found.to_set().contains(w));
                    }
                } else {
                    if s.stack.contains(v) {
                        let i = s.stack.index_of(v);
                        assert(next.stack[i] == v);
                    }
                    assert(s.seen.contains(w));
                }
            }
        }
        assert forall|v: u32, w: u32|
            #![trigger next.seen.contains(w), lists[v as int].contains(w)]
            next.seen.contains(w) && v < w && lists[v as int].contains(w) implies is_reached(
            next.edges,
            w,
        ) by {
            if s.seen.contains(w) {
                assert(is_reached(s.edges, w));
                let i = choose|i: int| 0 <= i < s.edges.len() && (#[trigger] s.edges[i]).1 == w;
                assert(next.edges[i].1 == w);
            } else {
                assert(found.contains(w));
                let i = found.index_of(w);
                assert(added[i].1 == w);
                assert(next.edges[s.edges.len() + i].1 == w);
            }
        }
        assert forall|i: int, j: int| 0 <= i <= j < next.edges.len() implies (
        #[trigger] next.edges[i]).0 != (#[trigger] next.edges[j]).1 by {
            if j < s.edges.len() {
                assert(next.edges[i] == s.edges[i] && next.edges[j] == s.edges[j]);
            } else {
                let k = j - s.edges.len();
                assert(next.edges[j] == added[k]);
                assert(found.contains(found[k]));
                if i < s.edges.len() {
                    assert(next.edges[i] == s.edges[i]);
                } else {
                    assert(next.edges[i] == added[i - s.edges.len()]);
                }
            }
        }
    } else if s.start < n && !s.seen.contains(s.start as u32) {
        let root = s.start as u32;
        assert(next.stack.contains(root)) by {
            assert(next.stack[0] == root);
        }
        assert forall|v: u32, w: u32|
            #![trigger next.seen.contains(v), lists[v as int].contains(w)]
            next.seen.contains(v) && !next.stack.contains(v) && lists[v as int].contains(
                w,
            ) implies next.seen.contains(w) by {
            assert(v != root);
            assert(s.seen.contains(v));
            assert(!s.stack.contains(v));
        }
        assert forall|v: u32, w: u32|
            #![trigger next.seen.contains(w), lists[v as int].contains(w)]
            next.seen.contains(w) && v < w && lists[v as int].contains(w) implies is_reached(
            next.edges,
            w,
        ) by {
            if w == root {
                assert(s.seen.contains(v));
                assert(!s.stack.contains(v));
                assert(s.seen.contains(w));
            } else {
                assert(s.seen.contains(w));
            }
        }
    }
}

proof fn traverse_spreads(lists: Seq<Seq<u32>>, n: nat, k: nat)
    requires
        closed_under(lists, n),
        n <= u32::MAX,
    ensures
        spreads(lists, n, traverse(lists, n, k)),
    decreases k,
{
    if k > 0 {
        traverse_spreads(lists, n, (k - 1) as nat);
        traverse_inv(lists, n, (k - 1) as nat);
        step_spreads(lists, n, traverse(lists, n, (k - 1) as nat));
    }
}

/// Every edge leads from a vertex to a neighbour of it, no two edges lead to the same vertex, and
/// an edge leads on from a vertex only after the edge that leads there. Of two neighbours the later
/// one is always reached along an edge: only the first vertex of each connected part is not.
pub proof fn frames_are_aligned_with_neighbours(
    lists: Seq<Seq<u32>>,
    n: nat,
    k: nat,
    edges: Seq<(u32, u32)>,
)
    requires
        closed_under(lists, n),
        n <= u32::MAX,
        finished(n, traverse(lists, n, k)),
        edges == traverse(lists, n, k).edges,
    ensures
        forall|i: int|
            0 <= i < edges.len() ==> lists[(#[trigger] edges[i]).0 as int].contains(edges[i].1),
        forall|i: int, j: int|
            0 <= i < j < edges.len() ==> (#[trigger] edges[i]).1 != (#[trigger] edges[j]).1,
        forall|i: int, j: int|
            0 <= i <= j < edges.len() ==> (#[trigger] edges[i]).0 != (#[trigger] edges[j]).1,
        forall|v: u32, w: u32|
            v < w < n && #[trigger] lists[v as int].contains(w) ==> is_reached(edges, w),
{
    traverse_inv(lists, n, k);
    traverse_spreads(lists, n, k);
    let s = traverse(lists, n, k);
    assert forall|v: u32, w: u32|
        v < w < n && #[trigger] lists[v as int].contains(w) implies is_reached(edges, w) by {
        assert(s.seen.contains(w));
    }
}

} // verus!
