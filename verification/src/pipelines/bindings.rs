//! The bind points of a pipeline, by name and in order.

#[allow(unused_imports)]
use crate::index_map::{entry_at, has_name, insert_keeps_distinct, name_entries, names_distinct};
use crate::index_map::{insert_name, name_count, name_entry, name_index, new_names};
use crate::pipelines::config::{ComputeResourceType, GraphicsPipelineBinding};
use indexmap::IndexMap;
use vstd::prelude::*;

verus! {

/// What is bound under each name; the names are numbered, in the order in which they came.
pub struct BindingMap<B> {
    /// The number of each name.
    places: IndexMap<String, u32>,
    /// What is bound, by number.
    bindings: Vec<B>,
}

/// The bind points of a graphics pipeline.
pub type PipelineBindingMap = BindingMap<GraphicsPipelineBinding>;

/// The resources of a compute pipeline.
pub type ComputeBindingMap = BindingMap<ComputeResourceType>;

/// No two bindings have the same name.
pub open spec fn bindings_distinct<B>(bindings: Seq<(Seq<char>, B)>) -> bool {
    forall|i: int, j: int|
        0 <= i < j < bindings.len() ==> (#[trigger] bindings[i]).0 != (#[trigger] bindings[j]).0
}

/// Some binding has the name `name`.
pub open spec fn is_bound<B>(bindings: Seq<(Seq<char>, B)>, name: Seq<char>) -> bool {
    exists|i: int| 0 <= i < bindings.len() && (#[trigger] bindings[i]).0 == name
}

/// The bindings with `binding` under `name`: in the place of what was bound there, or else as
/// the last.
pub open spec fn rebound<B>(
    bindings: Seq<(Seq<char>, B)>,
    name: Seq<char>,
    binding: B,
) -> Seq<(Seq<char>, B)> {
    if is_bound(bindings, name) {
        bindings.map_values(
            |b: (Seq<char>, B)|
                if b.0 == name {
                    (name, binding)
                } else {
                    b
                },
        )
    } else {
        bindings.push((name, binding))
    }
}

/// Binding under a name keeps the names distinct.
pub proof fn rebound_keeps_distinct<B>(
    bindings: Seq<(Seq<char>, B)>,
    name: Seq<char>,
    binding: B,
)
    requires
        bindings_distinct(bindings),
    ensures
        bindings_distinct(rebound(bindings, name, binding)),
        is_bound(rebound(bindings, name, binding), name),
{
    let after = rebound(bindings, name, binding);
    if is_bound(bindings, name) {
        let k = choose|k: int| 0 <= k < bindings.len() && (#[trigger] bindings[k]).0 == name;
        assert(after[k].0 == name);
        assert forall|i: int, j: int| 0 <= i < j < after.len() implies (#[trigger] after[i]).0 != (
        #[trigger] after[j]).0 by {
            assert(after[i].0 == bindings[i].0);
            assert(after[j].0 == bindings[j].0);
        }
    } else {
        assert(after.last().0 == name);
    }
}

impl<B> View for BindingMap<B> {
    type V = Seq<(Seq<char>, B)>;

    closed spec fn view(&self) -> Seq<(Seq<char>, B)> {
        Seq::new(
            self.bindings@.len(),
            |i: int| (name_entries(self.places)[i].0, self.bindings@[i]),
        )
    }
}

impl<B> BindingMap<B> {
    #[verifier::type_invariant]
    spec fn wf(self) -> bool {
        let entries = name_entries(self.places);
        &&& entries.len() == self.bindings@.len()
        &&& names_distinct(entries)
        &&& forall|i: int| 0 <= i < entries.len() ==> (#[trigger] entries[i]).1 == i
    }

    /// Nothing is bound.
    pub fn new() -> (map: Self)
        ensures
            map@ == Seq::<(Seq<char>, B)>::empty(),
    {
        let map = BindingMap { places: new_names(), bindings: Vec::new() };
        assert(map@ =~= Seq::<(Seq<char>, B)>::empty());
        map
    }

    /// The number of bindings, whose names are distinct.
    pub fn len(&self) -> (len: usize)
        ensures
            len == self@.len(),
            bindings_distinct(self@),
    {
        proof {
            use_type_invariant(self);
            let entries = name_entries(self.places);
            assert forall|i: int, j: int| 0 <= i < j < self@.len() implies (#[trigger] self@[i]).0
                != (#[trigger] self@[j]).0 by {
                assert(entries[i].0 != entries[j].0);
            }
        }
        name_count(&self.places)
    }

    /// The name and the binding with a number.
    pub fn entry(&self, index: usize) -> (entry: Option<(&String, &B)>)
        ensures
            match entry {
                Some((name, binding)) => index < self@.len() && self@[index as int] == (
                    name@,
                    *binding,
                ),
                None => index >= self@.len(),
            },
    {
        proof {
            use_type_invariant(self);
        }
        match name_entry(&self.places, index) {
            Some((name, _)) => Some((name, &self.bindings[index])),
            None => None,
        }
    }

    /// What is bound, in order.
    pub fn values(&self) -> (values: Vec<B>)
        where B: Copy,
        ensures
            values@ == self@.map_values(|b: (Seq<char>, B)| b.1),
    {
        let mut values: Vec<B> = Vec::with_capacity(self.bindings.len());
        let mut i: usize = 0;
        while i < self.bindings.len()
            invariant
                i <= self.bindings.len(),
                values@ == self.bindings@.take(i as int),
            decreases self.bindings.len() - i,
        {
            values.push(self.bindings[i]);
            i += 1;
            assert(values@ =~= self.bindings@.take(i as int));
        }
        assert(values@ =~= self@.map_values(|b: (Seq<char>, B)| b.1));
        values
    }

    /// Binds under a name, in the place of what was bound there.
    pub fn insert(&mut self, name: String, binding: B)
        requires
            old(self)@.len() < u32::MAX,
        ensures
            final(self)@ == rebound(old(self)@, name@, binding),
    {
        let mut taken = BindingMap::new();
        std::mem::swap(self, &mut taken);
        proof {
            use_type_invariant(&taken);
        }
        let ghost before = taken@;
        let ghost entries = name_entries(taken.places);
        let BindingMap { places, bindings } = taken;
        let mut places = places;
        let mut bindings = bindings;
        match name_index(&places, name.as_str()) {
            Some(i) => {
                bindings.set(i, binding);
                proof {
                    let k = i as int;
                    assert(before[k].0 == name@);
                    let after = rebound(before, name@, binding);
                    assert forall|m: int| 0 <= m < before.len() implies #[trigger] after[m] == (
                        entries[m].0,
                        bindings@[m],
                    ) by {
                        if m < k {
                            assert(entries[m].0 != entries[k].0);
                        } else if m > k {
                            assert(entries[k].0 != entries[m].0);
                        }
                    }
                    assert(after =~= Seq::new(
                        bindings@.len(),
                        |m: int| (entries[m].0, bindings@[m]),
                    ));
                }
            },
            None => {
                let place: u32 = bindings.len() as u32;
                let ghost key = name@;
                proof {
                    insert_keeps_distinct(entries, key, place);
                }
                insert_name(&mut places, name, place);
                bindings.push(binding);
                proof {
                    let now = name_entries(places);
                    assert(!is_bound(before, key)) by {
                        assert forall|m: int| 0 <= m < before.len() implies (
                        #[trigger] before[m]).0 != key by {
                            assert(!entry_at(entries, key, m));
                        }
                    }
                    assert(rebound(before, key, binding) =~= Seq::new(
                        bindings@.len(),
                        |m: int| (now[m].0, bindings@[m]),
                    ));
                }
            },
        }
        *self = BindingMap { places, bindings };
    }
}

/// Binding under a name leaves the other bindings alone, in their places. A new name comes last,
/// and one that was bound keeps its place.
pub proof fn rebound_leaves_others<B>(
    bindings: Seq<(Seq<char>, B)>,
    name: Seq<char>,
    binding: B,
    i: int,
)
    requires
        0 <= i < bindings.len(),
    ensures
        ({
            let after = rebound(bindings, name, binding);
            &&& after[i].0 == bindings[i].0
            &&& bindings[i].0 != name ==> after[i].1 == bindings[i].1
            &&& bindings[i].0 == name ==> after[i].1 == binding && after.len() == bindings.len()
            &&& (forall|k: int| 0 <= k < bindings.len() ==> (#[trigger] bindings[k]).0 != name)
                ==> after.len() == bindings.len() + 1 && after[bindings.len() as int] == (
                name,
                binding,
            )
        }),
{
    let after = rebound(bindings, name, binding);
    if is_bound(bindings, name) {
        let k = choose|k: int| 0 <= k < bindings.len() && (#[trigger] bindings[k]).0 == name;
        assert(bindings[k].0 == name);
    }
}

} // verus!
