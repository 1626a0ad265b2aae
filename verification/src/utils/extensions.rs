//! Maps whose values are made when they are first needed.

use std::collections::hash_map::Entry;
use vstd::prelude::*;
#[allow(unused_imports)]
use vstd::std_specs::hash::EntrySpecFns;

verus! {

broadcast use vstd::std_specs::hash::group_hash_axioms;

/// The place of a value that may fail to be made.
pub trait EntryExt<'a, V>: Sized {
    /// There is no value yet.
    spec fn is_vacant(self) -> bool;

    /// The value, which is made with `default` where there is none yet.
    fn try_or_insert_with<E, F: FnOnce() -> Result<V, E>>(self, default: F) -> (result: Result<
        &'a mut V,
        E,
    >)
        requires
            self.is_vacant() ==> default.requires(()),
    ;
}

impl<'a, K, V> EntryExt<'a, V> for Entry<'a, K, V> {
    open spec fn is_vacant(self) -> bool {
        self.value() is None
    }

    fn try_or_insert_with<E, F: FnOnce() -> Result<V, E>>(self, default: F) -> (result: Result<
        &'a mut V,
        E,
    >)
        ensures
            match result {
                Ok(value) => {
                    &&& match self.value() {
                        Some(found) => *value == found,
                        None => default.ensures((), Ok(*value)),
                    }
                    &&& self.final_value() == Some(*final(value))
                },
                Err(e) => {
                    &&& self.is_vacant()
                    &&& default.ensures((), Err(e))
                    &&& self.final_value() is None
                },
            },
    {
        match self {
            Entry::Occupied(entry) => Ok(entry.into_mut()),
            Entry::Vacant(entry) => match default() {
                Ok(value) => Ok(entry.insert(value)),
                Err(e) => Err(e),
            },
        }
    }
}

} // verus!
