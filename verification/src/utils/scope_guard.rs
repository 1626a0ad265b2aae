//! Work that is done at the end of a scope, unless it is called off.

use vstd::prelude::*;

verus! {

/// Work to do at the end of a scope.
pub struct ScopeGuard<F: FnOnce()> {
    f: Option<F>,
}

impl<F: FnOnce()> ScopeGuard<F> {
    /// The work that is still to do.
    pub closed spec fn pending(self) -> Option<F> {
        self.f
    }

    /// The work is to be done.
    pub fn new(f: F) -> (guard: Self)
        ensures
            guard.pending() == Some(f),
    {
        ScopeGuard { f: Some(f) }
    }

    /// Calls the work off.
    pub fn defuse(&mut self)
        ensures
            final(self).pending() is None,
    {
        self.f = None;
    }

    /// Does the work at the end of the scope, where it was not called off; it is done only once.
    pub fn fire(&mut self)
        requires
            old(self).pending() matches Some(f) ==> f.requires(()),
        ensures
            final(self).pending() is None,
            old(self).pending() matches Some(f) ==> f.ensures((), ()),
    {
        if let Some(f) = self.f.take() {
            f();
        }
    }
}

} // verus!
