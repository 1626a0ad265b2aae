//! Objects that are shared, but destroyed by one owner.

use std::mem::ManuallyDrop;
use std::sync::Arc;
use vstd::prelude::*;

verus! {

/// `Arc::try_unwrap` gives the object, where no one else shares it, and gives back the `Arc`
/// otherwise.
#[verifier::external_body]
fn try_unwrap<T>(object: Arc<T>) -> (result: Result<T, Arc<T>>)
    ensures
        match result {
            Ok(value) => value == *object,
            Err(arc) => arc == object,
        },
{
    Arc::try_unwrap(object)
}

/// `Arc::clone` gives another pointer to the same object.
#[verifier::external_body]
pub(crate) fn share<T>(object: &Arc<T>) -> (shared: Arc<T>)
    ensures
        shared == *object,
{
    Arc::clone(object)
}

/// A shared object that was not destroyed, since others share it.
#[derive(Clone, Copy, PartialEq, Eq, Structural, Debug)]
pub enum FinalOwnerError {
    NotLastOwner,
}

/// The owner of a shared object that is to destroy it. An owner that is given up leaves the object
/// alone.
pub struct ArcFinalOwner<T> {
    object: Option<ManuallyDrop<Arc<T>>>,
}

impl<T> ArcFinalOwner<T> {
    /// The object, until it is destroyed.
    pub closed spec fn object(self) -> Option<T> {
        match self.object {
            Some(arc) => Some(*arc@),
            None => None,
        }
    }

    /// What came of unwrapping the object that is shared: the object itself, or what others share
    /// of it. Only unwrapping it shows which.
    pub closed spec fn unwraps_to(self, unwrapped: Result<T, Arc<T>>) -> bool {
        match self.object {
            Some(arc) => call_ensures(try_unwrap::<T>, (arc@,), unwrapped),
            None => false,
        }
    }

    /// Owns an object.
    pub fn new(value: T) -> (owner: Self)
        ensures
            owner.object() == Some(value),
    {
        ArcFinalOwner { object: Some(ManuallyDrop::new(Arc::new(value))) }
    }

    /// The object.
    pub fn as_ref(&self) -> (object: &T)
        requires
            self.object() is Some,
        ensures
            Some(*object) == self.object(),
    {
        match &self.object {
            Some(arc) => &***arc,
            None => vstd::pervasive::unreached(),
        }
    }

    /// What is shared of the object.
    pub fn shared(&self) -> (object: &Arc<T>)
        requires
            self.object() is Some,
        ensures
            Some(**object) == self.object(),
    {
        match &self.object {
            Some(arc) => &**arc,
            None => vstd::pervasive::unreached(),
        }
    }

    /// Takes the object back, where no one else shares it. Who shares it is not part of the
    /// owner's state, so that either may happen.
    pub fn take_as_final(&mut self) -> (result: Result<T, FinalOwnerError>)
        requires
            old(self).object() is Some,
        ensures
            match result {
                Ok(value) => old(self).object() == Some(value) && final(self).object() is None,
                Err(FinalOwnerError::NotLastOwner) => final(self).object() == old(self).object(),
            },
            exists|unwrapped: Result<T, Arc<T>>| #[trigger]
                old(self).unwraps_to(unwrapped) && (unwrapped is Ok <==> result is Ok),
    {
        match self.object.take() {
            Some(arc) => {
                let unwrapped = try_unwrap(ManuallyDrop::into_inner(arc));
                assert(old(self).unwraps_to(unwrapped));
                self.take_unwrapped(unwrapped)
            },
            None => vstd::pervasive::unreached(),
        }
    }

    /// Hands out the object that was unwrapped, or keeps the one that others share.
    pub fn take_unwrapped(&mut self, unwrapped: Result<T, Arc<T>>) -> (result: Result<
        T,
        FinalOwnerError,
    >)
        ensures
            match unwrapped {
                Ok(value) => {
                    &&& result == Ok::<T, FinalOwnerError>(value)
                    &&& final(self).object() is None
                },
                Err(arc) => {
                    &&& result == Err::<T, FinalOwnerError>(FinalOwnerError::NotLastOwner)
                    &&& final(self).object() == Some(*arc)
                },
            },
    {
        match unwrapped {
            Ok(value) => {
                self.object = None;
                Ok(value)
            },
            Err(arc) => {
                self.object = Some(ManuallyDrop::new(arc));
                Err(FinalOwnerError::NotLastOwner)
            },
        }
    }

    /// Destroys the object, where no one else shares it. Who shares it is not part of the owner's
    /// state, so that either may happen.
    pub fn destroy_as_final<F: FnOnce(T)>(&mut self, destroy: F) -> (result: Result<
        (),
        FinalOwnerError,
    >)
        requires
            old(self).object() is Some,
            destroy.requires((old(self).object()->0,)),
        ensures
            match result {
                Ok(_) => destroy.ensures((old(self).object()->0,), ()) && final(self).object() is None,
                Err(FinalOwnerError::NotLastOwner) => final(self).object() == old(self).object(),
            },
            exists|unwrapped: Result<T, Arc<T>>| #[trigger]
                old(self).unwraps_to(unwrapped) && (unwrapped is Ok <==> result is Ok),
    {
        match self.object.take() {
            Some(arc) => {
                let unwrapped = try_unwrap(ManuallyDrop::into_inner(arc));
                assert(old(self).unwraps_to(unwrapped));
                self.destroy_unwrapped(unwrapped, destroy)
            },
            None => vstd::pervasive::unreached(),
        }
    }

    /// Destroys the object that was unwrapped, or keeps the one that others share.
    pub fn destroy_unwrapped<F: FnOnce(T)>(
        &mut self,
        unwrapped: Result<T, Arc<T>>,
        destroy: F,
    ) -> (result: Result<(), FinalOwnerError>)
        requires
            unwrapped matches Ok(value) ==> destroy.requires((value,)),
        ensures
            match unwrapped {
                Ok(value) => {
                    &&& result == Ok::<(), FinalOwnerError>(())
                    &&& destroy.ensures((value,), ())
                    &&& final(self).object() is None
                },
                Err(arc) => {
                    &&& result == Err::<(), FinalOwnerError>(FinalOwnerError::NotLastOwner)
                    &&& final(self).object() == Some(*arc)
                },
            },
    {
        match self.take_unwrapped(unwrapped) {
            Ok(value) => {
                destroy(value);
                Ok(())
            },
            Err(e) => Err(e),
        }
    }

    /// Destroys the object even where others share it, which is then reported. Who shares it is not
    /// part of the owner's state, so that either may happen.
    pub fn force_destroy_as_final<F: FnOnce(&T)>(&mut self, destroy: F) -> (result: Result<
        (),
        FinalOwnerError,
    >)
        requires
            old(self).object() is Some,
            destroy.requires((&(old(self).object()->0),)),
        ensures
            destroy.ensures((&(old(self).object()->0),), ()),
            match result {
                Ok(_) => final(self).object() is None,
                Err(FinalOwnerError::NotLastOwner) => final(self).object() == old(self).object(),
            },
            exists|unwrapped: Result<T, Arc<T>>| #[trigger]
                old(self).unwraps_to(unwrapped) && (unwrapped is Ok <==> result is Ok),
    {
        match self.object.take() {
            Some(arc) => {
                let unwrapped = try_unwrap(ManuallyDrop::into_inner(arc));
                assert(old(self).unwraps_to(unwrapped));
                self.force_destroy_unwrapped(unwrapped, destroy)
            },
            None => vstd::pervasive::unreached(),
        }
    }

    /// Destroys the object that was unwrapped, or the one that others share, which is kept.
    pub fn force_destroy_unwrapped<F: FnOnce(&T)>(
        &mut self,
        unwrapped: Result<T, Arc<T>>,
        destroy: F,
    ) -> (result: Result<(), FinalOwnerError>)
        requires
            match unwrapped {
                Ok(value) => destroy.requires((&value,)),
                Err(arc) => destroy.requires((&*arc,)),
            },
        ensures
            match unwrapped {
                Ok(value) => {
                    &&& result == Ok::<(), FinalOwnerError>(())
                    &&& destroy.ensures((&value,), ())
                    &&& final(self).object() is None
                },
                Err(arc) => {
                    &&& result == Err::<(), FinalOwnerError>(FinalOwnerError::NotLastOwner)
                    &&& destroy.ensures((&*arc,), ())
                    &&& final(self).object() == Some(*arc)
                },
            },
    {
        match self.take_unwrapped(unwrapped) {
            Ok(value) => {
                destroy(&value);
                Ok(())
            },
            Err(e) => {
                destroy(self.as_ref());
                Err(e)
            },
        }
    }
}

} // verus!
