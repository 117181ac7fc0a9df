//! The set of assertions that one run holds, which is released at most once.

use vstd::prelude::*;
use crate::power::Handle;

verus! {

/// The handles created for a run, in the order of their creation.
///
/// A set is held from the start and is released once. Either of two paths,
/// the one that waits for the duration and the one that waits for an
/// interrupt, may ask for the release; whichever asks first gets it.
pub struct AssertionSet {
    handles: Vec<Handle>,
    released: bool,
}

impl AssertionSet {
    /// The handles in the set, oldest first.
    pub closed spec fn handles(&self) -> Seq<Handle> {
        self.handles@
    }

    /// Whether the set has been released.
    pub closed spec fn is_released(&self) -> bool {
        self.released
    }

    /// An empty set, held.
    pub fn new() -> (set: AssertionSet)
        ensures
            set.handles() == Seq::<Handle>::empty(),
            !set.is_released(),
    {
        AssertionSet { handles: Vec::new(), released: false }
    }

    /// Records a handle that the power manager has created.
    ///
    /// A held set takes the handle as its newest one. A released set takes no
    /// more handles: it returns `false` and stays as it was, and the handle is
    /// the caller's to release.
    pub fn add(&mut self, handle: Handle) -> (taken: bool)
        ensures
            taken == !old(self).is_released(),
            final(self).is_released() == old(self).is_released(),
            final(self).handles() == if taken {
                old(self).handles().push(handle)
            } else {
                old(self).handles()
            },
    {
        if self.released {
            false
        } else {
            self.handles.push(handle);
            true
        }
    }

    /// The number of handles in the set.
    pub fn len(&self) -> (n: usize)
        ensures
            n == self.handles().len(),
    {
        self.handles.len()
    }

    /// The handle at `index`, counted from the oldest, if there is one.
    pub fn get(&self, index: usize) -> (handle: Option<Handle>)
        ensures
            handle == if index < self.handles().len() {
                Some(self.handles()[index as int])
            } else {
                None
            },
    {
        if index < self.handles.len() {
            Some(self.handles[index])
        } else {
            None
        }
    }

    /// Whether the set has been released.
    pub fn released(&self) -> (released: bool)
        ensures
            released == self.is_released(),
    {
        self.released
    }

    /// Passes the set from held to released, and says whether this call did it.
    ///
    /// The first call returns `true`: the caller now owns the release of every
    /// handle in the set. Every later call returns `false` and changes nothing,
    /// so the path that comes second has nothing left to release.
    pub fn release_all(&mut self) -> (first: bool)
        ensures
            first == !old(self).is_released(),
            final(self).is_released(),
            final(self).handles() == old(self).handles(),
    {
        let first = !self.released;
        self.released = true;
        first
    }
}

} // verus!
