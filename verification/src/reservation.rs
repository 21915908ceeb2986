//! The two-phase allocate-then-fill handle for one index.

use vstd::prelude::*;

use core::marker::PhantomData;

use crate::array::XArray;
use crate::error::Error;

verus! {

/// A reserved index of an [`XArray`]: allocated, so no other allocation can
/// hand it out, but empty until resolved exactly once by [`Reservation::store`]
/// or [`Reservation::discard`], both of which consume the reservation, so it
/// cannot be used a second time.
///
/// Reserved indices are expected not to be filled through any other path; a
/// value that nonetheless shows up there is dropped and replaced when the
/// reservation is resolved, since at that point no other outcome is safe.
pub struct Reservation<T> {
    at: usize,
    marker: PhantomData<T>,
}

impl<T> Reservation<T> {
    /// The reserved index.
    pub closed spec fn idx(&self) -> int {
        self.at as int
    }

    #[verifier::type_invariant]
    spec fn wf(self) -> bool {
        self.at as int <= u32::MAX as int
    }

    /// Wraps a freshly allocated index.
    pub(crate) fn of(at: usize) -> (r: Reservation<T>)
        requires
            at as int <= u32::MAX as int,
        ensures
            r.idx() == at as int,
    {
        Reservation { at, marker: PhantomData }
    }

    /// Returns the index of this reservation.
    pub fn index(&self) -> (i: usize)
        ensures
            i as int == self.idx(),
    {
        self.at
    }

    /// Stores a value into the reserved slot, consuming the reservation and
    /// returning the index that now holds the value.
    ///
    /// If the slot was filled through another path in the meantime — a
    /// breach of the reservation protocol — the out-of-band value is dropped
    /// and the store still counts as a success: refusing it or discarding
    /// the new value would leak or double-free.
    pub fn store(self, xa: &mut XArray<T>, value: T) -> (r: Result<usize, Error>)
        ensures
            r is Ok && (r->Ok_0) as int == self.idx(),
            final(xa)@ == old(xa)@.insert(self.idx(), Some(value)),
            final(xa).allocating() == old(xa).allocating(),
    {
        proof {
            use_type_invariant(&self);
        }
        let at = self.at;
        match xa.replace(at, value) {
            Ok(_) => Ok(at),
            Err(e) => Err(e),
        }
    }

    /// Releases the reserved index without storing a value, consuming the
    /// reservation; the index is free for allocation again afterwards.
    ///
    /// A value that was filled in through another path — a breach of the
    /// reservation protocol — is dropped here, there being no caller to hand
    /// it to.
    pub fn discard(self, xa: &mut XArray<T>)
        ensures
            final(xa)@ == old(xa)@.remove(self.idx()),
            final(xa).allocating() == old(xa).allocating(),
    {
        proof {
            use_type_invariant(&self);
        }
        let _out_of_band = xa.remove(self.at);
    }
}

} // verus!
