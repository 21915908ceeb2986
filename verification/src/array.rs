//! The store itself: a table from sparse integer indices to owned values,
//! plus the scoped borrow it hands out.

use vstd::prelude::*;

use crate::error::Error;
use crate::error::EINVAL;
use crate::flags;
use crate::reservation::Reservation;

verus! {

/// One slot of the backing table.
enum Slot<T> {
    /// No entry at this index.
    Vacant,
    /// The index is allocated, so no allocation may hand it out, but it
    /// holds no value yet.
    Reserved,
    /// The index holds a value.
    Present(T),
}

/// The value a slot contributes to the store's view: `Some` for a stored
/// value, `None` for a reserved-but-empty slot.
spec fn slot_value<T>(s: Slot<T>) -> Option<T> {
    match s {
        Slot::Present(v) => Some(v),
        _ => None,
    }
}

/// The slot found at index `i` of a table, `Vacant` beyond its end.
spec fn slot_at<T>(s: Seq<Slot<T>>, i: int) -> Slot<T> {
    if 0 <= i < s.len() {
        s[i]
    } else {
        Slot::Vacant
    }
}

/// The view of a whole table: every occupied index, mapped to its value or
/// to `None` when it is reserved but empty.
spec fn table_view<T>(s: Seq<Slot<T>>) -> Map<int, Option<T>> {
    Map::new(
        |i: int| 0 <= i < s.len() && !(s[i] is Vacant),
        |i: int| slot_value(s[i]),
    )
}

/// Every (index, value) pair stored in a table, in increasing index order.
spec fn table_entries<T>(s: Seq<Slot<T>>) -> Seq<(usize, T)>
    decreases s.len(),
{
    if s.len() == 0 {
        Seq::empty()
    } else {
        table_entries(s.drop_last()) + (match s.last() {
            Slot::Present(v) => seq![((s.len() - 1) as usize, v)],
            _ => Seq::empty(),
        })
    }
}

/// What `table_entries` yields for a table no longer than the machine's
/// index range: pairs whose indices name exactly the filled slots, each
/// exactly once, in strictly increasing order.
proof fn lemma_table_entries<T>(s: Seq<Slot<T>>)
    requires
        s.len() <= usize::MAX,
    ensures
        forall|k: int|
            #![trigger table_entries(s)[k]]
            0 <= k < table_entries(s).len() ==> {
                &&& (table_entries(s)[k].0 as int) < s.len()
                &&& s[table_entries(s)[k].0 as int] == Slot::Present(table_entries(s)[k].1)
            },
        forall|k1: int, k2: int|
            0 <= k1 < k2 < table_entries(s).len() ==> (#[trigger] table_entries(s)[k1]).0
                < (#[trigger] table_entries(s)[k2]).0,
        forall|i: int|
            0 <= i < s.len() && (#[trigger] s[i]) is Present ==> exists|k: int|
                0 <= k < table_entries(s).len() && (#[trigger] table_entries(s)[k]).0 as int == i,
    decreases s.len(),
{
    if s.len() > 0 {
        lemma_table_entries(s.drop_last());
        let prefix = table_entries(s.drop_last());
        assert forall|i: int|
            0 <= i < s.len() && (#[trigger] s[i]) is Present implies exists|k: int|
            0 <= k < table_entries(s).len() && (#[trigger] table_entries(s)[k]).0 as int
                == i by {
            if i < s.len() - 1 {
                assert(s.drop_last()[i] == s[i]);
                let k = choose|k: int|
                    0 <= k < prefix.len() && (#[trigger] prefix[k]).0 as int == i;
                assert(table_entries(s)[k].0 as int == i);
            } else {
                assert(table_entries(s)[table_entries(s).len() - 1].0 as int == i);
            }
        }
    }
}

/// A store which maps sparse non-negative integer indices to exclusively
/// owned values.
///
/// Its view is a map from occupied indices to `Option<T>`: `Some(v)` for an
/// index holding the value `v`, `None` for an index that is allocated but
/// still empty (a pending reservation).
pub struct XArray<T> {
    slots: Vec<Slot<T>>,
    track_free: bool,
}

/// A borrow of one stored value.
///
/// The borrowed view is held structurally inside the guard, so the type
/// system ties its validity to the store it came from: while a `Guard` is
/// alive, no operation that could move or drop the value can be called.
pub struct Guard<'a, T> {
    entry: &'a T,
}

impl<'a, T> View for Guard<'a, T> {
    type V = T;

    closed spec fn view(&self) -> T {
        *self.entry
    }
}

impl<'a, T> Guard<'a, T> {
    /// Borrow the underlying value wrapped by the `Guard`.
    pub fn borrow(&self) -> (r: &T)
        ensures
            *r == self@,
    {
        self.entry
    }
}

impl<T> View for XArray<T> {
    type V = Map<int, Option<T>>;

    closed spec fn view(&self) -> Map<int, Option<T>> {
        table_view(self.slots@)
    }
}

impl<T> XArray<T> {
    /// Whether the store tracks free indices, which is what allows
    /// `allocate` and `reserve` to hand indices out.
    pub closed spec fn allocating(&self) -> bool {
        self.track_free
    }

    /// The value stored at index `i`: `Some(v)` when a value is present,
    /// `None` when the index is vacant or reserved but empty. This is what
    /// `get` observes and what `replace` and `remove` return as the prior
    /// value.
    pub open spec fn stored(&self, i: int) -> Option<T> {
        if self@.dom().contains(i) {
            self@[i]
        } else {
            None
        }
    }

    /// Creates a store configured by `flags`.
    pub fn new(flags: flags::Flags) -> (r: Result<XArray<T>, Error>)
        ensures
            r is Ok,
            (r->Ok_0).allocating() == (flags & flags::TRACK_FREE != 0),
            flags & flags::ZERO_BUSY != 0 ==> (r->Ok_0)@ == map![0int => None::<T>],
            flags & flags::ZERO_BUSY == 0 ==> (r->Ok_0)@ == Map::<int, Option<T>>::empty(),
    {
        let mut slots: Vec<Slot<T>> = Vec::new();
        if flags & flags::ZERO_BUSY != 0 {
            slots.push(Slot::Reserved);
        }
        let xa = XArray { slots, track_free: flags & flags::TRACK_FREE != 0 };
        proof {
            if flags & flags::ZERO_BUSY != 0 {
                assert(xa@ =~= map![0int => None::<T>]);
            } else {
                assert(xa@ =~= Map::<int, Option<T>>::empty());
            }
        }
        Ok(xa)
    }

    /// Swaps the slot at `index` for `entry`, growing the table as needed,
    /// and returns the slot that was there.
    fn exchange(&mut self, index: usize, entry: Slot<T>) -> (prev: Slot<T>)
        ensures
            prev == slot_at(old(self).slots@, index as int),
            entry is Vacant ==> final(self)@ == old(self)@.remove(index as int),
            !(entry is Vacant) ==> final(self)@ == old(self)@.insert(
                index as int,
                slot_value(entry),
            ),
            final(self).allocating() == old(self).allocating(),
    {
        while self.slots.len() <= index
            invariant
                self.slots@.len() >= old(self).slots@.len(),
                forall|j: int|
                    0 <= j < old(self).slots@.len() ==> self.slots@[j] == old(self).slots@[j],
                forall|j: int|
                    old(self).slots@.len() <= j < self.slots@.len() ==> self.slots@[j] is Vacant,
                self.track_free == old(self).track_free,
            decreases index as int + 1 - self.slots@.len(),
        {
            self.slots.push(Slot::Vacant);
        }
        let ghost grown = self.slots@;
        self.slots.push(entry);
        let prev = self.slots.swap_remove(index);
        proof {
            assert(self.slots@ =~= grown.update(index as int, entry));
            if entry is Vacant {
                assert(self@ =~= old(self)@.remove(index as int));
            } else {
                assert(self@ =~= old(self)@.insert(index as int, slot_value(entry)));
            }
        }
        prev
    }

    /// Replaces the entry at `index` with `value`, returning the previously
    /// stored value, if any.
    ///
    /// An index outside the store's native index domain is rejected before
    /// anything is mutated; ownership of `value` is reclaimed and the value
    /// dropped, never leaked.
    pub fn replace(&mut self, index: usize, value: T) -> (r: Result<Option<T>, Error>)
        ensures
            index as int <= u32::MAX as int ==> {
                &&& r == Ok::<Option<T>, Error>(old(self).stored(index as int))
                &&& final(self)@ == old(self)@.insert(index as int, Some(value))
                &&& final(self).allocating() == old(self).allocating()
            },
            index as int > u32::MAX as int ==> {
                &&& r == Err::<Option<T>, Error>(Error::ConversionError)
                &&& *final(self) == *old(self)
            },
    {
        if index > u32::MAX as usize {
            return Err(Error::ConversionError);
        }
        let prev = self.exchange(index, Slot::Present(value));
        match prev {
            Slot::Present(v) => Ok(Some(v)),
            _ => Ok(None),
        }
    }

    /// Replaces the entry at `index` with `value`, dropping the previously
    /// stored value, if any.
    pub fn set(&mut self, index: usize, value: T) -> (r: Result<(), Error>)
        ensures
            index as int <= u32::MAX as int ==> {
                &&& r == Ok::<(), Error>(())
                &&& final(self)@ == old(self)@.insert(index as int, Some(value))
                &&& final(self).allocating() == old(self).allocating()
            },
            index as int > u32::MAX as int ==> {
                &&& r == Err::<(), Error>(Error::ConversionError)
                &&& *final(self) == *old(self)
            },
    {
        match self.replace(index, value) {
            Ok(_) => Ok(()),
            Err(e) => Err(e),
        }
    }

    /// Looks up the entry at `index`, returning a [`Guard`] borrowing it if
    /// a value is stored there.
    ///
    /// While the returned guard is alive, the borrow it holds keeps every
    /// mutating operation on this store from being called.
    pub fn get<'a>(&'a self, index: usize) -> (r: Option<Guard<'a, T>>)
        ensures
            r is Some <==> index as int <= u32::MAX as int && self.stored(index as int) is Some,
            r is Some ==> Some((r->0)@) == self.stored(index as int),
    {
        if index > u32::MAX as usize {
            return None;
        }
        if index >= self.slots.len() {
            return None;
        }
        match &self.slots[index] {
            Slot::Present(v) => Some(Guard { entry: v }),
            _ => None,
        }
    }

    /// Removes the entry at `index`, returning its value if one was stored
    /// there. Removing a vacant or merely reserved index returns nothing;
    /// either way the index is free again afterwards.
    pub fn remove(&mut self, index: usize) -> (r: Option<T>)
        ensures
            index as int <= u32::MAX as int ==> {
                &&& r == old(self).stored(index as int)
                &&& final(self)@ == old(self)@.remove(index as int)
                &&& final(self).allocating() == old(self).allocating()
            },
            index as int > u32::MAX as int ==> {
                &&& r is None
                &&& *final(self) == *old(self)
            },
    {
        if index > u32::MAX as usize {
            return None;
        }
        if index >= self.slots.len() {
            proof {
                assert(self@.remove(index as int) =~= self@);
            }
            return None;
        }
        let prev = self.exchange(index, Slot::Vacant);
        match prev {
            Slot::Present(v) => Some(v),
            _ => None,
        }
    }

    /// Whether nothing occupies `index`: neither a stored value nor a
    /// pending reservation.
    fn is_free(&self, index: usize) -> (b: bool)
        ensures
            b == !self@.dom().contains(index as int),
    {
        if index >= self.slots.len() {
            return true;
        }
        match &self.slots[index] {
            Slot::Vacant => true,
            _ => false,
        }
    }

    /// Allocates a free index within `[min, max]`, storing `value` into it
    /// when one is given; with no value the index is reserved: occupied, but
    /// empty until filled or removed.
    ///
    /// The store must have been created with free-index tracking; otherwise
    /// the engine rejects the call and `value` is dropped, not leaked. The
    /// lowest free index in range is taken; when every index in range is
    /// occupied, the call fails with [`Error::AllocationExhausted`], again
    /// dropping `value`, and the store is unchanged.
    pub fn alloc_limits(&mut self, value: Option<T>, min: u32, max: u32) -> (r: Result<
        usize,
        Error,
    >)
        ensures
            !old(self).allocating() ==> {
                &&& r == Err::<usize, Error>(Error::EngineError(EINVAL))
                &&& *final(self) == *old(self)
            },
            old(self).allocating() ==> match r {
                Ok(i) => {
                    &&& min as int <= i as int <= max as int
                    &&& !old(self)@.dom().contains(i as int)
                    &&& forall|j: int|
                        min as int <= j < i as int ==> old(self)@.dom().contains(j)
                    &&& final(self)@ == old(self)@.insert(i as int, value)
                    &&& final(self).allocating()
                },
                Err(e) => {
                    &&& e == Error::AllocationExhausted
                    &&& forall|j: int|
                        min as int <= j <= max as int ==> old(self)@.dom().contains(j)
                    &&& *final(self) == *old(self)
                },
            },
    {
        if !self.track_free {
            return Err(Error::EngineError(EINVAL));
        }
        let mut i: u64 = min as u64;
        while i <= max as u64
            invariant
                self == old(self),
                self.track_free,
                min as int <= i as int,
                forall|j: int| min as int <= j < i as int ==> self@.dom().contains(j),
            decreases max as int + 1 - i as int,
        {
            let idx: usize = i as usize;
            if self.is_free(idx) {
                let entry = match value {
                    Some(v) => Slot::Present(v),
                    None => Slot::Reserved,
                };
                let _prev = self.exchange(idx, entry);
                return Ok(idx);
            }
            i = i + 1;
        }
        Err(Error::AllocationExhausted)
    }

    /// Allocates a free index anywhere in the store's index domain, storing
    /// `value` into it when one is given; with no value the index is
    /// reserved.
    pub fn allocate(&mut self, value: Option<T>) -> (r: Result<usize, Error>)
        ensures
            !old(self).allocating() ==> {
                &&& r == Err::<usize, Error>(Error::EngineError(EINVAL))
                &&& *final(self) == *old(self)
            },
            old(self).allocating() ==> match r {
                Ok(i) => {
                    &&& i as int <= u32::MAX as int
                    &&& !old(self)@.dom().contains(i as int)
                    &&& forall|j: int| 0 <= j < i as int ==> old(self)@.dom().contains(j)
                    &&& final(self)@ == old(self)@.insert(i as int, value)
                    &&& final(self).allocating()
                },
                Err(e) => {
                    &&& e == Error::AllocationExhausted
                    &&& forall|j: int|
                        0 <= j <= u32::MAX as int ==> old(self)@.dom().contains(j)
                    &&& *final(self) == *old(self)
                },
            },
    {
        self.alloc_limits(value, 0, u32::MAX)
    }

    /// Reserves a free index within `[min, max]`: the index is occupied, so
    /// no later allocation can hand it out, but holds no value until the
    /// returned [`Reservation`] is resolved by `store` or `discard`.
    pub fn reserve_limits(&mut self, min: u32, max: u32) -> (r: Result<Reservation<T>, Error>)
        ensures
            !old(self).allocating() ==> {
                &&& r is Err && r->Err_0 == Error::EngineError(EINVAL)
                &&& *final(self) == *old(self)
            },
            old(self).allocating() ==> match r {
                Ok(res) => {
                    &&& min as int <= res.idx() <= max as int
                    &&& !old(self)@.dom().contains(res.idx())
                    &&& forall|j: int| min as int <= j < res.idx() ==> old(self)@.dom().contains(j)
                    &&& final(self)@ == old(self)@.insert(res.idx(), None::<T>)
                    &&& final(self).allocating()
                },
                Err(e) => {
                    &&& e == Error::AllocationExhausted
                    &&& forall|j: int|
                        min as int <= j <= max as int ==> old(self)@.dom().contains(j)
                    &&& *final(self) == *old(self)
                },
            },
    {
        match self.alloc_limits(None, min, max) {
            Ok(i) => Ok(Reservation::of(i)),
            Err(e) => Err(e),
        }
    }

    /// Reserves a free index anywhere in the store's index domain.
    pub fn reserve(&mut self) -> (r: Result<Reservation<T>, Error>)
        ensures
            !old(self).allocating() ==> {
                &&& r is Err && r->Err_0 == Error::EngineError(EINVAL)
                &&& *final(self) == *old(self)
            },
            old(self).allocating() ==> match r {
                Ok(res) => {
                    &&& 0 <= res.idx() <= u32::MAX as int
                    &&& !old(self)@.dom().contains(res.idx())
                    &&& forall|j: int| 0 <= j < res.idx() ==> old(self)@.dom().contains(j)
                    &&& final(self)@ == old(self)@.insert(res.idx(), None::<T>)
                    &&& final(self).allocating()
                },
                Err(e) => {
                    &&& e == Error::AllocationExhausted
                    &&& forall|j: int|
                        0 <= j <= u32::MAX as int ==> old(self)@.dom().contains(j)
                    &&& *final(self) == *old(self)
                },
            },
    {
        self.reserve_limits(0, u32::MAX)
    }

    /// Tears the store down: consumes it and hands back every stored value,
    /// paired with its index, in increasing index order. Each occupied index
    /// appears exactly once, so no value is leaked and none is handed out
    /// twice; reserved-but-empty indices simply end with the store. Taking
    /// the store by value is what guarantees the exclusive access teardown
    /// assumes.
    pub fn into_entries(self) -> (r: Vec<(usize, T)>)
        ensures
            forall|k: int|
                #![trigger r@[k]]
                0 <= k < r@.len() ==> self.stored(r@[k].0 as int) == Some(r@[k].1),
            forall|k1: int, k2: int|
                0 <= k1 < k2 < r@.len() ==> (#[trigger] r@[k1]).0 < (#[trigger] r@[k2]).0,
            forall|i: int|
                self.stored(i) is Some ==> exists|k: int|
                    0 <= k < r@.len() && (#[trigger] r@[k]).0 as int == i,
    {
        let total: usize = self.slots.len();
        let ghost me = self;
        let ghost orig = self.slots@;
        let mut slots = self.slots;
        let mut out: Vec<(usize, T)> = Vec::new();
        let mut i: usize = 0;
        while slots.len() > 0
            invariant
                orig.len() == total as int,
                i as int + slots@.len() == orig.len(),
                slots@ == orig.subrange(i as int, orig.len() as int),
                out@ == table_entries(orig.subrange(0, i as int)),
            decreases slots@.len(),
        {
            let s = slots.remove(0);
            proof {
                assert(s == orig[i as int]);
            }
            match s {
                Slot::Present(v) => out.push((i, v)),
                _ => (),
            }
            i = i + 1;
            proof {
                assert(slots@ =~= orig.subrange(i as int, orig.len() as int));
                assert(orig.subrange(0, i as int).drop_last() =~= orig.subrange(
                    0,
                    i as int - 1,
                ));
                assert(orig.subrange(0, i as int).last() == orig[i as int - 1]);
                assert(out@ =~= table_entries(orig.subrange(0, i as int)));
            }
        }
        proof {
            assert(orig.subrange(0, i as int) =~= orig);
            lemma_table_entries(orig);
            assert forall|k: int| #![trigger out@[k]]
                0 <= k < out@.len() implies me.stored(out@[k].0 as int) == Some(
                out@[k].1,
            ) by {
                assert(orig[out@[k].0 as int] == Slot::Present(out@[k].1));
                assert(me@.dom().contains(out@[k].0 as int));
            }
            assert forall|j: int| me.stored(j) is Some implies exists|k: int|
                0 <= k < out@.len() && (#[trigger] out@[k]).0 as int == j by {
                assert(me@.dom().contains(j));
                assert(0 <= j < orig.len() && orig[j] is Present);
            }
        }
        out
    }
}

} // verus!
