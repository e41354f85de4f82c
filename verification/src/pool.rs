//! A fixed-capacity object pool. Kernel objects live at a stable index for their
//! lifetime and are named by it, never by a pointer. Allocation takes the first free
//! slot.

use vstd::prelude::*;

verus! {

/// How many slots hold an object.
pub open spec fn occupied<T>(slots: Seq<Option<T>>) -> nat
    decreases slots.len(),
{
    if slots.len() == 0 {
        0
    } else {
        occupied(slots.drop_last()) + if slots.last() is Some {
            1nat
        } else {
            0nat
        }
    }
}

/// `index` is the lowest-numbered free slot.
pub open spec fn is_first_free<T>(slots: Seq<Option<T>>, index: int) -> bool {
    &&& 0 <= index < slots.len()
    &&& slots[index] is None
    &&& forall|j: int| 0 <= j < index ==> slots[j] is Some
}

/// Every slot holds an object.
pub open spec fn is_exhausted<T>(slots: Seq<Option<T>>) -> bool {
    forall|j: int| 0 <= j < slots.len() ==> slots[j] is Some
}

/// What a lookup of `index` finds.
pub open spec fn entry<T>(slots: Seq<Option<T>>, index: int) -> Option<T> {
    if 0 <= index < slots.len() {
        slots[index]
    } else {
        None
    }
}

/// `slots` with `value` written over the object at `index`; unchanged where there is
/// no object to write over.
pub open spec fn overwrite<T>(slots: Seq<Option<T>>, index: int, value: T) -> Seq<Option<T>> {
    if entry(slots, index) is Some {
        slots.update(index, Some(value))
    } else {
        slots
    }
}

/// The lowest-numbered free slot; `None` where every slot holds an object.
pub open spec fn first_free<T>(slots: Seq<Option<T>>) -> Option<int> {
    if is_exhausted(slots) {
        None
    } else {
        Some(choose|i: int| is_first_free(slots, i))
    }
}

/// The slots after `value` went into the lowest-numbered free one, and the number of that
/// slot; `None` where every slot holds an object.
pub open spec fn allocated<T>(slots: Seq<Option<T>>, value: T) -> Option<(Seq<Option<T>>, u16)> {
    match first_free(slots) {
        Some(index) => Some((slots.update(index, Some(value)), index as u16)),
        None => None,
    }
}

/// Writing to one slot changes the number of occupied slots by what that slot gains or loses.
pub proof fn law_occupancy_follows_the_slots<T>(slots: Seq<Option<T>>, index: int, value: Option<T>)
    requires
        0 <= index < slots.len(),
    ensures
        occupied(slots.update(index, value)) == occupied(slots) + (if value is Some {
            1int
        } else {
            0
        }) - (if slots[index] is Some {
            1int
        } else {
            0
        }),
    decreases slots.len(),
{
    let updated = slots.update(index, value);
    if index == slots.len() - 1 {
        assert(updated.drop_last() =~= slots.drop_last());
    } else {
        assert(updated.drop_last() =~= slots.drop_last().update(index, value));
        law_occupancy_follows_the_slots(slots.drop_last(), index, value);
    }
}

/// A pool never holds more objects than it has slots; it holds that many exactly when
/// no slot is free, and none exactly when every slot is.
pub proof fn law_occupied_bounds<T>(slots: Seq<Option<T>>)
    ensures
        occupied(slots) <= slots.len(),
        occupied(slots) == slots.len() <==> is_exhausted(slots),
        occupied(slots) == 0 <==> forall|j: int| 0 <= j < slots.len() ==> slots[j] is None,
    decreases slots.len(),
{
    if slots.len() > 0 {
        let rest = slots.drop_last();
        law_occupied_bounds(rest);
        assert(forall|j: int| 0 <= j < rest.len() ==> rest[j] == slots[j]);
        assert(slots.last() == slots[slots.len() - 1]);
        if is_exhausted(slots) {
            assert(is_exhausted(rest));
        }
        if is_exhausted(rest) && slots.last() is Some {
            assert forall|j: int| 0 <= j < slots.len() implies slots[j] is Some by {
                if j < rest.len() {
                    assert(rest[j] is Some);
                }
            }
        }
        if forall|j: int| 0 <= j < rest.len() ==> rest[j] is None {
            if slots.last() is None {
                assert forall|j: int| 0 <= j < slots.len() implies slots[j] is None by {
                    if j < rest.len() {
                        assert(rest[j] is None);
                    }
                }
            }
        }
    }
}

/// A pool that is not exhausted has exactly one lowest free slot.
pub proof fn law_first_free<T>(slots: Seq<Option<T>>, index: int)
    requires
        is_first_free(slots, index),
    ensures
        first_free(slots) == Some(index),
{
    assert(!is_exhausted(slots)) by {
        assert(slots[index] is None);
    }
    let other = choose|i: int| is_first_free(slots, i);
    assert(is_first_free(slots, other));
    if other < index {
        assert(slots[other] is Some);
    } else if index < other {
        assert(slots[index] is Some);
    }
}

/// Where the pool is not exhausted, the lowest free slot exists.
pub proof fn law_first_free_exists<T>(slots: Seq<Option<T>>)
    ensures
        match first_free(slots) {
            Some(index) => is_first_free(slots, index),
            None => is_exhausted(slots),
        },
{
    if !is_exhausted(slots) {
        let witness = choose|j: int| 0 <= j < slots.len() && slots[j] is None;
        lemma_first_free_up_to(slots, witness);
    }
}

proof fn lemma_first_free_up_to<T>(slots: Seq<Option<T>>, witness: int)
    requires
        0 <= witness < slots.len(),
        slots[witness] is None,
    ensures
        exists|i: int| is_first_free(slots, i),
    decreases witness,
{
    if forall|j: int| 0 <= j < witness ==> slots[j] is Some {
        assert(is_first_free(slots, witness));
    } else {
        let earlier = choose|j: int| 0 <= j < witness && slots[j] is None;
        lemma_first_free_up_to(slots, earlier);
    }
}

#[derive(Clone, Copy, Debug)]
pub struct Pool<T: Copy, const N: usize> {
    slots: [Option<T>; N],
    len: usize,
}

impl<T: Copy, const N: usize> View for Pool<T, N> {
    type V = Seq<Option<T>>;

    closed spec fn view(&self) -> Seq<Option<T>> {
        self.slots@
    }
}

impl<T: Copy, const N: usize> Pool<T, N> {
    /// The stored length is the number of occupied slots.
    pub closed spec fn wf(&self) -> bool {
        self.len == occupied(self.slots@)
    }

    /// A pool has `N` slots throughout.
    pub broadcast proof fn lemma_capacity(&self)
        ensures
            #[trigger] self@.len() == N,
    {
    }

    pub fn new() -> (pool: Self)
        ensures
            pool.wf(),
            pool@ == Seq::new(N as nat, |i: int| None::<T>),
    {
        let pool = Pool { slots: [None;N], len: 0 };
        proof {
            law_occupied_bounds(pool@);
        }
        pool
    }

    pub fn len(&self) -> (len: usize)
        requires
            self.wf(),
        ensures
            len == occupied(self@),
    {
        self.len
    }

    pub fn is_empty(&self) -> (empty: bool)
        requires
            self.wf(),
        ensures
            empty == (occupied(self@) == 0),
    {
        self.len == 0
    }

    pub fn is_full(&self) -> (full: bool)
        requires
            self.wf(),
        ensures
            full == is_exhausted(self@),
    {
        proof {
            law_occupied_bounds(self@);
        }
        self.len >= N
    }

    /// Puts `value` into the first free slot and returns its index.
    pub fn allocate(&mut self, value: T) -> (index: Option<usize>)
        requires
            old(self).wf(),
        ensures
            final(self).wf(),
            match index {
                Some(i) => {
                    &&& is_first_free(old(self)@, i as int)
                    &&& final(self)@ == old(self)@.update(i as int, Some(value))
                },
                None => is_exhausted(old(self)@) && final(self)@ == old(self)@,
            },
    {
        if self.is_full() {
            return None;
        }
        let mut i: usize = 0;
        while i < N
            invariant
                self.slots == old(self).slots,
                self.len == old(self).len,
                self.wf(),
                old(self).wf(),
                !is_exhausted(old(self)@),
                forall|j: int| 0 <= j < i ==> self@[j] is Some,
            decreases N - i,
        {
            if self.slots[i].is_none() {
                proof {
                    law_occupancy_follows_the_slots(self.slots@, i as int, Some(value));
                    law_occupied_bounds(self.slots@.update(i as int, Some(value)));
                }
                self.slots[i] = Some(value);
                self.len = self.len + 1;
                return Some(i);
            }
            i = i + 1;
        }
        None
    }

    pub fn get(&self, index: usize) -> (value: Option<&T>)
        ensures
            value == match entry(self@, index as int) {
                Some(v) => Some(&v),
                None => None,
            },
            value is Some <==> index < N && self@[index as int] is Some,
            value matches Some(v) ==> self@[index as int] == Some(*v),
    {
        if index < N {
            self.slots[index].as_ref()
        } else {
            None
        }
    }

    pub fn get_mut(&mut self, index: usize) -> (value: Option<&mut T>)
        ensures
            old(self).wf() ==> final(self).wf(),
            match value {
                Some(v) => {
                    &&& entry(old(self)@, index as int) == Some(*v)
                    &&& final(self)@ == old(self)@.update(index as int, Some(*final(v)))
                },
                None => entry(old(self)@, index as int) is None && final(self)@ == old(self)@,
            },
            value is Some <==> index < N && old(self)@[index as int] is Some,
            value matches Some(v) ==> old(self)@[index as int] == Some(*v),
    {
        if index < N {
            proof {
                let slots = self.slots@;
                assert forall|s: Seq<Option<T>>|
                    s.len() == N && (s[index as int] is Some <==> slots[index as int] is Some) && (
                    forall|j: int| 0 <= j < N && j != index ==> s[j] == slots[j]) implies
                    #[trigger] occupied(s) == occupied(slots) by {
                    law_occupancy_follows_the_slots(slots, index as int, s[index as int]);
                    assert(s =~= slots.update(index as int, s[index as int]));
                }
            }
            match &mut self.slots[index] {
                Some(v) => Some(v),
                None => None,
            }
        } else {
            None
        }
    }

    /// Frees the slot at `index` and returns what it held.
    pub fn free(&mut self, index: usize) -> (value: Option<T>)
        requires
            old(self).wf(),
        ensures
            final(self).wf(),
            value == entry(old(self)@, index as int),
            value is Some <==> index < N && old(self)@[index as int] is Some,
            value is Some ==> value == old(self)@[index as int],
            final(self)@ == if index < N {
                old(self)@.update(index as int, None)
            } else {
                old(self)@
            },
    {
        if index < N {
            proof {
                law_occupancy_follows_the_slots(self.slots@, index as int, None);
                law_occupied_bounds(self.slots@);
            }
            let value = self.slots[index];
            self.slots[index] = None;
            if value.is_some() {
                self.len = self.len - 1;
            }
            value
        } else {
            None
        }
    }
}

impl<T: Copy, const N: usize> Default for Pool<T, N> {
    fn default() -> (pool: Self)
        ensures
            pool.wf(),
            pool@ == Seq::new(N as nat, |i: int| None::<T>),
    {
        Pool::new()
    }
}

/// What was allocated can be read back, and freeing it leaves the pool as it was:
/// the next allocation gets the same slot. In between, the pool holds one object more.
pub proof fn law_alloc_then_free<T>(slots: Seq<Option<T>>, index: int, value: T)
    requires
        is_first_free(slots, index),
    ensures
        entry(slots.update(index, Some(value)), index) == Some(value),
        slots.update(index, Some(value)).update(index, None) == slots,
        occupied(slots.update(index, Some(value))) == occupied(slots) + 1,
{
    law_occupancy_follows_the_slots(slots, index, Some(value));
    assert(slots.update(index, Some(value)).update(index, None) =~= slots);
}

} // verus!
