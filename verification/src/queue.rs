//! A fixed-capacity FIFO over a ring buffer, for the ready queue and for the threads
//! blocked on an endpoint or a notification.

use vstd::prelude::*;
use vstd::std_specs::cmp::PartialEqSpec;

verus! {

/// The position in a ring of `capacity` slots that lies `offset` slots after `head`.
spec fn ring(head: int, offset: int, capacity: int) -> int {
    if head + offset < capacity {
        head + offset
    } else {
        head + offset - capacity
    }
}

/// `items` without its entry at `found`, or all of it where there is none.
pub open spec fn without<T>(items: Seq<T>, found: Option<int>) -> Seq<T> {
    match found {
        Some(i) => items.remove(i),
        None => items,
    }
}

/// Whether `item == value` may come out as `answer`.
pub open spec fn compares<T: PartialEq>(item: T, value: T, answer: bool) -> bool {
    call_ensures(<T as PartialEq>::eq, (&item, &value), answer)
}

/// `found` is the first position in `items` of which `==` says that it equals `value`, and
/// `None` where it says so of none.
pub open spec fn is_first_match<T: PartialEq>(items: Seq<T>, value: T, found: Option<int>) -> bool {
    match found {
        Some(i) => {
            &&& 0 <= i < items.len()
            &&& compares(items[i], value, true)
            &&& forall|j: int| 0 <= j < i ==> compares(#[trigger] items[j], value, false)
        },
        None => forall|j: int| 0 <= j < items.len() ==> compares(#[trigger] items[j], value, false),
    }
}

/// `==` on this type tells whether two values are the same.
pub open spec fn has_plain_equality<T: PartialEq>() -> bool {
    &&& T::obeys_eq_spec()
    &&& forall|a: T, b: T| #[trigger] a.eq_spec(&b) <==> a == b
}

/// Where `==` tells whether two values are the same, the first match is the first
/// occurrence.
pub proof fn law_first_match_is_first_occurrence<T: PartialEq>(
    items: Seq<T>,
    value: T,
    found: Option<int>,
)
    requires
        has_plain_equality::<T>(),
        is_first_match(items, value, found),
    ensures
        found is Some <==> items.contains(value),
        found matches Some(i) ==> 0 <= i < items.len() && items[i] == value,
        found matches Some(i) ==> forall|j: int| 0 <= j < i ==> items[j] != value,
{
    if let Some(i) = found {
        assert(items[i].eq_spec(&value));
        assert forall|j: int| 0 <= j < i implies items[j] != value by {
            assert(compares(items[j], value, false));
            assert(!items[j].eq_spec(&value));
        }
    } else {
        assert forall|j: int| 0 <= j < items.len() implies items[j] != value by {
            assert(compares(items[j], value, false));
            assert(!items[j].eq_spec(&value));
        }
    }
}

#[derive(Clone, Copy, Debug)]
pub struct ArrayQueue<T: Copy, const N: usize> {
    items: [Option<T>; N],
    head: usize,
    len: usize,
}

impl<T: Copy, const N: usize> View for ArrayQueue<T, N> {
    type V = Seq<T>;

    /// The queued values, the next to leave first.
    closed spec fn view(&self) -> Seq<T> {
        Seq::new(
            self.len as nat,
            |i: int| self.items@[ring(self.head as int, i, N as int)]->Some_0,
        )
    }
}

impl<T: Copy, const N: usize> ArrayQueue<T, N> {
    /// The queued values fill the ring from `head` on.
    pub closed spec fn wf(&self) -> bool {
        &&& self.len <= N
        &&& self.head < N || N == 0
        &&& forall|i: int|
            0 <= i < self.len ==> #[trigger] self.items@[ring(
                self.head as int,
                i,
                N as int,
            )] is Some
    }

    /// A queue never holds more than `N` values.
    pub broadcast proof fn lemma_capacity(&self)
        requires
            #[trigger] self.wf(),
        ensures
            self@.len() <= N,
    {
    }

    pub fn new() -> (queue: Self)
        ensures
            queue.wf(),
            queue@ == Seq::<T>::empty(),
    {
        let queue = ArrayQueue { items: [None;N], head: 0, len: 0 };
        assert(queue@ =~= Seq::<T>::empty());
        queue
    }

    pub fn is_empty(&self) -> (empty: bool)
        ensures
            empty == (self@.len() == 0),
    {
        self.len == 0
    }

    /// The value that `pop_front` would return, without removing it.
    pub fn front(&self) -> (value: Option<T>)
        requires
            self.wf(),
        ensures
            value == if self@.len() == 0 {
                None
            } else {
                Some(self@[0])
            },
    {
        if self.len == 0 {
            None
        } else {
            assert(self.items@[ring(self.head as int, 0, N as int)] is Some);
            self.items[self.head]
        }
    }

    /// Appends `value`; refuses, and changes nothing, where the queue is full.
    pub fn push_back(&mut self, value: T) -> (pushed: bool)
        requires
            old(self).wf(),
        ensures
            final(self).wf(),
            pushed == (old(self)@.len() < N),
            final(self)@ == if pushed {
                old(self)@.push(value)
            } else {
                old(self)@
            },
    {
        if self.len >= N {
            return false;
        }
        let room: usize = N - self.head;
        let index: usize = if self.len < room {
            self.head + self.len
        } else {
            self.len - room
        };
        assert(index == ring(self.head as int, self.len as int, N as int));
        self.items[index] = Some(value);
        self.len = self.len + 1;
        proof {
            assert forall|i: int| 0 <= i < self.len - 1 implies #[trigger] self.items@[ring(
                self.head as int,
                i,
                N as int,
            )] == old(self).items@[ring(self.head as int, i, N as int)] by {}
            assert(self@ =~= old(self)@.push(value));
        }
        true
    }

    /// Removes and returns the value that was pushed first.
    pub fn pop_front(&mut self) -> (value: Option<T>)
        requires
            old(self).wf(),
        ensures
            final(self).wf(),
            match value {
                Some(v) => {
                    &&& old(self)@.len() > 0
                    &&& v == old(self)@[0]
                    &&& final(self)@ == old(self)@.skip(1)
                },
                None => old(self)@.len() == 0 && final(self)@ == old(self)@,
            },
    {
        if self.len == 0 {
            return None;
        }
        assert(self.items@[ring(self.head as int, 0, N as int)] is Some);
        let value = self.items[self.head];
        self.items[self.head] = None;
        self.head = if self.head + 1 == N {
            0
        } else {
            self.head + 1
        };
        self.len = self.len - 1;
        proof {
            assert forall|i: int| 0 <= i < self.len implies #[trigger] self.items@[ring(
                self.head as int,
                i,
                N as int,
            )] == old(self).items@[ring(old(self).head as int, i + 1, N as int)] by {
                assert(ring(self.head as int, i, N as int) == ring(
                    old(self).head as int,
                    i + 1,
                    N as int,
                ));
            }
            assert(self@ =~= old(self)@.skip(1));
        }
        value
    }
}

impl<T: Copy + PartialEq, const N: usize> ArrayQueue<T, N> {
    /// Removes the first occurrence of `value`, keeping the order of everything else,
    /// and tells whether there was one. `head` stays where it is: the values that
    /// remain are rewritten from there on, and the position written never overtakes
    /// the position read.
    pub fn remove(&mut self, value: T) -> (found: bool)
        requires
            old(self).wf(),
        ensures
            final(self).wf(),
            exists|at: Option<int>| #[trigger]
                is_first_match(old(self)@, value, at) && found == (at is Some) && final(self)@
                    == without(old(self)@, at),
            has_plain_equality::<T>() ==> found == old(self)@.contains(value),
            has_plain_equality::<T>() ==> final(self)@ == without(
                old(self)@,
                old(self)@.index_of_first(value),
            ),
            has_plain_equality::<T>() ==> {
                ||| !found && !old(self)@.contains(value) && final(self)@ == old(self)@
                ||| found && exists|at: int|
                    {
                        &&& 0 <= at < old(self)@.len()
                        &&& #[trigger] old(self)@[at] == value
                        &&& !old(self)@.take(at).contains(value)
                        &&& final(self)@ == old(self)@.take(at) + old(self)@.skip(at + 1)
                    }
            },
    {
        let mut found: bool = false;
        let mut write: usize = self.head;
        let mut kept: usize = 0;
        let mut i: usize = 0;
        let mut read: usize = self.head;
        let ghost all = self@;
        let ghost mut at: Option<int> = None;
        proof {
            assert forall|j: int| 0 <= j < self.len implies #[trigger] self.items@[ring(
                self.head as int,
                j,
                N as int,
            )] == Some(all[j]) by {}
        }
        while i < self.len
            invariant
                self.head == old(self).head,
                self.len == old(self).len,
                self.len <= N,
                self.head < N || N == 0,
                all == old(self)@,
                all.len() == self.len,
                i <= self.len,
                kept == i - (if found { 1int } else { 0 }),
                i < self.len ==> read == ring(self.head as int, i as int, N as int),
                i < self.len ==> write == ring(self.head as int, kept as int, N as int),
                found == (at is Some),
                found ==> 0 <= at->Some_0 < i,
                is_first_match(all.take(i as int), value, at),
                forall|j: int|
                    0 <= j < kept ==> #[trigger] self.items@[ring(
                        self.head as int,
                        j,
                        N as int,
                    )] == Some(without(all.take(i as int), at)[j]),
                forall|j: int|
                    i <= j < self.len ==> #[trigger] self.items@[ring(
                        self.head as int,
                        j,
                        N as int,
                    )] == Some(all[j]),
            decreases self.len - i,
        {
            let ghost before = self.items@;
            assert(before[ring(self.head as int, i as int, N as int)] == Some(all[i as int]));
            let item = self.items[read];
            self.items[read] = None;
            let matched = !found && match item {
                Some(v) => v == value,
                None => false,
            };
            proof {
                assert(all.take(i + 1).take(i as int) =~= all.take(i as int));
                assert(all.take(i + 1)[i as int] == all[i as int]);
                assert(forall|j: int| 0 <= j < i ==> all.take(i + 1)[j] == all.take(i as int)[j]);
            }
            if matched {
                found = true;
                proof {
                    at = Some(i as int);
                    assert(all.take(i + 1).remove(i as int) =~= all.take(i as int));
                }
            } else {
                self.items[write] = item;
                write = if write + 1 == N {
                    0
                } else {
                    write + 1
                };
                proof {
                    let now = without(all.take(i + 1), at);
                    let was = without(all.take(i as int), at);
                    assert(now =~= was.push(all[i as int]));
                    assert forall|j: int| 0 <= j < kept + 1 implies #[trigger] self.items@[ring(
                        self.head as int,
                        j,
                        N as int,
                    )] == Some(now[j]) by {
                        if j < kept {
                            assert(before[ring(self.head as int, j, N as int)] == Some(was[j]));
                        }
                    }
                }
                kept = kept + 1;
            }
            proof {
                assert forall|j: int| i + 1 <= j < self.len implies #[trigger] self.items@[ring(
                    self.head as int,
                    j,
                    N as int,
                )] == Some(all[j]) by {
                    assert(before[ring(self.head as int, j, N as int)] == Some(all[j]));
                }
            }
            read = if read + 1 == N {
                0
            } else {
                read + 1
            };
            i = i + 1;
        }
        self.len = kept;
        proof {
            assert(all.take(i as int) =~= all);
            assert(self@ =~= without(all, at));
            assert(is_first_match(all, value, at));
            if has_plain_equality::<T>() {
                law_first_match_is_first_occurrence(all, value, at);
                all.index_of_first_ensures(value);
                assert(all.index_of_first(value) == at);
                if let Some(i) = at {
                    assert(all[i] == value);
                    assert(!all.take(i).contains(value));
                    assert(self@ =~= all.take(i) + all.skip(i + 1));
                }
            }
        }
        found
    }
}

impl<T: Copy, const N: usize> Default for ArrayQueue<T, N> {
    fn default() -> (queue: Self)
        ensures
            queue.wf(),
            queue@ == Seq::<T>::empty(),
    {
        ArrayQueue::new()
    }
}

} // verus!
