use vstd::prelude::*;
use crate::arith::{is_power_of_two, wrapping_distance, wrapping_sum, lemma_mask_is_mod, lemma_mod_usize_range, lemma_mod_distinct};

verus! {

/// A value padded to its own cache line, so that the producer's and the consumer's
/// counters do not share one.
pub struct CacheLineAligned<T>(pub T);

/// A bounded first-in first-out queue of `N` slots, `N` a power of two.
///
/// `head` counts the items ever pushed and `tail` the items ever popped, both modulo
/// `usize::MAX + 1`; an item pushed as the `k`-th lives in slot `k & (N - 1)`.
/// Pushing and popping take `&mut self`, so one owner drives both ends; sharing the
/// queue between threads takes a lock around it.
pub struct Ring<T, const N: usize> {
    pub head: CacheLineAligned<usize>,
    pub tail: CacheLineAligned<usize>,
    pub buffer: [Option<T>; N],
}

/// Where a producer that observed the counters `head` and `tail` of a queue of `n`
/// slots puts its next item: slot `head & (n - 1)`, or nowhere when `n` items are
/// already held.
pub fn push_slot(head: usize, tail: usize, n: usize) -> (r: Option<usize>)
    requires
        is_power_of_two(n as int),
    ensures
        r is None <==> wrapping_distance(head, tail) >= n,
        r matches Some(i) ==> i == head % n,
{
    if head.wrapping_sub(tail) >= n {
        return None;
    }
    proof { lemma_mask_is_mod(head, n); }
    Some(head & (n - 1))
}

/// Where a consumer that observed the counters `head` and `tail` of a queue of `n`
/// slots finds the oldest item: slot `tail & (n - 1)`, or nowhere when the queue is
/// empty.
pub fn pop_slot(head: usize, tail: usize, n: usize) -> (r: Option<usize>)
    requires
        is_power_of_two(n as int),
    ensures
        r is None <==> head == tail,
        r matches Some(i) ==> i == tail % n,
{
    if head == tail {
        return None;
    }
    proof { lemma_mask_is_mod(tail, n); }
    Some(tail & (n - 1))
}

/// An empty slot, whatever its index.
fn vacant<T>(_index: usize) -> (r: Option<T>)
    ensures
        r is None,
{
    None
}

/// `core::array::from_fn`, called with `vacant`: the array whose every element is
/// what `vacant` gives, `None`.
#[verifier::external_body]
fn empty_slots<T, const N: usize>() -> (r: [Option<T>; N])
    ensures
        forall|i: int| 0 <= i < N ==> r@[i] is None,
{
    core::array::from_fn(vacant::<T>)
}

impl<T, const N: usize> Ring<T, N> {
    /// Number of items held: the distance from `tail` to `head`.
    pub open spec fn count(&self) -> int {
        wrapping_distance(self.head.0, self.tail.0)
    }

    /// The slot of the item `i` places after the oldest one.
    pub open spec fn slot(tail: usize, i: int) -> int {
        (tail + i) % (N as int)
    }

    /// The queue's invariant: `N` slots, no more items than slots, and an item in each
    /// slot from `tail` up to `head`.
    pub open spec fn wf(&self) -> bool {
        &&& is_power_of_two(N as int)
        &&& self.buffer@.len() == N
        &&& self.count() <= N
        &&& forall|i: int|
            0 <= i < self.count() ==> (#[trigger] self.buffer@[Self::slot(self.tail.0, i)]) is Some
    }

    /// The items held, oldest first.
    pub open spec fn view(&self) -> Seq<T> {
        Seq::new(
            self.count() as nat,
            |i: int| self.buffer@[Self::slot(self.tail.0, i)]->Some_0,
        )
    }

    pub fn new() -> (r: Self)
        requires
            is_power_of_two(N as int),
        ensures
            r.wf(),
            r@ == Seq::<T>::empty(),
            r.head.0 == 0,
            r.tail.0 == 0,
    {
        Ring { head: CacheLineAligned(0), tail: CacheLineAligned(0), buffer: empty_slots() }
    }

    pub fn push(&mut self, item: T) -> (r: Result<(), T>)
        requires
            old(self).wf(),
        ensures
            final(self).wf(),
            old(self)@.len() >= N ==> r == Err::<(), T>(item) && *final(self) == *old(self),
            old(self)@.len() < N ==> r is Ok && final(self)@ == old(self)@.push(item)
                && final(self).head.0 == wrapping_sum(old(self).head.0, 1)
                && final(self).tail.0 == old(self).tail.0,
    {
        let head = self.head.0;
        let tail = self.tail.0;
        let index = match push_slot(head, tail, N) {
            Some(index) => index,
            None => return Err(item),
        };
        proof {
            if head < tail {
                lemma_mod_usize_range(head as int, N as int);
            }
            assert(index == Self::slot(tail, self.count()));
            assert forall|i: int| 0 <= i < self.count() implies Self::slot(tail, i) != index by {
                lemma_mod_distinct(tail + i, tail + self.count(), N as int);
            }
        }
        let ghost old_self = *self;
        self.buffer[index] = Some(item);
        self.head.0 = head.wrapping_add(1);
        proof {
            assert(self.count() == old_self.count() + 1);
            assert(self@ =~= old_self@.push(item));
        }
        Ok(())
    }

    pub fn pop(&mut self) -> (r: Option<T>)
        requires
            old(self).wf(),
        ensures
            final(self).wf(),
            old(self)@.len() == 0 ==> r is None && *final(self) == *old(self),
            old(self)@.len() > 0 ==> r == Some(old(self)@[0]) && final(self)@ == old(self)@.drop_first()
                && final(self).tail.0 == wrapping_sum(old(self).tail.0, 1)
                && final(self).head.0 == old(self).head.0,
    {
        let tail = self.tail.0;
        let head = self.head.0;
        let index = match pop_slot(head, tail, N) {
            Some(index) => index,
            None => return None,
        };
        proof {
            assert(index == Self::slot(tail, 0));
            assert(self.buffer@[Self::slot(tail, 0)] is Some);
        }
        let ghost old_self = *self;
        let mut slot: Option<T> = None;
        core::mem::swap(&mut self.buffer[index], &mut slot);
        self.tail.0 = tail.wrapping_add(1);
        proof {
            assert(self.count() == old_self.count() - 1);
            assert forall|i: int| 0 <= i < self.count() implies
                Self::slot(self.tail.0, i) == Self::slot(tail, i + 1) && Self::slot(tail, i + 1) != index
            by {
                if tail == usize::MAX {
                    lemma_mod_usize_range(tail + i + 1, N as int);
                }
                lemma_mod_distinct(tail as int, tail + i + 1, N as int);
            }
            assert(self@ =~= old_self@.drop_first());
        }
        slot
    }

    pub fn capacity(&self) -> (r: usize)
        ensures
            r == N,
    {
        N
    }

    pub fn len(&self) -> (r: usize)
        ensures
            r == self@.len(),
            r == wrapping_distance(self.head.0, self.tail.0),
    {
        self.head.0.wrapping_sub(self.tail.0)
    }

    pub fn is_empty(&self) -> (r: bool)
        ensures
            r == (self@.len() == 0),
    {
        self.len() == 0
    }

    pub fn is_full(&self) -> (r: bool)
        ensures
            r == (self@.len() >= N),
    {
        self.len() >= N
    }
}

/// First in, first out: pushing onto a queue that holds something changes neither
/// the item that pops next nor what is left behind it, except that the pushed item
/// now comes last.
pub proof fn lemma_push_then_pop<T>(items: Seq<T>, item: T)
    requires
        items.len() > 0,
    ensures
        items.push(item)[0] == items[0],
        items.push(item).drop_first() == items.drop_first().push(item),
{
    assert(items.push(item).drop_first() =~= items.drop_first().push(item));
}

/// On an empty queue a push followed by a pop hands back the pushed item and leaves
/// the queue empty again.
pub proof fn lemma_push_pop_empty<T>(item: T)
    ensures
        Seq::<T>::empty().push(item)[0] == item,
        Seq::<T>::empty().push(item).drop_first() == Seq::<T>::empty(),
{
    assert(Seq::<T>::empty().push(item).drop_first() =~= Seq::<T>::empty());
}

/// A queue never holds more than its capacity.
pub proof fn lemma_ring_bounded<T, const N: usize>(r: Ring<T, N>)
    requires
        r.wf(),
    ensures
        r@.len() <= N,
{
}

} // verus!
