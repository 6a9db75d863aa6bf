use vstd::prelude::*;
use crate::arith::{lemma_mod_once, wrap_add};

verus! {

/// A fixed-size block of bytes that can be used as a queue, a stack or an arena.
#[derive(Clone, Copy)]
pub struct Buffer<const N: usize>(pub [u8; N]);

impl<const N: usize> Buffer<N> {
    pub fn new(init: [u8; N]) -> (b: Self)
        ensures
            b.0 == init,
    {
        Self(init)
    }

    pub fn zero() -> (b: Self)
        ensures
            forall|i: int| 0 <= i < N ==> b.0@[i] == 0u8,
    {
        Self([0u8; N])
    }

    /// A first-in first-out queue over the buffer's bytes, empty at first.
    pub fn fifo(&mut self) -> (r: Ring<'_, N>)
        ensures
            r@ == Seq::<u8>::empty(),
            r.front() == 0,
            r.count() == 0,
            r.bytes() == old(self).0@,
            r.bytes().len() == N,
    {
        Ring { data: &mut self.0, head: 0, tail: 0, len: 0 }
    }

    /// A last-in first-out stack over the buffer's bytes, empty at first.
    pub fn lifo(&mut self) -> (r: Stack<'_, N>)
        ensures
            r@ == Seq::<u8>::empty(),
            r.count() == 0,
            r.bytes() == old(self).0@,
            r.bytes().len() == N,
    {
        Stack { data: &mut self.0, top: 0 }
    }

    /// A bump allocator over the buffer's bytes, with nothing handed out yet.
    pub fn arena(&mut self) -> (r: Arena<'_, N>)
        ensures
            r.used() == 0,
            r.bytes() == old(self).0@,
            r.bytes().len() == N,
    {
        Arena { data: &mut self.0, offset: 0 }
    }
}

/// Stores two positions at once, so that a queue's invariant is checked only on the
/// pair of new values.
fn store_both(a: &mut usize, b: &mut usize, x: usize, y: usize)
    ensures
        *final(a) == x,
        *final(b) == y,
    no_unwind
{
    *a = x;
    *b = y;
}

/// A bounded queue of bytes kept in a borrowed buffer of `N` bytes.
pub struct Ring<'a, const N: usize> {
    data: &'a mut [u8; N],
    head: usize,
    tail: usize,
    len: usize,
}

impl<'a, const N: usize> Ring<'a, N> {
    /// The queue's invariant: `head` and `tail` are slots, `len` items at most `N`,
    /// and `tail` lies `len` slots after `head` around the circle.
    #[verifier::type_invariant]
    spec fn inv(self) -> bool {
        &&& self.len <= N
        &&& N > 0 ==> self.head < N && self.tail < N
        &&& N > 0 ==> self.tail == wrap_add(self.head as int, self.len as int, N as int)
    }

    /// The bytes of the underlying buffer.
    pub closed spec fn bytes(&self) -> Seq<u8> {
        self.data@
    }

    /// The slot of the oldest byte held.
    pub closed spec fn front(&self) -> int {
        self.head as int
    }

    /// How many bytes are held.
    pub closed spec fn count(&self) -> nat {
        self.len as nat
    }

    /// The bytes held, oldest first: `count()` bytes going round the buffer from
    /// `front()`.
    pub open spec fn view(&self) -> Seq<u8> {
        Seq::new(self.count(), |i: int| self.bytes()[wrap_add(self.front(), i, N as int)])
    }

    pub fn push(&mut self, val: u8) -> (r: Result<(), u8>)
        ensures
            old(self).bytes().len() == N,
            old(self).count() <= N,
            final(self).bytes().len() == N,
            final(self).count() <= N,
            old(self)@.len() < N ==> r == Ok::<(), u8>(()) && final(self)@ == old(self)@.push(val)
                && final(self).front() == old(self).front()
                && final(self).bytes() == old(self).bytes().update(
                    wrap_add(old(self).front(), old(self)@.len() as int, N as int),
                    val,
                ),
            old(self)@.len() >= N ==> r == Err::<(), u8>(val) && final(self)@ == old(self)@
                && final(self).front() == old(self).front()
                && final(self).bytes() == old(self).bytes(),
    {
        proof { use_type_invariant(&*self); }
        if self.len == N {
            return Err(val);
        }
        self.data[self.tail] = val;
        proof { lemma_mod_once(self.tail + 1, N as int); }
        let tail = (self.tail + 1) % N;
        let len = self.len + 1;
        store_both(&mut self.tail, &mut self.len, tail, len);
        assert(self@ =~= old(self)@.push(val));
        Ok(())
    }

    pub fn pop(&mut self) -> (r: Option<u8>)
        ensures
            old(self).bytes().len() == N,
            old(self).count() <= N,
            final(self).bytes().len() == N,
            final(self).count() <= N,
            final(self).bytes() == old(self).bytes(),
            old(self)@.len() == 0 ==> r is None && final(self)@ == old(self)@
                && final(self).front() == old(self).front(),
            old(self)@.len() > 0 ==> r == Some(old(self)@[0]) && final(self)@ == old(self)@.drop_first()
                && final(self).front() == wrap_add(old(self).front(), 1, N as int),
    {
        proof { use_type_invariant(&*self); }
        if self.len == 0 {
            return None;
        }
        let val = self.data[self.head];
        proof { lemma_mod_once(self.head + 1, N as int); }
        let head = (self.head + 1) % N;
        let len = self.len - 1;
        store_both(&mut self.head, &mut self.len, head, len);
        assert(self@ =~= old(self)@.drop_first());
        Some(val)
    }

    pub fn len(&self) -> (r: usize)
        ensures
            self.count() <= N,
            self.bytes().len() == N,
            r == self@.len(),
    {
        proof { use_type_invariant(self); }
        self.len
    }

    pub fn is_empty(&self) -> (r: bool)
        ensures
            self.count() <= N,
            self.bytes().len() == N,
            r == (self@.len() == 0),
    {
        proof { use_type_invariant(self); }
        self.len == 0
    }

    pub fn is_full(&self) -> (r: bool)
        ensures
            self.count() <= N,
            self.bytes().len() == N,
            r == (self@.len() == N),
    {
        proof { use_type_invariant(self); }
        self.len == N
    }
}

/// A bounded stack of bytes kept in a borrowed buffer of `N` bytes.
pub struct Stack<'a, const N: usize> {
    data: &'a mut [u8; N],
    top: usize,
}

impl<'a, const N: usize> Stack<'a, N> {
    /// The stack's invariant: the top is within the buffer.
    #[verifier::type_invariant]
    spec fn inv(self) -> bool {
        self.top <= N
    }

    /// The bytes of the underlying buffer.
    pub closed spec fn bytes(&self) -> Seq<u8> {
        self.data@
    }

    /// How many bytes are held.
    pub closed spec fn count(&self) -> nat {
        self.top as nat
    }

    /// The bytes held, bottom first: the first `count()` bytes of the buffer.
    pub open spec fn view(&self) -> Seq<u8> {
        self.bytes().subrange(0, self.count() as int)
    }

    pub fn push(&mut self, val: u8) -> (r: Result<(), u8>)
        ensures
            old(self).bytes().len() == N,
            old(self).count() <= N,
            final(self).bytes().len() == N,
            final(self).count() <= N,
            old(self).count() < N ==> r == Ok::<(), u8>(()) && final(self).count() == old(self).count() + 1
                && final(self).bytes() == old(self).bytes().update(old(self).count() as int, val)
                && final(self)@ == old(self)@.push(val),
            old(self).count() >= N ==> r == Err::<(), u8>(val) && final(self).count() == old(self).count()
                && final(self).bytes() == old(self).bytes() && final(self)@ == old(self)@,
    {
        proof { use_type_invariant(&*self); }
        if self.top == N {
            return Err(val);
        }
        self.data[self.top] = val;
        self.top += 1;
        assert(self@ =~= old(self)@.push(val));
        Ok(())
    }

    pub fn pop(&mut self) -> (r: Option<u8>)
        ensures
            old(self).bytes().len() == N,
            old(self).count() <= N,
            final(self).bytes().len() == N,
            final(self).count() <= N,
            final(self).bytes() == old(self).bytes(),
            old(self).count() == 0 ==> r is None && final(self).count() == 0 && final(self)@ == old(self)@,
            old(self).count() > 0 ==> r == Some(old(self).bytes()[old(self).count() - 1])
                && r == Some(old(self)@.last())
                && final(self).count() == old(self).count() - 1
                && final(self)@ == old(self)@.drop_last(),
    {
        proof { use_type_invariant(&*self); }
        if self.top == 0 {
            return None;
        }
        self.top -= 1;
        assert(self@ =~= old(self)@.drop_last());
        Some(self.data[self.top])
    }

    pub fn len(&self) -> (r: usize)
        ensures
            r == self.count(),
            r == self@.len(),
            r <= N,
            self.bytes().len() == N,
    {
        proof { use_type_invariant(self); }
        self.top
    }

    pub fn is_empty(&self) -> (r: bool)
        ensures
            r == (self.count() == 0),
            r == (self@.len() == 0),
            self.count() <= N,
            self.bytes().len() == N,
    {
        proof { use_type_invariant(self); }
        self.top == 0
    }

    pub fn is_full(&self) -> (r: bool)
        ensures
            r == (self.count() == N),
            r == (self@.len() == N),
            self.count() <= N,
            self.bytes().len() == N,
    {
        proof { use_type_invariant(self); }
        self.top == N
    }
}

/// A bump allocator handing out consecutive pieces of a borrowed buffer of `N` bytes.
pub struct Arena<'a, const N: usize> {
    data: &'a mut [u8; N],
    offset: usize,
}

impl<'a, const N: usize> Arena<'a, N> {
    /// The arena's invariant: no more handed out than the buffer holds.
    #[verifier::type_invariant]
    spec fn inv(self) -> bool {
        self.offset <= N
    }

    /// The bytes of the underlying buffer.
    pub closed spec fn bytes(&self) -> Seq<u8> {
        self.data@
    }

    /// How many bytes have been handed out since the arena was made or last reset.
    pub closed spec fn used(&self) -> nat {
        self.offset as nat
    }

    /// Hands out the next `size` bytes, or nothing when fewer than `size` are left.
    /// The pieces handed out since the last reset are consecutive: each starts where
    /// the one before ended, so no two overlap.
    pub fn allocate(&mut self, size: usize) -> (r: Option<&mut [u8]>)
        requires
            old(self).used() + size <= usize::MAX,
        ensures
            old(self).bytes().len() == N,
            old(self).used() <= N,
            final(self).bytes().len() == N,
            final(self).used() <= N,
            old(self).used() + size > N ==> r is None && final(self).used() == old(self).used()
                && final(self).bytes() == old(self).bytes(),
            old(self).used() + size <= N ==> {
                let start = old(self).used() as int;
                &&& r is Some
                &&& r->Some_0@.len() == size
                &&& r->Some_0@ == old(self).bytes().subrange(start, start + size)
                &&& final(self).used() == old(self).used() + size
                &&& final(self).bytes() == old(self).bytes().subrange(0, start)
                    + (*final(r->Some_0))@ + old(self).bytes().subrange(start + size, N as int)
            },
    {
        proof { use_type_invariant(&*self); }
        if self.offset + size > N {
            return None;
        }
        let start = self.offset;
        self.offset += size;
        let whole: &mut [u8] = self.data;
        let (_, rest) = whole.split_at_mut(start);
        let (chunk, _) = rest.split_at_mut(size);
        Some(chunk)
    }

    /// Takes back every byte handed out.
    pub fn reset(&mut self)
        ensures
            final(self).bytes().len() == N,
            final(self).used() == 0,
            final(self).bytes() == old(self).bytes(),
    {
        self.offset = 0;
    }

    pub fn remaining(&self) -> (r: usize)
        ensures
            self.used() <= N,
            self.bytes().len() == N,
            r == N - self.used(),
    {
        proof { use_type_invariant(self); }
        N - self.offset
    }
}

/// Last in, first out: a pop right after a push hands back the pushed byte and leaves
/// the stack as it was.
pub proof fn lemma_stack_push_then_pop(items: Seq<u8>, val: u8)
    ensures
        items.push(val).last() == val,
        items.push(val).drop_last() == items,
{
    assert(items.push(val).drop_last() =~= items);
}

} // verus!
