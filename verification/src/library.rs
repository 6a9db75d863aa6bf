use vstd::prelude::*;
use crate::arith::{wrap_add, is_power_of_two, lemma_pow2_at_most_half, lemma_mask_is_mod, lemma_mod_once, lemma_mod_distinct};

verus! {

/// A queue of entry ids waiting to be taken from a book, kept in `CAP` bytes with one
/// slot always left free, `CAP` a power of two. Its pending bytes can also be flushed
/// out as a run of the buffer.
pub struct Library<const CAP: usize> {
    pub buf: [u8; CAP],
    pub head: usize,
    pub tail: usize,
}

impl<const CAP: usize> Library<CAP> {
    /// The queue's invariant: `CAP` a power of two and both ends inside the buffer.
    pub open spec fn wf(&self) -> bool {
        &&& is_power_of_two(CAP as int)
        &&& self.head < CAP
        &&& self.tail < CAP
    }

    /// Number of ids waiting.
    pub open spec fn pending(&self) -> int {
        if self.head <= self.tail { self.tail - self.head } else { self.tail + CAP - self.head }
    }

    /// The ids waiting, oldest first.
    pub open spec fn view(&self) -> Seq<u8> {
        Seq::new(self.pending() as nat, |i: int| self.buf@[wrap_add(self.head as int, i, CAP as int)])
    }

    /// An empty queue over the given bytes.
    pub fn new(buf: [u8; CAP]) -> (r: Self)
        requires
            is_power_of_two(CAP as int),
        ensures
            r.wf(),
            r@ == Seq::<u8>::empty(),
            r.buf == buf,
    {
        proof { crate::arith::lemma_pow2_divides_usize_range(CAP as int); }
        Library { buf, head: 0, tail: 0 }
    }

    pub fn is_empty(&self) -> (r: bool)
        ensures
            r == (self.head == self.tail),
            self.wf() ==> r == (self@.len() == 0),
    {
        self.head == self.tail
    }

    pub fn is_full(&self) -> (r: bool)
        requires
            is_power_of_two(CAP as int),
            self.tail < usize::MAX,
        ensures
            r == ((self.tail + 1) % (CAP as int) == self.head),
            self.wf() ==> r == (self@.len() == CAP - 1),
    {
        proof {
            lemma_mask_is_mod((self.tail + 1) as usize, CAP);
            if self.wf() {
                lemma_mod_once(self.tail + 1, CAP as int);
            }
        }
        ((self.tail + 1) & (CAP - 1)) == self.head
    }

    /// Queues `id` and returns `true`, or returns `false` when the queue is full.
    /// The byte at `tail` is written either way.
    pub fn push(&mut self, id: u8) -> (r: bool)
        requires
            old(self).wf(),
        ensures
            final(self).wf(),
            r == (old(self)@.len() < CAP - 1),
            r ==> final(self)@ == old(self)@.push(id),
            !r ==> final(self)@ == old(self)@,
            final(self).buf@ == old(self).buf@.update(old(self).tail as int, id),
            final(self).head == old(self).head,
            final(self).tail == (if r { (old(self).tail + 1) % (CAP as int) } else { old(self).tail as int }),
    {
        let full = self.is_full();
        self.buf[self.tail] = id;
        let step: usize = if full { 0 } else { 1 };
        proof {
            lemma_mask_is_mod((self.tail + step) as usize, CAP);
            lemma_mod_once(self.tail + step, CAP as int);
        }
        self.tail = (self.tail + step) & (CAP - 1);
        proof {
            assert forall|i: int| 0 <= i < old(self).pending() implies
                #[trigger] wrap_add(self.head as int, i, CAP as int) != old(self).tail
            by {
                lemma_mod_once(self.head + i, CAP as int);
                lemma_mod_once(self.head + old(self).pending(), CAP as int);
                lemma_mod_distinct(self.head + i, self.head + old(self).pending(), CAP as int);
            }
            if full {
                assert(self@ =~= old(self)@);
            } else {
                assert(self@ =~= old(self)@.push(id));
            }
        }
        !full
    }

    /// Takes the oldest id, or nothing when the queue is empty.
    pub fn pop(&mut self) -> (r: Option<u8>)
        requires
            old(self).wf(),
        ensures
            final(self).wf(),
            old(self)@.len() == 0 ==> r is None && *final(self) == *old(self),
            old(self)@.len() > 0 ==> r == Some(old(self)@[0]) && final(self)@ == old(self)@.drop_first(),
            final(self).buf == old(self).buf,
            final(self).tail == old(self).tail,
            r is Some ==> final(self).head == (old(self).head + 1) % (CAP as int),
    {
        let empty = self.is_empty();
        let id = self.buf[self.head];
        let step: usize = if empty { 0 } else { 1 };
        proof {
            lemma_mask_is_mod((self.head + step) as usize, CAP);
            lemma_mod_once(self.head + step, CAP as int);
        }
        self.head = (self.head + step) & (CAP - 1);
        proof {
            if !empty {
                assert forall|i: int| 0 <= i < self.pending() implies
                    #[trigger] wrap_add(self.head as int, i, CAP as int) == wrap_add(old(self).head + i, 1, CAP as int)
                by {
                    lemma_mod_once(old(self).head + 1, CAP as int);
                }
                assert(self@ =~= old(self)@.drop_first());
            }
        }
        if empty { None } else { Some(id) }
    }

    /// Length of the run of pending bytes that starts at `head` and does not wrap:
    /// up to `tail`, or up to the end of the buffer when the queue wraps.
    pub fn flush_len(&self) -> (r: usize)
        requires
            self.wf(),
        ensures
            self.head <= self.tail ==> r == self.tail - self.head,
            self.tail < self.head ==> r == CAP - self.head,
            r <= self@.len(),
            self@.len() > 0 ==> r > 0,
    {
        if self.tail < self.head {
            CAP - self.head
        } else {
            self.tail - self.head
        }
    }

    /// Moves `head` past the `written` bytes a flush reported, none when it reported
    /// a failure (a negative count).
    pub fn consume(&mut self, written: isize)
        requires
            old(self).wf(),
        ensures
            final(self).wf(),
            final(self).head == (old(self).head + (if written > 0 { written as int } else { 0 }))
                % (CAP as int),
            final(self).tail == old(self).tail,
            final(self).buf == old(self).buf,
            0 <= written <= old(self)@.len() ==> final(self)@ == old(self)@.subrange(
                written as int,
                old(self)@.len() as int,
            ),
    {
        let actual: usize = if written > 0 { written as usize } else { 0 };
        proof {
            lemma_pow2_at_most_half(CAP as int);
            lemma_mask_is_mod((self.head + actual) as usize, CAP);
        }
        self.head = (self.head + actual) & (CAP - 1);
        proof {
            if 0 <= written <= old(self)@.len() {
                lemma_mod_once(old(self).head + written, CAP as int);
                assert(self.pending() == old(self).pending() - written);
                assert forall|i: int| 0 <= i < self.pending() implies
                    #[trigger] wrap_add(self.head as int, i, CAP as int) == wrap_add(old(self).head + written, i, CAP as int)
                by {
                    lemma_mod_once(old(self).head + written, CAP as int);
                }
                assert(self@ =~= old(self)@.subrange(written as int, old(self)@.len() as int));
            }
        }
    }
}

/// What a training step does after trying to queue its opcode.
#[derive(Clone, Copy, PartialEq, Eq, Debug)]
pub enum TrainStep {
    /// The opcode was queued; carries the id taken from the front of the queue.
    Queued(u8),
    /// The queue was full: flush it, then try again.
    Flush,
    /// The queue was still full after a flush: give up.
    Rejected,
}

/// One decision of a training step: queue `opcode` and take the oldest id, or, when
/// the queue is full, ask for a flush (`flushed` false) or give up (`flushed` true).
/// A full queue still has its free slot written, as `push` does.
pub fn train_queue<const CAP: usize>(lib: &mut Library<CAP>, opcode: u8, flushed: bool) -> (r: TrainStep)
    requires
        old(lib).wf(),
    ensures
        final(lib).wf(),
        old(lib)@.len() < CAP - 1 ==> r == TrainStep::Queued(old(lib)@.push(opcode)[0])
            && final(lib)@ == old(lib)@.push(opcode).drop_first(),
        old(lib)@.len() >= CAP - 1 ==> r == (if flushed { TrainStep::Rejected } else { TrainStep::Flush })
            && final(lib)@ == old(lib)@,
        final(lib).buf@ == old(lib).buf@.update(old(lib).tail as int, opcode),
{
    if lib.push(opcode) {
        match lib.pop() {
            Some(id) => TrainStep::Queued(id),
            None => {
                assert(false);
                TrainStep::Rejected
            },
        }
    } else if flushed {
        TrainStep::Rejected
    } else {
        TrainStep::Flush
    }
}

/// A library queue holds at most `CAP - 1` ids: one slot always stays free, so that a
/// full queue and an empty one differ.
pub proof fn lemma_library_bounded<const CAP: usize>(lib: Library<CAP>)
    requires
        lib.wf(),
    ensures
        lib@.len() <= CAP - 1,
        lib@.len() == 0 <==> lib.head == lib.tail,
{
}

} // verus!
