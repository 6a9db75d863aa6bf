use vstd::prelude::*;
use crate::arith::lemma_usize_max_odd;

verus! {

/// Low 24 bits of a writer-preferring lock's state: the number of readers inside.
pub const READ_COUNT_MASK: u32 = 0x00FF_FFFF;
/// Set while a writer waits for the readers to leave.
pub const WRITER_WAITING: u32 = 0x0100_0000;
/// Set while a writer holds the lock.
pub const WRITER_LOCKED: u32 = 0x0200_0000;

/// The number of readers recorded in a writer-preferring lock's state.
pub open spec fn readers(state: u32) -> u32 {
    state & READ_COUNT_MASK
}

/// Whether the writer bit of the state is set.
pub open spec fn write_locked(state: u32) -> bool {
    state & WRITER_LOCKED != 0
}

/// Whether the waiting bit of the state is set.
pub open spec fn writer_waiting(state: u32) -> bool {
    state & WRITER_WAITING != 0
}

/// The state invariant of a writer-preferring lock: a writer inside excludes readers,
/// and the reader count never reaches the waiting bit.
pub open spec fn writer_lock_inv(state: u32) -> bool {
    &&& write_locked(state) ==> readers(state) == 0
    &&& readers(state) < READ_COUNT_MASK
    &&& state < 0x0400_0000
}

/// A reader that observed `current` may enter by replacing it with the returned state,
/// or must spin when a writer holds or waits for the lock.
pub fn reader_enter(current: u32) -> (r: Option<u32>)
    ensures
        (current & (WRITER_LOCKED | WRITER_WAITING)) != 0 <==> r is None,
        r matches Some(next) ==> next == current + 1,
{
    if (current & (WRITER_LOCKED | WRITER_WAITING)) != 0 {
        return None;
    }
    assert(current & (WRITER_LOCKED | WRITER_WAITING) == 0 ==> current < u32::MAX) by (bit_vector);
    Some(current + 1)
}

/// A writer whose announcement saw `previous` may go on waiting for the readers only
/// when no other writer had announced itself.
pub fn writer_announced(previous: u32) -> (r: bool)
    ensures
        r == !writer_waiting(previous),
{
    (previous & WRITER_WAITING) == 0
}

/// A waiting writer that observed `current` may take the lock by replacing it with the
/// returned state (waiting bit cleared, writer bit set), or must wait while readers
/// are inside.
pub fn writer_enter(current: u32) -> (r: Option<u32>)
    ensures
        readers(current) != 0 <==> r is None,
        r matches Some(next) ==> next == ((current & !WRITER_WAITING) | WRITER_LOCKED),
{
    if (current & READ_COUNT_MASK) == 0 {
        Some((current & !WRITER_WAITING) | WRITER_LOCKED)
    } else {
        None
    }
}

/// A reader entering takes a state that satisfies the invariant to one that does,
/// with one more reader and no writer inside.
pub proof fn lemma_reader_enter_keeps_inv(current: u32)
    requires
        writer_lock_inv(current),
        (current & (WRITER_LOCKED | WRITER_WAITING)) == 0,
        readers(current) + 1 < READ_COUNT_MASK,
    ensures
        writer_lock_inv((current + 1) as u32),
        readers((current + 1) as u32) == readers(current) + 1,
        !write_locked((current + 1) as u32),
{
    assert(
        (current & (WRITER_LOCKED | WRITER_WAITING)) == 0 && (current & READ_COUNT_MASK) + 1 < READ_COUNT_MASK
            && current < 0x0400_0000u32
        ==> ((current + 1) as u32 & WRITER_LOCKED) == 0
            && ((current + 1) as u32 & READ_COUNT_MASK) == (current & READ_COUNT_MASK) + 1
            && ((current + 1) as u32) < 0x0400_0000u32
    ) by (bit_vector);
}

/// A reader leaving (one subtracted) keeps the invariant and removes one reader.
pub proof fn lemma_reader_leave_keeps_inv(current: u32)
    requires
        writer_lock_inv(current),
        readers(current) > 0,
    ensures
        writer_lock_inv((current - 1) as u32),
        readers((current - 1) as u32) == readers(current) - 1,
        write_locked((current - 1) as u32) == write_locked(current),
        writer_waiting((current - 1) as u32) == writer_waiting(current),
{
    assert(
        (current & READ_COUNT_MASK) > 0 && current < 0x0400_0000u32
        ==> ((current - 1) as u32 & READ_COUNT_MASK) == (current & READ_COUNT_MASK) - 1
            && (((current - 1) as u32 & WRITER_LOCKED) != 0) == ((current & WRITER_LOCKED) != 0)
            && (((current - 1) as u32 & WRITER_WAITING) != 0) == ((current & WRITER_WAITING) != 0)
            && ((current - 1) as u32) < 0x0400_0000u32
    ) by (bit_vector);
}

/// A writer announcing itself (waiting bit set) keeps the invariant and the readers.
pub proof fn lemma_writer_announce_keeps_inv(current: u32)
    requires
        writer_lock_inv(current),
    ensures
        writer_lock_inv(current | WRITER_WAITING),
        readers(current | WRITER_WAITING) == readers(current),
        writer_waiting(current | WRITER_WAITING),
{
    assert(
        current < 0x0400_0000u32
        ==> ((current | WRITER_WAITING) & READ_COUNT_MASK) == (current & READ_COUNT_MASK)
            && ((current | WRITER_WAITING) & WRITER_LOCKED) == (current & WRITER_LOCKED)
            && ((current | WRITER_WAITING) & WRITER_WAITING) != 0
            && (current | WRITER_WAITING) < 0x0400_0000u32
    ) by (bit_vector);
}

/// A writer entering when no reader is inside keeps the invariant: it holds the lock
/// alone and no longer waits.
pub proof fn lemma_writer_enter_keeps_inv(current: u32)
    requires
        writer_lock_inv(current),
        readers(current) == 0,
    ensures
        writer_lock_inv((current & !WRITER_WAITING) | WRITER_LOCKED),
        write_locked((current & !WRITER_WAITING) | WRITER_LOCKED),
        !writer_waiting((current & !WRITER_WAITING) | WRITER_LOCKED),
        readers((current & !WRITER_WAITING) | WRITER_LOCKED) == 0,
{
    assert(
        current < 0x0400_0000u32 && (current & READ_COUNT_MASK) == 0
        ==> (((current & !WRITER_WAITING) | WRITER_LOCKED) & READ_COUNT_MASK) == 0
            && (((current & !WRITER_WAITING) | WRITER_LOCKED) & WRITER_LOCKED) != 0
            && (((current & !WRITER_WAITING) | WRITER_LOCKED) & WRITER_WAITING) == 0
            && ((current & !WRITER_WAITING) | WRITER_LOCKED) < 0x0400_0000u32
    ) by (bit_vector);
}

/// A writer leaving (writer bit cleared) keeps the invariant and the readers.
pub proof fn lemma_writer_leave_keeps_inv(current: u32)
    requires
        writer_lock_inv(current),
    ensures
        writer_lock_inv(current & !WRITER_LOCKED),
        !write_locked(current & !WRITER_LOCKED),
        readers(current & !WRITER_LOCKED) == readers(current),
        writer_waiting(current & !WRITER_LOCKED) == writer_waiting(current),
{
    assert(
        current < 0x0400_0000u32
        ==> ((current & !WRITER_LOCKED) & READ_COUNT_MASK) == (current & READ_COUNT_MASK)
            && ((current & !WRITER_LOCKED) & WRITER_LOCKED) == 0
            && (((current & !WRITER_LOCKED) & WRITER_WAITING) != 0) == ((current & WRITER_WAITING) != 0)
            && (current & !WRITER_LOCKED) < 0x0400_0000u32
    ) by (bit_vector);
}

/// Whether a sequence-lock counter marks a write in progress (odd).
pub open spec fn seq_writing(seq: usize) -> bool {
    seq % 2 == 1
}

/// A reader that observed `seq` before reading may use what it reads only when no
/// write was in progress.
pub fn seq_read_may_start(seq: usize) -> (r: bool)
    ensures
        r == !seq_writing(seq),
{
    assert((seq & 1usize) == 0usize <==> seq % 2 == 0) by (bit_vector);
    (seq & 1) == 0
}

/// A read that started at `seq1` and ended at `seq2` saw one consistent value only
/// when the counter did not move.
pub fn seq_read_valid(seq1: usize, seq2: usize) -> (r: bool)
    ensures
        r == (seq1 == seq2),
{
    seq1 == seq2
}

/// A writer that observed `seq` may start by replacing it with the returned odd value,
/// or must spin while another write is in progress.
pub fn seq_write_start(seq: usize) -> (r: Option<usize>)
    ensures
        seq_writing(seq) <==> r is None,
        r matches Some(next) ==> next == seq + 1 && seq_writing(next),
{
    assert((seq & 1usize) == 0usize <==> seq % 2 == 0) by (bit_vector);
    if (seq & 1) != 0 {
        return None;
    }
    proof { lemma_usize_max_odd(); }
    Some(seq.wrapping_add(1))
}

/// The counter a writer publishes when done, from the even value it started at: two
/// more, modulo the `usize` range, so still even and different.
pub fn seq_write_end(seq: usize) -> (r: usize)
    requires
        !seq_writing(seq),
    ensures
        r == (if seq + 2 <= usize::MAX { seq + 2 } else { 0 }),
        !seq_writing(r),
        r != seq,
{
    proof { lemma_usize_max_odd(); }
    seq.wrapping_add(2)
}

/// A ticket holder may enter when the lock serves its ticket.
pub fn ticket_admitted(serving: usize, ticket: usize) -> (r: bool)
    ensures
        r == (serving == ticket),
{
    serving == ticket
}

} // verus!
