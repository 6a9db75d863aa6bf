use kyaaa::thread::{
    reader_enter, seq_read_may_start, seq_read_valid, seq_write_end, seq_write_start,
    ticket_admitted, writer_announced, writer_enter, READ_COUNT_MASK, WRITER_LOCKED,
    WRITER_WAITING,
};

#[test]
fn writer_lock_readers_enter_only_without_writer() {
    assert_eq!(reader_enter(0), Some(1));
    assert_eq!(reader_enter(5), Some(6));
    assert_eq!(reader_enter(WRITER_WAITING), None);
    assert_eq!(reader_enter(WRITER_LOCKED), None);
    assert_eq!(reader_enter(WRITER_WAITING | 3), None);
}

#[test]
fn writer_lock_writer_waits_for_readers() {
    assert!(writer_announced(0));
    assert!(writer_announced(7));
    assert!(!writer_announced(WRITER_WAITING | 2));
    assert_eq!(writer_enter(WRITER_WAITING | 2), None);
    assert_eq!(writer_enter(WRITER_WAITING), Some(WRITER_LOCKED));
    assert_eq!(writer_enter(0), Some(WRITER_LOCKED));
    assert_eq!(READ_COUNT_MASK, 0x00FF_FFFF);
}

#[test]
fn writer_lock_full_cycle_keeps_exclusion() {
    let mut state = 0u32;
    state = reader_enter(state).unwrap();
    state = reader_enter(state).unwrap();
    let previous = state;
    state |= WRITER_WAITING;
    assert!(writer_announced(previous));
    assert_eq!(reader_enter(state), None);
    assert_eq!(writer_enter(state), None);
    state -= 1;
    state -= 1;
    state = writer_enter(state).unwrap();
    assert_eq!(state & READ_COUNT_MASK, 0);
    assert_eq!(reader_enter(state), None);
    state &= !WRITER_LOCKED;
    assert_eq!(state, 0);
    assert_eq!(reader_enter(state), Some(1));
}

#[test]
fn seq_lock_counter_rules() {
    assert!(seq_read_may_start(0));
    assert!(!seq_read_may_start(1));
    assert!(seq_read_valid(4, 4));
    assert!(!seq_read_valid(4, 6));
    assert_eq!(seq_write_start(4), Some(5));
    assert_eq!(seq_write_start(5), None);
    assert_eq!(seq_write_end(4), 6);
    assert_eq!(seq_write_end(usize::MAX - 1), 0);
}

#[test]
fn ticket_lock_admits_the_served_ticket() {
    assert!(ticket_admitted(3, 3));
    assert!(!ticket_admitted(3, 4));
}
