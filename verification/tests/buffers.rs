use kyaaa::Buffer;

#[test]
fn ring_buffer_fifo() {
    let mut raw_buf = Buffer::<512>::zero();
    let mut ring = raw_buf.fifo();
    ring.push(42).unwrap();
    ring.push(100).unwrap();
    assert_eq!(ring.pop(), Some(42));
    assert_eq!(ring.pop(), Some(100));
    assert_eq!(ring.pop(), None);
}

#[test]
fn stack_buffer_lifo() {
    let mut raw_buf = Buffer::<512>::zero();
    let mut stack = raw_buf.lifo();
    stack.push(42).unwrap();
    stack.push(100).unwrap();
    assert_eq!(stack.pop(), Some(100));
    assert_eq!(stack.pop(), Some(42));
    assert_eq!(stack.pop(), None);
}

#[test]
fn arena_allocator() {
    let mut raw_buf = Buffer::<100>::zero();
    let mut arena = raw_buf.arena();
    assert_eq!(arena.remaining(), 100);
    let chunk1 = arena.allocate(40).unwrap();
    assert_eq!(chunk1.len(), 40);
    assert_eq!(arena.remaining(), 60);
    let chunk2 = arena.allocate(50).unwrap();
    assert_eq!(chunk2.len(), 50);
    assert_eq!(arena.remaining(), 10);
    assert!(arena.allocate(20).is_none());
    arena.reset();
    assert_eq!(arena.remaining(), 100);
    assert!(arena.allocate(20).is_some());
}

#[test]
fn byte_ring_wraps_around_and_reports_full() {
    let mut raw_buf = Buffer::<3>::zero();
    let mut ring = raw_buf.fifo();
    assert!(ring.is_empty());
    assert_eq!(ring.push(1), Ok(()));
    assert_eq!(ring.push(2), Ok(()));
    assert_eq!(ring.push(3), Ok(()));
    assert!(ring.is_full());
    assert_eq!(ring.push(4), Err(4));
    assert_eq!(ring.pop(), Some(1));
    assert_eq!(ring.push(5), Ok(()));
    assert_eq!(ring.len(), 3);
    assert_eq!(ring.pop(), Some(2));
    assert_eq!(ring.pop(), Some(3));
    assert_eq!(ring.pop(), Some(5));
    assert_eq!(ring.pop(), None);
}

#[test]
fn byte_ring_leaves_its_bytes_in_the_buffer() {
    let mut raw_buf = Buffer::<4>::zero();
    {
        let mut ring = raw_buf.fifo();
        ring.push(7).unwrap();
        ring.push(9).unwrap();
    }
    assert_eq!(raw_buf.0, [7, 9, 0, 0]);
}

#[test]
fn zero_sized_byte_ring_refuses_everything() {
    let mut raw_buf = Buffer::<0>::zero();
    let mut ring = raw_buf.fifo();
    assert!(ring.is_full());
    assert_eq!(ring.push(1), Err(1));
    assert_eq!(ring.pop(), None);
}

#[test]
fn stack_push_then_pop_restores() {
    let mut raw_buf = Buffer::<2>::new([5, 6]);
    let mut stack = raw_buf.lifo();
    assert!(stack.is_empty());
    assert_eq!(stack.push(1), Ok(()));
    assert_eq!(stack.push(2), Ok(()));
    assert!(stack.is_full());
    assert_eq!(stack.push(3), Err(3));
    assert_eq!(stack.len(), 2);
    assert_eq!(stack.pop(), Some(2));
    assert_eq!(stack.len(), 1);
    assert_eq!(stack.push(8), Ok(()));
    assert_eq!(stack.pop(), Some(8));
    assert_eq!(stack.pop(), Some(1));
    assert_eq!(stack.pop(), None);
}

#[test]
fn arena_pieces_are_consecutive_and_writable() {
    let mut raw_buf = Buffer::<8>::new([1, 2, 3, 4, 5, 6, 7, 8]);
    {
        let mut arena = raw_buf.arena();
        {
            let first = arena.allocate(3).unwrap();
            assert_eq!(first, &[1, 2, 3]);
            first[0] = 10;
        }
        {
            let second = arena.allocate(5).unwrap();
            assert_eq!(second, &[4, 5, 6, 7, 8]);
            second[4] = 80;
        }
        assert_eq!(arena.remaining(), 0);
        assert!(arena.allocate(1).is_none());
        assert_eq!(arena.allocate(0).map(|s| s.len()), Some(0));
    }
    assert_eq!(raw_buf.0, [10, 2, 3, 4, 5, 6, 7, 80]);
}

#[test]
fn stack_touches_only_the_slot_it_pushes() {
    let mut raw_buf = Buffer::<4>::new([1, 2, 3, 4]);
    {
        let mut stack = raw_buf.lifo();
        stack.push(9).unwrap();
        stack.push(8).unwrap();
        assert_eq!(stack.pop(), Some(8));
    }
    assert_eq!(raw_buf.0, [9, 8, 3, 4]);
}
