use kyaaa::{train_queue, Library, TrainStep};

#[test]
fn library_queues_ids_in_order() {
    let mut lib = Library::<4>::new([0; 4]);
    assert!(lib.is_empty());
    assert!(lib.push(1));
    assert!(lib.push(2));
    assert!(lib.push(3));
    assert!(lib.is_full());
    assert!(!lib.push(4));
    assert_eq!(lib.pop(), Some(1));
    assert!(lib.push(5));
    assert_eq!(lib.pop(), Some(2));
    assert_eq!(lib.pop(), Some(3));
    assert_eq!(lib.pop(), Some(5));
    assert_eq!(lib.pop(), None);
    assert!(lib.is_empty());
}

#[test]
fn library_push_when_full_writes_the_free_slot_only() {
    let mut lib = Library::<2>::new([0; 2]);
    assert!(lib.push(9));
    assert!(!lib.push(7));
    assert_eq!(lib.buf, [9, 7]);
    assert_eq!(lib.tail, 1);
    assert_eq!(lib.pop(), Some(9));
    assert_eq!(lib.pop(), None);
}

#[test]
fn library_one_slot_holds_nothing() {
    let mut lib = Library::<1>::new([0; 1]);
    assert!(lib.is_full());
    assert!(!lib.push(3));
    assert_eq!(lib.pop(), None);
}

#[test]
fn library_flush_len_and_consume() {
    let mut lib = Library::<8>::new([0; 8]);
    assert_eq!(lib.flush_len(), 0);
    for id in 0..6 {
        assert!(lib.push(id));
    }
    assert_eq!(lib.flush_len(), 6);
    lib.consume(4);
    assert_eq!(lib.head, 4);
    assert_eq!(lib.pop(), Some(4));
    for id in 10..14 {
        assert!(lib.push(id));
    }
    assert_eq!((lib.head, lib.tail), (5, 2));
    assert_eq!(lib.flush_len(), 3);
    lib.consume(-1);
    assert_eq!(lib.head, 5);
    lib.consume(3);
    assert_eq!(lib.head, 0);
    assert_eq!(lib.flush_len(), 2);
    assert_eq!(lib.pop(), Some(12));
    assert_eq!(lib.pop(), Some(13));
    assert_eq!(lib.pop(), None);
}

#[test]
fn train_queue_queues_then_flushes_then_gives_up() {
    let mut lib = Library::<4>::new([0; 4]);
    assert_eq!(train_queue(&mut lib, 7, false), TrainStep::Queued(7));
    assert!(lib.is_empty());
    assert!(lib.push(1));
    assert!(lib.push(2));
    assert_eq!(train_queue(&mut lib, 9, false), TrainStep::Queued(1));
    assert!(lib.push(3));
    assert!(lib.is_full());
    assert_eq!(train_queue(&mut lib, 5, false), TrainStep::Flush);
    assert_eq!(train_queue(&mut lib, 5, true), TrainStep::Rejected);
    assert_eq!(lib.pop(), Some(2));
    assert_eq!(lib.pop(), Some(9));
    assert_eq!(lib.pop(), Some(3));
    assert_eq!(lib.pop(), None);
}
