use kyaaa::{KyaaaAssign, Str};

#[test]
fn str_from_str_pads_with_zeros() {
    let s = Str::<8>::from_str("abc");
    assert_eq!(s.0, [b'a', b'b', b'c', 0, 0, 0, 0, 0]);
    assert_eq!(s.len(), 3);
    assert!(!s.is_empty());
    assert_eq!(s.as_str(), "abc");
}

#[test]
fn str_from_bytes_cuts_to_capacity() {
    let s = Str::<4>::from_bytes(b"abcdef");
    assert_eq!(s.0, *b"abcd");
    assert_eq!(s.len(), 4);
    assert_eq!(s.as_str(), "abcd");
}

#[test]
fn str_len_stops_at_first_nul() {
    let s = Str::<6>([b'h', b'i', 0, b'x', 0, 0]);
    assert_eq!(s.len(), 2);
    assert_eq!(s.as_str(), "hi");
}

#[test]
fn str_empty_and_default_are_all_zero() {
    let e = Str::<5>::empty();
    assert_eq!(e.0, [0; 5]);
    assert!(e.is_empty());
    assert_eq!(e.len(), 0);
    assert_eq!(Str::<5>::default(), e);
    assert_eq!(e.as_str(), "");
}

#[test]
fn str_push_str_appends_what_fits() {
    let mut s = Str::<6>::from_str("ab");
    s.push_str("cd").push_str("xyz");
    assert_eq!(s.0, *b"abcdxy");
    assert_eq!(s.len(), 6);
}

#[test]
fn str_push_str_leaves_bytes_after_the_copy() {
    let mut s = Str::<6>([b'a', 0, 7, 8, 9, 0]);
    s.push_str("Z");
    assert_eq!(s.0, [b'a', b'Z', 7, 8, 9, 0]);
}

#[test]
fn str_assign_from_str_slice_and_array() {
    let mut s = Str::<4>::from_str("wxyz");
    "ab".assign_to(&mut s);
    assert_eq!(s.0, [b'a', b'b', 0, 0]);
    let raw: &[u8] = b"123456";
    raw.assign_to(&mut s);
    assert_eq!(s.0, *b"1234");
    b"q".assign_to(&mut s);
    assert_eq!(s.0, [b'q', 0, 0, 0]);
    let mut n = 5u32;
    9u32.assign_to(&mut n);
    assert_eq!(n, 9);
}

#[test]
fn str_roundtrips_through_its_bytes() {
    let s = Str::<8>::from_str("kyaa");
    let t = Str::<8>::from_bytes(&s.0);
    assert_eq!(s, t);
}
