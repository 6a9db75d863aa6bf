use kyaaa::{check_err, Proto};

#[test]
fn proto_valid_packet() {
    let data = [0xAA, 3, 10, 20, 30, 7, 0x55];
    let p = Proto::new(&data);
    assert!(p.valid());
    assert_eq!(p.version(), 3);
    assert_eq!(p.payload(), &[10, 20, 30]);
    assert_eq!(p.footer_flag(), 7);
}

#[test]
fn proto_invalid_packets() {
    assert!(!Proto::new(&[0xAA, 1, 2]).valid());
    assert!(!Proto::new(&[]).valid());
    assert!(!Proto::new(&[0xAB, 1, 2, 0x55]).valid());
    assert!(!Proto::new(&[0xAA, 1, 2, 0x56]).valid());
    assert!(Proto::new(&[0xAA, 1, 2, 0x55]).valid());
    assert!(Proto::new(&[0xAA, 1, 2, 0x55]).payload().is_empty());
}

#[test]
fn proto_constants() {
    assert_eq!(Proto::MAGIC_HEAD, 0xAA);
    assert_eq!(Proto::MAGIC_TAIL, 0x55);
    assert_eq!(Proto::MIN_PACKET_SIZE, Proto::HEADER_SIZE + Proto::FOOTER_SIZE);
}

#[test]
fn check_err_decodes_errors_and_results() {
    assert_eq!(check_err(0), Ok(0));
    assert_eq!(check_err(42), Ok(42));
    assert_eq!(check_err(-1), Err(1));
    assert_eq!(check_err(-22), Err(22));
    assert_eq!(check_err(-4095), Err(4095));
    assert_eq!(check_err(-4096), Ok((-4096isize) as usize));
    assert_eq!(check_err(isize::MIN), Ok(isize::MIN as usize));
    assert_eq!(check_err(isize::MAX), Ok(isize::MAX as usize));
}
