use rusvm::bytestream::ByteStream;
use rusvm::errors::DecodeError;

#[test]
fn u1_reads_single_bytes_in_order() {
    let mut s = ByteStream::new(vec![0xca, 0xfe]);
    assert_eq!(s.parse_u1(), Ok(0xca));
    assert_eq!(s.parse_u1(), Ok(0xfe));
    assert_eq!(s.pos(), 2);
}

#[test]
fn u2_is_big_endian() {
    let mut s = ByteStream::new(vec![0x12, 0x34]);
    assert_eq!(s.parse_u2(), Ok(0x1234));
}

#[test]
fn u4_is_big_endian() {
    let mut s = ByteStream::new(vec![0xca, 0xfe, 0xba, 0xbe]);
    assert_eq!(s.parse_u4(), Ok(0xcafebabe));
}

#[test]
fn parse_n_returns_exact_prefix_and_advances() {
    let mut s = ByteStream::new(vec![1, 2, 3, 4, 5]);
    assert_eq!(s.parse_n(3), Ok(vec![1, 2, 3]));
    assert_eq!(s.pos(), 3);
    assert_eq!(s.remaining_len(), 2);
}

#[test]
fn u2_out_of_bounds_reports_request_and_remaining() {
    let mut s = ByteStream::new(vec![0x12]);
    assert_eq!(
        s.parse_u2(),
        Err(DecodeError::OutOfBounds { requested: 2, remaining: 1 })
    );
}

#[test]
fn failed_read_leaves_cursor_unchanged() {
    let mut s = ByteStream::new(vec![1, 2, 3]);
    assert_eq!(s.parse_u2(), Ok(0x0102));
    assert_eq!(s.pos(), 2);
    assert!(s.parse_u4().is_err());
    assert_eq!(s.pos(), 2);
    assert_eq!(s.parse_u1(), Ok(3));
}

#[test]
fn parse_n_past_end_fails_whole_read() {
    let mut s = ByteStream::new(vec![1, 2]);
    assert_eq!(
        s.parse_n(5),
        Err(DecodeError::OutOfBounds { requested: 5, remaining: 2 })
    );
    assert_eq!(s.pos(), 0);
    assert!(!s.is_exhausted());
}

#[test]
fn reads_never_revisit_consumed_bytes() {
    let mut s = ByteStream::new(vec![0, 1, 0, 2]);
    assert_eq!(s.parse_u2(), Ok(1));
    assert_eq!(s.parse_u2(), Ok(2));
    assert!(s.is_exhausted());
    assert_eq!(
        s.parse_u1(),
        Err(DecodeError::OutOfBounds { requested: 1, remaining: 0 })
    );
}
