use mini_tokio::frame::{encode_frame, write_decimal, Frame};

#[test]
fn simple_and_error_frames() {
    assert_eq!(encode_frame(&Frame::Simple(b"OK".to_vec())), b"+OK\r\n".to_vec());
    assert_eq!(encode_frame(&Frame::Error(b"ERR x".to_vec())), b"-ERR x\r\n".to_vec());
    assert_eq!(encode_frame(&Frame::Simple(Vec::new())), b"+\r\n".to_vec());
}

#[test]
fn integer_frames() {
    assert_eq!(encode_frame(&Frame::Integer(0)), b":0\r\n".to_vec());
    assert_eq!(encode_frame(&Frame::Integer(1042)), b":1042\r\n".to_vec());
    assert_eq!(
        encode_frame(&Frame::Integer(u64::MAX)),
        b":18446744073709551615\r\n".to_vec()
    );
}

#[test]
fn null_and_bulk_frames() {
    assert_eq!(encode_frame(&Frame::Null), b"$-1\r\n".to_vec());
    assert_eq!(encode_frame(&Frame::Bulk(b"bar".to_vec())), b"$3\r\nbar\r\n".to_vec());
    assert_eq!(encode_frame(&Frame::Bulk(Vec::new())), b"$0\r\n\r\n".to_vec());
    let big = vec![7u8; 12];
    let mut want = b"$12\r\n".to_vec();
    want.extend_from_slice(&big);
    want.extend_from_slice(b"\r\n");
    assert_eq!(encode_frame(&Frame::Bulk(big)), want);
}

#[test]
fn decimal_appends() {
    let mut out = b"x".to_vec();
    write_decimal(&mut out, 907);
    assert_eq!(out, b"x907".to_vec());
}
