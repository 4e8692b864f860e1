use mini_tokio::frame::Frame;
use mini_tokio::store::{Request, Store};

#[test]
fn get_of_missing_key_is_null() {
    let mut s = Store::new();
    assert!(s.get(&b"hello".to_vec()).is_none());
    let r = s.apply(Request::Get { key: b"hello".to_vec() });
    assert!(matches!(r, Frame::Null));
}

#[test]
fn put_then_get() {
    let mut s = Store::new();
    let r = s.apply(Request::Put { key: b"foo".to_vec(), value: b"bar".to_vec() });
    match r {
        Frame::Simple(t) => assert_eq!(t, b"OK".to_vec()),
        other => panic!("unexpected {other:?}"),
    }
    match s.apply(Request::Get { key: b"foo".to_vec() }) {
        Frame::Bulk(b) => assert_eq!(b, b"bar".to_vec()),
        other => panic!("unexpected {other:?}"),
    }
    assert!(s.get(&b"fo".to_vec()).is_none());
    assert!(s.get(&b"foox".to_vec()).is_none());
}

#[test]
fn put_replaces_earlier_value() {
    let mut s = Store::new();
    s.set(b"k".to_vec(), b"1".to_vec());
    s.set(b"j".to_vec(), b"2".to_vec());
    s.set(b"k".to_vec(), b"3".to_vec());
    assert_eq!(s.get(&b"k".to_vec()), Some(&b"3".to_vec()));
    assert_eq!(s.get(&b"j".to_vec()), Some(&b"2".to_vec()));
    s.set(Vec::new(), Vec::new());
    assert_eq!(s.get(&Vec::new()), Some(&Vec::new()));
}
