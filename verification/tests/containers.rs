use kernel::common::buf_vec::BufVec;
use kernel::common::string_buf::StringBuf;
use kernel::common::try_vec::TryVec;

#[test]
fn buf_vec_push_fails_when_full() {
    let mut v: BufVec<u32, 2> = BufVec::new();
    assert_eq!(v.len(), 0);
    assert_eq!(v.push(1), Ok(()));
    assert_eq!(v.push(2), Ok(()));
    assert_eq!(v.push(3), Err(()));
    assert_eq!(v.len(), 2);
    assert_eq!(v.index(0), 1);
    assert_eq!(v.index(1), 2);
}

#[test]
fn buf_vec_extend_keeps_what_fit() {
    let mut v: BufVec<u8, 4> = BufVec::new();
    assert_eq!(v.extend(&[1, 2]), Ok(()));
    assert_eq!(v.extend(&[3, 4, 5, 6]), Err(()));
    assert_eq!(v.len(), 4);
    let mut it = v.iter();
    assert_eq!(it.next(), Some(1));
    assert_eq!(it.next(), Some(2));
    assert_eq!(it.next(), Some(3));
    assert_eq!(it.next(), Some(4));
    assert_eq!(it.next(), None);
    assert_eq!(it.next(), None);
}

#[test]
fn buf_vec_extend_exactly_to_capacity() {
    let mut v: BufVec<u8, 3> = BufVec::new();
    assert_eq!(v.extend(&[7, 8, 9]), Ok(()));
    assert_eq!(v.extend(&[]), Ok(()));
    assert_eq!(v.len(), 3);
}

#[test]
fn try_vec_grows_and_iterates() {
    let mut v: TryVec<u16> = TryVec::new();
    assert_eq!(v.len(), 0);
    assert_eq!(v.try_push(10), Ok(()));
    assert_eq!(v.try_push(20), Ok(()));
    assert_eq!(v.len(), 2);
    assert_eq!(*v.index(1), 20);
    let mut it = v.iter();
    assert_eq!(it.next(), Some(&10));
    assert_eq!(it.next(), Some(&20));
    assert_eq!(it.next(), None);
}

#[test]
fn string_buf_collects_bytes() {
    let mut s = StringBuf::new();
    assert_eq!(s.len(), 0);
    assert_eq!(s.extend("ab"), Ok(()));
    assert_eq!(s.try_push(b'c'), Ok(()));
    assert_eq!(s.write_str("dé"), Ok(()));
    assert_eq!(s.as_bytes(), "abcdé".as_bytes());
    assert_eq!(s.len(), 6);
    let c = s.clone();
    assert_eq!(c.as_bytes(), s.as_bytes());
    assert_eq!(c.into_bytes(), "abcdé".as_bytes().to_vec());
}

#[test]
fn failed_reservations_change_nothing() {
    let mut s = StringBuf::new();
    assert_eq!(s.push_reserved(true, b'a'), Ok(()));
    assert_eq!(s.push_reserved(false, b'b'), Err(()));
    assert_eq!(s.append_reserved(false, b"cd"), Err(()));
    assert_eq!(s.as_bytes(), b"a");
    assert_eq!(s.append_reserved(true, b"cd"), Ok(()));
    assert_eq!(s.as_bytes(), b"acd");
    let mut v: TryVec<u8> = TryVec::new();
    assert_eq!(v.push_reserved(false, 1), Err(()));
    assert_eq!(v.len(), 0);
    assert_eq!(v.push_reserved(true, 1), Ok(()));
    assert_eq!(*v.index(0), 1);
}
