use bytes::Bytes;
use s3_kit::vec_byte_stream::VecByteStream;

fn chunks() -> Vec<Bytes> {
    vec![Bytes::from_static(b"ab"), Bytes::new(), Bytes::from_static(b"cde")]
}

#[test]
fn new_counts_all_bytes() {
    let s = VecByteStream::new(chunks());
    assert_eq!(s.exact_remaining_length(), 5);
    assert_eq!(s.size_hint(), (3, Some(3)));
}

#[test]
fn chunks_come_out_in_order_and_the_count_follows() {
    let mut s = VecByteStream::new(chunks());
    assert_eq!(s.next_chunk(), Some(Bytes::from_static(b"ab")));
    assert_eq!(s.exact_remaining_length(), 3);
    assert_eq!(s.size_hint(), (2, Some(2)));
    assert_eq!(s.next_chunk(), Some(Bytes::new()));
    assert_eq!(s.exact_remaining_length(), 3);
    assert_eq!(s.next_chunk(), Some(Bytes::from_static(b"cde")));
    assert_eq!(s.exact_remaining_length(), 0);
    assert_eq!(s.size_hint(), (0, Some(0)));
    assert_eq!(s.next_chunk(), None);
    assert_eq!(s.next_chunk(), None);
    assert_eq!(s.exact_remaining_length(), 0);
}

#[test]
fn empty_stream_ends_at_once() {
    let mut s = VecByteStream::new(Vec::new());
    assert_eq!(s.exact_remaining_length(), 0);
    assert_eq!(s.size_hint(), (0, Some(0)));
    assert_eq!(s.next_chunk(), None);
}

#[test]
fn try_new_accepts_lengths_that_fit() {
    let s = VecByteStream::try_new(chunks()).unwrap();
    assert_eq!(s.exact_remaining_length(), 5);
    assert_eq!(s.size_hint(), (3, Some(3)));
}
