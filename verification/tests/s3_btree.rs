use std::path::PathBuf;

use bytes::Bytes;
use s3_kit::error::{Error, ObjectError};
use s3_kit::s3_btree::{hex, ByteRange, ObjectRead, S3Btree};

fn store() -> S3Btree {
    match S3Btree::new(PathBuf::from("/tmp"), true) {
        Ok(s) => s,
        Err(_) => panic!("a directory root is accepted"),
    }
}

fn read(s: &S3Btree, key: &str, range: Option<ByteRange>) -> Result<ObjectRead, ObjectError> {
    s.get_object(key, range)
}

fn drain(o: &mut ObjectRead) -> Vec<u8> {
    let mut out = Vec::new();
    while let Some(b) = o.body.next_chunk() {
        out.extend_from_slice(&b);
    }
    out
}

#[test]
fn new_accepts_a_directory() {
    let s = store();
    assert_eq!(s.root(), &PathBuf::from("/tmp"));
}

#[test]
fn new_refuses_a_root_that_is_not_a_directory() {
    match S3Btree::new(PathBuf::from("/etc/hostname"), false) {
        Err(Error::NotADirectory(p)) => assert_eq!(p, PathBuf::from("/etc/hostname")),
        Ok(_) => panic!("a root that is not a directory is refused"),
    }
}

#[test]
fn tmp_file_counter_counts_up_from_zero() {
    let mut s = store();
    assert_eq!(s.tmp_file_counter(), 0);
    assert_eq!(s.tmp_file_counter(), 1);
    assert_eq!(s.tmp_file_counter(), 2);
}

#[test]
fn read_after_write_gives_back_the_content() {
    let mut s = store();
    s.put_object("key".to_string(), b"hello world".to_vec());
    let mut o = read(&s, "key", None).unwrap();
    assert_eq!(o.content_length, 11);
    assert_eq!(o.e_tag, "\"5eb63bbbe01eeed093cb22bb8f5acdc3\"");
    assert_eq!(o.body.exact_remaining_length(), 11);
    assert_eq!(drain(&mut o), b"hello world".to_vec());
    assert_eq!(o.body.exact_remaining_length(), 0);
}

#[test]
fn empty_object_has_the_md5_of_nothing() {
    let mut s = store();
    s.put_object("empty".to_string(), Vec::new());
    let o = read(&s, "empty", None).unwrap();
    assert_eq!(o.content_length, 0);
    assert_eq!(o.e_tag, "\"d41d8cd98f00b204e9800998ecf8427e\"");
}

#[test]
fn overwrite_replaces_the_content() {
    let mut s = store();
    s.put_object("k".to_string(), b"first".to_vec());
    s.put_object("k".to_string(), b"second!".to_vec());
    let mut o = read(&s, "k", None).unwrap();
    assert_eq!(o.content_length, 7);
    assert_eq!(drain(&mut o), b"second!".to_vec());
}

#[test]
fn write_leaves_other_keys_alone() {
    let mut s = store();
    s.put_object("a".to_string(), b"aaa".to_vec());
    s.put_object("b".to_string(), b"bb".to_vec());
    assert_eq!(read(&s, "a", None).unwrap().content_length, 3);
    assert_eq!(read(&s, "b", None).unwrap().content_length, 2);
}

#[test]
fn read_of_missing_key_is_no_such_key() {
    let s = store();
    assert!(matches!(read(&s, "nothing", None), Err(ObjectError::NoSuchKey)));
    assert!(matches!(
        read(&s, "nothing", Some(ByteRange::Suffix { length: 0 })),
        Err(ObjectError::NoSuchKey)
    ));
}

#[test]
fn delete_removes_and_second_delete_is_refused() {
    let mut s = store();
    s.put_object("k".to_string(), b"v".to_vec());
    s.put_object("other".to_string(), b"w".to_vec());
    assert_eq!(s.delete_object("k"), Ok(()));
    assert!(matches!(read(&s, "k", None), Err(ObjectError::NoSuchKey)));
    assert_eq!(s.delete_object("k"), Err(ObjectError::NoSuchKey));
    assert_eq!(read(&s, "other", None).unwrap().content_length, 1);
}

#[test]
fn delete_of_missing_key_is_no_such_key() {
    let mut s = store();
    assert_eq!(s.delete_object("missing"), Err(ObjectError::NoSuchKey));
}

#[test]
fn int_range_reports_its_length_and_keeps_the_whole_body() {
    let mut s = store();
    s.put_object("k".to_string(), b"hello".to_vec());
    let mut o = read(&s, "k", Some(ByteRange::Int { first: 1, last: Some(3) })).unwrap();
    assert_eq!(o.content_length, 3);
    assert_eq!(drain(&mut o), b"hello".to_vec());
    let o = read(&s, "k", Some(ByteRange::Int { first: 2, last: None })).unwrap();
    assert_eq!(o.content_length, 3);
    let o = read(&s, "k", Some(ByteRange::Int { first: 0, last: Some(100) })).unwrap();
    assert_eq!(o.content_length, 5);
}

#[test]
fn suffix_range_is_cut_at_the_start() {
    let mut s = store();
    s.put_object("k".to_string(), b"hello".to_vec());
    assert_eq!(read(&s, "k", Some(ByteRange::Suffix { length: 2 })).unwrap().content_length, 2);
    assert_eq!(read(&s, "k", Some(ByteRange::Suffix { length: 10 })).unwrap().content_length, 5);
}

#[test]
fn unsatisfiable_ranges_are_invalid_range() {
    let mut s = store();
    s.put_object("k".to_string(), b"hello".to_vec());
    assert!(matches!(
        read(&s, "k", Some(ByteRange::Int { first: 5, last: None })),
        Err(ObjectError::InvalidRange)
    ));
    assert!(matches!(
        read(&s, "k", Some(ByteRange::Suffix { length: 0 })),
        Err(ObjectError::InvalidRange)
    ));
    s.put_object("empty".to_string(), Vec::new());
    assert!(matches!(
        read(&s, "empty", Some(ByteRange::Int { first: 0, last: Some(0) })),
        Err(ObjectError::InvalidRange)
    ));
    assert_eq!(read(&s, "empty", Some(ByteRange::Suffix { length: 3 })).unwrap().content_length, 0);
}

#[test]
fn storage_classes_offered_are_accepted() {
    assert_eq!(S3Btree::validate_put_object(Some("STANDARD"), true), Ok(()));
    assert_eq!(S3Btree::validate_put_object(Some("REDUCED_REDUNDANCY"), true), Ok(()));
    assert_eq!(S3Btree::validate_put_object(None, true), Ok(()));
}

#[test]
fn other_storage_class_is_refused_before_the_body() {
    assert_eq!(
        S3Btree::validate_put_object(Some("GLACIER"), true),
        Err(ObjectError::InvalidStorageClass)
    );
    assert_eq!(
        S3Btree::validate_put_object(Some("standard"), false),
        Err(ObjectError::InvalidStorageClass)
    );
}

#[test]
fn missing_body_is_incomplete_body() {
    assert_eq!(S3Btree::validate_put_object(None, false), Err(ObjectError::IncompleteBody));
    assert_eq!(
        S3Btree::validate_put_object(Some("STANDARD"), false),
        Err(ObjectError::IncompleteBody)
    );
}

#[test]
fn hex_is_lower_case_two_digits_per_byte() {
    assert_eq!(hex(&[0x00, 0xff, 0x1a, 0x09]), "00ff1a09");
    assert_eq!(hex(&[]), "");
}

#[test]
fn body_stream_holds_one_chunk() {
    let mut s = store();
    s.put_object("k".to_string(), b"abc".to_vec());
    let mut o = read(&s, "k", None).unwrap();
    assert_eq!(o.body.size_hint(), (1, Some(1)));
    assert_eq!(o.body.next_chunk(), Some(Bytes::from_static(b"abc")));
    assert_eq!(o.body.next_chunk(), None);
}
