use s3_kit::s3_replication::{hex, select_head_result, ErrorText, HeadOutcome};

fn ok(len: i64) -> HeadOutcome {
    Ok(Some(len))
}

fn err(text: &str) -> HeadOutcome {
    Err(text.to_string())
}

#[test]
fn all_answered_alike_passes_on_the_first() {
    assert_eq!(select_head_result(&vec![ok(5), ok(5)]), Some(0));
}

#[test]
fn all_answered_differently_still_passes_on_the_first() {
    assert_eq!(select_head_result(&vec![ok(5), ok(7)]), Some(0));
    assert_eq!(select_head_result(&vec![Ok(None), ok(7)]), Some(0));
}

#[test]
fn mixed_answers_pass_on_the_first_success() {
    assert_eq!(select_head_result(&vec![err("NoSuchKey"), ok(3)]), Some(1));
    assert_eq!(select_head_result(&vec![ok(3), err("NoSuchKey")]), Some(0));
    assert_eq!(select_head_result(&vec![err("a"), err("b"), ok(1), ok(2)]), Some(2));
}

#[test]
fn all_failed_alike_passes_on_the_first_failure() {
    assert_eq!(select_head_result(&vec![err("NoSuchKey"), err("NoSuchKey")]), Some(0));
    assert_eq!(select_head_result(&vec![err("x")]), Some(0));
}

#[test]
fn all_failed_differently_has_no_choice() {
    assert_eq!(select_head_result(&vec![err("NoSuchKey"), err("InternalError")]), None);
}

#[test]
fn no_answers_have_no_choice() {
    assert_eq!(select_head_result(&Vec::new()), None);
}

#[test]
fn error_texts_compare_by_characters() {
    let a = ErrorText { text: "NoSuchKey".to_string() };
    let b = ErrorText { text: "NoSuchKey".to_string() };
    let c = ErrorText { text: "InvalidRange".to_string() };
    assert!(a == b);
    assert!(a != c);
}

#[test]
fn replication_hex_is_the_store_hex() {
    assert_eq!(hex(&[0xde, 0xad, 0xbe, 0xef]), "deadbeef");
}
