use std::path::PathBuf;

use s3_kit::cli::{check_cli_args, Opt};
use s3_kit::fuzzing::BackendS3Instructions;

fn opt(domain_name: Option<&str>) -> Opt {
    Opt {
        host: "localhost".to_string(),
        port: 8014,
        access_key: Some("x".to_string()),
        secret_key: Some("x".to_string()),
        domain_name: domain_name.map(|s| s.to_string()),
        root: PathBuf::from("/tmp"),
    }
}

#[test]
fn no_domain_name_is_accepted() {
    assert_eq!(check_cli_args(&opt(None)), Ok(()));
}

#[test]
fn plain_domain_name_is_accepted() {
    assert_eq!(check_cli_args(&opt(Some("example.com"))), Ok(()));
    assert_eq!(check_cli_args(&opt(Some(""))), Ok(()));
}

#[test]
fn url_like_domain_name_is_refused() {
    assert_eq!(
        check_cli_args(&opt(Some("http://example.com/"))),
        Err("expected domain name, found URL-like string: \"http://example.com/\"".to_string())
    );
}

#[test]
fn refusal_quotes_and_escapes_the_value() {
    assert_eq!(
        check_cli_args(&opt(Some("a/\"b\""))),
        Err(format!("expected domain name, found URL-like string: {:?}", "a/\"b\""))
    );
    assert_eq!(
        check_cli_args(&opt(Some("/"))),
        Err("expected domain name, found URL-like string: \"/\"".to_string())
    );
}

#[test]
fn backend_instructions_hold_their_fields() {
    let b = BackendS3Instructions { real_bucket: "bucket".to_string(), rand_fail: true };
    assert_eq!(b.real_bucket, "bucket");
    assert!(b.rand_fail);
    assert!(format!("{b:?}").contains("bucket"));
}
