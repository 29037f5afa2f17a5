use delta_bench::cli::StorageBackend;
use delta_bench::storage::{
    parse_profile_content, sanitize_path_component, validate_backend_profile_name, StorageConfig,
};

fn opts(pairs: &[(&str, &str)]) -> Vec<(String, String)> {
    pairs
        .iter()
        .map(|(k, v)| (k.to_string(), v.to_string()))
        .collect()
}

#[test]
fn non_local_storage_requires_table_root_option() {
    let err = StorageConfig::new(StorageBackend::S3, Vec::new())
        .expect_err("non-local backend without table_root must fail");
    assert!(
        err.message().contains("table_root"),
        "unexpected error: {}",
        err.message()
    );
}

#[test]
fn local_storage_does_not_require_table_root_option() {
    StorageConfig::new(StorageBackend::Local, Vec::new())
        .expect("local backend should be backward compatible");
}

#[test]
fn non_local_storage_builds_fixture_table_urls() {
    let config = StorageConfig::new(
        StorageBackend::S3,
        opts(&[
            ("table_root", "s3://bench-bucket/delta-bench"),
            ("AWS_REGION", "us-east-1"),
        ]),
    )
    .expect("valid storage config");
    let url = config
        .fixture_table_url("sf1", "narrow_sales_delta")
        .expect("fixture url");
    assert_eq!(url, "s3://bench-bucket/delta-bench/sf1/narrow_sales_delta");
}

#[test]
fn s3_backend_rejects_non_s3_table_root_scheme() {
    let err = StorageConfig::new(
        StorageBackend::S3,
        opts(&[("table_root", "gs://bucket/path")]),
    )
    .expect_err("s3 backend should reject non-s3 table_root scheme");
    assert!(
        err.message().contains("table_root") && err.message().contains("s3"),
        "unexpected error: {}",
        err.message()
    );
}

#[test]
fn invalid_table_root_uri_is_rejected() {
    let err = StorageConfig::new(StorageBackend::S3, opts(&[("table_root", "not a url")]))
        .expect_err("malformed table_root must fail");
    assert!(err.message().contains("invalid table_root URI"));
}

#[test]
fn non_local_storage_can_produce_unique_isolated_table_urls() {
    let config = StorageConfig::new(
        StorageBackend::S3,
        opts(&[("table_root", "s3://bench-bucket/delta-bench")]),
    )
    .expect("valid storage config");

    let first = config
        .isolated_table_url("sf1", "merge_target_delta", "case/with spaces", "1700-0")
        .expect("first isolated url");
    let second = config
        .isolated_table_url("sf1", "merge_target_delta", "case/with spaces", "1700-1")
        .expect("second isolated url");

    assert_ne!(first, second, "isolated URLs must be unique per suffix");
    assert!(first.starts_with("s3://bench-bucket/delta-bench/sf1/"));
    assert!(!first.contains(' '));
    assert!(!first.contains("/case/with spaces"));
}

#[test]
fn object_store_options_drop_the_table_root_selector() {
    let config = StorageConfig::new(
        StorageBackend::S3,
        opts(&[
            ("table_root", "s3://bucket/path"),
            ("AWS_REGION", "us-east-1"),
        ]),
    )
    .expect("valid storage config");
    let passed = config.object_store_options();
    assert_eq!(passed, opts(&[("AWS_REGION", "us-east-1")]));
}

#[test]
fn sanitize_path_component_replaces_and_trims() {
    assert_eq!(sanitize_path_component("case/with spaces"), "case_with_spaces");
    assert_eq!(sanitize_path_component("__edge__"), "edge");
    assert_eq!(sanitize_path_component("///"), "table");
    assert_eq!(sanitize_path_component("ok-name_1.2"), "ok-name_1.2");
}

#[test]
fn profile_file_parses_key_values() {
    let content = "# comment\n\nAWS_REGION = us-east-1\ntable_root=s3://bucket/x\n";
    let parsed =
        parse_profile_content(content, "backends/sample.env").expect("profile should parse");
    assert_eq!(
        parsed,
        opts(&[
            ("AWS_REGION", "us-east-1"),
            ("table_root", "s3://bucket/x"),
        ])
    );
}

#[test]
fn profile_line_without_separator_is_rejected() {
    let err = parse_profile_content("not-a-pair\n", "backends/sample.env")
        .expect_err("malformed line must fail");
    assert!(err.message().contains("expected KEY=VALUE"));
    assert!(err.message().contains("line 1"));
    assert!(err.message().contains("backends/sample.env"));
}

#[test]
fn profile_line_with_empty_key_is_rejected() {
    let err = parse_profile_content("=value\n", "backends/sample.env")
        .expect_err("empty key must fail");
    assert!(err.message().contains("key must not be empty"));
}

#[test]
fn profile_name_rejects_parent_traversal() {
    let err = validate_backend_profile_name("../escape")
        .expect_err("path traversal in profile name must fail");
    assert!(err.message().contains("invalid backend profile"));
    validate_backend_profile_name("s3_locking.main-1").expect("safe name should pass");
}
