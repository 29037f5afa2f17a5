use delta_bench::cli::{parse_storage_options, validate_label};
use delta_bench::fixtures::{
    fixture_manifest_matches, generate_narrow_sales_rows_from, narrow_sales_table_path,
    scale_to_row_count, FixtureManifest, RowDraw,
};
use delta_bench::manifests::{DatasetId, ManifestAssertion};
use delta_bench::results::{validate_case_classification, Classification};
use delta_bench::scan_metrics::{extract_scan_metrics, NodeMetrics, PlanCounter, PlanNode};
use delta_bench::suites::delete_update_dml::{case_predicate, delete_update_cases};
use delta_bench::suites::interop_py::{
    interop_attempt_decision, validate_interop_settings, AttemptOutcome, InteropCaseOutput,
    RetryDecision,
};
use delta_bench::system::{fidelity_digest, numa_nodes_summary, parse_lscpu_numa};

#[test]
fn accepts_safe_label_chars() {
    validate_label("local-main_20260227.1").expect("label should be valid");
}

#[test]
fn rejects_path_traversal_and_separators() {
    for label in ["../escape", "a/b", "a\\b", "", " space"] {
        let err = validate_label(label).expect_err("label should be rejected");
        assert!(
            err.message().contains("label"),
            "unexpected error for '{label}': {}",
            err.message()
        );
    }
}

#[test]
fn parse_storage_options_rejects_invalid_entries() {
    let err = parse_storage_options(&["not-a-pair".to_string()])
        .expect_err("invalid entry should fail");
    assert!(
        err.message().contains("KEY=VALUE"),
        "unexpected error: {}",
        err.message()
    );
}

#[test]
fn parse_storage_options_trims_keys_and_keeps_values() {
    let parsed = parse_storage_options(&[
        " AWS_REGION =us-east-1".to_string(),
        "table_root=s3://b/x".to_string(),
    ])
    .expect("valid entries parse");
    assert_eq!(parsed[0].0, "AWS_REGION");
    assert_eq!(parsed[0].1, "us-east-1");
    assert_eq!(parsed[1].0, "table_root");
    assert_eq!(parsed[1].1, "s3://b/x");
}

#[test]
fn dataset_id_parsing_supports_p0_catalog() {
    assert_eq!(
        DatasetId::parse("tiny_smoke").expect("tiny_smoke"),
        DatasetId::TinySmoke
    );
    assert_eq!(
        DatasetId::parse("medium_selective").expect("medium_selective"),
        DatasetId::MediumSelective
    );
    assert_eq!(
        DatasetId::parse("small_files").expect("small_files"),
        DatasetId::SmallFiles
    );
    assert_eq!(
        DatasetId::parse("many_versions").expect("many_versions"),
        DatasetId::ManyVersions
    );
    assert_eq!(DatasetId::SmallFiles.scale(), "sf1");
    assert_eq!(DatasetId::MediumSelective.scale(), "sf10");
    assert_eq!(DatasetId::ManyVersions.as_str(), "many_versions");
}

#[test]
fn dataset_id_rejects_unknown_values() {
    let err = DatasetId::parse("not-real").expect_err("unknown dataset id must fail");
    assert!(
        err.message().contains("dataset_id"),
        "unexpected error: {}",
        err.message()
    );
}

#[test]
fn manifest_assertion_resolves_to_engine_assertion() {
    let declared = ManifestAssertion::ExpectedErrorContains {
        value: "fixture load failed".to_string(),
    };
    match declared.to_case_assertion() {
        delta_bench::assertions::CaseAssertion::ExpectedErrorContains(v) => {
            assert_eq!(v, "fixture load failed");
        }
        other => panic!("unexpected assertion: {other:?}"),
    }
}

#[test]
fn classification_validation_is_a_closed_set() {
    validate_case_classification("supported").expect("supported is allowed");
    validate_case_classification("expected_failure").expect("expected_failure is allowed");
    let err = validate_case_classification("experimental").expect_err("out of enum");
    assert_eq!(
        err,
        "classification must be one of: supported, expected_failure (found experimental)"
    );
}

#[test]
fn sum_pruned_metrics_includes_pruning_metrics_values() {
    let plan = PlanNode {
        metrics: Some(NodeMetrics {
            counters: vec![PlanCounter::Pruning {
                name: "files_ranges_pruned_statistics".to_string(),
                pruned: 9,
            }],
            elapsed_compute_nanos: None,
        }),
        children: Vec::new(),
    };
    let scan = extract_scan_metrics(&plan);
    assert_eq!(scan.files_pruned, Some(9));
    assert_eq!(scan.files_scanned, None);
}

#[test]
fn scan_metrics_distinguish_absence_from_zero() {
    let plan = PlanNode {
        metrics: Some(NodeMetrics {
            counters: vec![PlanCounter::Count {
                name: "files_scanned".to_string(),
                value: 0,
            }],
            elapsed_compute_nanos: Some(3_000_000),
        }),
        children: vec![PlanNode {
            metrics: Some(NodeMetrics {
                counters: vec![PlanCounter::Count {
                    name: "count_files_scanned".to_string(),
                    value: 5,
                }],
                elapsed_compute_nanos: Some(2_000_000),
            }),
            children: Vec::new(),
        }],
    };
    let scan = extract_scan_metrics(&plan);
    assert_eq!(scan.files_scanned, Some(5), "zero exposure still counts as seen");
    assert_eq!(scan.bytes_scanned, None, "no node exposed bytes_scanned");
    assert_eq!(scan.scan_time_ms, Some(5), "both scan nodes' elapsed time summed");
}

#[test]
fn renamed_counters_degrade_to_metric_not_observed() {
    let plan = PlanNode {
        metrics: Some(NodeMetrics {
            counters: vec![PlanCounter::Count {
                name: "files_scanned_v2".to_string(),
                value: 11,
            }],
            elapsed_compute_nanos: Some(1_000_000),
        }),
        children: Vec::new(),
    };
    let scan = extract_scan_metrics(&plan);
    assert_eq!(scan.files_scanned, None);
    assert_eq!(scan.scan_time_ms, None, "not a scan node without known counters");
}

#[test]
fn scale_catalog_is_exact() {
    assert_eq!(scale_to_row_count("sf1").expect("sf1"), 10_000);
    assert_eq!(scale_to_row_count("sf10").expect("sf10"), 100_000);
    assert_eq!(scale_to_row_count("sf100").expect("sf100"), 1_000_000);
    let err = scale_to_row_count("sf9000").expect_err("unknown scale");
    assert!(err.message().contains("unknown scale 'sf9000'"));
}

#[test]
fn fixture_paths_are_built_under_the_scale() {
    let path = narrow_sales_table_path("fixtures", "sf1").expect("path");
    assert_eq!(path, "fixtures/sf1/narrow_sales_delta");
    narrow_sales_table_path("fixtures", "wrong scale").expect_err("invalid scale rejected");
}

#[test]
fn fixture_manifest_freshness_rule_is_exact() {
    let manifest = FixtureManifest {
        schema_version: 1,
        seed: 42,
        scale: "sf1".to_string(),
        rows: 10_000,
    };
    assert!(fixture_manifest_matches(&manifest, 42, "sf1", 10_000));
    assert!(!fixture_manifest_matches(&manifest, 43, "sf1", 10_000));
    assert!(!fixture_manifest_matches(&manifest, 42, "sf10", 10_000));
}

#[test]
fn row_synthesis_is_deterministic_in_the_draws() {
    let draws = vec![
        RowDraw {
            region_index: 0,
            value_base: 100,
            flag: true,
        },
        RowDraw {
            region_index: 3,
            value_base: -5,
            flag: false,
        },
    ];
    let rows = generate_narrow_sales_rows_from(&draws);
    let again = generate_narrow_sales_rows_from(&draws);
    assert_eq!(rows, again);
    assert_eq!(rows[0].id, 0);
    assert_eq!(rows[0].region, "us");
    assert_eq!(rows[0].value_i64, 100);
    assert_eq!(rows[1].id, 1);
    assert_eq!(rows[1].ts_ms, 1_700_000_000_000 + 60_000);
    assert_eq!(rows[1].region, "latam");
    assert_eq!(rows[1].value_i64, -5 + 21, "skew is seven per region index");
    assert!(!rows[1].flag);
}

#[test]
fn delete_update_predicates_match_their_fractions() {
    let cases = delete_update_cases();
    let localized = case_predicate(&cases[0]).expect("predicate");
    assert_eq!(localized, "region = 'us' AND id % 17 = 0");
    let scattered = case_predicate(&cases[1]).expect("predicate");
    assert_eq!(scattered, "id % 20 = 0");
    let broad = case_predicate(&cases[2]).expect("predicate");
    assert_eq!(broad, "id % 2 = 0");
    assert!(case_predicate(&cases[6]).is_none(), "whole-table update has none");
}

#[test]
fn interop_settings_validation_is_exact() {
    let settings = validate_interop_settings(120_000, 1).expect("defaults are valid");
    assert_eq!(settings.timeout_ms, 120_000);
    assert_eq!(settings.retries, 1);
    let err = validate_interop_settings(0, 1).expect_err("zero timeout rejected");
    assert!(err.message().contains("DELTA_BENCH_INTEROP_TIMEOUT_MS must be > 0"));
    let err = validate_interop_settings(5, u64::from(u32::MAX) + 1)
        .expect_err("oversized retries rejected");
    assert!(err.message().contains("DELTA_BENCH_INTEROP_RETRIES is too large"));
}

fn interop_output(classification: &str) -> InteropCaseOutput {
    InteropCaseOutput {
        rows_processed: Some(1),
        bytes_processed: Some(1),
        operations: Some(1),
        table_version: None,
        peak_rss_mb: None,
        cpu_time_ms: None,
        bytes_read: None,
        bytes_written: None,
        files_touched: None,
        files_skipped: None,
        spill_bytes: None,
        result_hash: None,
        classification: classification.to_string(),
    }
}

#[test]
fn interop_retry_machine_enforces_timeout_then_retries() {
    let first = interop_attempt_decision("timeout_case", 1, 2, AttemptOutcome::TimedOut, 10);
    assert_eq!(first, RetryDecision::Retry);

    let second = interop_attempt_decision("timeout_case", 2, 2, AttemptOutcome::TimedOut, 10);
    match second {
        RetryDecision::Fail(message) => {
            assert!(message.contains("timed out after 10 ms"));
            assert!(message.contains("failed after 2 attempt(s)"));
        }
        other => panic!("unexpected decision: {other:?}"),
    }
}

#[test]
fn interop_retry_machine_recovers_after_transient_failure() {
    let first = interop_attempt_decision(
        "retry_case",
        1,
        2,
        AttemptOutcome::Failed("first attempt fails".to_string()),
        1_000,
    );
    assert_eq!(first, RetryDecision::Retry);

    let second = interop_attempt_decision(
        "retry_case",
        2,
        2,
        AttemptOutcome::Completed(interop_output("supported")),
        1_000,
    );
    match second {
        RetryDecision::Accept(metrics, classification) => {
            assert_eq!(metrics.rows_processed, Some(1));
            assert_eq!(classification, Classification::Supported);
        }
        other => panic!("unexpected decision: {other:?}"),
    }
}

#[test]
fn interop_retry_machine_rejects_invalid_classification() {
    let decision = interop_attempt_decision(
        "bad_classification",
        1,
        1,
        AttemptOutcome::Completed(interop_output("experimental")),
        1_000,
    );
    match decision {
        RetryDecision::Fail(message) => {
            assert!(
                message.contains("classification"),
                "unexpected error: {message}"
            );
        }
        other => panic!("unexpected decision: {other:?}"),
    }
}

#[test]
fn fidelity_digest_prefers_overrides_and_hashes_contents() {
    assert_eq!(
        fidelity_digest(Some("sha256:forced".to_string()), Some(vec![1, 2, 3])),
        Some("sha256:forced".to_string())
    );
    // The SHA-256 of the empty byte string, as its lowercase hex text.
    assert_eq!(
        fidelity_digest(None, Some(Vec::new())),
        Some("e3b0c44298fc1c149afbf4c8996fb92427ae41e4649b934ca495991b7852b855".to_string())
    );
    assert_eq!(fidelity_digest(None, None), None);
}

#[test]
fn numa_summary_reports_nodes_and_per_node_cpus() {
    let content = "CPU(s): 8\nNUMA node(s): 2\nNUMA node0 CPU(s): 0-3\nNUMA node1 CPU(s): 4-7\n";
    assert_eq!(
        parse_lscpu_numa(content).expect("summary"),
        "nodes=2; NUMA node0 CPU(s)=0-3; NUMA node1 CPU(s)=4-7"
    );
    assert_eq!(parse_lscpu_numa("CPU(s): 8\n"), None);
    assert_eq!(numa_nodes_summary(2).expect("fallback"), "nodes=2");
    assert_eq!(numa_nodes_summary(0), None);
}
