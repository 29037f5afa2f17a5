use delta_bench::result_codec::{bench_run_result_to_json_text, parse_bench_run_result};
use delta_bench::results::{
    BenchContext, BenchRunResult, CaseFailure, CaseResult, Classification, IterationSample,
    SampleMetrics,
};

const V2_PAYLOAD: &str = r#"
{
  "schema_version": 2,
  "context": {
    "schema_version": 2,
    "label": "v2-run",
    "git_sha": "abc123",
    "created_at": "2026-02-27T22:48:22.208400Z",
    "host": "test-host",
    "suite": "merge_dml",
    "scale": "sf1",
    "iterations": 1,
    "warmup": 1,
    "dataset_id": "small_files",
    "dataset_fingerprint": "sha256:abc",
    "runner": "rust",
    "backend_profile": "s3_locking_vultr"
  },
  "cases": [
    {
      "case": "merge_upsert_10pct",
      "success": true,
      "classification": "supported",
      "samples": [
        {
          "elapsed_ms": 9.9,
          "rows": 12,
          "bytes": null,
          "metrics": {
            "rows_processed": 12,
            "bytes_processed": null,
            "operations": 1,
            "table_version": 2,
            "files_scanned": 4,
            "files_pruned": 1,
            "bytes_scanned": 4096,
            "scan_time_ms": 4,
            "rewrite_time_ms": 5,
            "peak_rss_mb": 256,
            "cpu_time_ms": 16,
            "bytes_read": 8192,
            "bytes_written": 4096,
            "files_touched": 9,
            "files_skipped": 3,
            "spill_bytes": 0,
            "result_hash": "sha256:def"
          }
        }
      ],
      "failure": null
    }
  ]
}
"#;

#[test]
fn schema_v2_fields_parse_and_round_trip() {
    let parsed = parse_bench_run_result(V2_PAYLOAD).expect("schema v2 should parse");
    assert_eq!(parsed.schema_version, 2);
    assert_eq!(parsed.context.schema_version, 2);
    assert_eq!(parsed.context.label, "v2-run");
    assert_eq!(parsed.context.dataset_id.as_deref(), Some("small_files"));
    assert_eq!(
        parsed.context.backend_profile.as_deref(),
        Some("s3_locking_vultr")
    );
    assert_eq!(parsed.cases.len(), 1);
    let case = &parsed.cases[0];
    assert_eq!(case.case, "merge_upsert_10pct");
    assert!(case.success);
    assert_eq!(case.classification.as_str(), "supported");
    assert_eq!(case.samples.len(), 1);
    let sample = &case.samples[0];
    assert_eq!(sample.elapsed_us, 9_900, "9.9 ms is 9900 microseconds");
    assert_eq!(sample.rows, Some(12));
    assert_eq!(sample.bytes, None);
    let metrics = sample.metrics.as_ref().expect("metrics present");
    assert_eq!(metrics.rows_processed, Some(12));
    assert_eq!(metrics.bytes_processed, None);
    assert_eq!(metrics.operations, Some(1));
    assert_eq!(metrics.table_version, Some(2));
    assert_eq!(metrics.files_scanned, Some(4));
    assert_eq!(metrics.files_pruned, Some(1));
    assert_eq!(metrics.bytes_scanned, Some(4096));
    assert_eq!(metrics.scan_time_ms, Some(4));
    assert_eq!(metrics.rewrite_time_ms, Some(5));
    assert_eq!(metrics.peak_rss_mb, Some(256));
    assert_eq!(metrics.cpu_time_ms, Some(16));
    assert_eq!(metrics.bytes_read, Some(8192));
    assert_eq!(metrics.bytes_written, Some(4096));
    assert_eq!(metrics.files_touched, Some(9));
    assert_eq!(metrics.files_skipped, Some(3));
    assert_eq!(metrics.spill_bytes, Some(0));
    assert_eq!(metrics.result_hash.as_deref(), Some("sha256:def"));

    // Serialize and parse again: every field, the optional metric fields
    // included, must come back exactly.
    let text = bench_run_result_to_json_text(&parsed);
    let reparsed = parse_bench_run_result(&text).expect("round trip should parse");
    assert_eq!(reparsed, parsed);
}

#[test]
fn schema_v1_payload_is_rejected() {
    let payload = V2_PAYLOAD.replace("\"schema_version\": 2", "\"schema_version\": 1");
    let err = parse_bench_run_result(&payload).expect_err("schema v1 must be rejected");
    assert!(
        err.contains("schema_version must be 2 (found 1)"),
        "unexpected error: {err}"
    );
}

#[test]
fn context_schema_version_is_checked_too() {
    let payload = V2_PAYLOAD.replacen("\"schema_version\": 2", "\"schema_version\": 2", 1);
    // Downgrade only the nested context version.
    let payload = {
        let first = payload.find("\"schema_version\": 2").unwrap();
        let second = payload[first + 1..]
            .find("\"schema_version\": 2")
            .unwrap()
            + first
            + 1;
        let mut text = payload.clone();
        text.replace_range(second..second + "\"schema_version\": 2".len(), "\"schema_version\": 3");
        text
    };
    let err = parse_bench_run_result(&payload).expect_err("bad context version must be rejected");
    assert!(err.contains("schema_version must be 2 (found 3)"));
}

#[test]
fn missing_case_classification_is_rejected() {
    let payload = V2_PAYLOAD.replace("      \"classification\": \"supported\",\n", "");
    let err = parse_bench_run_result(&payload).expect_err("missing classification must fail");
    assert!(
        err.contains("classification"),
        "unexpected error: {err}"
    );
}

#[test]
fn unknown_case_classification_is_rejected() {
    let payload = V2_PAYLOAD.replace(
        "\"classification\": \"supported\"",
        "\"classification\": \"experimental\"",
    );
    let err = parse_bench_run_result(&payload).expect_err("unknown classification must fail");
    assert!(
        err.contains("classification must be one of: supported, expected_failure (found experimental)"),
        "unexpected error: {err}"
    );
}

#[test]
fn optional_metric_fields_stay_independent() {
    // Only one optional counter present: nothing else may be inferred.
    let payload = r#"
    {
      "schema_version": 2,
      "context": {
        "schema_version": 2,
        "label": "sparse",
        "created_at": "2026-02-27T00:00:00Z",
        "host": "h",
        "suite": "write",
        "scale": "sf1",
        "iterations": 1,
        "warmup": 0
      },
      "cases": [
        {
          "case": "only_spill",
          "success": true,
          "classification": "supported",
          "samples": [
            {
              "elapsed_ms": 1.0,
              "rows": null,
              "bytes": null,
              "metrics": { "spill_bytes": 77 }
            }
          ],
          "failure": null
        }
      ]
    }
    "#;
    let parsed = parse_bench_run_result(payload).expect("sparse document should parse");
    let metrics = parsed.cases[0].samples[0]
        .metrics
        .as_ref()
        .expect("metrics present");
    assert_eq!(metrics.spill_bytes, Some(77));
    assert_eq!(metrics.rows_processed, None);
    assert_eq!(metrics.files_scanned, None);
    assert_eq!(metrics.result_hash, None);
}

#[test]
fn version_fields_are_always_emitted() {
    let doc = BenchRunResult {
        schema_version: 2,
        context: BenchContext {
            schema_version: 2,
            label: "emit".to_string(),
            git_sha: None,
            created_at: "2026-02-27T00:00:00Z".to_string(),
            host: "h".to_string(),
            suite: "write".to_string(),
            scale: "sf1".to_string(),
            iterations: 1,
            warmup: 0,
            dataset_id: None,
            dataset_fingerprint: None,
            runner: None,
            backend_profile: None,
            image_version: None,
            hardening_profile_id: None,
            hardening_profile_sha256: None,
            cpu_model: None,
            cpu_microcode: None,
            kernel: None,
            boot_params: None,
            cpu_steal_pct: None,
            numa_topology: None,
            egress_policy_sha256: None,
            run_mode: None,
            maintenance_window_id: None,
        },
        cases: vec![CaseResult {
            case: "c".to_string(),
            success: false,
            classification: Classification::Supported,
            samples: vec![IterationSample {
                elapsed_us: 1_500,
                rows: None,
                bytes: None,
                metrics: Some(SampleMetrics::base(None, None, None, None)),
            }],
            failure: Some(CaseFailure {
                message: "fixture load failed".to_string(),
            }),
        }],
    };
    let text = bench_run_result_to_json_text(&doc);
    assert!(text.matches("\"schema_version\":2").count() >= 2);
    // Unset optional fields are omitted entirely.
    assert!(!text.contains("dataset_id"));
    assert!(!text.contains("result_hash"));
    assert!(text.contains("\"elapsed_ms\":1.5"));

    let reparsed = parse_bench_run_result(&text).expect("round trip");
    assert_eq!(reparsed, doc);
}
