use delta_bench::assertions::CaseAssertion;
use delta_bench::cli::RunnerMode;
use delta_bench::manifests::{BenchmarkManifest, ManifestCase};
use delta_bench::results::{CaseFailure, CaseResult, Classification};
use delta_bench::suites::{
    list_cases_for_target, order_planned_results, plan_run_cases_from_manifests, PlannedCase,
};

fn case(id: &str, target: &str, runner: &str) -> ManifestCase {
    ManifestCase {
        id: id.to_string(),
        target: target.to_string(),
        runner: runner.to_string(),
        enabled: true,
        assertions: Vec::new(),
    }
}

fn rust_manifest() -> BenchmarkManifest {
    BenchmarkManifest {
        id: "primary".to_string(),
        description: "in-process cases".to_string(),
        cases: vec![
            case("read_full_scan_narrow", "read_scan", "rust"),
            case("read_projection_region", "read_scan", "rust"),
            case("write_append_small_batches", "write", "rust"),
            case("merge_upsert_10pct", "merge_dml", "rust"),
        ],
    }
}

fn python_manifest() -> BenchmarkManifest {
    BenchmarkManifest {
        id: "secondary".to_string(),
        description: "out-of-process cases".to_string(),
        cases: vec![
            case("pandas_roundtrip_smoke", "interop_py", "python"),
            case("pyarrow_dataset_scan_perf", "interop_py", "python"),
        ],
    }
}

#[test]
fn case_filter_requires_at_least_one_matching_case() {
    let err = plan_run_cases_from_manifests(
        &rust_manifest(),
        &python_manifest(),
        "all",
        RunnerMode::Rust,
        Some("definitely_not_a_case"),
    )
    .expect_err("no case match must return explicit error");
    assert!(
        err.message().contains("case filter"),
        "unexpected error: {}",
        err.message()
    );
}

#[test]
fn all_runner_plan_includes_python_manifest_cases() {
    let plan = plan_run_cases_from_manifests(
        &rust_manifest(),
        &python_manifest(),
        "all",
        RunnerMode::All,
        None,
    )
    .expect("plan should build");
    let ids: Vec<&str> = plan.iter().map(|case| case.id.as_str()).collect();

    assert!(ids.contains(&"pandas_roundtrip_smoke"));
    assert!(ids.contains(&"pyarrow_dataset_scan_perf"));
}

#[test]
fn all_runner_plan_is_manifest_ordered() {
    let plan = plan_run_cases_from_manifests(
        &rust_manifest(),
        &python_manifest(),
        "all",
        RunnerMode::All,
        None,
    )
    .expect("plan should build");
    let ids: Vec<&str> = plan.iter().map(|case| case.id.as_str()).collect();
    let rust_idx = ids
        .iter()
        .position(|id| *id == "read_full_scan_narrow")
        .expect("rust case missing");
    let py_idx = ids
        .iter()
        .position(|id| *id == "pandas_roundtrip_smoke")
        .expect("python case missing");
    assert!(rust_idx < py_idx);
}

#[test]
fn duplicate_case_ids_are_a_fatal_planning_error() {
    let mut first = rust_manifest();
    first
        .cases
        .push(case("read_full_scan_narrow", "read_scan", "rust"));
    let err = plan_run_cases_from_manifests(
        &first,
        &python_manifest(),
        "read_scan",
        RunnerMode::Rust,
        None,
    )
    .expect_err("duplicate ids must fail");
    assert!(err.message().contains("duplicate case id"));
    assert!(err.message().contains("read_full_scan_narrow"));
}

#[test]
fn disabled_cases_are_not_planned() {
    let mut manifest = rust_manifest();
    manifest.cases[1].enabled = false;
    let plan = plan_run_cases_from_manifests(
        &manifest,
        &python_manifest(),
        "read_scan",
        RunnerMode::Rust,
        None,
    )
    .expect("plan should build");
    let ids: Vec<&str> = plan.iter().map(|case| case.id.as_str()).collect();
    assert_eq!(ids, vec!["read_full_scan_narrow"]);
}

#[test]
fn rust_runner_cannot_run_interop_target() {
    let err = plan_run_cases_from_manifests(
        &rust_manifest(),
        &python_manifest(),
        "interop_py",
        RunnerMode::Rust,
        None,
    )
    .expect_err("runner=rust cannot run interop");
    assert!(err
        .message()
        .contains("runner=rust cannot run target=interop_py"));
}

#[test]
fn python_runner_is_limited_to_interop_or_all() {
    let err = plan_run_cases_from_manifests(
        &rust_manifest(),
        &python_manifest(),
        "read_scan",
        RunnerMode::Python,
        None,
    )
    .expect_err("runner=python cannot run read_scan");
    assert!(err
        .message()
        .contains("runner=python can only run target=interop_py or target=all"));
}

#[test]
fn case_filter_keeps_matching_ids_in_order() {
    let plan = plan_run_cases_from_manifests(
        &rust_manifest(),
        &python_manifest(),
        "all",
        RunnerMode::Rust,
        Some("read"),
    )
    .expect("plan should build");
    let ids: Vec<&str> = plan.iter().map(|case| case.id.as_str()).collect();
    assert_eq!(ids, vec!["read_full_scan_narrow", "read_projection_region"]);
}

fn produced(case: &str, success: bool) -> CaseResult {
    CaseResult {
        case: case.to_string(),
        success,
        classification: Classification::Supported,
        samples: Vec::new(),
        failure: if success {
            None
        } else {
            Some(CaseFailure {
                message: "fixture load failed".to_string(),
            })
        },
    }
}

#[test]
fn ordered_results_follow_the_plan_and_apply_assertions() {
    let planned = vec![
        PlannedCase {
            id: "write_overwrite".to_string(),
            target: "write".to_string(),
            assertions: Vec::new(),
        },
        PlannedCase {
            id: "write_append_small_batches".to_string(),
            target: "write".to_string(),
            assertions: vec![CaseAssertion::ExpectedErrorContains(
                "fixture load failed".to_string(),
            )],
        },
    ];
    let executed = vec![(
        "write".to_string(),
        vec![
            produced("write_append_small_batches", false),
            produced("write_overwrite", true),
        ],
    )];

    let ordered = order_planned_results(&planned, executed).expect("ordering should succeed");
    assert_eq!(ordered.len(), 2);
    assert_eq!(ordered[0].case, "write_overwrite");
    assert_eq!(ordered[1].case, "write_append_small_batches");
    assert!(ordered[1].success, "reclassified expected failure");
    assert_eq!(ordered[1].classification.as_str(), "expected_failure");
}

#[test]
fn unproduced_planned_case_is_a_fatal_error() {
    let planned = vec![PlannedCase {
        id: "write_overwrite".to_string(),
        target: "write".to_string(),
        assertions: Vec::new(),
    }];
    let executed: Vec<(String, Vec<CaseResult>)> = vec![("write".to_string(), Vec::new())];

    let err = order_planned_results(&planned, executed).expect_err("missing case must fail");
    assert!(err
        .message()
        .contains("was not produced by suite execution"));
    assert!(err.message().contains("write_overwrite"));
}

#[test]
fn unknown_target_returns_error() {
    let err = list_cases_for_target("totally_unknown_target")
        .expect_err("unknown target should return an explicit error");
    assert!(
        err.message().contains("unknown suite target"),
        "unexpected error: {}",
        err.message()
    );
}
