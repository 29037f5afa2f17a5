use delta_bench::results::SampleMetrics;
use delta_bench::suites::merge_dml::{merge_case_by_name, merge_case_names};
use delta_bench::suites::tpcds::phase1_query_catalog;
use delta_bench::suites::{list_cases_for_target, list_targets};

#[test]
fn list_targets_includes_optimize_vacuum() {
    assert!(
        list_targets().iter().any(|t| t == "optimize_vacuum"),
        "optimize_vacuum target missing from list_targets"
    );
}

#[test]
fn list_targets_includes_delete_update_dml() {
    assert!(
        list_targets().iter().any(|t| t == "delete_update_dml"),
        "delete_update_dml target missing from list_targets"
    );
}

#[test]
fn list_targets_includes_tpcds() {
    assert!(
        list_targets().iter().any(|t| t == "tpcds"),
        "tpcds target missing from list_targets"
    );
}

#[test]
fn list_targets_includes_interop_py() {
    assert!(
        list_targets().iter().any(|t| t == "interop_py"),
        "interop_py target missing from list_targets"
    );
}

#[test]
fn optimize_vacuum_case_list_is_exact() {
    let cases = list_cases_for_target("optimize_vacuum").expect("known target should work");
    assert_eq!(
        cases,
        vec![
            "optimize_compact_small_files".to_string(),
            "optimize_noop_already_compact".to_string(),
            "optimize_heavy_compaction".to_string(),
            "vacuum_dry_run_lite".to_string(),
            "vacuum_execute_lite".to_string(),
        ]
    );
}

#[test]
fn read_scan_case_list_is_exact() {
    let cases = list_cases_for_target("read_scan").expect("known target should work");
    assert_eq!(
        cases,
        vec![
            "read_full_scan_narrow".to_string(),
            "read_projection_region".to_string(),
            "read_filter_flag_true".to_string(),
            "read_partition_pruning_hit".to_string(),
            "read_partition_pruning_miss".to_string(),
        ]
    );
}

#[test]
fn delete_update_dml_case_list_is_exact() {
    let cases = list_cases_for_target("delete_update_dml").expect("known target should work");
    assert_eq!(
        cases,
        vec![
            "delete_rowsMatchedFraction_0.01_partition_localized".to_string(),
            "delete_rowsMatchedFraction_0.05_scattered".to_string(),
            "delete_rowsMatchedFraction_0.50_broad".to_string(),
            "update_literal_rowsMatchedFraction_0.01_partition_localized".to_string(),
            "update_literal_rowsMatchedFraction_0.05_scattered".to_string(),
            "update_expression_rowsMatchedFraction_0.50_broad".to_string(),
            "update_all_rows_expression".to_string(),
        ]
    );
}

#[test]
fn tpcds_case_list_is_exact() {
    let cases = list_cases_for_target("tpcds").expect("known target should work");
    assert_eq!(
        cases,
        vec![
            "tpcds_q03".to_string(),
            "tpcds_q07".to_string(),
            "tpcds_q64".to_string(),
            "tpcds_q72".to_string(),
        ]
    );
}

#[test]
fn interop_py_case_list_is_exact() {
    let cases = list_cases_for_target("interop_py").expect("known target should work");
    assert_eq!(
        cases,
        vec![
            "pandas_roundtrip_smoke".to_string(),
            "polars_roundtrip_smoke".to_string(),
            "pyarrow_dataset_scan_perf".to_string(),
        ]
    );
}

#[test]
fn all_case_list_includes_interop_py_cases() {
    let cases = list_cases_for_target("all").expect("known target should work");
    assert!(
        cases.iter().any(|case| case == "pandas_roundtrip_smoke"),
        "all target should include interop_py cases"
    );
}

#[test]
fn known_merge_case_names_are_present() {
    let names = merge_case_names();
    assert!(names
        .iter()
        .any(|name| name.contains("upsert_filesMatchedFraction_0.05_rowsMatchedFraction_0.1")));
    assert!(names.iter().any(
        |name| name.contains("delete_only_filesMatchedFraction_0.05_rowsMatchedFraction_0.05")
    ));
}

#[test]
fn merge_case_lookup_is_case_insensitive() {
    let c = merge_case_by_name("DELETE_ONLY_FILESMATCHEDFRACTION_0.05_ROWSMATCHEDFRACTION_0.05");
    assert!(c.is_some());
}

#[test]
fn base_constructor_defaults_scan_and_rewrite_metrics_to_none() {
    let metrics = SampleMetrics::base(Some(11), None, Some(2), Some(5));

    assert_eq!(metrics.rows_processed, Some(11));
    assert_eq!(metrics.bytes_processed, None);
    assert_eq!(metrics.operations, Some(2));
    assert_eq!(metrics.table_version, Some(5));
    assert_eq!(metrics.files_scanned, None);
    assert_eq!(metrics.files_pruned, None);
    assert_eq!(metrics.bytes_scanned, None);
    assert_eq!(metrics.scan_time_ms, None);
    assert_eq!(metrics.rewrite_time_ms, None);
}

#[test]
fn scan_rewrite_builder_populates_optional_fields() {
    let metrics = SampleMetrics::base(Some(20), None, Some(1), Some(7)).with_scan_rewrite_metrics(
        Some(8),
        Some(3),
        Some(4096),
        Some(14),
        Some(22),
    );

    assert_eq!(metrics.rows_processed, Some(20));
    assert_eq!(metrics.operations, Some(1));
    assert_eq!(metrics.table_version, Some(7));
    assert_eq!(metrics.files_scanned, Some(8));
    assert_eq!(metrics.files_pruned, Some(3));
    assert_eq!(metrics.bytes_scanned, Some(4096));
    assert_eq!(metrics.scan_time_ms, Some(14));
    assert_eq!(metrics.rewrite_time_ms, Some(22));
}

#[test]
fn query_ids_are_stable_sorted_and_unique() {
    let specs = phase1_query_catalog();
    let ids: Vec<&str> = specs.iter().map(|spec| spec.id).collect();

    let mut sorted = ids.clone();
    sorted.sort_unstable();
    sorted.dedup();

    assert_eq!(
        ids.len(),
        sorted.len(),
        "query IDs must not contain duplicates"
    );
    assert_eq!(ids, sorted, "query IDs must be sorted for deterministic output");
}

#[test]
fn q72_is_present_but_disabled_with_explicit_datafusion_issue_reason() {
    let specs = phase1_query_catalog();
    let q72 = specs
        .iter()
        .find(|spec| spec.id == "q72")
        .expect("q72 must remain cataloged explicitly");

    assert!(!q72.enabled, "q72 must be marked disabled");
    let reason = q72
        .skip_reason
        .expect("q72 should include an explicit skip reason");
    let reason_lower = reason.to_ascii_lowercase();
    assert!(
        reason_lower.contains("datafusion") && reason_lower.contains("issue"),
        "q72 skip reason should reference DataFusion issue tracking; got: {reason}"
    );
}

#[test]
fn phase1_catalog_contains_at_least_one_enabled_query() {
    let specs = phase1_query_catalog();
    assert!(
        specs.iter().any(|spec| spec.enabled),
        "phase 1 catalog should contain at least one executable query"
    );
}
