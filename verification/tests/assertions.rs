use delta_bench::assertions::{apply_case_assertions, CaseAssertion};
use delta_bench::results::{
    CaseFailure, CaseResult, Classification, IterationSample, SampleMetrics,
};

fn sample_with_hash(hash: &str, table_version: Option<u64>) -> IterationSample {
    let metrics = SampleMetrics::base(Some(1), None, Some(1), table_version)
        .with_runtime_io_metrics(
            None,
            None,
            None,
            None,
            None,
            None,
            None,
            Some(hash.to_string()),
        );
    IterationSample {
        elapsed_us: 1000,
        rows: Some(1),
        bytes: None,
        metrics: Some(metrics),
    }
}

#[test]
fn expected_error_assertion_reclassifies_failure() {
    let mut case = CaseResult {
        case: "dv_lane".to_string(),
        success: false,
        classification: Classification::Supported,
        samples: Vec::new(),
        failure: Some(CaseFailure {
            message: "deletion vectors are not supported".to_string(),
        }),
    };

    apply_case_assertions(
        &mut case,
        &[CaseAssertion::ExpectedErrorContains(
            "not supported".to_string(),
        )],
    );

    assert!(case.success);
    assert_eq!(case.classification.as_str(), "expected_failure");
}

#[test]
fn expected_error_assertion_fails_when_case_unexpectedly_succeeds() {
    let mut case = CaseResult {
        case: "dv_lane".to_string(),
        success: true,
        classification: Classification::Supported,
        samples: Vec::new(),
        failure: None,
    };

    apply_case_assertions(
        &mut case,
        &[CaseAssertion::ExpectedErrorContains(
            "not supported".to_string(),
        )],
    );

    assert!(!case.success);
    assert_eq!(case.classification.as_str(), "supported");
    let message = case
        .failure
        .as_ref()
        .map(|f| f.message.as_str())
        .unwrap_or("");
    assert!(message.contains("expected error"));
}

#[test]
fn exact_result_hash_assertion_fails_mismatch() {
    let mut case = CaseResult {
        case: "read_case".to_string(),
        success: true,
        classification: Classification::Supported,
        samples: vec![sample_with_hash("sha256:abc", Some(1))],
        failure: None,
    };

    apply_case_assertions(
        &mut case,
        &[CaseAssertion::ExactResultHash("sha256:def".to_string())],
    );

    assert!(!case.success);
    let message = case
        .failure
        .as_ref()
        .map(|f| f.message.as_str())
        .unwrap_or("");
    assert!(message.contains("result hash mismatch"));
    assert!(message.contains("sha256:def"));
    assert!(message.contains("sha256:abc"));
}

#[test]
fn version_monotonicity_assertion_fails_on_decrease() {
    let mut case = CaseResult {
        case: "version_case".to_string(),
        success: true,
        classification: Classification::Supported,
        samples: vec![
            sample_with_hash("sha256:abc", Some(2)),
            sample_with_hash("sha256:abc", Some(1)),
        ],
        failure: None,
    };

    apply_case_assertions(&mut case, &[CaseAssertion::VersionMonotonicity]);

    assert!(!case.success);
    let message = case
        .failure
        .as_ref()
        .map(|f| f.message.as_str())
        .unwrap_or("");
    assert!(message.contains("version monotonicity"));
    assert!(message.contains("2"));
    assert!(message.contains("1"));
}

#[test]
fn version_monotonicity_accepts_increasing_versions() {
    let mut case = CaseResult {
        case: "version_case_up".to_string(),
        success: true,
        classification: Classification::Supported,
        samples: vec![
            sample_with_hash("sha256:abc", Some(1)),
            sample_with_hash("sha256:abc", Some(2)),
        ],
        failure: None,
    };

    apply_case_assertions(&mut case, &[CaseAssertion::VersionMonotonicity]);

    assert!(case.success);
    assert!(case.failure.is_none());
}

#[test]
fn version_monotonicity_skips_absent_versions() {
    let mut case = CaseResult {
        case: "version_case_gap".to_string(),
        success: true,
        classification: Classification::Supported,
        samples: vec![
            sample_with_hash("sha256:abc", Some(3)),
            sample_with_hash("sha256:abc", None),
            sample_with_hash("sha256:abc", Some(5)),
        ],
        failure: None,
    };

    apply_case_assertions(&mut case, &[CaseAssertion::VersionMonotonicity]);

    assert!(case.success);
}

#[test]
fn hash_assertion_reports_none_when_no_sample_carries_a_hash() {
    let mut case = CaseResult {
        case: "no_hash_case".to_string(),
        success: true,
        classification: Classification::Supported,
        samples: vec![IterationSample {
            elapsed_us: 10,
            rows: None,
            bytes: None,
            metrics: Some(SampleMetrics::base(None, None, None, None)),
        }],
        failure: None,
    };

    apply_case_assertions(
        &mut case,
        &[CaseAssertion::SchemaHash("sha256:xyz".to_string())],
    );

    assert!(!case.success);
    let message = case
        .failure
        .as_ref()
        .map(|f| f.message.as_str())
        .unwrap_or("");
    assert!(message.contains("schema hash mismatch"));
    assert!(message.contains("'none'"));
}

#[test]
fn genuine_failure_is_not_masked_by_non_matching_needle() {
    let mut case = CaseResult {
        case: "other_failure".to_string(),
        success: false,
        classification: Classification::Supported,
        samples: Vec::new(),
        failure: Some(CaseFailure {
            message: "disk unexpectedly vanished".to_string(),
        }),
    };

    apply_case_assertions(
        &mut case,
        &[CaseAssertion::ExpectedErrorContains(
            "not supported".to_string(),
        )],
    );

    assert!(!case.success);
    assert_eq!(case.classification.as_str(), "supported");
    assert_eq!(
        case.failure.as_ref().map(|f| f.message.as_str()),
        Some("disk unexpectedly vanished")
    );
}
