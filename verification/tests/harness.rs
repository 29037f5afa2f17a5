use std::time::Instant;

use delta_bench::harness::{
    into_case_result, run_case, run_case_with_setup, CaseExecutionResult, CaseOperation,
    CaseSetup, PreparedOperation,
};
use delta_bench::results::SampleMetrics;

struct CountingOp {
    calls: u32,
    fail_on: Option<u32>,
}

impl CaseOperation for CountingOp {
    fn run(&mut self) -> Result<SampleMetrics, String> {
        self.calls += 1;
        match self.fail_on {
            Some(n) if self.calls == n => Err("operation exploded".to_string()),
            _ => Ok(SampleMetrics::base(Some(7), Some(64), None, None)),
        }
    }
}

#[test]
fn run_case_collects_one_sample_per_iteration() {
    let mut op = CountingOp {
        calls: 0,
        fail_on: None,
    };
    let result = run_case("steady_case", 1, 5, &mut op);
    let case = match result {
        CaseExecutionResult::Success(case) => case,
        CaseExecutionResult::Failure(case) => panic!("unexpected failure: {:?}", case.failure),
    };
    assert_eq!(case.samples.len(), 5);
    assert!(case.success);
    assert_eq!(case.classification.as_str(), "supported");
    assert_eq!(op.calls, 6, "one warmup call plus five measured calls");
    assert!(case.samples.iter().all(|s| s.rows == Some(7)));
    assert!(case.samples.iter().all(|s| s.bytes == Some(64)));
}

#[test]
fn run_case_stops_at_first_measured_failure() {
    // One warmup call is discarded, so the second measured call is the
    // third call overall.
    let mut op = CountingOp {
        calls: 0,
        fail_on: Some(3),
    };
    let result = run_case("flaky_case", 1, 5, &mut op);
    let case = match result {
        CaseExecutionResult::Failure(case) => case,
        CaseExecutionResult::Success(case) => panic!("expected failure, got {:?}", case),
    };
    assert_eq!(case.samples.len(), 1);
    assert!(!case.success);
    assert_eq!(
        case.failure.as_ref().map(|f| f.message.as_str()),
        Some("operation exploded")
    );
}

struct SlowSetup;

impl CaseSetup<u8> for SlowSetup {
    fn prepare(&mut self) -> Result<u8, String> {
        let start = Instant::now();
        while start.elapsed().as_millis() < 25 {
            std::hint::spin_loop();
        }
        Ok(1)
    }
}

struct FastOp;

impl PreparedOperation<u8> for FastOp {
    fn run(&mut self, _input: u8) -> Result<SampleMetrics, String> {
        Ok(SampleMetrics::base(Some(1), None, None, None))
    }
}

#[test]
fn setup_delay_is_not_counted_in_iteration_elapsed_time() {
    let mut setup = SlowSetup;
    let mut op = FastOp;
    let result = run_case_with_setup("timing_case", 0, 1, &mut setup, &mut op);
    let case = match result {
        CaseExecutionResult::Success(case) => case,
        CaseExecutionResult::Failure(case) => panic!("unexpected failure: {:?}", case.failure),
    };
    assert_eq!(case.samples.len(), 1);
    assert!(
        case.samples[0].elapsed_us < 10_000,
        "setup delay leaked into measured time: {}us",
        case.samples[0].elapsed_us
    );
}

struct FailingSetup;

impl CaseSetup<u8> for FailingSetup {
    fn prepare(&mut self) -> Result<u8, String> {
        Err("fixture load failed".to_string())
    }
}

#[test]
fn setup_failure_during_measured_iteration_fails_the_case() {
    let mut setup = FailingSetup;
    let mut op = FastOp;
    let result = run_case_with_setup("setup_fails", 1, 3, &mut setup, &mut op);
    let case = into_case_result(result);
    assert!(!case.success);
    assert_eq!(case.samples.len(), 0);
    assert_eq!(
        case.failure.as_ref().map(|f| f.message.as_str()),
        Some("fixture load failed")
    );
}

struct NamedFailOp;

impl CaseOperation for NamedFailOp {
    fn run(&mut self) -> Result<SampleMetrics, String> {
        Err("engine said no".to_string())
    }
}

#[test]
fn runner_records_failures_and_continues() {
    // A failing case yields its own failed result; a sibling case run
    // afterwards is unaffected.
    let mut failing = NamedFailOp;
    let first = into_case_result(run_case("first_case", 0, 2, &mut failing));
    assert!(!first.success);

    let mut healthy = CountingOp {
        calls: 0,
        fail_on: None,
    };
    let second = into_case_result(run_case("second_case", 0, 2, &mut healthy));
    assert!(second.success);
    assert_eq!(second.samples.len(), 2);
}
