//! The execution harness: runs one case's warmup and measured iterations,
//! timing only the operation itself, and stops at the first measured
//! failure so that one case's failure never aborts its siblings.

use vstd::prelude::*;

use crate::results::{
    CaseFailure, CaseResult, CaseResultView, Classification, IterationSample, SampleMetrics,
};

verus! {

#[verifier::external_type_specification]
#[verifier::external_body]
pub struct ExInstant(std::time::Instant);

/// Relies on std::time::Instant::now: an opaque reading of a monotonic
/// clock; nothing is promised of its value.
#[verifier::external_body]
fn clock_now() -> std::time::Instant {
    std::time::Instant::now()
}

/// Relies on std::time::Instant::elapsed: the wall time since `start`,
/// converted to whole microseconds; nothing is promised of its value.
#[verifier::external_body]
fn elapsed_micros(start: &std::time::Instant) -> u64 {
    u64::try_from(start.elapsed().as_micros()).unwrap_or(u64::MAX)
}

/// One benchmark operation, supplied by the caller. Nothing is assumed of
/// its behaviour: it may fail on any call, and the harness states what
/// holds of the result whatever came back.
pub trait CaseOperation {
    fn run(&mut self) -> Result<SampleMetrics, String>;
}

/// A per-iteration setup step whose cost must stay out of the measured
/// time; its product is handed to the operation.
pub trait CaseSetup<S> {
    fn prepare(&mut self) -> Result<S, String>;
}

/// A benchmark operation that consumes what the setup step prepared.
pub trait PreparedOperation<S> {
    fn run(&mut self, input: S) -> Result<SampleMetrics, String>;
}

/// Success and failure wrap the same case-result record, so callers
/// pattern-match on the outcome without needing two payload types.
#[derive(Clone, Debug)]
#[must_use]
pub enum CaseExecutionResult {
    Success(CaseResult),
    Failure(CaseResult),
}

impl View for CaseExecutionResult {
    type V = CaseResultView;

    open spec fn view(&self) -> CaseResultView {
        match self {
            CaseExecutionResult::Success(c) => c@,
            CaseExecutionResult::Failure(c) => c@,
        }
    }
}

/// Unwraps either arm to the case record it carries.
pub fn into_case_result(r: CaseExecutionResult) -> (c: CaseResult)
    ensures
        c@ == r@,
{
    match r {
        CaseExecutionResult::Success(c) => c,
        CaseExecutionResult::Failure(c) => c,
    }
}

/// A sample's top-level row/byte counts agree with its metrics record.
pub open spec fn spec_sample_matches_metrics(s: crate::results::IterationSampleView) -> bool {
    match s.metrics {
        Some(m) => s.rows == m.rows_processed && s.bytes == m.bytes_processed,
        None => false,
    }
}

/// What the harness guarantees of a finished case, whatever the
/// operation (and setup, if any) did on each call.
pub open spec fn spec_harness_contract(
    r: CaseExecutionResult,
    name: Seq<char>,
    iterations: u32,
) -> bool {
    &&& r@.case == name
    &&& r@.classification == Classification::Supported
    &&& r@.samples.len() <= iterations
    &&& forall|i: int| 0 <= i < r@.samples.len() ==> spec_sample_matches_metrics(#[trigger] r@.samples[i])
    &&& (r is Success <==> r@.success)
    &&& (r@.success ==> r@.samples.len() == iterations && r@.failure is None)
    &&& (!r@.success ==> r@.failure is Some && r@.samples.len() < iterations)
}

/// Runs `op` `warmup` times discarding outcome and timing, then up to
/// `iterations` measured times; the first measured error stops the case
/// with the samples collected so far and that error as the failure.
pub fn run_case<F: CaseOperation>(name: &str, warmup: u32, iterations: u32, op: &mut F) -> (r:
    CaseExecutionResult)
    ensures
        spec_harness_contract(r, name@, iterations),
{
    let mut w: u32 = 0;
    while w < warmup
        decreases warmup - w,
    {
        let _ = op.run();
        w += 1;
    }

    let mut samples: Vec<IterationSample> = Vec::new();
    let mut i: u32 = 0;
    while i < iterations
        invariant
            i <= iterations,
            samples@.len() == i as nat,
            forall|k: int|
                0 <= k < samples@.len() ==> spec_sample_matches_metrics(
                    #[trigger] samples.deep_view()[k],
                ),
        decreases iterations - i,
    {
        let start = clock_now();
        match op.run() {
            Ok(metrics) => {
                let elapsed_us = elapsed_micros(&start);
                let rows = metrics.rows_processed;
                let bytes = metrics.bytes_processed;
                let sample = IterationSample { elapsed_us, rows, bytes, metrics: Some(metrics) };
                proof {
                    let ghost prev = samples.deep_view();
                    let ghost sv = sample@;
                    assert(spec_sample_matches_metrics(sv));
                }
                let ghost prev = samples.deep_view();
                let ghost sv = sample@;
                samples.push(sample);
                proof {
                    assert(samples.deep_view() =~= prev.push(sv));
                }
            },
            Err(e) => {
                return CaseExecutionResult::Failure(
                    CaseResult {
                        case: name.to_owned(),
                        success: false,
                        classification: Classification::Supported,
                        samples,
                        failure: Some(CaseFailure { message: e }),
                    },
                );
            },
        }
        i += 1;
    }

    CaseExecutionResult::Success(
        CaseResult {
            case: name.to_owned(),
            success: true,
            classification: Classification::Supported,
            samples,
            failure: None,
        },
    )
}

/// The setup-isolated variant: `setup` runs once per iteration (and once
/// per warmup round, tolerating warmup setup failure) strictly before the
/// clock starts, so its cost is excluded from the measured time. A setup
/// failure during a measured iteration fails the case immediately.
pub fn run_case_with_setup<S, SF: CaseSetup<S>, F: PreparedOperation<S>>(
    name: &str,
    warmup: u32,
    iterations: u32,
    setup: &mut SF,
    op: &mut F,
) -> (r: CaseExecutionResult)
    ensures
        spec_harness_contract(r, name@, iterations),
{
    let mut w: u32 = 0;
    while w < warmup
        decreases warmup - w,
    {
        match setup.prepare() {
            Ok(input) => {
                let _ = op.run(input);
            },
            Err(_) => {},
        }
        w += 1;
    }

    let mut samples: Vec<IterationSample> = Vec::new();
    let mut i: u32 = 0;
    while i < iterations
        invariant
            i <= iterations,
            samples@.len() == i as nat,
            forall|k: int|
                0 <= k < samples@.len() ==> spec_sample_matches_metrics(
                    #[trigger] samples.deep_view()[k],
                ),
        decreases iterations - i,
    {
        let input = match setup.prepare() {
            Ok(input) => input,
            Err(e) => {
                return CaseExecutionResult::Failure(
                    CaseResult {
                        case: name.to_owned(),
                        success: false,
                        classification: Classification::Supported,
                        samples,
                        failure: Some(CaseFailure { message: e }),
                    },
                );
            },
        };
        let start = clock_now();
        match op.run(input) {
            Ok(metrics) => {
                let elapsed_us = elapsed_micros(&start);
                let rows = metrics.rows_processed;
                let bytes = metrics.bytes_processed;
                let sample = IterationSample { elapsed_us, rows, bytes, metrics: Some(metrics) };
                proof {
                    let ghost prev = samples.deep_view();
                    let ghost sv = sample@;
                    assert(spec_sample_matches_metrics(sv));
                }
                let ghost prev = samples.deep_view();
                let ghost sv = sample@;
                samples.push(sample);
                proof {
                    assert(samples.deep_view() =~= prev.push(sv));
                }
            },
            Err(e) => {
                return CaseExecutionResult::Failure(
                    CaseResult {
                        case: name.to_owned(),
                        success: false,
                        classification: Classification::Supported,
                        samples,
                        failure: Some(CaseFailure { message: e }),
                    },
                );
            },
        }
        i += 1;
    }

    CaseExecutionResult::Success(
        CaseResult {
            case: name.to_owned(),
            success: true,
            classification: Classification::Supported,
            samples,
            failure: None,
        },
    )
}

} // verus!
