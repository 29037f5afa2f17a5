//! The out-of-process interop suite catalog, and the validation of the
//! settings its runtime is configured with.

use vstd::prelude::*;

use crate::error::{BenchError, BenchResult};
use crate::results::{parse_case_classification, spec_base_metrics, view_opt_string, Classification, SampleMetrics, SampleMetricsView};
use crate::strutil::spec_dec_digits;

verus! {

pub const DEFAULT_TIMEOUT_MS: u64 = 120000;

pub const DEFAULT_RETRIES: u32 = 1;

pub open spec fn spec_case_names() -> Seq<Seq<char>> {
    seq!["pandas_roundtrip_smoke"@, "polars_roundtrip_smoke"@, "pyarrow_dataset_scan_perf"@]
}

/// The suite's case names, in execution order.
pub fn case_names() -> (r: Vec<String>)
    ensures
        r.deep_view() == spec_case_names(),
{
    let mut v: Vec<String> = Vec::new();
    v.push("pandas_roundtrip_smoke".to_owned());
    v.push("polars_roundtrip_smoke".to_owned());
    v.push("pyarrow_dataset_scan_perf".to_owned());
    proof {
        assert(v.deep_view() =~= spec_case_names());
    }
    v
}

/// The validated out-of-process runtime settings: attempt timeout and
/// the retry bound.
#[derive(Clone, Copy, Debug, PartialEq, Eq, Structural)]
pub struct InteropRuntimeSettings {
    pub timeout_ms: u64,
    pub retries: u32,
}

/// Validates the raw runtime settings: a timeout of zero and a retry
/// count beyond u32 are rejected, each with its own error.
pub fn validate_interop_settings(timeout_ms: u64, retries: u64) -> (r: BenchResult<
    InteropRuntimeSettings,
>)
    ensures
        timeout_ms > 0 && retries <= u32::MAX ==> r == Ok::<InteropRuntimeSettings, BenchError>(
            InteropRuntimeSettings { timeout_ms, retries: retries as u32 },
        ),
        timeout_ms == 0 ==> (r matches Err(BenchError::InvalidArgument(m)) && m@
            == "DELTA_BENCH_INTEROP_TIMEOUT_MS must be > 0"@),
        timeout_ms > 0 && retries > u32::MAX ==> (r matches Err(BenchError::InvalidArgument(m))
            && m@ == "DELTA_BENCH_INTEROP_RETRIES is too large: "@
            + crate::strutil::spec_dec_digits(retries as nat)),
{
    if timeout_ms == 0 {
        return Err(BenchError::InvalidArgument("DELTA_BENCH_INTEROP_TIMEOUT_MS must be > 0".to_owned()));
    }
    if retries > u32::MAX as u64 {
        let mut m = String::new();
        m.append("DELTA_BENCH_INTEROP_RETRIES is too large: ");
        let text = crate::strutil::u64_to_string(retries);
        m.append(text.as_str());
        return Err(BenchError::InvalidArgument(m));
    }
    Ok(InteropRuntimeSettings { timeout_ms, retries: retries as u32 })
}


/// The structured output one out-of-process attempt prints on success.
#[derive(Clone, Debug, PartialEq)]
pub struct InteropCaseOutput {
    pub rows_processed: Option<u64>,
    pub bytes_processed: Option<u64>,
    pub operations: Option<u64>,
    pub table_version: Option<u64>,
    pub peak_rss_mb: Option<u64>,
    pub cpu_time_ms: Option<u64>,
    pub bytes_read: Option<u64>,
    pub bytes_written: Option<u64>,
    pub files_touched: Option<u64>,
    pub files_skipped: Option<u64>,
    pub spill_bytes: Option<u64>,
    pub result_hash: Option<String>,
    pub classification: String,
}

/// The sample metrics an accepted interop output normalizes to.
pub open spec fn spec_interop_metrics(out: InteropCaseOutput) -> SampleMetricsView {
    SampleMetricsView {
        peak_rss_mb: out.peak_rss_mb,
        cpu_time_ms: out.cpu_time_ms,
        bytes_read: out.bytes_read,
        bytes_written: out.bytes_written,
        files_touched: out.files_touched,
        files_skipped: out.files_skipped,
        spill_bytes: out.spill_bytes,
        result_hash: view_opt_string(out.result_hash),
        ..spec_base_metrics(
            out.rows_processed,
            out.bytes_processed,
            out.operations,
            out.table_version,
        )
    }
}

pub open spec fn spec_interop_parse_error(case: Seq<char>, detail: Seq<char>) -> Seq<char> {
    "failed to parse interop output for case '"@ + case + "': "@ + detail
}

/// Validates an attempt's structured output: its classification must be
/// one of the closed values, else the attempt is a failure (never a
/// silent coercion); on success the counters are normalized into sample
/// metrics, and the reported classification is returned beside them.
pub fn validate_interop_output(case: &str, output: &InteropCaseOutput) -> (r: BenchResult<
    (SampleMetrics, Classification),
>)
    ensures
        (output.classification@ == "supported"@ || output.classification@ == "expected_failure"@)
            <==> r is Ok,
        r matches Ok(p) ==> p.0@ == spec_interop_metrics(*output) && p.1.spec_str()
            == output.classification@,
        r matches Err(e) ==> (e matches BenchError::InvalidArgument(m) && m@
            == spec_interop_parse_error(
            case@,
            crate::results::spec_classification_error(output.classification@),
        )),
{
    match parse_case_classification(output.classification.as_str()) {
        Ok(classification) => {
            let metrics = SampleMetrics::base(
                output.rows_processed,
                output.bytes_processed,
                output.operations,
                output.table_version,
            ).with_runtime_io_metrics(
                output.peak_rss_mb,
                output.cpu_time_ms,
                output.bytes_read,
                output.bytes_written,
                output.files_touched,
                output.files_skipped,
                output.spill_bytes,
                output.result_hash.clone(),
            );
            proof {
                assert(metrics@ == spec_interop_metrics(*output));
            }
            Ok((metrics, classification))
        },
        Err(detail) => {
            let mut m = String::new();
            m.append("failed to parse interop output for case '");
            m.append(case);
            m.append("': ");
            m.append(detail.as_str());
            Err(BenchError::InvalidArgument(m))
        },
    }
}

/// What one out-of-process attempt came back with: its validated
/// output, a fired timeout (the process was killed), or a failure text.
pub enum AttemptOutcome {
    Completed(InteropCaseOutput),
    TimedOut,
    Failed(String),
}

/// What the retry machine does next: accept the attempt's metrics, run
/// another attempt, or stop with a terminal failure.
#[derive(Debug, PartialEq)]
pub enum RetryDecision {
    Accept(SampleMetrics, Classification),
    Retry,
    Fail(String),
}

pub open spec fn spec_timeout_error(case: Seq<char>, timeout_ms: u64) -> Seq<char> {
    "interop case '"@ + case + "' timed out after "@ + spec_dec_digits(timeout_ms as nat)
        + " ms"@
}

pub open spec fn spec_attempts_exhausted_error(
    case: Seq<char>,
    max_attempts: u32,
    detail: Seq<char>,
) -> Seq<char> {
    "interop case '"@ + case + "' failed after "@ + spec_dec_digits(max_attempts as nat)
        + " attempt(s): "@ + detail
}

/// The error one failed attempt carries into the retry decision.
pub open spec fn spec_attempt_error(
    case: Seq<char>,
    outcome: AttemptOutcome,
    timeout_ms: u64,
) -> Seq<char> {
    match outcome {
        AttemptOutcome::Completed(out) => spec_interop_parse_error(
            case,
            crate::results::spec_classification_error(out.classification@),
        ),
        AttemptOutcome::TimedOut => spec_timeout_error(case, timeout_ms),
        AttemptOutcome::Failed(detail) => detail@,
    }
}

/// One step of the retry machine. A valid completed attempt is accepted
/// whatever the attempt count; any failing attempt (a timeout, a process
/// failure, or malformed output) is retried while attempts remain, and
/// otherwise ends the case with an error naming the attempt count.
pub fn interop_attempt_decision(
    case: &str,
    attempt: u32,
    max_attempts: u32,
    outcome: AttemptOutcome,
    timeout_ms: u64,
) -> (r: RetryDecision)
    requires
        1 <= attempt <= max_attempts,
    ensures
        ({
            let valid = outcome matches AttemptOutcome::Completed(out) && (out.classification@
                == "supported"@ || out.classification@ == "expected_failure"@);
            &&& (valid ==> (r matches RetryDecision::Accept(m, c)
                && outcome matches AttemptOutcome::Completed(out) && m@ == spec_interop_metrics(
                out,
            ) && c.spec_str() == out.classification@))
            &&& (!valid && attempt < max_attempts ==> r == RetryDecision::Retry)
            &&& (!valid && attempt == max_attempts ==> (r matches RetryDecision::Fail(m) && m@
                == spec_attempts_exhausted_error(
                case@,
                max_attempts,
                spec_attempt_error(case@, outcome, timeout_ms),
            )))
        }),
{
    let error_text: String = match &outcome {
        AttemptOutcome::Completed(out) => {
            match validate_interop_output(case, out) {
                Ok((metrics, classification)) => {
                    return RetryDecision::Accept(metrics, classification);
                },
                Err(e) => match e {
                    BenchError::InvalidArgument(m) => m,
                    _ => {
                        return RetryDecision::Retry;
                    },
                },
            }
        },
        AttemptOutcome::TimedOut => {
            let mut m = String::new();
            m.append("interop case '");
            m.append(case);
            m.append("' timed out after ");
            let t = crate::strutil::u64_to_string(timeout_ms);
            m.append(t.as_str());
            m.append(" ms");
            m
        },
        AttemptOutcome::Failed(detail) => detail.clone(),
    };
    if attempt < max_attempts {
        RetryDecision::Retry
    } else {
        let mut m = String::new();
        m.append("interop case '");
        m.append(case);
        m.append("' failed after ");
        let n = crate::strutil::u64_to_string(max_attempts as u64);
        m.append(n.as_str());
        m.append(" attempt(s): ");
        m.append(error_text.as_str());
        RetryDecision::Fail(m)
    }
}

} // verus!

