//! The versioned result data model: per-sample metrics, per-case results,
//! the run context, and the closed classification enumeration with its
//! strict parser.

use vstd::prelude::*;

use crate::strutil::str_eq;

verus! {

/// The single schema version this build reads and writes.
pub const SUPPORTED_SCHEMA_VERSION: u32 = 2;

/// Whether a case's outcome is ordinary ("supported") or an
/// intentionally-expected failure ("expected_failure").
#[derive(Clone, Copy, Debug, PartialEq, Eq, Structural)]
pub enum Classification {
    Supported,
    ExpectedFailure,
}

impl Classification {
    pub open spec fn spec_str(self) -> Seq<char> {
        match self {
            Classification::Supported => "supported"@,
            Classification::ExpectedFailure => "expected_failure"@,
        }
    }

    pub fn as_str(self) -> (r: &'static str)
        ensures
            r@ == self.spec_str(),
    {
        match self {
            Classification::Supported => "supported",
            Classification::ExpectedFailure => "expected_failure",
        }
    }
}

pub open spec fn spec_classification_error(value: Seq<char>) -> Seq<char> {
    "classification must be one of: supported, expected_failure (found "@ + value + ")"@
}

/// Strict parser for the closed classification set: any string other than
/// the two allowed values is rejected with an error naming it.
pub fn parse_case_classification(value: &str) -> (r: Result<Classification, String>)
    ensures
        value@ == "supported"@ ==> r == Ok::<Classification, String>(Classification::Supported),
        value@ == "expected_failure"@ ==> r == Ok::<Classification, String>(
            Classification::ExpectedFailure,
        ),
        value@ != "supported"@ && value@ != "expected_failure"@ ==> r is Err
            && r->Err_0@ == spec_classification_error(value@),
{
    proof {
        reveal_strlit("supported");
        reveal_strlit("expected_failure");
        assert("supported"@.len() == 9);
        assert("expected_failure"@.len() == 16);
    }
    if str_eq(value, "supported") {
        Ok(Classification::Supported)
    } else if str_eq(value, "expected_failure") {
        Ok(Classification::ExpectedFailure)
    } else {
        let mut m = String::new();
        m.append("classification must be one of: supported, expected_failure (found ");
        m.append(value);
        m.append(")");
        Err(m)
    }
}

/// Accepts exactly the closed classification values.
pub fn validate_case_classification(value: &str) -> (r: Result<(), String>)
    ensures
        (value@ == "supported"@ || value@ == "expected_failure"@) <==> r is Ok,
        r is Err ==> r->Err_0@ == spec_classification_error(value@),
{
    match parse_case_classification(value) {
        Ok(_) => Ok(()),
        Err(e) => Err(e),
    }
}

/// The mathematical value of a `SampleMetrics`.
pub struct SampleMetricsView {
    pub rows_processed: Option<u64>,
    pub bytes_processed: Option<u64>,
    pub operations: Option<u64>,
    pub table_version: Option<u64>,
    pub files_scanned: Option<u64>,
    pub files_pruned: Option<u64>,
    pub bytes_scanned: Option<u64>,
    pub scan_time_ms: Option<u64>,
    pub rewrite_time_ms: Option<u64>,
    pub peak_rss_mb: Option<u64>,
    pub cpu_time_ms: Option<u64>,
    pub bytes_read: Option<u64>,
    pub bytes_written: Option<u64>,
    pub files_touched: Option<u64>,
    pub files_skipped: Option<u64>,
    pub spill_bytes: Option<u64>,
    pub result_hash: Option<Seq<char>>,
}

/// A flat set of independently-nullable counters for one measured
/// iteration; absence of one field never implies absence of another.
#[derive(Clone, Debug, PartialEq)]
pub struct SampleMetrics {
    pub rows_processed: Option<u64>,
    pub bytes_processed: Option<u64>,
    pub operations: Option<u64>,
    pub table_version: Option<u64>,
    pub files_scanned: Option<u64>,
    pub files_pruned: Option<u64>,
    pub bytes_scanned: Option<u64>,
    pub scan_time_ms: Option<u64>,
    pub rewrite_time_ms: Option<u64>,
    pub peak_rss_mb: Option<u64>,
    pub cpu_time_ms: Option<u64>,
    pub bytes_read: Option<u64>,
    pub bytes_written: Option<u64>,
    pub files_touched: Option<u64>,
    pub files_skipped: Option<u64>,
    pub spill_bytes: Option<u64>,
    pub result_hash: Option<String>,
}

pub open spec fn view_opt_string(s: Option<String>) -> Option<Seq<char>> {
    match s {
        Some(v) => Some(v@),
        None => None,
    }
}

impl View for SampleMetrics {
    type V = SampleMetricsView;

    open spec fn view(&self) -> SampleMetricsView {
        SampleMetricsView {
            rows_processed: self.rows_processed,
            bytes_processed: self.bytes_processed,
            operations: self.operations,
            table_version: self.table_version,
            files_scanned: self.files_scanned,
            files_pruned: self.files_pruned,
            bytes_scanned: self.bytes_scanned,
            scan_time_ms: self.scan_time_ms,
            rewrite_time_ms: self.rewrite_time_ms,
            peak_rss_mb: self.peak_rss_mb,
            cpu_time_ms: self.cpu_time_ms,
            bytes_read: self.bytes_read,
            bytes_written: self.bytes_written,
            files_touched: self.files_touched,
            files_skipped: self.files_skipped,
            spill_bytes: self.spill_bytes,
            result_hash: view_opt_string(self.result_hash),
        }
    }
}

pub open spec fn spec_base_metrics(
    rows_processed: Option<u64>,
    bytes_processed: Option<u64>,
    operations: Option<u64>,
    table_version: Option<u64>,
) -> SampleMetricsView {
    SampleMetricsView {
        rows_processed,
        bytes_processed,
        operations,
        table_version,
        files_scanned: None,
        files_pruned: None,
        bytes_scanned: None,
        scan_time_ms: None,
        rewrite_time_ms: None,
        peak_rss_mb: None,
        cpu_time_ms: None,
        bytes_read: None,
        bytes_written: None,
        files_touched: None,
        files_skipped: None,
        spill_bytes: None,
        result_hash: None,
    }
}

impl SampleMetrics {
    /// The base counters alone; every scan/rewrite and runtime/IO counter
    /// defaults to absent.
    pub fn base(
        rows_processed: Option<u64>,
        bytes_processed: Option<u64>,
        operations: Option<u64>,
        table_version: Option<u64>,
    ) -> (r: SampleMetrics)
        ensures
            r@ == spec_base_metrics(rows_processed, bytes_processed, operations, table_version),
    {
        SampleMetrics {
            rows_processed,
            bytes_processed,
            operations,
            table_version,
            files_scanned: None,
            files_pruned: None,
            bytes_scanned: None,
            scan_time_ms: None,
            rewrite_time_ms: None,
            peak_rss_mb: None,
            cpu_time_ms: None,
            bytes_read: None,
            bytes_written: None,
            files_touched: None,
            files_skipped: None,
            spill_bytes: None,
            result_hash: None,
        }
    }

    /// Replaces the scan/rewrite counter group, leaving every other field
    /// untouched.
    pub fn with_scan_rewrite_metrics(
        self,
        files_scanned: Option<u64>,
        files_pruned: Option<u64>,
        bytes_scanned: Option<u64>,
        scan_time_ms: Option<u64>,
        rewrite_time_ms: Option<u64>,
    ) -> (r: SampleMetrics)
        ensures
            r@ == (SampleMetricsView {
                files_scanned,
                files_pruned,
                bytes_scanned,
                scan_time_ms,
                rewrite_time_ms,
                ..self@
            }),
    {
        let mut out = self;
        out.files_scanned = files_scanned;
        out.files_pruned = files_pruned;
        out.bytes_scanned = bytes_scanned;
        out.scan_time_ms = scan_time_ms;
        out.rewrite_time_ms = rewrite_time_ms;
        out
    }

    /// Replaces the runtime/IO counter group, leaving every other field
    /// untouched.
    pub fn with_runtime_io_metrics(
        self,
        peak_rss_mb: Option<u64>,
        cpu_time_ms: Option<u64>,
        bytes_read: Option<u64>,
        bytes_written: Option<u64>,
        files_touched: Option<u64>,
        files_skipped: Option<u64>,
        spill_bytes: Option<u64>,
        result_hash: Option<String>,
    ) -> (r: SampleMetrics)
        ensures
            r@ == (SampleMetricsView {
                peak_rss_mb,
                cpu_time_ms,
                bytes_read,
                bytes_written,
                files_touched,
                files_skipped,
                spill_bytes,
                result_hash: view_opt_string(result_hash),
                ..self@
            }),
    {
        let mut out = self;
        out.peak_rss_mb = peak_rss_mb;
        out.cpu_time_ms = cpu_time_ms;
        out.bytes_read = bytes_read;
        out.bytes_written = bytes_written;
        out.files_touched = files_touched;
        out.files_skipped = files_skipped;
        out.spill_bytes = spill_bytes;
        out.result_hash = result_hash;
        out
    }
}

impl From<u64> for SampleMetrics {
    fn from(rows: u64) -> (r: SampleMetrics) {
        SampleMetrics::base(Some(rows), None, None, None)
    }
}

impl vstd::std_specs::convert::FromSpecImpl<u64> for SampleMetrics {
    open spec fn obeys_from_spec() -> bool {
        true
    }

    open spec fn from_spec(rows: u64) -> SampleMetrics {
        SampleMetrics {
            rows_processed: Some(rows),
            bytes_processed: None,
            operations: None,
            table_version: None,
            files_scanned: None,
            files_pruned: None,
            bytes_scanned: None,
            scan_time_ms: None,
            rewrite_time_ms: None,
            peak_rss_mb: None,
            cpu_time_ms: None,
            bytes_read: None,
            bytes_written: None,
            files_touched: None,
            files_skipped: None,
            spill_bytes: None,
            result_hash: None,
        }
    }
}

/// The mathematical value of an `IterationSample`.
pub struct IterationSampleView {
    pub elapsed_us: u64,
    pub rows: Option<u64>,
    pub bytes: Option<u64>,
    pub metrics: Option<SampleMetricsView>,
}

/// One measured iteration: the measured-operation wall time in whole
/// microseconds, with the row/byte counts taken from the operation's
/// returned metrics.
#[derive(Clone, Debug, PartialEq)]
pub struct IterationSample {
    pub elapsed_us: u64,
    pub rows: Option<u64>,
    pub bytes: Option<u64>,
    pub metrics: Option<SampleMetrics>,
}

impl DeepView for IterationSample {
    type V = IterationSampleView;

    open spec fn deep_view(&self) -> IterationSampleView {
        self.view()
    }
}

impl View for IterationSample {
    type V = IterationSampleView;

    open spec fn view(&self) -> IterationSampleView {
        IterationSampleView {
            elapsed_us: self.elapsed_us,
            rows: self.rows,
            bytes: self.bytes,
            metrics: match self.metrics {
                Some(m) => Some(m@),
                None => None,
            },
        }
    }
}

/// The failure payload of a case: its stringified error.
#[derive(Clone, Debug, PartialEq)]
pub struct CaseFailure {
    pub message: String,
}

impl View for CaseFailure {
    type V = Seq<char>;

    open spec fn view(&self) -> Seq<char> {
        self.message@
    }
}

/// The mathematical value of a `CaseResult`.
pub struct CaseResultView {
    pub case: Seq<char>,
    pub success: bool,
    pub classification: Classification,
    pub samples: Seq<IterationSampleView>,
    pub failure: Option<Seq<char>>,
}

/// The outcome of one benchmark case: name, success flag, classification,
/// the ordered samples, and the failure payload if any.
#[derive(Clone, Debug, PartialEq)]
pub struct CaseResult {
    pub case: String,
    pub success: bool,
    pub classification: Classification,
    pub samples: Vec<IterationSample>,
    pub failure: Option<CaseFailure>,
}

impl DeepView for CaseResult {
    type V = CaseResultView;

    open spec fn deep_view(&self) -> CaseResultView {
        self.view()
    }
}

impl View for CaseResult {
    type V = CaseResultView;

    open spec fn view(&self) -> CaseResultView {
        CaseResultView {
            case: self.case@,
            success: self.success,
            classification: self.classification,
            samples: self.samples.deep_view(),
            failure: match self.failure {
                Some(f) => Some(f.message@),
                None => None,
            },
        }
    }
}

/// Run metadata. The machine-fidelity fields are carried, not interpreted;
/// the CPU-steal percentage is kept as the decimal text it was measured as.
#[derive(Clone, Debug, PartialEq)]
pub struct BenchContext {
    pub schema_version: u32,
    pub label: String,
    pub git_sha: Option<String>,
    pub created_at: String,
    pub host: String,
    pub suite: String,
    pub scale: String,
    pub iterations: u32,
    pub warmup: u32,
    pub dataset_id: Option<String>,
    pub dataset_fingerprint: Option<String>,
    pub runner: Option<String>,
    pub backend_profile: Option<String>,
    pub image_version: Option<String>,
    pub hardening_profile_id: Option<String>,
    pub hardening_profile_sha256: Option<String>,
    pub cpu_model: Option<String>,
    pub cpu_microcode: Option<String>,
    pub kernel: Option<String>,
    pub boot_params: Option<String>,
    pub cpu_steal_pct: Option<String>,
    pub numa_topology: Option<String>,
    pub egress_policy_sha256: Option<String>,
    pub run_mode: Option<String>,
    pub maintenance_window_id: Option<String>,
}

/// The externally persisted artifact of one run.
#[derive(Clone, Debug, PartialEq)]
pub struct BenchRunResult {
    pub schema_version: u32,
    pub context: BenchContext,
    pub cases: Vec<CaseResult>,
}

} // verus!
