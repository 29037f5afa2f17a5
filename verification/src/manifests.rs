//! The declarative benchmark manifest model: a versioned document of
//! cases, each with a target, a runner tag, an enabled flag and declared
//! assertions; and the closed dataset catalog.

use vstd::prelude::*;

use crate::assertions::CaseAssertion;
use crate::error::{BenchError, BenchResult};
use crate::strutil::str_eq;

verus! {

pub const DEFAULT_RUST_MANIFEST_PATH: &'static str = "bench/manifests/p0-rust.yaml";

pub const DEFAULT_PYTHON_MANIFEST_PATH: &'static str = "bench/manifests/p0-python.yaml";

/// The mathematical value of a `BenchmarkManifest`.
pub struct BenchmarkManifestView {
    pub id: Seq<char>,
    pub description: Seq<char>,
    pub cases: Seq<ManifestCaseView>,
}

/// The mathematical value of a `ManifestCase`; assertions are viewed as
/// the engine assertions they resolve to.
pub struct ManifestCaseView {
    pub id: Seq<char>,
    pub target: Seq<char>,
    pub runner: Seq<char>,
    pub enabled: bool,
    pub assertions: Seq<crate::assertions::CaseAssertionView>,
}

/// An ordered manifest document.
#[derive(Clone, Debug, PartialEq)]
pub struct BenchmarkManifest {
    pub id: String,
    pub description: String,
    pub cases: Vec<ManifestCase>,
}

/// One declared case; `id` must be unique within a manifest.
#[derive(Clone, Debug, PartialEq)]
pub struct ManifestCase {
    pub id: String,
    pub target: String,
    pub runner: String,
    pub enabled: bool,
    pub assertions: Vec<ManifestAssertion>,
}

impl DeepView for ManifestAssertion {
    type V = crate::assertions::CaseAssertionView;

    open spec fn deep_view(&self) -> crate::assertions::CaseAssertionView {
        self.spec_to_case_assertion()
    }
}

impl View for ManifestCase {
    type V = ManifestCaseView;

    open spec fn view(&self) -> ManifestCaseView {
        ManifestCaseView {
            id: self.id@,
            target: self.target@,
            runner: self.runner@,
            enabled: self.enabled,
            assertions: self.assertions.deep_view(),
        }
    }
}

impl DeepView for ManifestCase {
    type V = ManifestCaseView;

    open spec fn deep_view(&self) -> ManifestCaseView {
        self.view()
    }
}

impl View for BenchmarkManifest {
    type V = BenchmarkManifestView;

    open spec fn view(&self) -> BenchmarkManifestView {
        BenchmarkManifestView {
            id: self.id@,
            description: self.description@,
            cases: self.cases.deep_view(),
        }
    }
}

/// The default for a case's `enabled` flag when a manifest omits it.
pub fn default_enabled() -> (r: bool)
    ensures
        r,
{
    true
}

/// The default for a case's `runner` tag when a manifest omits it.
pub fn default_runner() -> (r: String)
    ensures
        r@ == "rust"@,
{
    let mut s = String::new();
    s.append("rust");
    s
}

/// A tagged assertion declaration as a manifest writes it.
#[derive(Clone, Debug, PartialEq)]
pub enum ManifestAssertion {
    ExactResultHash { value: String },
    SchemaHash { value: String },
    ExpectedErrorContains { value: String },
    VersionMonotonicity,
}

impl ManifestAssertion {
    pub open spec fn spec_to_case_assertion(&self) -> crate::assertions::CaseAssertionView {
        match self {
            ManifestAssertion::ExactResultHash { value } =>
                crate::assertions::CaseAssertionView::ExactResultHash(value@),
            ManifestAssertion::SchemaHash { value } =>
                crate::assertions::CaseAssertionView::SchemaHash(value@),
            ManifestAssertion::ExpectedErrorContains { value } =>
                crate::assertions::CaseAssertionView::ExpectedErrorContains(value@),
            ManifestAssertion::VersionMonotonicity =>
                crate::assertions::CaseAssertionView::VersionMonotonicity,
        }
    }

    /// Resolves the declaration to the engine's assertion value.
    pub fn to_case_assertion(&self) -> (r: CaseAssertion)
        ensures
            r@ == self.spec_to_case_assertion(),
    {
        match self {
            ManifestAssertion::ExactResultHash { value } => CaseAssertion::ExactResultHash(
                value.clone(),
            ),
            ManifestAssertion::SchemaHash { value } => CaseAssertion::SchemaHash(value.clone()),
            ManifestAssertion::ExpectedErrorContains { value } =>
                CaseAssertion::ExpectedErrorContains(value.clone()),
            ManifestAssertion::VersionMonotonicity => CaseAssertion::VersionMonotonicity,
        }
    }
}

/// The closed catalog of prebuilt dataset scenarios.
#[derive(Clone, Copy, Debug, Eq, PartialEq, Structural)]
pub enum DatasetId {
    TinySmoke,
    MediumSelective,
    SmallFiles,
    ManyVersions,
}

pub open spec fn spec_unknown_dataset_error(value: Seq<char>) -> Seq<char> {
    "unknown dataset_id '"@ + value
        + "' (expected one of: tiny_smoke, medium_selective, small_files, many_versions)"@
}

impl DatasetId {
    pub open spec fn spec_str(self) -> Seq<char> {
        match self {
            DatasetId::TinySmoke => "tiny_smoke"@,
            DatasetId::MediumSelective => "medium_selective"@,
            DatasetId::SmallFiles => "small_files"@,
            DatasetId::ManyVersions => "many_versions"@,
        }
    }

    /// Parses a dataset id; exactly the four catalogued names are
    /// accepted, anything else is an invalid-argument error naming it.
    pub fn parse(value: &str) -> (r: BenchResult<DatasetId>)
        ensures
            value@ == "tiny_smoke"@ ==> r == Ok::<DatasetId, BenchError>(DatasetId::TinySmoke),
            value@ == "medium_selective"@ ==> r == Ok::<DatasetId, BenchError>(
                DatasetId::MediumSelective,
            ),
            value@ == "small_files"@ ==> r == Ok::<DatasetId, BenchError>(DatasetId::SmallFiles),
            value@ == "many_versions"@ ==> r == Ok::<DatasetId, BenchError>(
                DatasetId::ManyVersions,
            ),
            (value@ != "tiny_smoke"@ && value@ != "medium_selective"@ && value@ != "small_files"@
                && value@ != "many_versions"@) ==> (r matches Err(BenchError::InvalidArgument(m))
                && m@ == spec_unknown_dataset_error(value@)),
    {
        proof {
            reveal_strlit("tiny_smoke");
            reveal_strlit("medium_selective");
            reveal_strlit("small_files");
            reveal_strlit("many_versions");
            assert("tiny_smoke"@.len() == 10);
            assert("medium_selective"@.len() == 16);
            assert("small_files"@.len() == 11);
            assert("many_versions"@.len() == 13);
        }
        if str_eq(value, "tiny_smoke") {
            Ok(DatasetId::TinySmoke)
        } else if str_eq(value, "medium_selective") {
            Ok(DatasetId::MediumSelective)
        } else if str_eq(value, "small_files") {
            Ok(DatasetId::SmallFiles)
        } else if str_eq(value, "many_versions") {
            Ok(DatasetId::ManyVersions)
        } else {
            let mut m = String::new();
            m.append("unknown dataset_id '");
            m.append(value);
            m.append("' (expected one of: tiny_smoke, medium_selective, small_files, many_versions)");
            Err(BenchError::InvalidArgument(m))
        }
    }

    /// The canonical name of the dataset.
    pub fn as_str(self) -> (r: &'static str)
        ensures
            r@ == self.spec_str(),
    {
        match self {
            DatasetId::TinySmoke => "tiny_smoke",
            DatasetId::MediumSelective => "medium_selective",
            DatasetId::SmallFiles => "small_files",
            DatasetId::ManyVersions => "many_versions",
        }
    }

    pub open spec fn spec_scale(self) -> Seq<char> {
        match self {
            DatasetId::TinySmoke => "sf1"@,
            DatasetId::MediumSelective => "sf10"@,
            DatasetId::SmallFiles => "sf1"@,
            DatasetId::ManyVersions => "sf1"@,
        }
    }

    /// The scale each scenario maps to; suites derive the data shape.
    pub fn scale(self) -> (r: &'static str)
        ensures
            r@ == self.spec_scale(),
    {
        match self {
            DatasetId::TinySmoke => "sf1",
            DatasetId::MediumSelective => "sf10",
            DatasetId::SmallFiles => "sf1",
            DatasetId::ManyVersions => "sf1",
        }
    }
}

} // verus!
