//! The TPC-DS phase-one query catalog: which queries run, which are
//! deliberately skipped, and the case names they produce.

use vstd::prelude::*;

verus! {

/// The mathematical value of a `TpcdsQuerySpec`.
pub struct TpcdsQuerySpecView {
    pub id: Seq<char>,
    pub sql_file: Seq<char>,
    pub enabled: bool,
    pub skip_reason: Option<Seq<char>>,
}

/// One catalogued query: its id, the file its SQL lives in, whether it
/// runs in this phase, and the reason if it deliberately does not.
#[derive(Clone, Copy, Debug, PartialEq, Eq)]
pub struct TpcdsQuerySpec {
    pub id: &'static str,
    pub sql_file: &'static str,
    pub enabled: bool,
    pub skip_reason: Option<&'static str>,
}

impl View for TpcdsQuerySpec {
    type V = TpcdsQuerySpecView;

    open spec fn view(&self) -> TpcdsQuerySpecView {
        TpcdsQuerySpecView {
            id: self.id@,
            sql_file: self.sql_file@,
            enabled: self.enabled,
            skip_reason: match self.skip_reason {
                Some(r) => Some(r@),
                None => None,
            },
        }
    }
}

impl DeepView for TpcdsQuerySpec {
    type V = TpcdsQuerySpecView;

    open spec fn deep_view(&self) -> TpcdsQuerySpecView {
        self.view()
    }
}

pub open spec fn spec_phase1_query_catalog() -> Seq<TpcdsQuerySpecView> {
    seq![
        TpcdsQuerySpecView { id: "q03"@, sql_file: "q03.sql"@, enabled: true, skip_reason: None },
        TpcdsQuerySpecView { id: "q07"@, sql_file: "q07.sql"@, enabled: true, skip_reason: None },
        TpcdsQuerySpecView { id: "q64"@, sql_file: "q64.sql"@, enabled: true, skip_reason: None },
        TpcdsQuerySpecView {
            id: "q72"@,
            sql_file: "q72.sql"@,
            enabled: false,
            skip_reason: Some(
                "blocked pending DataFusion issue-tracker parity for TPC-DS q72 semantics"@,
            ),
        },
    ]
}

/// The phase-one query catalog, in stable id order.
pub fn phase1_query_catalog() -> (r: Vec<TpcdsQuerySpec>)
    ensures
        r.deep_view() == spec_phase1_query_catalog(),
{
    let mut v: Vec<TpcdsQuerySpec> = Vec::new();
    v.push(TpcdsQuerySpec { id: "q03", sql_file: "q03.sql", enabled: true, skip_reason: None });
    v.push(TpcdsQuerySpec { id: "q07", sql_file: "q07.sql", enabled: true, skip_reason: None });
    v.push(TpcdsQuerySpec { id: "q64", sql_file: "q64.sql", enabled: true, skip_reason: None });
    v.push(
        TpcdsQuerySpec {
            id: "q72",
            sql_file: "q72.sql",
            enabled: false,
            skip_reason: Some(
                "blocked pending DataFusion issue-tracker parity for TPC-DS q72 semantics",
            ),
        },
    );
    proof {
        assert(v.deep_view() =~= spec_phase1_query_catalog());
    }
    v
}

pub open spec fn spec_tpcds_case_names() -> Seq<Seq<char>> {
    spec_phase1_query_catalog().map(|_i: int, s: TpcdsQuerySpecView| "tpcds_"@ + s.id)
}

/// The suite's case names: each catalogued query id under the suite
/// prefix, in catalog order.
pub fn case_names() -> (r: Vec<String>)
    ensures
        r.deep_view() == spec_tpcds_case_names(),
{
    let specs = phase1_query_catalog();
    let mut v: Vec<String> = Vec::new();
    let len = specs.len();
    let mut i: usize = 0;
    while i < len
        invariant
            len == specs@.len(),
            specs.deep_view() == spec_phase1_query_catalog(),
            i <= len,
            v.deep_view() =~= spec_tpcds_case_names().take(i as int),
        decreases len - i,
    {
        let mut name = String::new();
        name.append("tpcds_");
        name.append(specs[i].id);
        let ghost prev = v.deep_view();
        let ghost nv = name@;
        v.push(name);
        proof {
            assert(v.deep_view() =~= prev.push(nv));
            assert(nv == spec_tpcds_case_names()[i as int]);
            assert(v.deep_view() =~= spec_tpcds_case_names().take(i + 1));
        }
        i += 1;
    }
    proof {
        assert(spec_tpcds_case_names().take(len as int) =~= spec_tpcds_case_names());
    }
    v
}

} // verus!
