//! The suite registry and the manifest-driven case planner: which targets
//! exist, which cases each target runs, and how a manifest pair plus the
//! target/runner/filter selectors become an ordered, duplicate-free plan.

pub mod delete_update_dml;
pub mod interop_py;
pub mod merge_dml;
pub mod metadata;
pub mod optimize_vacuum;
pub mod read_scan;
pub mod tpcds;
pub mod write;

use vstd::prelude::*;

use crate::assertions::{apply_case_assertions, spec_apply_assertions, CaseAssertion, CaseAssertionView};
use crate::cli::{spec_trim, trim_ascii, RunnerMode};
use crate::error::{BenchError, BenchResult};
use crate::manifests::{BenchmarkManifest, ManifestCaseView};
use crate::results::{CaseResult, CaseResultView};
use crate::strutil::{spec_contains, str_contains, str_eq};

verus! {

/// The mathematical value of a `PlannedCase`.
pub struct PlannedCaseView {
    pub id: Seq<char>,
    pub target: Seq<char>,
    pub assertions: Seq<CaseAssertionView>,
}

/// One planned case: its id, its target suite, and its resolved
/// assertions. Ids are unique within one plan.
#[derive(Clone, Debug, PartialEq)]
pub struct PlannedCase {
    pub id: String,
    pub target: String,
    pub assertions: Vec<CaseAssertion>,
}

impl View for PlannedCase {
    type V = PlannedCaseView;

    open spec fn view(&self) -> PlannedCaseView {
        PlannedCaseView {
            id: self.id@,
            target: self.target@,
            assertions: self.assertions.deep_view(),
        }
    }
}

impl DeepView for PlannedCase {
    type V = PlannedCaseView;

    open spec fn deep_view(&self) -> PlannedCaseView {
        self.view()
    }
}

pub open spec fn spec_targets() -> Seq<Seq<char>> {
    seq![
        "read_scan"@,
        "write"@,
        "merge_dml"@,
        "metadata"@,
        "optimize_vacuum"@,
        "delete_update_dml"@,
        "tpcds"@,
        "interop_py"@,
        "all"@,
    ]
}

/// Every runnable target, and the `all` aggregate.
pub fn list_targets() -> (r: Vec<String>)
    ensures
        r.deep_view() == spec_targets(),
{
    let mut v: Vec<String> = Vec::new();
    v.push("read_scan".to_owned());
    v.push("write".to_owned());
    v.push("merge_dml".to_owned());
    v.push("metadata".to_owned());
    v.push("optimize_vacuum".to_owned());
    v.push("delete_update_dml".to_owned());
    v.push("tpcds".to_owned());
    v.push("interop_py".to_owned());
    v.push("all".to_owned());
    proof {
        assert(v.deep_view() =~= spec_targets());
    }
    v
}

pub open spec fn spec_all_case_names() -> Seq<Seq<char>> {
    read_scan::spec_case_names() + write::spec_case_names() + merge_dml::spec_merge_case_names()
        + metadata::spec_case_names() + optimize_vacuum::spec_case_names()
        + delete_update_dml::spec_delete_update_case_names() + tpcds::spec_tpcds_case_names()
        + interop_py::spec_case_names()
}

/// The case names a target would run; `all` aggregates every suite in
/// registry order, and an unknown target is an explicit error naming it.
pub open spec fn spec_cases_for_target(t: Seq<char>) -> Option<Seq<Seq<char>>> {
    if t == "read_scan"@ {
        Some(read_scan::spec_case_names())
    } else if t == "write"@ {
        Some(write::spec_case_names())
    } else if t == "merge_dml"@ {
        Some(merge_dml::spec_merge_case_names())
    } else if t == "metadata"@ {
        Some(metadata::spec_case_names())
    } else if t == "optimize_vacuum"@ {
        Some(optimize_vacuum::spec_case_names())
    } else if t == "delete_update_dml"@ {
        Some(delete_update_dml::spec_delete_update_case_names())
    } else if t == "tpcds"@ {
        Some(tpcds::spec_tpcds_case_names())
    } else if t == "interop_py"@ {
        Some(interop_py::spec_case_names())
    } else if t == "all"@ {
        Some(spec_all_case_names())
    } else {
        None
    }
}

fn append_all(out: &mut Vec<String>, mut extra: Vec<String>)
    ensures
        final(out).deep_view() == old(out).deep_view() + extra.deep_view(),
{
    let ghost extra0 = extra.deep_view();
    let ghost out0 = out.deep_view();
    let len = extra.len();
    let mut i: usize = 0;
    proof {
        assert(extra0.take(0) =~= Seq::<Seq<char>>::empty());
        assert(out.deep_view() =~= out0 + extra0.take(0));
    }
    while i < len
        invariant
            len == extra@.len(),
            extra.deep_view() == extra0,
            i <= len,
            out.deep_view() =~= out0 + extra0.take(i as int),
        decreases len - i,
    {
        let ghost prev = out.deep_view();
        let item = extra[i].clone();
        proof {
            assert(item@ == extra0[i as int]);
        }
        out.push(item);
        proof {
            assert(out.deep_view() =~= prev.push(extra0[i as int]));
            assert(out.deep_view() =~= out0 + extra0.take(i + 1));
        }
        i += 1;
    }
    proof {
        assert(extra0.take(len as int) =~= extra0);
    }
}

/// Lists the case names of one target; an unknown target is rejected with
/// an error naming it.
pub fn list_cases_for_target(target: &str) -> (r: BenchResult<Vec<String>>)
    ensures
        match spec_cases_for_target(target@) {
            Some(names) => r matches Ok(v) && v.deep_view() == names,
            None => r matches Err(BenchError::InvalidArgument(m)) && m@ == "unknown suite target: "@
                + target@,
        },
{
    if str_eq(target, "read_scan") {
        Ok(read_scan::case_names())
    } else if str_eq(target, "write") {
        Ok(write::case_names())
    } else if str_eq(target, "merge_dml") {
        Ok(merge_dml::case_names())
    } else if str_eq(target, "metadata") {
        Ok(metadata::case_names())
    } else if str_eq(target, "optimize_vacuum") {
        Ok(optimize_vacuum::case_names())
    } else if str_eq(target, "delete_update_dml") {
        Ok(delete_update_dml::case_names())
    } else if str_eq(target, "tpcds") {
        Ok(tpcds::case_names())
    } else if str_eq(target, "interop_py") {
        Ok(interop_py::case_names())
    } else if str_eq(target, "all") {
        let mut out = read_scan::case_names();
        append_all(&mut out, write::case_names());
        append_all(&mut out, merge_dml::case_names());
        append_all(&mut out, metadata::case_names());
        append_all(&mut out, optimize_vacuum::case_names());
        append_all(&mut out, delete_update_dml::case_names());
        append_all(&mut out, tpcds::case_names());
        append_all(&mut out, interop_py::case_names());
        proof {
            assert(out.deep_view() =~= spec_all_case_names());
        }
        Ok(out)
    } else {
        let mut m = String::new();
        m.append("unknown suite target: ");
        m.append(target);
        Err(BenchError::InvalidArgument(m))
    }
}

/// Whether a runner mode may run a target at all.
pub open spec fn spec_runner_target_ok(runner: RunnerMode, target: Seq<char>) -> bool {
    &&& !(runner == RunnerMode::Rust && target == "interop_py"@)
    &&& !(runner == RunnerMode::Python && target != "all"@ && target != "interop_py"@)
}

/// A manifest case is kept when it is enabled, tagged for the requested
/// runner class, and matches the target unless the target is the
/// wildcard.
pub open spec fn spec_case_kept(
    c: ManifestCaseView,
    target: Seq<char>,
    runner_name: Seq<char>,
) -> bool {
    c.enabled && c.runner == runner_name && (target == "all"@ || c.target == target)
}

pub open spec fn spec_planned_of(c: ManifestCaseView) -> PlannedCaseView {
    PlannedCaseView { id: c.id, target: c.target, assertions: c.assertions }
}

/// The kept cases of one manifest, in file order.
pub open spec fn spec_selected(
    cases: Seq<ManifestCaseView>,
    target: Seq<char>,
    runner_name: Seq<char>,
) -> Seq<PlannedCaseView>
    decreases cases.len(),
{
    if cases.len() == 0 {
        Seq::empty()
    } else {
        let rest = spec_selected(cases.drop_first(), target, runner_name);
        if spec_case_kept(cases[0], target, runner_name) {
            seq![spec_planned_of(cases[0])] + rest
        } else {
            rest
        }
    }
}

proof fn lemma_selected_push(
    cases: Seq<ManifestCaseView>,
    x: ManifestCaseView,
    target: Seq<char>,
    runner_name: Seq<char>,
)
    ensures
        spec_selected(cases.push(x), target, runner_name) =~= spec_selected(
            cases,
            target,
            runner_name,
        ) + if spec_case_kept(x, target, runner_name) {
            seq![spec_planned_of(x)]
        } else {
            Seq::empty()
        },
    decreases cases.len(),
{
    reveal_with_fuel(spec_selected, 3);
    if cases.len() == 0 {
        assert(cases.push(x) =~= seq![x]);
        assert(seq![x][0] == x);
        assert(seq![x].drop_first() =~= Seq::<ManifestCaseView>::empty());
    } else {
        assert(cases.push(x)[0] == cases[0]);
        assert(cases.push(x).drop_first() =~= cases.drop_first().push(x));
        lemma_selected_push(cases.drop_first(), x, target, runner_name);
    }
}

/// The selection a runner mode makes: its own manifest's kept cases, or
/// for `all` the first manifest's followed by the second's.
pub open spec fn spec_mode_selected(
    rust_cases: Seq<ManifestCaseView>,
    python_cases: Seq<ManifestCaseView>,
    target: Seq<char>,
    runner: RunnerMode,
) -> Seq<PlannedCaseView> {
    match runner {
        RunnerMode::Rust => spec_selected(rust_cases, target, "rust"@),
        RunnerMode::Python => spec_selected(python_cases, target, "python"@),
        RunnerMode::All => spec_selected(rust_cases, target, "rust"@) + spec_selected(
            python_cases,
            target,
            "python"@,
        ),
    }
}

/// The substring filter a plan applies, if any: the trimmed filter text,
/// unless it trims to nothing.
pub open spec fn spec_effective_filter(f: Option<Seq<char>>) -> Option<Seq<char>> {
    match f {
        None => None,
        Some(t) => if spec_trim(t).len() == 0 {
            None
        } else {
            Some(spec_trim(t))
        },
    }
}

/// The planned cases whose id holds the filter text.
pub open spec fn spec_filtered(s: Seq<PlannedCaseView>, filt: Seq<char>) -> Seq<PlannedCaseView>
    decreases s.len(),
{
    if s.len() == 0 {
        Seq::empty()
    } else {
        let rest = spec_filtered(s.drop_first(), filt);
        if spec_contains(s[0].id, filt) {
            seq![s[0]] + rest
        } else {
            rest
        }
    }
}

proof fn lemma_filtered_push(s: Seq<PlannedCaseView>, x: PlannedCaseView, filt: Seq<char>)
    ensures
        spec_filtered(s.push(x), filt) =~= spec_filtered(s, filt) + if spec_contains(x.id, filt) {
            seq![x]
        } else {
            Seq::empty()
        },
    decreases s.len(),
{
    reveal_with_fuel(spec_filtered, 3);
    if s.len() == 0 {
        assert(s.push(x) =~= seq![x]);
        assert(seq![x][0] == x);
        assert(seq![x].drop_first() =~= Seq::<PlannedCaseView>::empty());
    } else {
        assert(s.push(x)[0] == s[0]);
        assert(s.push(x).drop_first() =~= s.drop_first().push(x));
        lemma_filtered_push(s.drop_first(), x, filt);
    }
}

pub open spec fn spec_plan_after_filter(
    rust_cases: Seq<ManifestCaseView>,
    python_cases: Seq<ManifestCaseView>,
    target: Seq<char>,
    runner: RunnerMode,
    case_filter: Option<Seq<char>>,
) -> Seq<PlannedCaseView> {
    let selected = spec_mode_selected(rust_cases, python_cases, target, runner);
    match spec_effective_filter(case_filter) {
        None => selected,
        Some(filt) => spec_filtered(selected, filt),
    }
}

/// A later planned case repeats an earlier case's id.
pub open spec fn spec_dup_at(s: Seq<PlannedCaseView>, j: int) -> bool {
    exists|i: int| 0 <= i < j && s[i].id == s[j].id
}

pub open spec fn spec_has_dup_id(s: Seq<PlannedCaseView>) -> bool {
    exists|j: int| 0 <= j < s.len() && spec_dup_at(s, j)
}

fn append_manifest_cases(
    out: &mut Vec<PlannedCase>,
    manifest: &BenchmarkManifest,
    target: &str,
    runner_name: &str,
)
    ensures
        final(out).deep_view() =~= old(out).deep_view() + spec_selected(
            manifest@.cases,
            target@,
            runner_name@,
        ),
{
    let ghost out0 = out.deep_view();
    let ghost cs = manifest@.cases;
    let len = manifest.cases.len();
    let mut i: usize = 0;
    proof {
        assert(cs.take(0) =~= Seq::<ManifestCaseView>::empty());
        assert(out.deep_view() =~= out0 + spec_selected(cs.take(0), target@, runner_name@));
    }
    while i < len
        invariant
            len == manifest.cases@.len(),
            cs == manifest@.cases,
            i <= len,
            out.deep_view() =~= out0 + spec_selected(cs.take(i as int), target@, runner_name@),
        decreases len - i,
    {
        let case = &manifest.cases[i];
        let keep = case.enabled && str_eq(case.runner.as_str(), runner_name) && (str_eq(
            target,
            "all",
        ) || str_eq(case.target.as_str(), target));
        if keep {
            let mut assertions: Vec<CaseAssertion> = Vec::new();
            let alen = case.assertions.len();
            let mut j: usize = 0;
            while j < alen
                invariant
                    alen == case.assertions@.len(),
                    j <= alen,
                    assertions.deep_view() =~= case.assertions.deep_view().take(j as int),
                decreases alen - j,
            {
                let ghost prev_a = assertions.deep_view();
                let a = case.assertions[j].to_case_assertion();
                let ghost av = a@;
                assertions.push(a);
                proof {
                    assert(assertions.deep_view() =~= prev_a.push(av));
                    assert(av == case.assertions.deep_view()[j as int]);
                    assert(assertions.deep_view() =~= case.assertions.deep_view().take(j + 1));
                }
                j += 1;
            }
            proof {
                assert(case.assertions.deep_view().take(alen as int) =~= case.assertions.deep_view());
            }
            let planned = PlannedCase {
                id: case.id.clone(),
                target: case.target.clone(),
                assertions,
            };
            let ghost prev = out.deep_view();
            let ghost pv = planned@;
            out.push(planned);
            proof {
                assert(out.deep_view() =~= prev.push(pv));
                assert(pv == spec_planned_of(cs[i as int]));
            }
        }
        proof {
            assert(cs.take(i + 1) =~= cs.take(i as int).push(cs[i as int]));
            lemma_selected_push(cs.take(i as int), cs[i as int], target@, runner_name@);
            assert(spec_case_kept(cs[i as int], target@, runner_name@) == keep);
            assert(out.deep_view() =~= out0 + spec_selected(cs.take(i + 1), target@, runner_name@));
        }
        i += 1;
    }
    proof {
        assert(cs.take(len as int) =~= cs);
    }
}

/// What planning returns for each input shape: the exact rejection for a
/// runner/target mismatch, an empty plan, or a duplicated id, and the
/// selected, filtered plan itself otherwise.
pub open spec fn spec_plan_outcome(
    rust_cases: Seq<ManifestCaseView>,
    python_cases: Seq<ManifestCaseView>,
    target: Seq<char>,
    runner: RunnerMode,
    case_filter: Option<Seq<char>>,
    r: BenchResult<Vec<PlannedCase>>,
) -> bool {
    let planned = spec_plan_after_filter(rust_cases, python_cases, target, runner, case_filter);
    &&& (!spec_runner_target_ok(runner, target) ==> (r matches Err(
        BenchError::InvalidArgument(m),
    ) && (m@ == "runner=rust cannot run target=interop_py"@ || m@
        == "runner=python can only run target=interop_py or target=all (resolved target: "@
        + target + ")"@)))
    &&& (spec_runner_target_ok(runner, target) && planned.len() == 0 ==> (r matches Err(
        BenchError::InvalidArgument(m),
    ) && m@ == "case filter matched no cases for target='"@ + target + "' and runner='"@
        + runner.spec_str() + "'"@))
    &&& (spec_runner_target_ok(runner, target) && planned.len() > 0 && spec_has_dup_id(planned)
        ==> (r matches Err(BenchError::InvalidArgument(m)) && exists|j: int|
        0 <= j < planned.len() && #[trigger] spec_dup_at(planned, j) && m@
            == "planned case list contains duplicate case id '"@ + planned[j].id + "'"@))
    &&& (spec_runner_target_ok(runner, target) && planned.len() > 0 && !spec_has_dup_id(planned)
        ==> (r matches Ok(v) && v.deep_view() == planned))
}

/// Builds the plan for a target, runner mode and optional case-id
/// substring filter from the pair of loaded manifests: keeps enabled
/// matching cases in manifest order (first manifest first), applies the
/// filter, and rejects an empty plan or a duplicated case id. Planning
/// failures are fatal: nothing executes when this errs.
#[verifier::rlimit(60)]
pub fn plan_run_cases_from_manifests(
    rust_manifest: &BenchmarkManifest,
    python_manifest: &BenchmarkManifest,
    target: &str,
    runner: RunnerMode,
    case_filter: Option<&str>,
) -> (r: BenchResult<Vec<PlannedCase>>)
    ensures
        spec_plan_outcome(
            rust_manifest@.cases,
            python_manifest@.cases,
            target@,
            runner,
            match case_filter {
                Some(f) => Some(f@),
                None => None,
            },
            r,
        ),
{
    proof {
        reveal_strlit("all");
        reveal_strlit("interop_py");
        assert("all"@.len() == 3);
        assert("interop_py"@.len() == 10);
    }
    let rust_only = match runner {
        RunnerMode::Rust => true,
        _ => false,
    };
    let python_only = match runner {
        RunnerMode::Python => true,
        _ => false,
    };
    if rust_only && str_eq(target, "interop_py") {
        return Err(
            BenchError::InvalidArgument("runner=rust cannot run target=interop_py".to_owned()),
        );
    }
    if python_only && !str_eq(target, "all") && !str_eq(target, "interop_py") {
        let mut m = String::new();
        m.append("runner=python can only run target=interop_py or target=all (resolved target: ");
        m.append(target);
        m.append(")");
        return Err(BenchError::InvalidArgument(m));
    }
    let mut selected: Vec<PlannedCase> = Vec::new();
    match runner {
        RunnerMode::Rust => {
            append_manifest_cases(&mut selected, rust_manifest, target, "rust");
        },
        RunnerMode::Python => {
            append_manifest_cases(&mut selected, python_manifest, target, "python");
        },
        RunnerMode::All => {
            append_manifest_cases(&mut selected, rust_manifest, target, "rust");
            append_manifest_cases(&mut selected, python_manifest, target, "python");
        },
    }
    proof {
        assert(selected.deep_view() =~= spec_mode_selected(
            rust_manifest@.cases,
            python_manifest@.cases,
            target@,
            runner,
        ));
    }

    let ghost selected_view = selected.deep_view();
    let mut planned: Vec<PlannedCase> = selected;
    match case_filter {
        None => {},
        Some(raw) => {
            let trimmed = trim_ascii(raw);
            if trimmed.as_str().unicode_len() > 0 {
                let kept = retain_matching(planned, trimmed.as_str());
                planned = kept;
            }
        },
    }
    let ghost planned_view = spec_plan_after_filter(
        rust_manifest@.cases,
        python_manifest@.cases,
        target@,
        runner,
        match case_filter {
            Some(f) => Some(f@),
            None => None,
        },
    );
    proof {
        assert(planned.deep_view() =~= planned_view);
    }

    if planned.len() == 0 {
        let mut m = String::new();
        m.append("case filter matched no cases for target='");
        m.append(target);
        m.append("' and runner='");
        m.append(runner.as_str());
        m.append("'");
        return Err(BenchError::InvalidArgument(m));
    }
    match find_duplicate_id(&planned) {
        Some(dup) => {
            let mut m = String::new();
            m.append("planned case list contains duplicate case id '");
            m.append(dup.as_str());
            m.append("'");
            proof {
                let pvw = planned.deep_view();
                let j = choose|j: int|
                    0 <= j < pvw.len() && #[trigger] spec_dup_at(pvw, j) && dup@ == pvw[j].id;
                assert(m@ == "planned case list contains duplicate case id '"@ + pvw[j].id + "'"@);
            }
            Err(BenchError::InvalidArgument(m))
        },
        None => Ok(planned),
    }
}

/// Keeps the planned cases whose id holds the filter text, in order.
fn retain_matching(planned: Vec<PlannedCase>, filt: &str) -> (r: Vec<PlannedCase>)
    ensures
        r.deep_view() =~= spec_filtered(planned.deep_view(), filt@),
{
    let ghost pv = planned.deep_view();
    proof {
        assert(pv =~= planned@.map(|_i: int, p: PlannedCase| p.deep_view()));
    }
    let mut out: Vec<PlannedCase> = Vec::new();
    let len = planned.len();
    let mut i: usize = 0;
    proof {
        assert(pv.take(0) =~= Seq::<PlannedCaseView>::empty());
        assert(out.deep_view() =~= spec_filtered(pv.take(0), filt@));
    }
    let mut rest = planned;
    let mut consumed: usize = 0;
    let ghost rv0 = rest@;
    proof {
        assert(rest@ =~= rv0.skip(0));
    }
    while consumed < len
        invariant
            len == pv.len(),
            pv == rv0.map(|_i: int, p: PlannedCase| p.deep_view()),
            consumed <= len,
            rest@ =~= rv0.skip(consumed as int),
            out.deep_view() =~= spec_filtered(pv.take(consumed as int), filt@),
        decreases len - consumed,
    {
        let item = rest.remove(0);
        proof {
            assert(item == rv0[consumed as int]);
            assert(item@ == pv[consumed as int]);
            assert(rest@ =~= rv0.skip(consumed as int + 1));
        }
        let keep = str_contains(item.id.as_str(), filt);
        let ghost iv = item@;
        if keep {
            let ghost prev = out.deep_view();
            out.push(item);
            proof {
                assert(out.deep_view() =~= prev.push(iv));
            }
        }
        proof {
            assert(pv.take(consumed as int + 1) =~= pv.take(consumed as int).push(iv));
            lemma_filtered_push(pv.take(consumed as int), iv, filt@);
            assert(out.deep_view() =~= spec_filtered(pv.take(consumed as int + 1), filt@));
        }
        consumed += 1;
    }
    proof {
        assert(pv.take(len as int) =~= pv);
    }
    out
}

/// The id of the first planned case that repeats an earlier id, if any.
fn find_duplicate_id(planned: &Vec<PlannedCase>) -> (r: Option<String>)
    ensures
        match r {
            Some(id) => exists|j: int|
                0 <= j < planned.deep_view().len() && #[trigger] spec_dup_at(planned.deep_view(), j)
                    && id@ == planned.deep_view()[j].id,
            None => !spec_has_dup_id(planned.deep_view()),
        },
{
    let len = planned.len();
    let mut j: usize = 1;
    while j < len
        invariant
            len == planned@.len(),
            1 <= j || len == 0,
            j <= len || len == 0,
            forall|k: int| 0 <= k < j && k < len ==> !spec_dup_at(planned.deep_view(), k),
        decreases len - j,
    {
        let mut i: usize = 0;
        while i < j
            invariant
                j < len,
                len == planned@.len(),
                i <= j,
                forall|k: int|
                    0 <= k < i ==> planned.deep_view()[k].id != planned.deep_view()[j as int].id,
            decreases j - i,
        {
            if str_eq(planned[i].id.as_str(), planned[j].id.as_str()) {
                let id = planned[j].id.clone();
                proof {
                    assert(planned.deep_view()[i as int].id == planned.deep_view()[j as int].id);
                    assert(spec_dup_at(planned.deep_view(), j as int));
                }
                return Some(id);
            }
            i += 1;
        }
        j += 1;
    }
    None
}

/// The mathematical value of one suite's executed output.
pub struct ExecutedTargetView {
    pub target: Seq<char>,
    pub cases: Seq<CaseResultView>,
}

pub open spec fn spec_executed_view(executed: Seq<(String, Vec<CaseResult>)>) -> Seq<
    ExecutedTargetView,
> {
    executed.map(
        |_i: int, e: (String, Vec<CaseResult>)| ExecutedTargetView {
            target: e.0@,
            cases: e.1.deep_view(),
        },
    )
}

/// `out` came from `executed`: some suite produced this exact case under
/// this target.
pub open spec fn spec_from_executed(
    executed: Seq<ExecutedTargetView>,
    target: Seq<char>,
    c: CaseResultView,
) -> bool {
    exists|t: int, j: int|
        0 <= t < executed.len() && 0 <= j < executed[t].cases.len() && executed[t].target == target
            && executed[t].cases[j] == c
}

/// The pool holds a produced case under this target with this view.
pub open spec fn spec_in_pool(
    pool: Seq<(String, CaseResult)>,
    tt: Seq<char>,
    c: CaseResultView,
) -> bool {
    exists|k: int| 0 <= k < pool.len() && (#[trigger] pool[k]).0@ == tt && pool[k].1@ == c
}

/// Some plan entry before `i` already claims this target/id pair.
pub open spec fn spec_pair_consumed(
    planned: Seq<PlannedCaseView>,
    i: int,
    tt: Seq<char>,
    id: Seq<char>,
) -> bool {
    exists|k: int| 0 <= k < i && (#[trigger] planned[k]).target == tt && planned[k].id == id
}

/// The first pooled case produced under the plan's target with the
/// plan's id, if any; `None` only when no pooled case matches.
fn find_in_pool(pool: &Vec<(String, CaseResult)>, plan: &PlannedCase) -> (r: Option<usize>)
    ensures
        r matches Some(f) ==> f < pool@.len() && pool@[f as int].0@ == plan.target@
            && pool@[f as int].1@.case == plan.id@,
        r is None ==> forall|k: int|
            0 <= k < pool@.len() ==> !((#[trigger] pool@[k]).0@ == plan.target@
                && pool@[k].1@.case == plan.id@),
{
    let pool_len = pool.len();
    let mut k: usize = 0;
    while k < pool_len
        invariant
            pool_len == pool@.len(),
            k <= pool_len,
            forall|q: int|
                0 <= q < k ==> !((#[trigger] pool@[q]).0@ == plan.target@ && pool@[q].1@.case
                    == plan.id@),
        decreases pool_len - k,
    {
        if str_eq(pool[k].0.as_str(), plan.target.as_str()) && str_eq(
            pool[k].1.case.as_str(),
            plan.id.as_str(),
        ) {
            return Some(k);
        }
        k += 1;
    }
    None
}

/// This output came from a case the suites produced under the planned
/// case's target and id, with the plan's assertions applied to it.
pub open spec fn spec_slot_ok(
    planned_case: PlannedCaseView,
    executed: Seq<ExecutedTargetView>,
    outcome: CaseResultView,
) -> bool {
    exists|c: CaseResultView|
        {
            &&& #[trigger] spec_from_executed(executed, planned_case.target, c)
            &&& c.case == planned_case.id
            &&& outcome == spec_apply_assertions(c, planned_case.assertions)
        }
}

/// Every output slot pairs a planned case with a case its suite produced
/// under that target and id, with the plan's assertions applied to it.
pub open spec fn spec_ordered_ok(
    planned: Seq<PlannedCaseView>,
    executed: Seq<ExecutedTargetView>,
    out: Seq<CaseResultView>,
) -> bool {
    &&& out.len() == planned.len()
    &&& forall|i: int| 0 <= i < out.len() ==> spec_slot_ok(planned[i], executed, #[trigger] out[i])
}

/// No two planned cases share a target and an id, so each consumes its
/// own produced case.
pub open spec fn spec_plan_pairs_distinct(planned: Seq<PlannedCaseView>) -> bool {
    forall|i: int, j: int|
        0 <= i < j < planned.len() ==> !((#[trigger] planned[i]).target == (
        #[trigger] planned[j]).target && planned[i].id == planned[j].id)
}

/// Every planned case has a produced case under its target with its id.
pub open spec fn spec_plan_satisfiable(
    planned: Seq<PlannedCaseView>,
    executed: Seq<ExecutedTargetView>,
) -> bool {
    forall|i: int|
        0 <= i < planned.len() ==> exists|c: CaseResultView|
            spec_from_executed(executed, (#[trigger] planned[i]).target, c) && c.case
                == planned[i].id
}

/// Matches each planned case, in plan order, with the case its suite
/// produced, applies the plan's assertions to it, and returns the ordered
/// results; a planned case no suite produced is a fatal error naming it.
/// When the plan's target/id pairs are distinct and every one of them was
/// produced, success is owed.
#[verifier::loop_isolation(false)]
pub fn order_planned_results(
    planned: &Vec<PlannedCase>,
    executed: Vec<(String, Vec<CaseResult>)>,
) -> (r: BenchResult<Vec<CaseResult>>)
    ensures
        r matches Ok(v) ==> spec_ordered_ok(
            planned.deep_view(),
            spec_executed_view(executed@),
            v.deep_view(),
        ),
        r matches Err(e) ==> (e matches BenchError::InvalidArgument(m) && exists|i: int|
            0 <= i < planned@.len() && m@ == "planned case '"@
                + #[trigger] planned.deep_view()[i].id + "' for target '"@
                + planned.deep_view()[i].target + "' was not produced by suite execution"@),
        spec_plan_pairs_distinct(planned.deep_view()) && spec_plan_satisfiable(
            planned.deep_view(),
            spec_executed_view(executed@),
        ) ==> r is Ok,
{
    let ghost orig = spec_executed_view(executed@);
    let mut pool: Vec<(String, CaseResult)> = Vec::new();
    let mut remaining = executed;
    let ghost ex0 = remaining@;
    let outer_total = remaining.len();
    let mut consumed: usize = 0;
    proof {
        assert(remaining@ =~= ex0.skip(0));
    }
    while remaining.len() > 0
        invariant
            orig == spec_executed_view(ex0),
            outer_total == ex0.len(),
            consumed <= outer_total,
            remaining@ =~= ex0.skip(consumed as int),
            forall|k: int|
                0 <= k < pool@.len() ==> spec_from_executed(
                    orig,
                    #[trigger] pool@[k].0@,
                    pool@[k].1@,
                ),
            forall|t2: int, j: int|
                0 <= t2 < consumed && 0 <= j < orig[t2].cases.len() ==> spec_in_pool(
                    pool@,
                    orig[t2].target,
                    #[trigger] orig[t2].cases[j],
                ),
        decreases remaining@.len(),
    {
        let entry = remaining.remove(0);
        proof {
            assert(entry == ex0[consumed as int]);
            assert(remaining@ =~= ex0.skip(consumed as int + 1));
        }
        let (target_name, mut cases) = entry;
        let ghost cs0 = cases@;
        let ghost t = consumed as int;
        let inner_total = cases.len();
        let mut case_consumed: usize = 0;
        proof {
            assert(cases@ =~= cs0.skip(0));
            assert(orig[t].target == target_name@);
            assert(orig[t].cases =~= cs0.map(|_i: int, c: CaseResult| c.deep_view()));
        }
        while cases.len() > 0
            invariant
                orig == spec_executed_view(ex0),
                0 <= t < ex0.len(),
                t == consumed as int,
                orig[t].target == target_name@,
                orig[t].cases == cs0.map(|_i: int, c: CaseResult| c.deep_view()),
                inner_total == cs0.len(),
                case_consumed <= inner_total,
                cases@ =~= cs0.skip(case_consumed as int),
                forall|k: int|
                    0 <= k < pool@.len() ==> spec_from_executed(
                        orig,
                        #[trigger] pool@[k].0@,
                        pool@[k].1@,
                    ),
                forall|t2: int, j: int|
                    0 <= t2 < t && 0 <= j < orig[t2].cases.len() ==> spec_in_pool(
                        pool@,
                        orig[t2].target,
                        #[trigger] orig[t2].cases[j],
                    ),
                forall|j: int|
                    0 <= j < case_consumed ==> spec_in_pool(
                        pool@,
                        orig[t].target,
                        #[trigger] orig[t].cases[j],
                    ),
            decreases cases@.len(),
        {
            let case = cases.remove(0);
            proof {
                assert(case == cs0[case_consumed as int]);
                assert(cases@ =~= cs0.skip(case_consumed as int + 1));
                assert(orig[t].cases[case_consumed as int] == case@);
                assert(spec_from_executed(orig, target_name@, case@));
            }
            let ghost pool_before = pool@;
            let entry_pair = (target_name.clone(), case);
            let ghost ep = entry_pair;
            pool.push(entry_pair);
            proof {
                let last = pool_before.len() as int;
                assert(pool@ =~= pool_before.push(ep));
                assert(pool@[last] == ep);
                assert(ep.0@ == orig[t].target && ep.1@ == orig[t].cases[case_consumed as int]);
                assert(spec_in_pool(pool@, orig[t].target, orig[t].cases[case_consumed as int]));
                assert forall|k: int| 0 <= k < pool@.len() implies spec_from_executed(
                    orig,
                    #[trigger] pool@[k].0@,
                    pool@[k].1@,
                ) by {
                    if k < last {
                        assert(pool@[k] == pool_before[k]);
                        assert(spec_from_executed(orig, pool_before[k].0@, pool_before[k].1@));
                    } else {
                        assert(spec_from_executed(orig, target_name@, orig[t].cases[
                            case_consumed as int
                        ]));
                    }
                }
                assert forall|t2: int, j: int|
                    0 <= t2 < t && 0 <= j < orig[t2].cases.len() implies spec_in_pool(
                    pool@,
                    orig[t2].target,
                    #[trigger] orig[t2].cases[j],
                ) by {
                    assert(spec_in_pool(pool_before, orig[t2].target, orig[t2].cases[j]));
                    let k = choose|k: int|
                        0 <= k < pool_before.len() && (#[trigger] pool_before[k]).0@
                            == orig[t2].target && pool_before[k].1@ == orig[t2].cases[j];
                    assert(pool@[k] == pool_before[k]);
                }
                assert forall|j: int| 0 <= j < case_consumed + 1 implies spec_in_pool(
                    pool@,
                    orig[t].target,
                    #[trigger] orig[t].cases[j],
                ) by {
                    if j < case_consumed {
                        assert(spec_in_pool(pool_before, orig[t].target, orig[t].cases[j]));
                        let k = choose|k: int|
                            0 <= k < pool_before.len() && (#[trigger] pool_before[k]).0@
                                == orig[t].target && pool_before[k].1@ == orig[t].cases[j];
                        assert(pool@[k] == pool_before[k]);
                    }
                }
            }
            case_consumed += 1;
        }
        proof {
            assert(case_consumed == inner_total);
            assert forall|t2: int, j: int|
                0 <= t2 < consumed + 1 && 0 <= j < orig[t2].cases.len() implies spec_in_pool(
                pool@,
                orig[t2].target,
                #[trigger] orig[t2].cases[j],
            ) by {
                if t2 == t {
                    assert(orig[t].cases.len() == cs0.len());
                }
            }
        }
        consumed += 1;
    }
    // `pool` now holds every produced case, each tagged with its target
    // and known to come from `executed`.
    proof {
        assert(consumed == outer_total);
        assert forall|tt: Seq<char>, c: CaseResultView|
            #[trigger] spec_from_executed(orig, tt, c) && !spec_pair_consumed(
                planned.deep_view(),
                0,
                tt,
                c.case,
            ) implies spec_in_pool(pool@, tt, c) by {
            let (t2, j) = choose|t2: int, j: int|
                0 <= t2 < orig.len() && 0 <= j < orig[t2].cases.len() && orig[t2].target == tt
                    && orig[t2].cases[j] == c;
            assert(spec_in_pool(pool@, orig[t2].target, orig[t2].cases[j]));
        }
    }
    let mut out: Vec<CaseResult> = Vec::new();
    let ghost mut founds: Seq<CaseResultView> = Seq::empty();
    let plan_count = planned.len();
    let mut i: usize = 0;
    while i < plan_count
        invariant
            plan_count == planned@.len(),
            i <= plan_count,
            out@.len() == i as nat,
            founds.len() == i as nat,
            forall|k: int|
                0 <= k < pool@.len() ==> spec_from_executed(
                    orig,
                    #[trigger] pool@[k].0@,
                    pool@[k].1@,
                ),
            forall|tt: Seq<char>, c: CaseResultView|
                #[trigger] spec_from_executed(orig, tt, c) && !spec_pair_consumed(
                    planned.deep_view(),
                    i as int,
                    tt,
                    c.case,
                ) ==> spec_in_pool(pool@, tt, c),
            forall|k: int|
                0 <= k < i ==> spec_from_executed(
                    orig,
                    #[trigger] planned.deep_view()[k].target,
                    founds[k],
                ),
            forall|k: int| 0 <= k < i ==> (#[trigger] founds[k]).case == planned.deep_view()[k].id,
            forall|k: int|
                0 <= k < i ==> #[trigger] out.deep_view()[k] == spec_apply_assertions(
                    founds[k],
                    planned.deep_view()[k].assertions,
                ),
        decreases plan_count - i,
    {
        let plan = &planned[i];
        match find_in_pool(&pool, plan) {
            Some(f) => {
                let ghost pool0 = pool@;
                let (_tag, mut case) = pool.remove(f);
                let ghost found_view = case@;
                proof {
                    assert(found_view == pool0[f as int].1@);
                    assert(spec_from_executed(orig, plan.target@, found_view));
                    assert(found_view.case == plan.id@);
                    assert forall|k: int| 0 <= k < pool@.len() implies spec_from_executed(
                        orig,
                        #[trigger] pool@[k].0@,
                        pool@[k].1@,
                    ) by {
                        if k < f {
                            assert(pool@[k] == pool0[k]);
                            assert(spec_from_executed(orig, pool0[k].0@, pool0[k].1@));
                        } else {
                            assert(pool@[k] == pool0[k + 1]);
                            assert(spec_from_executed(orig, pool0[k + 1].0@, pool0[k + 1].1@));
                        }
                    }
                    assert(planned.deep_view()[i as int] == plan@);
                    assert forall|tt: Seq<char>, c: CaseResultView|
                        #[trigger] spec_from_executed(orig, tt, c) && !spec_pair_consumed(
                            planned.deep_view(),
                            i + 1,
                            tt,
                            c.case,
                        ) implies spec_in_pool(pool@, tt, c) by {
                        let pd = planned.deep_view();
                        assert(!spec_pair_consumed(pd, i as int, tt, c.case)) by {
                            if spec_pair_consumed(pd, i as int, tt, c.case) {
                                let k = choose|k: int|
                                    0 <= k < i && (#[trigger] pd[k]).target == tt && pd[k].id
                                        == c.case;
                                assert(0 <= k < i + 1 && pd[k].target == tt && pd[k].id == c.case);
                            }
                        }
                        assert(spec_in_pool(pool0, tt, c));
                        let w = choose|k: int|
                            0 <= k < pool0.len() && (#[trigger] pool0[k]).0@ == tt && pool0[k].1@
                                == c;
                        if w == f as int {
                            assert(tt == plan.target@ && c.case == plan.id@);
                            assert(pd[i as int].target == tt && pd[i as int].id == c.case);
                            assert(spec_pair_consumed(pd, i + 1, tt, c.case));
                        } else if w < f as int {
                            assert(pool@[w] == pool0[w]);
                        } else {
                            assert(pool@[w - 1] == pool0[w]);
                        }
                    }
                }
                let assertions_slice = plan.assertions.as_slice();
                proof {
                    assert(assertions_slice.deep_view() =~= plan.assertions.deep_view());
                }
                apply_case_assertions(&mut case, assertions_slice);
                proof {
                    assert(case@ == spec_apply_assertions(found_view, plan@.assertions));
                }
                let ghost prev = out.deep_view();
                let ghost cv = case@;
                out.push(case);
                proof {
                    let fb = founds;
                    founds = fb.push(found_view);
                    assert(out.deep_view() =~= prev.push(cv));
                    assert(planned.deep_view()[i as int] == plan@);
                    assert forall|k: int| 0 <= k < i + 1 implies {
                        &&& spec_from_executed(
                            orig,
                            #[trigger] planned.deep_view()[k].target,
                            founds[k],
                        )
                        &&& founds[k].case == planned.deep_view()[k].id
                        &&& out.deep_view()[k] == spec_apply_assertions(
                            founds[k],
                            planned.deep_view()[k].assertions,
                        )
                    } by {
                        if k == i as int {
                            assert(founds[k] == found_view);
                            assert(spec_from_executed(orig, planned.deep_view()[k].target, found_view));
                            assert(found_view.case == planned.deep_view()[k].id);
                            assert(out.deep_view()[k] == spec_apply_assertions(
                                found_view,
                                planned.deep_view()[k].assertions,
                            ));
                        } else {
                            assert(founds[k] == fb[k]);
                            assert(out.deep_view()[k] == prev[k]);
                            assert(spec_from_executed(orig, planned.deep_view()[k].target, fb[k]));
                            assert(fb[k].case == planned.deep_view()[k].id);
                            assert(prev[k] == spec_apply_assertions(fb[k], planned.deep_view()[k].assertions));
                        }
                    }
                }
            },
            None => {
                let mut m = String::new();
                m.append("planned case '");
                m.append(plan.id.as_str());
                m.append("' for target '");
                m.append(plan.target.as_str());
                m.append("' was not produced by suite execution");
                proof {
                    assert(planned.deep_view()[i as int] == plan@);
                    assert(m@ == "planned case '"@ + planned.deep_view()[i as int].id
                        + "' for target '"@ + planned.deep_view()[i as int].target
                        + "' was not produced by suite execution"@);
                    let pd = planned.deep_view();
                    if spec_plan_pairs_distinct(pd) && spec_plan_satisfiable(pd, orig) {
                        assert(0 <= i < pd.len());
                        let c = choose|c: CaseResultView|
                            spec_from_executed(orig, pd[i as int].target, c) && c.case == pd[
                                i as int
                            ].id;
                        assert(!spec_pair_consumed(pd, i as int, pd[i as int].target, c.case)) by {
                            if spec_pair_consumed(pd, i as int, pd[i as int].target, c.case) {
                                let k = choose|k: int|
                                    0 <= k < i && (#[trigger] pd[k]).target == pd[i as int].target
                                        && pd[k].id == c.case;
                                assert(!(pd[k].target == pd[i as int].target && pd[k].id == pd[
                                    i as int
                                ].id));
                                assert(pd[k].id == c.case && c.case == pd[i as int].id);
                                assert(false);
                            }
                        }
                        assert(spec_in_pool(pool@, pd[i as int].target, c));
                        let w = choose|k: int|
                            0 <= k < pool@.len() && (#[trigger] pool@[k]).0@ == pd[
                                i as int
                            ].target && pool@[k].1@ == c;
                        assert(pool@[w].0@ == plan.target@ && pool@[w].1@.case == plan.id@);
                        assert(false);
                    }
                    assert(!(spec_plan_pairs_distinct(pd) && spec_plan_satisfiable(pd, orig)));
                }
                return Err(BenchError::InvalidArgument(m));
            },
        }
        i += 1;
    }
    proof {
        assert forall|k: int| 0 <= k < out.deep_view().len() implies spec_slot_ok(
            planned.deep_view()[k],
            orig,
            #[trigger] out.deep_view()[k],
        ) by {
            assert(spec_from_executed(orig, planned.deep_view()[k].target, founds[k]));
            assert(founds[k].case == planned.deep_view()[k].id);
            assert(out.deep_view()[k] == spec_apply_assertions(
                founds[k],
                planned.deep_view()[k].assertions,
            ));
        }
        assert(spec_ordered_ok(planned.deep_view(), orig, out.deep_view()));
    }
    Ok(out)
}

} // verus!
