//! The merge suite catalog: upsert and delete-only merges at several
//! match ratios, against a standard or a partitioned target.

use vstd::prelude::*;

use crate::strutil::{lower_ascii, spec_lower, str_eq};

verus! {

#[derive(Clone, Copy, Debug, PartialEq, Eq, Structural)]
pub enum MergeMode {
    Upsert,
    Delete,
}

#[derive(Clone, Copy, Debug, PartialEq, Eq, Structural)]
pub enum MergeTargetProfile {
    Standard,
    Partitioned,
}

/// The mathematical value of a `MergeCase`.
pub struct MergeCaseView {
    pub name: Seq<char>,
    pub match_permille: u64,
    pub mode: MergeMode,
    pub target_profile: MergeTargetProfile,
    pub source_region: Option<Seq<char>>,
    pub include_partition_predicate: bool,
}

/// One merge case; the match ratio is carried in permille of the
/// candidate rows.
#[derive(Clone, Copy, Debug)]
pub struct MergeCase {
    pub name: &'static str,
    pub match_permille: u64,
    pub mode: MergeMode,
    pub target_profile: MergeTargetProfile,
    pub source_region: Option<&'static str>,
    pub include_partition_predicate: bool,
}

impl View for MergeCase {
    type V = MergeCaseView;

    open spec fn view(&self) -> MergeCaseView {
        MergeCaseView {
            name: self.name@,
            match_permille: self.match_permille,
            mode: self.mode,
            target_profile: self.target_profile,
            source_region: match self.source_region {
                Some(r) => Some(r@),
                None => None,
            },
            include_partition_predicate: self.include_partition_predicate,
        }
    }
}

impl DeepView for MergeCase {
    type V = MergeCaseView;

    open spec fn deep_view(&self) -> MergeCaseView {
        self.view()
    }
}

pub open spec fn spec_merge_cases() -> Seq<MergeCaseView> {
    seq![
        MergeCaseView {
            name: "delete_only_filesMatchedFraction_0.05_rowsMatchedFraction_0.05"@,
            match_permille: 50,
            mode: MergeMode::Delete,
            target_profile: MergeTargetProfile::Standard,
            source_region: None,
            include_partition_predicate: false,
        },
        MergeCaseView {
            name: "upsert_filesMatchedFraction_0.05_rowsMatchedFraction_0.1_rowsNotMatchedFraction_0.1"@,
            match_permille: 100,
            mode: MergeMode::Upsert,
            target_profile: MergeTargetProfile::Standard,
            source_region: None,
            include_partition_predicate: false,
        },
        MergeCaseView {
            name: "merge_upsert_10pct"@,
            match_permille: 100,
            mode: MergeMode::Upsert,
            target_profile: MergeTargetProfile::Standard,
            source_region: None,
            include_partition_predicate: false,
        },
        MergeCaseView {
            name: "merge_upsert_50pct"@,
            match_permille: 500,
            mode: MergeMode::Upsert,
            target_profile: MergeTargetProfile::Standard,
            source_region: None,
            include_partition_predicate: false,
        },
        MergeCaseView {
            name: "merge_upsert_90pct"@,
            match_permille: 900,
            mode: MergeMode::Upsert,
            target_profile: MergeTargetProfile::Standard,
            source_region: None,
            include_partition_predicate: false,
        },
        MergeCaseView {
            name: "merge_partition_localized_1pct"@,
            match_permille: 10,
            mode: MergeMode::Upsert,
            target_profile: MergeTargetProfile::Partitioned,
            source_region: Some("us"@),
            include_partition_predicate: true,
        },
    ]
}

/// The full merge case table, in execution order.
pub fn merge_cases() -> (r: Vec<MergeCase>)
    ensures
        r.deep_view() == spec_merge_cases(),
{
    let mut v: Vec<MergeCase> = Vec::new();
    v.push(
        MergeCase {
            name: "delete_only_filesMatchedFraction_0.05_rowsMatchedFraction_0.05",
            match_permille: 50,
            mode: MergeMode::Delete,
            target_profile: MergeTargetProfile::Standard,
            source_region: None,
            include_partition_predicate: false,
        },
    );
    v.push(
        MergeCase {
            name: "upsert_filesMatchedFraction_0.05_rowsMatchedFraction_0.1_rowsNotMatchedFraction_0.1",
            match_permille: 100,
            mode: MergeMode::Upsert,
            target_profile: MergeTargetProfile::Standard,
            source_region: None,
            include_partition_predicate: false,
        },
    );
    v.push(
        MergeCase {
            name: "merge_upsert_10pct",
            match_permille: 100,
            mode: MergeMode::Upsert,
            target_profile: MergeTargetProfile::Standard,
            source_region: None,
            include_partition_predicate: false,
        },
    );
    v.push(
        MergeCase {
            name: "merge_upsert_50pct",
            match_permille: 500,
            mode: MergeMode::Upsert,
            target_profile: MergeTargetProfile::Standard,
            source_region: None,
            include_partition_predicate: false,
        },
    );
    v.push(
        MergeCase {
            name: "merge_upsert_90pct",
            match_permille: 900,
            mode: MergeMode::Upsert,
            target_profile: MergeTargetProfile::Standard,
            source_region: None,
            include_partition_predicate: false,
        },
    );
    v.push(
        MergeCase {
            name: "merge_partition_localized_1pct",
            match_permille: 10,
            mode: MergeMode::Upsert,
            target_profile: MergeTargetProfile::Partitioned,
            source_region: Some("us"),
            include_partition_predicate: true,
        },
    );
    proof {
        assert(v.deep_view() =~= spec_merge_cases());
    }
    v
}

pub open spec fn spec_merge_case_names() -> Seq<Seq<char>> {
    spec_merge_cases().map(|_i: int, c: MergeCaseView| c.name)
}

/// The suite's case names, in execution order.
pub fn case_names() -> (r: Vec<String>)
    ensures
        r.deep_view() == spec_merge_case_names(),
{
    let cases = merge_cases();
    let mut v: Vec<String> = Vec::new();
    let len = cases.len();
    let mut i: usize = 0;
    while i < len
        invariant
            len == cases@.len(),
            cases.deep_view() == spec_merge_cases(),
            i <= len,
            v.deep_view() =~= spec_merge_case_names().take(i as int),
        decreases len - i,
    {
        let ghost prev = v.deep_view();
        v.push(cases[i].name.to_owned());
        proof {
            assert(v.deep_view() =~= prev.push(cases@[i as int].name@));
            assert(cases@[i as int].name@ == spec_merge_case_names()[i as int]);
            assert(v.deep_view() =~= spec_merge_case_names().take(i + 1));
        }
        i += 1;
    }
    proof {
        assert(spec_merge_case_names().take(len as int) =~= spec_merge_case_names());
    }
    v
}

/// The case names as static strings.
pub fn merge_case_names() -> (r: Vec<&'static str>)
    ensures
        r.deep_view() == spec_merge_case_names(),
{
    let cases = merge_cases();
    let mut v: Vec<&'static str> = Vec::new();
    let len = cases.len();
    let mut i: usize = 0;
    while i < len
        invariant
            len == cases@.len(),
            cases.deep_view() == spec_merge_cases(),
            i <= len,
            v.deep_view() =~= spec_merge_case_names().take(i as int),
        decreases len - i,
    {
        let ghost prev = v.deep_view();
        v.push(cases[i].name);
        proof {
            assert(v.deep_view() =~= prev.push(cases@[i as int].name@));
            assert(cases@[i as int].name@ == spec_merge_case_names()[i as int]);
            assert(v.deep_view() =~= spec_merge_case_names().take(i + 1));
        }
        i += 1;
    }
    proof {
        assert(spec_merge_case_names().take(len as int) =~= spec_merge_case_names());
    }
    v
}

/// The fixture table a merge profile seeds its target copies from.
pub fn merge_fixture_table_path(
    fixtures_dir: &str,
    scale: &str,
    profile: MergeTargetProfile,
) -> (r: crate::error::BenchResult<String>)
    ensures
        r matches Ok(p) ==> p@ == fixtures_dir@ + "/"@ + scale@ + "/"@ + (match profile {
            MergeTargetProfile::Standard => "merge_target_delta"@,
            MergeTargetProfile::Partitioned => "merge_partitioned_target_delta"@,
        }),
{
    match profile {
        MergeTargetProfile::Standard => crate::fixtures::merge_target_table_path(
            fixtures_dir,
            scale,
        ),
        MergeTargetProfile::Partitioned => crate::fixtures::merge_partitioned_target_table_path(
            fixtures_dir,
            scale,
        ),
    }
}

/// How many candidate rows a merge case matches: the permille share,
/// rounded to nearest, floored at one and capped at the candidate count.
pub fn merge_source_take(candidates: usize, permille: u64) -> (r: usize)
    requires
        candidates >= 1,
        permille <= 1000,
        candidates <= 100000000,
    ensures
        1 <= r <= candidates,
        ({
            let rounded = (candidates * permille + 500) / 1000;
            r == if rounded < 1 {
                1int
            } else if rounded > candidates {
                candidates as int
            } else {
                rounded as int
            }
        }),
{
    proof {
        assert((candidates as int) * (permille as int) <= 100000000int * 1000int)
            by (nonlinear_arith)
            requires
                candidates <= 100000000,
                permille <= 1000,
        ;
    }
    let rounded = (candidates as u64 * permille + 500) / 1000;
    proof {
        assert(rounded <= 100000000);
    }
    let rounded = rounded as usize;
    if rounded < 1 {
        1
    } else if rounded > candidates {
        candidates
    } else {
        rounded
    }
}

/// Whether two names are equal up to ASCII case.
pub open spec fn spec_name_matches_insensitive(a: Seq<char>, b: Seq<char>) -> bool {
    spec_lower(a) == spec_lower(b)
}

/// Case-insensitive lookup of a merge case by name: the first catalogued
/// case whose name matches, if any.
pub fn merge_case_by_name(name: &str) -> (r: Option<MergeCase>)
    ensures
        match r {
            Some(c) => exists|i: int|
                0 <= i < spec_merge_cases().len() && c@ == spec_merge_cases()[i]
                    && spec_name_matches_insensitive(spec_merge_cases()[i].name, name@),
            None => forall|i: int|
                0 <= i < spec_merge_cases().len() ==> !spec_name_matches_insensitive(
                    #[trigger] spec_merge_cases()[i].name,
                    name@,
                ),
        },
{
    let wanted = lower_ascii(name);
    let cases = merge_cases();
    let len = cases.len();
    let mut i: usize = 0;
    while i < len
        invariant
            len == cases@.len(),
            cases.deep_view() == spec_merge_cases(),
            i <= len,
            wanted@ == spec_lower(name@),
            forall|k: int|
                0 <= k < i ==> !spec_name_matches_insensitive(
                    #[trigger] spec_merge_cases()[k].name,
                    name@,
                ),
        decreases len - i,
    {
        let candidate = lower_ascii(cases[i].name);
        if str_eq(candidate.as_str(), wanted.as_str()) {
            let found = cases[i];
            proof {
                let k = i as int;
                assert(cases.deep_view()[k] == cases@[k]@);
                assert(found@ == spec_merge_cases()[k]);
                assert(spec_name_matches_insensitive(spec_merge_cases()[k].name, name@));
            }
            return Some(found);
        }
        i += 1;
    }
    None
}

} // verus!
