//! The delete/update suite catalog: row-level DML at several matched
//! fractions, and the predicate text each case runs with.

use vstd::prelude::*;

use crate::strutil::spec_dec_digits;

verus! {

#[derive(Clone, Copy, Debug, PartialEq, Eq, Structural)]
pub enum DmlOperation {
    Delete,
    UpdateLiteral,
    UpdateExpression,
    UpdateAllExpression,
}

/// The mathematical value of a `DeleteUpdateCase`.
pub struct DeleteUpdateCaseView {
    pub name: Seq<char>,
    pub operation: DmlOperation,
    pub rows_matched_permille: Option<u64>,
    pub partition_localized: bool,
    pub small_files_seed: bool,
}

/// One delete/update case; the matched fraction is carried in permille.
#[derive(Clone, Copy, Debug)]
pub struct DeleteUpdateCase {
    pub name: &'static str,
    pub operation: DmlOperation,
    pub rows_matched_permille: Option<u64>,
    pub partition_localized: bool,
    pub small_files_seed: bool,
}

impl View for DeleteUpdateCase {
    type V = DeleteUpdateCaseView;

    open spec fn view(&self) -> DeleteUpdateCaseView {
        DeleteUpdateCaseView {
            name: self.name@,
            operation: self.operation,
            rows_matched_permille: self.rows_matched_permille,
            partition_localized: self.partition_localized,
            small_files_seed: self.small_files_seed,
        }
    }
}

impl DeepView for DeleteUpdateCase {
    type V = DeleteUpdateCaseView;

    open spec fn deep_view(&self) -> DeleteUpdateCaseView {
        self.view()
    }
}

pub open spec fn spec_delete_update_cases() -> Seq<DeleteUpdateCaseView> {
    seq![
        DeleteUpdateCaseView {
            name: "delete_rowsMatchedFraction_0.01_partition_localized"@,
            operation: DmlOperation::Delete,
            rows_matched_permille: Some(10),
            partition_localized: true,
            small_files_seed: false,
        },
        DeleteUpdateCaseView {
            name: "delete_rowsMatchedFraction_0.05_scattered"@,
            operation: DmlOperation::Delete,
            rows_matched_permille: Some(50),
            partition_localized: false,
            small_files_seed: true,
        },
        DeleteUpdateCaseView {
            name: "delete_rowsMatchedFraction_0.50_broad"@,
            operation: DmlOperation::Delete,
            rows_matched_permille: Some(500),
            partition_localized: false,
            small_files_seed: false,
        },
        DeleteUpdateCaseView {
            name: "update_literal_rowsMatchedFraction_0.01_partition_localized"@,
            operation: DmlOperation::UpdateLiteral,
            rows_matched_permille: Some(10),
            partition_localized: true,
            small_files_seed: false,
        },
        DeleteUpdateCaseView {
            name: "update_literal_rowsMatchedFraction_0.05_scattered"@,
            operation: DmlOperation::UpdateLiteral,
            rows_matched_permille: Some(50),
            partition_localized: false,
            small_files_seed: true,
        },
        DeleteUpdateCaseView {
            name: "update_expression_rowsMatchedFraction_0.50_broad"@,
            operation: DmlOperation::UpdateExpression,
            rows_matched_permille: Some(500),
            partition_localized: false,
            small_files_seed: false,
        },
        DeleteUpdateCaseView {
            name: "update_all_rows_expression"@,
            operation: DmlOperation::UpdateAllExpression,
            rows_matched_permille: None,
            partition_localized: false,
            small_files_seed: false,
        },
    ]
}

/// The full delete/update case table, in execution order.
pub fn delete_update_cases() -> (r: Vec<DeleteUpdateCase>)
    ensures
        r.deep_view() == spec_delete_update_cases(),
{
    let mut v: Vec<DeleteUpdateCase> = Vec::new();
    v.push(
        DeleteUpdateCase {
            name: "delete_rowsMatchedFraction_0.01_partition_localized",
            operation: DmlOperation::Delete,
            rows_matched_permille: Some(10),
            partition_localized: true,
            small_files_seed: false,
        },
    );
    v.push(
        DeleteUpdateCase {
            name: "delete_rowsMatchedFraction_0.05_scattered",
            operation: DmlOperation::Delete,
            rows_matched_permille: Some(50),
            partition_localized: false,
            small_files_seed: true,
        },
    );
    v.push(
        DeleteUpdateCase {
            name: "delete_rowsMatchedFraction_0.50_broad",
            operation: DmlOperation::Delete,
            rows_matched_permille: Some(500),
            partition_localized: false,
            small_files_seed: false,
        },
    );
    v.push(
        DeleteUpdateCase {
            name: "update_literal_rowsMatchedFraction_0.01_partition_localized",
            operation: DmlOperation::UpdateLiteral,
            rows_matched_permille: Some(10),
            partition_localized: true,
            small_files_seed: false,
        },
    );
    v.push(
        DeleteUpdateCase {
            name: "update_literal_rowsMatchedFraction_0.05_scattered",
            operation: DmlOperation::UpdateLiteral,
            rows_matched_permille: Some(50),
            partition_localized: false,
            small_files_seed: true,
        },
    );
    v.push(
        DeleteUpdateCase {
            name: "update_expression_rowsMatchedFraction_0.50_broad",
            operation: DmlOperation::UpdateExpression,
            rows_matched_permille: Some(500),
            partition_localized: false,
            small_files_seed: false,
        },
    );
    v.push(
        DeleteUpdateCase {
            name: "update_all_rows_expression",
            operation: DmlOperation::UpdateAllExpression,
            rows_matched_permille: None,
            partition_localized: false,
            small_files_seed: false,
        },
    );
    proof {
        assert(v.deep_view() =~= spec_delete_update_cases());
    }
    v
}

pub open spec fn spec_delete_update_case_names() -> Seq<Seq<char>> {
    spec_delete_update_cases().map(|_i: int, c: DeleteUpdateCaseView| c.name)
}

/// The suite's case names, in execution order.
pub fn case_names() -> (r: Vec<String>)
    ensures
        r.deep_view() == spec_delete_update_case_names(),
{
    let cases = delete_update_cases();
    let mut v: Vec<String> = Vec::new();
    let len = cases.len();
    let mut i: usize = 0;
    while i < len
        invariant
            len == cases@.len(),
            cases.deep_view() == spec_delete_update_cases(),
            i <= len,
            v.deep_view() =~= spec_delete_update_case_names().take(i as int),
        decreases len - i,
    {
        let ghost prev = v.deep_view();
        v.push(cases[i].name.to_owned());
        proof {
            assert(v.deep_view() =~= prev.push(cases@[i as int].name@));
            assert(cases@[i as int].name@ == spec_delete_update_case_names()[i as int]);
            assert(v.deep_view() =~= spec_delete_update_case_names().take(i + 1));
        }
        i += 1;
    }
    proof {
        assert(spec_delete_update_case_names().take(len as int)
            =~= spec_delete_update_case_names());
    }
    v
}

/// A divisor that matches one row in `permille` out of a thousand,
/// rounded to the nearest whole divisor and floored at one.
pub open spec fn spec_divisor_for(permille: u64) -> u64
    recommends
        permille > 0,
{
    let d = (1000 + permille as int / 2) / (permille as int);
    if d == 0 {
        1
    } else {
        d as u64
    }
}

pub open spec fn spec_case_predicate(c: DeleteUpdateCaseView) -> Option<Seq<char>> {
    match c.rows_matched_permille {
        None => None,
        Some(p) => if c.partition_localized {
            Some(
                "region = 'us' AND id % "@ + spec_dec_digits(
                    spec_divisor_for((6 * p) as u64) as nat,
                ) + " = 0"@,
            )
        } else {
            Some("id % "@ + spec_dec_digits(spec_divisor_for(p) as nat) + " = 0"@)
        },
    }
}

/// The SQL predicate a case's DML runs with: a modulus filter over row
/// ids, restricted to one region for partition-localized cases. Cases
/// without a matched fraction (whole-table updates) have none.
pub fn case_predicate(case: &DeleteUpdateCase) -> (r: Option<String>)
    requires
        case@.rows_matched_permille matches Some(p) ==> 0 < p <= 1000,
    ensures
        match r {
            Some(s) => spec_case_predicate(case@) == Some(s@),
            None => spec_case_predicate(case@) is None,
        },
{
    let permille = match case.rows_matched_permille {
        Some(p) => p,
        None => {
            return None;
        },
    };
    let mut out = String::new();
    if case.partition_localized {
        let six = 6 * permille;
        let divisor = {
            let d = (1000 + six / 2) / six;
            if d == 0 {
                1
            } else {
                d
            }
        };
        out.append("region = 'us' AND id % ");
        let text = crate::strutil::u64_to_string(divisor);
        out.append(text.as_str());
        out.append(" = 0");
    } else {
        let divisor = {
            let d = (1000 + permille / 2) / permille;
            if d == 0 {
                1
            } else {
                d
            }
        };
        out.append("id % ");
        let text = crate::strutil::u64_to_string(divisor);
        out.append(text.as_str());
        out.append(" = 0");
    }
    Some(out)
}

} // verus!
