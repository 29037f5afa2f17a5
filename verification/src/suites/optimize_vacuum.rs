//! The optimize/vacuum suite catalog: compaction at two intensities, a
//! no-op compaction, and dry-run/execute vacuum.

use vstd::prelude::*;

verus! {

pub open spec fn spec_case_names() -> Seq<Seq<char>> {
    seq![
        "optimize_compact_small_files"@,
        "optimize_noop_already_compact"@,
        "optimize_heavy_compaction"@,
        "vacuum_dry_run_lite"@,
        "vacuum_execute_lite"@,
    ]
}

/// The suite's case names, in execution order.
pub fn case_names() -> (r: Vec<String>)
    ensures
        r.deep_view() == spec_case_names(),
{
    let mut v: Vec<String> = Vec::new();
    v.push("optimize_compact_small_files".to_owned());
    v.push("optimize_noop_already_compact".to_owned());
    v.push("optimize_heavy_compaction".to_owned());
    v.push("vacuum_dry_run_lite".to_owned());
    v.push("vacuum_execute_lite".to_owned());
    proof {
        assert(v.deep_view() =~= spec_case_names());
    }
    v
}

} // verus!
