//! The read/scan suite catalog: full scans, projections, filters and the
//! partition-pruning hit/miss pair.

use vstd::prelude::*;

verus! {

pub open spec fn spec_case_names() -> Seq<Seq<char>> {
    seq![
        "read_full_scan_narrow"@,
        "read_projection_region"@,
        "read_filter_flag_true"@,
        "read_partition_pruning_hit"@,
        "read_partition_pruning_miss"@,
    ]
}

/// The suite's case names, in execution order.
pub fn case_names() -> (r: Vec<String>)
    ensures
        r.deep_view() == spec_case_names(),
{
    let mut v: Vec<String> = Vec::new();
    v.push("read_full_scan_narrow".to_owned());
    v.push("read_projection_region".to_owned());
    v.push("read_filter_flag_true".to_owned());
    v.push("read_partition_pruning_hit".to_owned());
    v.push("read_partition_pruning_miss".to_owned());
    proof {
        assert(v.deep_view() =~= spec_case_names());
    }
    v
}

} // verus!
