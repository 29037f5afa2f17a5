//! The metadata suite catalog: table load and time travel.

use vstd::prelude::*;

verus! {

pub open spec fn spec_case_names() -> Seq<Seq<char>> {
    seq!["metadata_table_load"@, "metadata_time_travel_v0"@]
}

/// The suite's case names, in execution order.
pub fn case_names() -> (r: Vec<String>)
    ensures
        r.deep_view() == spec_case_names(),
{
    let mut v: Vec<String> = Vec::new();
    v.push("metadata_table_load".to_owned());
    v.push("metadata_time_travel_v0".to_owned());
    proof {
        assert(v.deep_view() =~= spec_case_names());
    }
    v
}

} // verus!
