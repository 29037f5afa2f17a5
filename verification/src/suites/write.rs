//! The write suite catalog: append batches of two sizes, and overwrite.

use vstd::prelude::*;

verus! {

pub open spec fn spec_case_names() -> Seq<Seq<char>> {
    seq!["write_append_small_batches"@, "write_append_large_batches"@, "write_overwrite"@]
}

/// The suite's case names, in execution order.
pub fn case_names() -> (r: Vec<String>)
    ensures
        r.deep_view() == spec_case_names(),
{
    let mut v: Vec<String> = Vec::new();
    v.push("write_append_small_batches".to_owned());
    v.push("write_append_large_batches".to_owned());
    v.push("write_overwrite".to_owned());
    proof {
        assert(v.deep_view() =~= spec_case_names());
    }
    v
}

} // verus!
