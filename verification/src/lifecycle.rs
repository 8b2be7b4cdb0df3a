use vstd::prelude::*;

use crate::version::{insert_distinct_sorted, sorted_strict};

verus! {

/// Distills a batch update request into the versions to process: each
/// requested major version exactly once, in increasing order, so that
/// a multi-version update runs deterministically, one version at a
/// time.
pub fn plan_updates(requested: &Vec<i64>) -> (r: Vec<i64>)
    ensures
        forall|v: i64| r@.contains(v) <==> requested@.contains(v),
        sorted_strict(r@),
{
    let mut r: Vec<i64> = Vec::new();
    let mut i: usize = 0;
    while i < requested.len()
        invariant
            0 <= i <= requested@.len(),
            sorted_strict(r@),
            forall|v: i64|
                r@.contains(v) <==> exists|k: int| 0 <= k < i && requested@[k] == v,
        decreases requested@.len() - i,
    {
        insert_distinct_sorted(&mut r, requested[i]);
        i = i + 1;
    }
    r
}

} // verus!
