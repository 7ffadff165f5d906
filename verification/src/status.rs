//! Progress figures for status reports.

use vstd::prelude::*;
use vstd::string::*;
use crate::prd::{done_count, Prd, RequirementStatus};

verus! {

/// How many requirements are done, and how many there are.
pub fn count_requirements(prd: &Prd) -> (r: (usize, usize))
    ensures
        r.0 == done_count(prd@.requirements),
        r.1 == prd@.requirements.len(),
        r.0 <= r.1,
{
    let mut done: usize = 0;
    let mut i: usize = 0;
    proof {
        reveal(Seq::filter);
    }
    assert(prd@.requirements.take(0) =~= Seq::empty());
    while i < prd.requirements.len()
        invariant
            i <= prd.requirements.len(),
            done <= i,
            done == done_count(prd@.requirements.take(i as int)),
        decreases prd.requirements.len() - i,
    {
        proof {
            reveal(Seq::filter);
            assert(prd@.requirements.take(i + 1).drop_last() =~= prd@.requirements.take(i as int));
            assert(prd@.requirements.take(i + 1).last() == prd@.requirements[i as int]);
        }
        if prd.requirements[i].status == RequirementStatus::Done {
            done += 1;
        }
        i += 1;
    }
    assert(prd@.requirements.take(i as int) =~= prd@.requirements);
    (done, prd.requirements.len())
}

/// The sign for the progress of a feature.
pub open spec fn progress_icon(done: nat, total: nat) -> Seq<char> {
    if done == total && total > 0 {
        "✅"@
    } else if done > 0 {
        "🔄"@
    } else {
        "⬜"@
    }
}

/// The sign for the progress of a feature: complete when every requirement
/// of at least one is done, under way when some are, else not begun.
pub fn status_icon(done: usize, total: usize) -> (s: &'static str)
    ensures
        s@ == progress_icon(done as nat, total as nat),
{
    if done == total && total > 0 {
        "✅"
    } else if done > 0 {
        "🔄"
    } else {
        "⬜"
    }
}

/// The sign for the status of a requirement.
pub fn req_status_icon(status: &RequirementStatus) -> (s: &'static str)
    ensures
        s@ == status.icon(),
{
    status.status_icon()
}

} // verus!
