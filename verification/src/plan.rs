//! The first requirement document of a new feature.

use vstd::prelude::*;
use vstd::string::*;
use crate::ledger::{formatted_time, Timestamp};
use crate::prd::{Prd, PrdView, Requirement, RequirementStatus, RequirementView};
use crate::text::{chars_of, push_str, string_of};

verus! {

/// The strftime pattern of the time stamp in a run id.
pub const RUN_STAMP_PATTERN: &'static str = "%Y%m%d-%H%M%S";

/// `s` with a space in place of each hyphen.
pub open spec fn spaced(s: Seq<char>) -> Seq<char> {
    Seq::new(
        s.len(),
        |i: int|
            if s[i] == '-' {
                ' '
            } else {
                s[i]
            },
    )
}

/// The document that a new feature `slug` starts with: its title is the slug
/// with spaces for hyphens, its run id the slug, a hyphen and `stamp`, and it
/// holds one requirement that is still to do.
pub open spec fn initial_prd_view(slug: Seq<char>, stamp: Seq<char>) -> PrdView {
    PrdView {
        schema_version: "1.0"@,
        slug,
        title: spaced(slug),
        active_run_id: slug + "-"@ + stamp,
        validation_profiles: seq!["rust-cargo"@],
        requirements: seq![
            RequirementView {
                id: "REQ-01"@,
                title: "Initial requirement"@,
                status: RequirementStatus::Todo,
                acceptance_criteria: seq!["Define acceptance criteria during planning"@],
            },
        ],
    }
}

/// The document that a new feature `slug` starts with, for a run stamped
/// `stamp`.
pub fn initial_prd(slug: &str, stamp: &str) -> (prd: Prd)
    ensures
        prd@ == initial_prd_view(slug@, stamp@),
{
    let name = chars_of(slug);
    let mut title: Vec<char> = Vec::new();
    let mut i: usize = 0;
    while i < name.len()
        invariant
            i <= name.len(),
            title@ == spaced(name@).take(i as int),
        decreases name.len() - i,
    {
        if name[i] == '-' {
            title.push(' ');
        } else {
            title.push(name[i]);
        }
        i += 1;
        assert(title@ =~= spaced(name@).take(i as int));
    }
    assert(spaced(name@).take(i as int) =~= spaced(name@));
    let mut run_id: Vec<char> = Vec::new();
    push_str(&mut run_id, slug);
    push_str(&mut run_id, "-");
    push_str(&mut run_id, stamp);
    assert(run_id@ =~= slug@ + "-"@ + stamp@);
    let mut criteria: Vec<String> = Vec::new();
    criteria.push("Define acceptance criteria during planning".to_owned());
    let mut profiles: Vec<String> = Vec::new();
    profiles.push("rust-cargo".to_owned());
    let mut requirements: Vec<Requirement> = Vec::new();
    requirements.push(
        Requirement {
            id: "REQ-01".to_owned(),
            title: "Initial requirement".to_owned(),
            status: RequirementStatus::Todo,
            acceptance_criteria: criteria,
        },
    );
    let prd = Prd {
        schema_version: "1.0".to_owned(),
        slug: slug.to_owned(),
        title: string_of(&title),
        active_run_id: string_of(&run_id),
        validation_profiles: profiles,
        requirements,
    };
    assert(prd@.validation_profiles =~= seq!["rust-cargo"@]);
    assert(prd@.requirements[0].acceptance_criteria =~= seq![
        "Define acceptance criteria during planning"@,
    ]);
    assert(prd@.requirements =~= initial_prd_view(slug@, stamp@).requirements);
    prd
}

/// The text of a time stamp, nothing where the time cannot be written.
pub open spec fn stamp_text(stamp: Option<Seq<char>>) -> Seq<char> {
    match stamp {
        Some(s) => s,
        None => Seq::empty(),
    }
}

/// The document that a new feature `slug` starts with, for a run that is
/// stamped with the current time.
pub fn create_initial_prd(slug: &str) -> (prd: Prd)
    ensures
        exists|now: Timestamp|
            prd@ == initial_prd_view(
                slug@,
                stamp_text(formatted_time(now.secs, now.nanos, RUN_STAMP_PATTERN@)),
            ),
{
    let now = Timestamp::now();
    let prd = match now.format(RUN_STAMP_PATTERN) {
        Some(stamp) => initial_prd(slug, stamp.as_str()),
        None => initial_prd(slug, ""),
    };
    proof {
        reveal_strlit("");
        assert(""@ =~= Seq::<char>::empty());
    }
    prd
}

} // verus!
