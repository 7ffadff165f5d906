//! The commit-message rule: a message must name at least one requirement.

use vstd::prelude::*;
use vstd::string::*;
use crate::text::{str_eq, texts};

verus! {

/// The pattern of a reference to a requirement: `REQ-` and digits.
pub const REQUIREMENT_PATTERN: &'static str = "REQ-\\d+";

/// The texts of the successive matches, none overlapping another, that the
/// regular expression `pattern` has in `haystack`, as regex-lite finds them;
/// `None` where regex-lite does not accept the pattern.
pub uninterp spec fn regex_matches(pattern: Seq<char>, haystack: Seq<char>) -> Option<
    Seq<Seq<char>>,
>;

/// The view of an optional vector of strings.
pub open spec fn opt_texts(v: Option<Vec<String>>) -> Option<Seq<Seq<char>>> {
    match v {
        Some(t) => Some(texts(t@)),
        None => None,
    }
}

/// Finds the matches of a regular expression.
///
/// Trusted: wraps regex-lite's `Regex::new` and `Regex::find_iter`, and takes
/// the text of each match with `Match::as_str`. The result is named, not
/// described: `None` where `Regex::new` refuses the pattern, else the matched
/// texts in the order in which `find_iter` yields them.
#[verifier::external_body]
fn find_all(pattern: &str, haystack: &str) -> (r: Option<Vec<String>>)
    ensures
        opt_texts(r) == regex_matches(pattern@, haystack@),
{
    match regex_lite::Regex::new(pattern) {
        Ok(re) => Some(re.find_iter(haystack).map(|m| m.as_str().to_string()).collect()),
        Err(_) => None,
    }
}

/// What the rule says of a commit message.
#[derive(Debug, Clone, PartialEq, Eq)]
pub enum CommitCheck {
    /// The message names no requirement.
    Rejected,
    /// The message names a requirement; `unknown` holds the references, in
    /// the order of the message, that no known document has.
    Accepted { unknown: Vec<String> },
}

/// The mathematical value of a [`CommitCheck`].
pub enum CommitCheckView {
    Rejected,
    Accepted { unknown: Seq<Seq<char>> },
}

impl View for CommitCheck {
    type V = CommitCheckView;

    open spec fn view(&self) -> CommitCheckView {
        match self {
            CommitCheck::Rejected => CommitCheckView::Rejected,
            CommitCheck::Accepted { unknown } => CommitCheckView::Accepted {
                unknown: texts(unknown@),
            },
        }
    }
}

/// The references that are not among the known ids, in order.
pub open spec fn unknown_refs(refs: Seq<Seq<char>>, known: Seq<Seq<char>>) -> Seq<Seq<char>> {
    refs.filter(|r: Seq<char>| !known.contains(r))
}

/// What the rule makes of the references found in a message: none is a
/// rejection; else the message is accepted, and where the ids of the known
/// requirements are given, the references not among them are listed.
pub open spec fn judged(refs: Seq<Seq<char>>, known: Option<Seq<Seq<char>>>) -> CommitCheckView {
    if refs.len() == 0 {
        CommitCheckView::Rejected
    } else {
        CommitCheckView::Accepted {
            unknown: match known {
                Some(ids) => unknown_refs(refs, ids),
                None => Seq::empty(),
            },
        }
    }
}

/// The references to requirements in a message.
pub open spec fn references_in(message: Seq<char>) -> Seq<Seq<char>> {
    match regex_matches(REQUIREMENT_PATTERN@, message) {
        Some(found) => found,
        None => Seq::empty(),
    }
}

/// Whether `id` is among `known`.
pub fn is_known(known: &Vec<String>, id: &str) -> (r: bool)
    ensures
        r == texts(known@).contains(id@),
{
    let mut i: usize = 0;
    while i < known.len()
        invariant
            i <= known.len(),
            forall|j: int| 0 <= j < i ==> texts(known@)[j] != id@,
        decreases known.len() - i,
    {
        if str_eq(known[i].as_str(), id) {
            assert(texts(known@)[i as int] == id@);
            return true;
        }
        i += 1;
    }
    false
}

/// Judges the references found in a commit message. `known` holds the ids of
/// the requirements of all known documents, `None` where there are no
/// documents to look in.
pub fn judge_refs(refs: &Vec<String>, known: Option<&Vec<String>>) -> (r: CommitCheck)
    ensures
        r@ == judged(
            texts(refs@),
            match known {
                Some(ids) => Some(texts(ids@)),
                None => None,
            },
        ),
{
    if refs.len() == 0 {
        return CommitCheck::Rejected;
    }
    let mut unknown: Vec<String> = Vec::new();
    match known {
        Some(ids) => {
            let mut i: usize = 0;
            proof {
                reveal(Seq::filter);
            }
            assert(texts(refs@).take(0) =~= Seq::<Seq<char>>::empty());
            assert(texts(unknown@) =~= unknown_refs(texts(refs@).take(0), texts(ids@)));
            while i < refs.len()
                invariant
                    i <= refs.len(),
                    texts(unknown@) == unknown_refs(texts(refs@).take(i as int), texts(ids@)),
                decreases refs.len() - i,
            {
                let ghost before = texts(unknown@);
                proof {
                    reveal(Seq::filter);
                    assert(texts(refs@).take(i + 1).drop_last() =~= texts(refs@).take(i as int));
                    assert(texts(refs@).take(i + 1).last() == refs@[i as int]@);
                }
                if !is_known(ids, refs[i].as_str()) {
                    unknown.push(refs[i].clone());
                    assert(texts(unknown@) =~= before.push(refs@[i as int]@));
                }
                i += 1;
            }
            assert(texts(refs@).take(i as int) =~= texts(refs@));
        },
        None => {
            assert(texts(unknown@) =~= Seq::<Seq<char>>::empty());
        },
    }
    CommitCheck::Accepted { unknown }
}

/// The references to requirements in a commit message, in order.
pub fn requirement_refs(message: &str) -> (refs: Vec<String>)
    ensures
        texts(refs@) == references_in(message@),
{
    match find_all(REQUIREMENT_PATTERN, message) {
        Some(found) => found,
        None => {
            let none: Vec<String> = Vec::new();
            assert(texts(none@) =~= Seq::<Seq<char>>::empty());
            none
        },
    }
}

/// Checks a commit message: it must name at least one requirement. `known`
/// holds the ids of the requirements of all known documents, `None` where
/// there are no documents to look in.
pub fn check_commit_message(message: &str, known: Option<&Vec<String>>) -> (r: CommitCheck)
    ensures
        r@ == judged(
            references_in(message@),
            match known {
                Some(ids) => Some(texts(ids@)),
                None => None,
            },
        ),
{
    let refs = requirement_refs(message);
    judge_refs(&refs, known)
}

} // verus!
