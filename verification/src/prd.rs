//! The requirement document: requirements with their status, the rule that
//! selects the next one to work on, and the document's markdown rendering.

use vstd::prelude::*;
use vstd::string::*;
use crate::error::RalphError;
use crate::text::{
    chars_of, clone_strings, find, find_first, join, push_all, push_joined, push_str, slice, str_eq, string_of,
    texts, trim, trim_bounds,
};

verus! {

/// The status of a requirement.
#[derive(Debug, Clone, Copy, PartialEq, Eq, Structural)]
pub enum RequirementStatus {
    Todo,
    InProgress,
    Done,
    Blocked,
}

impl RequirementStatus {
    /// Whether a requirement in this status may be selected for an attempt:
    /// `Todo` and `InProgress` may, `Done` and `Blocked` never.
    pub open spec fn eligible(self) -> bool {
        self == RequirementStatus::Todo || self == RequirementStatus::InProgress
    }

    /// Whether a requirement in this status may be selected for an attempt.
    pub fn is_eligible(self) -> (r: bool)
        ensures
            r == self.eligible(),
    {
        match self {
            RequirementStatus::Todo => true,
            RequirementStatus::InProgress => true,
            RequirementStatus::Done => false,
            RequirementStatus::Blocked => false,
        }
    }

    /// The sign that stands for the status in rendered documents.
    pub open spec fn icon(self) -> Seq<char> {
        match self {
            RequirementStatus::Todo => "⬜"@,
            RequirementStatus::InProgress => "🔄"@,
            RequirementStatus::Done => "✅"@,
            RequirementStatus::Blocked => "🚫"@,
        }
    }

    /// The sign that stands for the status in rendered documents.
    pub fn status_icon(self) -> (s: &'static str)
        ensures
            s@ == self.icon(),
    {
        match self {
            RequirementStatus::Todo => "⬜",
            RequirementStatus::InProgress => "🔄",
            RequirementStatus::Done => "✅",
            RequirementStatus::Blocked => "🚫",
        }
    }
}

/// One unit of work.
#[derive(Debug, Clone, PartialEq, Eq)]
pub struct Requirement {
    /// Unique, stable identifier, such as "REQ-01".
    pub id: String,
    /// Short title.
    pub title: String,
    /// Current status.
    pub status: RequirementStatus,
    /// Acceptance criteria, in order.
    pub acceptance_criteria: Vec<String>,
}

/// The mathematical value of a [`Requirement`].
pub struct RequirementView {
    pub id: Seq<char>,
    pub title: Seq<char>,
    pub status: RequirementStatus,
    pub acceptance_criteria: Seq<Seq<char>>,
}

impl View for Requirement {
    type V = RequirementView;

    open spec fn view(&self) -> RequirementView {
        RequirementView {
            id: self.id@,
            title: self.title@,
            status: self.status,
            acceptance_criteria: texts(self.acceptance_criteria@),
        }
    }
}

/// The views of a sequence of requirements.
pub open spec fn requirement_views(reqs: Seq<Requirement>) -> Seq<RequirementView> {
    Seq::new(reqs.len(), |i: int| reqs[i]@)
}

/// The requirement document of one feature.
#[derive(Debug, Clone, PartialEq)]
pub struct Prd {
    /// Schema version.
    pub schema_version: String,
    /// Stable identifier of the feature.
    pub slug: String,
    /// Human-readable title.
    pub title: String,
    /// Identifier of the current run.
    pub active_run_id: String,
    /// Names of the validation profiles to use, in order.
    pub validation_profiles: Vec<String>,
    /// The requirements, in order.
    pub requirements: Vec<Requirement>,
}

/// The mathematical value of a [`Prd`].
pub struct PrdView {
    pub schema_version: Seq<char>,
    pub slug: Seq<char>,
    pub title: Seq<char>,
    pub active_run_id: Seq<char>,
    pub validation_profiles: Seq<Seq<char>>,
    pub requirements: Seq<RequirementView>,
}

impl View for Prd {
    type V = PrdView;

    open spec fn view(&self) -> PrdView {
        PrdView {
            schema_version: self.schema_version@,
            slug: self.slug@,
            title: self.title@,
            active_run_id: self.active_run_id@,
            validation_profiles: texts(self.validation_profiles@),
            requirements: requirement_views(self.requirements@),
        }
    }
}

/// The first index at or after `start` whose requirement has the id `id`.
pub open spec fn position_from(reqs: Seq<RequirementView>, id: Seq<char>, start: int) -> Option<
    int,
>
    decreases reqs.len() - start,
{
    if start < 0 || start >= reqs.len() {
        None
    } else if reqs[start].id == id {
        Some(start)
    } else {
        position_from(reqs, id, start + 1)
    }
}

/// The index of the first requirement with the id `id`.
pub open spec fn position_of(reqs: Seq<RequirementView>, id: Seq<char>) -> Option<int> {
    position_from(reqs, id, 0)
}

/// The first index at or after `start` whose requirement may be selected.
pub open spec fn eligible_from(reqs: Seq<RequirementView>, start: int) -> Option<int>
    decreases reqs.len() - start,
{
    if start < 0 || start >= reqs.len() {
        None
    } else if reqs[start].status.eligible() {
        Some(start)
    } else {
        eligible_from(reqs, start + 1)
    }
}

/// The index of the requirement to work on next: the first, in list order,
/// whose status is `Todo` or `InProgress`.
pub open spec fn first_eligible(reqs: Seq<RequirementView>) -> Option<int> {
    eligible_from(reqs, 0)
}

/// No two requirements share an id.
pub open spec fn unique_ids(reqs: Seq<RequirementView>) -> bool {
    forall|i: int, j: int|
        0 <= i < j < reqs.len() ==> (#[trigger] reqs[i]).id != (#[trigger] reqs[j]).id
}

/// The requirements with the status of the one at `index` replaced.
pub open spec fn with_status_at(reqs: Seq<RequirementView>, index: int, status: RequirementStatus) -> Seq<
    RequirementView,
> {
    reqs.update(index, RequirementView { status, ..reqs[index] })
}

/// The document after the first requirement with the id `id` got the status
/// `status`; the same document where no requirement has that id.
pub open spec fn with_status(prd: PrdView, id: Seq<char>, status: RequirementStatus) -> PrdView {
    match position_of(prd.requirements, id) {
        Some(i) => PrdView { requirements: with_status_at(prd.requirements, i, status), ..prd },
        None => prd,
    }
}

/// How many requirements are done.
pub open spec fn done_count(reqs: Seq<RequirementView>) -> nat {
    reqs.filter(|r: RequirementView| r.status == RequirementStatus::Done).len()
}

/// `position_from` finds a requirement with the id and none stands before it;
/// `None` means that no requirement from `start` on has the id.
pub proof fn lemma_position_from(reqs: Seq<RequirementView>, id: Seq<char>, start: int)
    requires
        0 <= start,
    ensures
        match position_from(reqs, id, start) {
            Some(i) => {
                &&& start <= i < reqs.len()
                &&& reqs[i].id == id
                &&& forall|j: int| start <= j < i ==> reqs[j].id != id
            },
            None => forall|j: int| start <= j < reqs.len() ==> reqs[j].id != id,
        },
    decreases reqs.len() - start,
{
    if start < reqs.len() && reqs[start].id != id {
        lemma_position_from(reqs, id, start + 1);
    }
}

/// `eligible_from` finds a requirement that may be selected and none stands
/// before it; `None` means that none from `start` on may be selected.
pub proof fn lemma_eligible_from(reqs: Seq<RequirementView>, start: int)
    requires
        0 <= start,
    ensures
        match eligible_from(reqs, start) {
            Some(i) => {
                &&& start <= i < reqs.len()
                &&& reqs[i].status.eligible()
                &&& forall|j: int| start <= j < i ==> !reqs[j].status.eligible()
            },
            None => forall|j: int| start <= j < reqs.len() ==> !reqs[j].status.eligible(),
        },
    decreases reqs.len() - start,
{
    if start < reqs.len() && !reqs[start].status.eligible() {
        lemma_eligible_from(reqs, start + 1);
    }
}

/// Where no two requirements share an id, the requirement at `index` is the
/// one that its id stands for.
pub proof fn lemma_unique_position(reqs: Seq<RequirementView>, index: int)
    requires
        unique_ids(reqs),
        0 <= index < reqs.len(),
    ensures
        position_of(reqs, reqs[index].id) == Some(index),
{
    lemma_position_from(reqs, reqs[index].id, 0);
}

impl Requirement {
    /// A copy of the requirement.
    pub fn duplicate(&self) -> (r: Self)
        ensures
            r@ == self@,
    {
        Requirement {
            id: self.id.clone(),
            title: self.title.clone(),
            status: self.status,
            acceptance_criteria: clone_strings(&self.acceptance_criteria),
        }
    }
}

impl Prd {
    /// The index of the first requirement with the id `req_id`.
    pub fn find_requirement(&self, req_id: &str) -> (r: Option<usize>)
        ensures
            match r {
                Some(i) => position_of(self@.requirements, req_id@) == Some(i as int) && i
                    < self.requirements.len(),
                None => position_of(self@.requirements, req_id@) is None,
            },
    {
        let mut i: usize = 0;
        while i < self.requirements.len()
            invariant
                i <= self.requirements.len(),
                position_of(self@.requirements, req_id@) == position_from(
                    self@.requirements,
                    req_id@,
                    i as int,
                ),
            decreases self.requirements.len() - i,
        {
            if str_eq(self.requirements[i].id.as_str(), req_id) {
                return Some(i);
            }
            i += 1;
        }
        None
    }

    /// Whether no two requirements share an id.
    pub fn has_unique_ids(&self) -> (r: bool)
        ensures
            r == unique_ids(self@.requirements),
    {
        let mut j: usize = 0;
        while j < self.requirements.len()
            invariant
                j <= self.requirements.len(),
                forall|a: int, b: int|
                    0 <= a < b < j ==> (#[trigger] self@.requirements[a]).id != (
                    #[trigger] self@.requirements[b]).id,
            decreases self.requirements.len() - j,
        {
            let mut i: usize = 0;
            while i < j
                invariant
                    i <= j < self.requirements.len(),
                    forall|a: int|
                        0 <= a < i ==> (#[trigger] self@.requirements[a]).id
                            != self@.requirements[j as int].id,
                decreases j - i,
            {
                if str_eq(self.requirements[i].id.as_str(), self.requirements[j].id.as_str()) {
                    assert(self@.requirements[i as int].id == self@.requirements[j as int].id);
                    return false;
                }
                i += 1;
            }
            j += 1;
        }
        true
    }

    /// Sets the status of the first requirement with the id `req_id`. Returns
    /// whether there is such a requirement; where there is none the document
    /// stays as it is.
    pub fn update_requirement_status(&mut self, req_id: &str, status: RequirementStatus) -> (r: bool)
        ensures
            r == position_of(old(self)@.requirements, req_id@).is_some(),
            final(self)@ == with_status(old(self)@, req_id@, status),
    {
        match self.find_requirement(req_id) {
            Some(i) => {
                let mut changed = self.requirements[i].duplicate();
                changed.status = status;
                self.requirements.set(i, changed);
                assert(self@.requirements =~= with_status_at(
                    old(self)@.requirements,
                    i as int,
                    status,
                ));
                true
            },
            None => false,
        }
    }

    /// Sets the status of the requirement at `index`.
    pub fn set_status_at(&mut self, index: usize, status: RequirementStatus)
        requires
            index < old(self).requirements.len(),
        ensures
            final(self)@ == (PrdView {
                requirements: with_status_at(old(self)@.requirements, index as int, status),
                ..old(self)@
            }),
    {
        let mut changed = self.requirements[index].duplicate();
        changed.status = status;
        self.requirements.set(index, changed);
        assert(self@.requirements =~= with_status_at(
            old(self)@.requirements,
            index as int,
            status,
        ));
    }

    /// The index of the requirement to work on next: the first, in list
    /// order, whose status is `Todo` or `InProgress`.
    pub fn next_requirement_index(&self) -> (r: Option<usize>)
        ensures
            match r {
                Some(i) => first_eligible(self@.requirements) == Some(i as int) && i
                    < self.requirements.len(),
                None => first_eligible(self@.requirements) is None,
            },
    {
        let mut i: usize = 0;
        while i < self.requirements.len()
            invariant
                i <= self.requirements.len(),
                first_eligible(self@.requirements) == eligible_from(self@.requirements, i as int),
            decreases self.requirements.len() - i,
        {
            if self.requirements[i].status.is_eligible() {
                return Some(i);
            }
            i += 1;
        }
        None
    }

    /// The requirement to work on next, if any is left.
    pub fn next_requirement(&self) -> (r: Option<&Requirement>)
        ensures
            match r {
                Some(req) => first_eligible(self@.requirements) matches Some(i)
                    && self@.requirements[i] == req@ && 0 <= i < self.requirements.len()
                    && self.requirements[i] == *req,
                None => first_eligible(self@.requirements) is None,
            },
    {
        match self.next_requirement_index() {
            Some(i) => Some(&self.requirements[i]),
            None => None,
        }
    }
}

/// The rendering of a list of acceptance criteria: one bullet line each.
pub open spec fn criteria_markdown(criteria: Seq<Seq<char>>) -> Seq<char>
    decreases criteria.len(),
{
    if criteria.len() == 0 {
        Seq::empty()
    } else {
        criteria_markdown(criteria.drop_last()) + "- "@ + criteria.last() + "\n"@
    }
}

/// The rendering of one requirement: a heading with the status sign, the id
/// and the title, then the acceptance criteria.
pub open spec fn requirement_markdown(r: RequirementView) -> Seq<char> {
    "### "@ + r.status.icon() + " "@ + r.id + " - "@ + r.title + "\n\n"@
        + "**Acceptance Criteria:**\n\n"@ + criteria_markdown(r.acceptance_criteria) + "\n"@
}

/// The rendering of a list of requirements, one after the other.
pub open spec fn requirements_markdown(reqs: Seq<RequirementView>) -> Seq<char>
    decreases reqs.len(),
{
    if reqs.len() == 0 {
        Seq::empty()
    } else {
        requirements_markdown(reqs.drop_last()) + requirement_markdown(reqs.last())
    }
}

/// The rendering of a document: title, slug, run id and validation profiles,
/// then every requirement.
pub open spec fn markdown(prd: PrdView) -> Seq<char> {
    "# "@ + prd.title + "\n\n"@ + "**Slug:** `"@ + prd.slug + "`\n\n"@ + "**Run ID:** `"@
        + prd.active_run_id + "`\n\n"@ + "**Validation Profiles:** "@ + join(
        prd.validation_profiles,
        ", "@,
    ) + "\n\n"@ + "## Requirements\n\n"@ + requirements_markdown(prd.requirements)
}

/// The opening marker of the managed section `marker`.
pub open spec fn begin_marker(marker: Seq<char>) -> Seq<char> {
    "<!-- RALPH:BEGIN "@ + marker + " -->"@
}

/// The closing marker of the managed section `marker`.
pub open spec fn end_marker(marker: Seq<char>) -> Seq<char> {
    "<!-- RALPH:END "@ + marker + " -->"@
}

/// `log` closed by a line feed, where it does not end in one already.
pub open spec fn closed_by_newline(log: Seq<char>) -> Seq<char> {
    if log.len() > 0 && log.last() == '\n' {
        log
    } else {
        log + "\n"@
    }
}

/// The skeleton of the document's markdown file: the title, the place of the
/// machine-readable document, and the planning log between its markers.
pub open spec fn markdown_with_markers(prd: PrdView, planning_log: Option<Seq<char>>) -> Seq<
    char,
> {
    let head = "# "@ + prd.title + "\n\n"@ + "Canonical machine PRD: ralph/tasks/"@ + prd.slug
        + "/prd.json\n\n"@ + "<!-- RALPH:BEGIN PLANNING_LOG -->\n"@;
    let body = match planning_log {
        Some(log) => closed_by_newline(log),
        None => Seq::empty(),
    };
    head + body + "<!-- RALPH:END PLANNING_LOG -->\n"@
}

/// The text of the section `marker` of `content`: what stands between the
/// first opening marker and the first closing marker, without the white space
/// around it. There is none where a marker is missing or the closing marker
/// does not come after the whole opening marker.
pub open spec fn section_of(content: Seq<char>, marker: Seq<char>) -> Option<Seq<char>> {
    match (find_first(content, begin_marker(marker)), find_first(content, end_marker(marker))) {
        (Some(b), Some(e)) => if b + begin_marker(marker).len() <= e {
            Some(trim(content.subrange(b + begin_marker(marker).len(), e)))
        } else {
            None
        },
        _ => None,
    }
}

/// `content` after `text` was added to the section `marker`: as a new line
/// just before the first closing marker, or, where there is no closing
/// marker, in a new section at the end.
pub open spec fn appended_to_section(content: Seq<char>, marker: Seq<char>, text: Seq<char>) -> Seq<
    char,
> {
    match find_first(content, end_marker(marker)) {
        Some(e) => {
            let gap = if e > 0 && content[e - 1] == '\n' {
                Seq::<char>::empty()
            } else {
                "\n"@
            };
            content.subrange(0, e) + gap + text + "\n"@ + content.subrange(e, content.len() as int)
        },
        None => content + "\n"@ + begin_marker(marker) + "\n"@ + text + "\n"@ + end_marker(marker)
            + "\n"@,
    }
}

fn push_criteria(out: &mut Vec<char>, criteria: &Vec<String>)
    ensures
        final(out)@ == old(out)@ + criteria_markdown(texts(criteria@)),
{
    let mut i: usize = 0;
    assert(texts(criteria@).take(0) =~= Seq::<Seq<char>>::empty());
    assert(out@ =~= old(out)@ + criteria_markdown(texts(criteria@).take(0)));
    while i < criteria.len()
        invariant
            i <= criteria.len(),
            out@ == old(out)@ + criteria_markdown(texts(criteria@).take(i as int)),
        decreases criteria.len() - i,
    {
        let ghost done = texts(criteria@).take(i as int);
        let ghost next = texts(criteria@).take(i + 1);
        assert(next.drop_last() =~= done);
        assert(next.last() == criteria@[i as int]@);
        push_str(out, "- ");
        push_str(out, criteria[i].as_str());
        push_str(out, "\n");
        assert(out@ =~= old(out)@ + criteria_markdown(next));
        i += 1;
    }
    assert(texts(criteria@).take(i as int) =~= texts(criteria@));
}

fn requirement_text(req: &Requirement) -> (out: Vec<char>)
    ensures
        out@ == requirement_markdown(req@),
{
    let mut out: Vec<char> = Vec::new();
    push_str(&mut out, "### ");
    push_str(&mut out, req.status.status_icon());
    push_str(&mut out, " ");
    push_str(&mut out, req.id.as_str());
    push_str(&mut out, " - ");
    push_str(&mut out, req.title.as_str());
    push_str(&mut out, "\n\n");
    push_str(&mut out, "**Acceptance Criteria:**\n\n");
    push_criteria(&mut out, &req.acceptance_criteria);
    push_str(&mut out, "\n");
    assert(out@ =~= requirement_markdown(req@));
    out
}

fn marker_text(opening: bool, marker: &str) -> (out: Vec<char>)
    ensures
        out@ == if opening {
            begin_marker(marker@)
        } else {
            end_marker(marker@)
        },
{
    let mut out: Vec<char> = Vec::new();
    if opening {
        push_str(&mut out, "<!-- RALPH:BEGIN ");
    } else {
        push_str(&mut out, "<!-- RALPH:END ");
    }
    push_str(&mut out, marker);
    push_str(&mut out, " -->");
    assert(out@ =~= if opening {
        begin_marker(marker@)
    } else {
        end_marker(marker@)
    });
    out
}

impl Prd {
    /// Renders the document as markdown.
    pub fn to_markdown(&self) -> (md: String)
        ensures
            md@ == markdown(self@),
    {
        let mut out: Vec<char> = Vec::new();
        push_str(&mut out, "# ");
        push_str(&mut out, self.title.as_str());
        push_str(&mut out, "\n\n");
        push_str(&mut out, "**Slug:** `");
        push_str(&mut out, self.slug.as_str());
        push_str(&mut out, "`\n\n");
        push_str(&mut out, "**Run ID:** `");
        push_str(&mut out, self.active_run_id.as_str());
        push_str(&mut out, "`\n\n");
        push_str(&mut out, "**Validation Profiles:** ");
        push_joined(&mut out, &self.validation_profiles, ", ");
        push_str(&mut out, "\n\n");
        push_str(&mut out, "## Requirements\n\n");
        let ghost head = out@;
        assert(head =~= "# "@ + self@.title + "\n\n"@ + "**Slug:** `"@ + self@.slug + "`\n\n"@
            + "**Run ID:** `"@ + self@.active_run_id + "`\n\n"@ + "**Validation Profiles:** "@
            + join(self@.validation_profiles, ", "@) + "\n\n"@ + "## Requirements\n\n"@);
        let mut i: usize = 0;
        assert(self@.requirements.take(0) =~= Seq::<RequirementView>::empty());
        assert(out@ =~= head + requirements_markdown(self@.requirements.take(0)));
        while i < self.requirements.len()
            invariant
                i <= self.requirements.len(),
                out@ == head + requirements_markdown(self@.requirements.take(i as int)),
            decreases self.requirements.len() - i,
        {
            let ghost done = self@.requirements.take(i as int);
            let ghost next = self@.requirements.take(i + 1);
            assert(next.drop_last() =~= done);
            assert(next.last() == self.requirements@[i as int]@);
            let part = requirement_text(&self.requirements[i]);
            push_all(&mut out, &part);
            assert(out@ =~= head + requirements_markdown(next));
            i += 1;
        }
        assert(self@.requirements.take(i as int) =~= self@.requirements);
        string_of(&out)
    }

    /// Renders the skeleton of the document's markdown file, with the
    /// planning log, if any, between its markers.
    pub fn to_markdown_with_markers(&self, planning_log: Option<&str>) -> (md: String)
        ensures
            md@ == markdown_with_markers(
                self@,
                match planning_log {
                    Some(log) => Some(log@),
                    None => None,
                },
            ),
    {
        let mut out: Vec<char> = Vec::new();
        push_str(&mut out, "# ");
        push_str(&mut out, self.title.as_str());
        push_str(&mut out, "\n\n");
        push_str(&mut out, "Canonical machine PRD: ralph/tasks/");
        push_str(&mut out, self.slug.as_str());
        push_str(&mut out, "/prd.json\n\n");
        push_str(&mut out, "<!-- RALPH:BEGIN PLANNING_LOG -->\n");
        let ghost head = out@;
        assert(head =~= "# "@ + self@.title + "\n\n"@ + "Canonical machine PRD: ralph/tasks/"@
            + self@.slug + "/prd.json\n\n"@ + "<!-- RALPH:BEGIN PLANNING_LOG -->\n"@);
        match planning_log {
            Some(log) => {
                let text = chars_of(log);
                push_all(&mut out, &text);
                if !(text.len() > 0 && text[text.len() - 1] == '\n') {
                    push_str(&mut out, "\n");
                }
                assert(out@ =~= head + closed_by_newline(log@));
            },
            None => {
                assert(out@ =~= head + Seq::<char>::empty());
            },
        }
        push_str(&mut out, "<!-- RALPH:END PLANNING_LOG -->\n");
        string_of(&out)
    }
}

/// A markdown file with managed sections between markers.
pub struct MarkdownPrd {
    content: String,
}

impl View for MarkdownPrd {
    type V = Seq<char>;

    closed spec fn view(&self) -> Seq<char> {
        self.content@
    }
}

impl MarkdownPrd {
    /// A file with the given content.
    pub fn new(content: String) -> (m: Self)
        ensures
            m@ == content@,
    {
        MarkdownPrd { content }
    }

    /// The current content.
    pub fn content(&self) -> (s: &str)
        ensures
            s@ == self@,
    {
        self.content.as_str()
    }

    /// The text of the section `marker`, without the white space around it;
    /// `None` where a marker is missing or the closing marker does not come
    /// after the opening one.
    pub fn get_section<'a>(&'a self, marker: &str) -> (r: Option<&'a str>)
        ensures
            match r {
                Some(s) => section_of(self@, marker@) == Some(s@),
                None => section_of(self@, marker@) is None,
            },
    {
        let content = chars_of(self.content.as_str());
        let begin = marker_text(true, marker);
        let end = marker_text(false, marker);
        let b = match find(&content, &begin) {
            Some(b) => b,
            None => { return None; },
        };
        let e = match find(&content, &end) {
            Some(e) => e,
            None => { return None; },
        };
        proof {
            crate::text::lemma_find_from(content@, begin@, 0);
            crate::text::lemma_find_from(content@, end@, 0);
        }
        if b <= e && begin.len() <= e - b {
            let (lo, hi) = trim_bounds(&content, b + begin.len(), e);
            Some(self.content.as_str().substring_char(lo, hi))
        } else {
            None
        }
    }

    /// Adds `text` to the section `marker` and keeps what is there: as a new
    /// line just before the closing marker, or, where the file has no such
    /// section, in a new section at the end.
    pub fn append_to_section(&mut self, marker: &str, text: &str)
        ensures
            final(self)@ == appended_to_section(old(self)@, marker@, text@),
    {
        let content = chars_of(self.content.as_str());
        let begin = marker_text(true, marker);
        let end = marker_text(false, marker);
        let mut out: Vec<char> = Vec::new();
        match find(&content, &end) {
            Some(e) => {
                proof {
                    crate::text::lemma_find_from(content@, end@, 0);
                }
                let head = slice(&content, 0, e);
                let tail = slice(&content, e, content.len());
                push_all(&mut out, &head);
                if !(e > 0 && content[e - 1] == '\n') {
                    push_str(&mut out, "\n");
                }
                push_str(&mut out, text);
                push_str(&mut out, "\n");
                push_all(&mut out, &tail);
                assert(out@ =~= appended_to_section(old(self)@, marker@, text@));
            },
            None => {
                push_all(&mut out, &content);
                push_str(&mut out, "\n");
                push_all(&mut out, &begin);
                push_str(&mut out, "\n");
                push_str(&mut out, text);
                push_str(&mut out, "\n");
                push_all(&mut out, &end);
                push_str(&mut out, "\n");
                assert(out@ =~= appended_to_section(old(self)@, marker@, text@));
            },
        }
        self.content = string_of(&out);
    }
}

/// What a schema check comes to. `invalid_schema` is what the schema
/// compiler said of a schema that it refused, `findings` what the validator
/// found wrong with the document. A refused schema is an error that says so;
/// findings are an error that lists them, joined by semicolons; else the
/// document is valid.
pub fn schema_verdict(invalid_schema: Option<&str>, findings: &Vec<String>) -> (r: Result<
    (),
    RalphError,
>)
    ensures
        match invalid_schema {
            Some(why) => r matches Err(RalphError::PrdValidation(text)) && text@
                == "Invalid schema: "@ + why@,
            None => if findings.len() == 0 {
                r is Ok
            } else {
                r matches Err(RalphError::PrdValidation(text)) && text@ == join(
                    texts(findings@),
                    "; "@,
                )
            },
        },
{
    let mut out: Vec<char> = Vec::new();
    match invalid_schema {
        Some(why) => {
            push_str(&mut out, "Invalid schema: ");
            push_str(&mut out, why);
            assert(out@ =~= "Invalid schema: "@ + why@);
            Err(RalphError::PrdValidation(string_of(&out)))
        },
        None => {
            if findings.len() == 0 {
                Ok(())
            } else {
                push_joined(&mut out, findings, "; ");
                assert(out@ =~= join(texts(findings@), "; "@));
                Err(RalphError::PrdValidation(string_of(&out)))
            }
        },
    }
}

} // verus!
