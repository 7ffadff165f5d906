//! Feedback for the next attempt: the prompt that asks the assistant to
//! implement a requirement, and the bounded summary of a failed validation
//! that is stored in the ledger and fed back into that prompt.

use vstd::prelude::*;
use vstd::string::*;
use crate::ledger::{last_failure_message, Ledger};
use crate::prd::{Prd, Requirement, RequirementView};
use crate::text::{
    byte_len, bytes_within, chars_of, decimal, fitting_prefix, lemma_byte_len_bounds,
    lemma_byte_len_concat, lemma_fitting_prefix, lines_of, occurs_at, prefix_within, push_all,
    push_decimal, push_str, rows, slice, split_lines, string_of, texts, trim, trimmed,
};

verus! {

/// How much of a validation output is kept at most: the size of the text in
/// bytes, as it is stored and sent. A text within the bound has no more
/// characters than the bound either.
pub const MAX_VALIDATION_OUTPUT: usize = 2000;

/// How many of the first lines of an output are kept at most.
pub const HEAD_LINES: usize = 15;

/// How many of the last lines of an output are kept at most.
pub const TAIL_LINES: usize = 10;

/// The lines, each closed by a line feed, one after the other.
pub open spec fn with_newlines(lines: Seq<Seq<char>>) -> Seq<char>
    decreases lines.len(),
{
    if lines.len() == 0 {
        Seq::empty()
    } else {
        with_newlines(lines.drop_last()) + lines.last() + "\n"@
    }
}

/// How many lines are kept from the start of an output of `total` lines: up
/// to `HEAD_LINES` and never more than half of them, but always the first
/// line of an output that has only one.
pub open spec fn head_count(total: nat) -> nat {
    if total == 1 {
        1
    } else if total / 2 < HEAD_LINES {
        total / 2
    } else {
        HEAD_LINES as nat
    }
}

/// How many lines are kept from the end of an output of `total` lines: up to
/// `TAIL_LINES`, and never more than half of them.
pub open spec fn tail_count(total: nat) -> nat {
    if total / 2 < TAIL_LINES {
        total / 2
    } else {
        TAIL_LINES as nat
    }
}

/// The note that stands for `omitted` lines left out; nothing for none.
pub open spec fn omission_note(omitted: nat) -> Seq<char> {
    if omitted > 0 {
        "\n... ("@ + decimal(omitted) + " lines omitted) ...\n\n"@
    } else {
        Seq::empty()
    }
}

/// The first and the last lines of an output, with a note in place of the
/// lines between them.
pub open spec fn line_window(lines: Seq<Seq<char>>) -> Seq<char> {
    let total = lines.len();
    let head = head_count(total);
    let tail = tail_count(total);
    with_newlines(lines.take(head as int)) + omission_note((total - head - tail) as nat)
        + with_newlines(lines.skip(total - tail))
}

/// The mark that ends a text that was cut to fit.
pub open spec fn truncation_marker() -> Seq<char> {
    "...\n(truncated to fit size limit)"@
}

/// `text` cut to `max` bytes, where it is longer: as many of its first
/// characters as fit together with the mark, and then the mark; where `max`
/// has no room for the mark, as many of its first characters as fit alone.
pub open spec fn hard_truncated(text: Seq<char>, max: nat) -> Seq<char> {
    if byte_len(text) <= max {
        text
    } else if byte_len(truncation_marker()) <= max {
        text.take(fitting_prefix(text, (max - byte_len(truncation_marker())) as nat) as int)
            + truncation_marker()
    } else {
        text.take(fitting_prefix(text, max) as int)
    }
}

/// An output made to fit `max` bytes: as it is where it fits; else its first
/// and last lines around a note of what was left out; and where even that is
/// too long, cut to `max` bytes, the mark included.
pub open spec fn smart_truncated(output: Seq<char>, max: nat) -> Seq<char> {
    if byte_len(output) <= max {
        output
    } else {
        hard_truncated(line_window(lines_of(output)), max)
    }
}

fn push_lines(out: &mut Vec<char>, lines: &Vec<Vec<char>>, from: usize, to: usize)
    requires
        from <= to <= lines.len(),
    ensures
        final(out)@ == old(out)@ + with_newlines(rows(lines@).subrange(from as int, to as int)),
{
    let mut i: usize = from;
    assert(rows(lines@).subrange(from as int, from as int) =~= Seq::<Seq<char>>::empty());
    assert(out@ =~= old(out)@ + with_newlines(rows(lines@).subrange(from as int, i as int)));
    while i < to
        invariant
            from <= i <= to <= lines.len(),
            out@ == old(out)@ + with_newlines(rows(lines@).subrange(from as int, i as int)),
        decreases to - i,
    {
        let ghost done = rows(lines@).subrange(from as int, i as int);
        let ghost next = rows(lines@).subrange(from as int, i + 1);
        assert(next.drop_last() =~= done);
        assert(next.last() == lines@[i as int]@);
        push_all(out, &lines[i]);
        push_str(out, "\n");
        assert(out@ =~= old(out)@ + with_newlines(next));
        i += 1;
    }
}

/// Makes a text fit `max_chars` bytes, as `smart_truncated` says.
pub fn truncate_chars(text: &Vec<char>, max_chars: usize) -> (r: Vec<char>)
    ensures
        r@ == smart_truncated(text@, max_chars as nat),
        byte_len(r@) <= max_chars,
        r@.len() <= max_chars,
{
    proof {
        lemma_truncation_bounded(text@, max_chars as nat);
    }
    if bytes_within(text, max_chars).is_some() {
        return slice(text, 0, text.len());
    }
    let lines = split_lines(text);
    let total: usize = lines.len();
    let half: usize = total / 2;
    let first_n: usize = if total == 1 {
        1
    } else if half < HEAD_LINES {
        half
    } else {
        HEAD_LINES
    };
    let last_m: usize = if half < TAIL_LINES {
        half
    } else {
        TAIL_LINES
    };
    let mut result: Vec<char> = Vec::new();
    push_lines(&mut result, &lines, 0, first_n);
    let omitted: usize = total - first_n - last_m;
    if omitted > 0 {
        push_str(&mut result, "\n... (");
        push_decimal(&mut result, omitted);
        push_str(&mut result, " lines omitted) ...\n\n");
    }
    push_lines(&mut result, &lines, total - last_m, total);
    proof {
        assert(rows(lines@).subrange(0, first_n as int) =~= lines_of(text@).take(first_n as int));
        assert(rows(lines@).subrange(total - last_m, total as int) =~= lines_of(text@).skip(
            total - last_m,
        ));
        assert(result@ =~= line_window(lines_of(text@)));
    }
    if bytes_within(&result, max_chars).is_some() {
        return result;
    }
    let mark = chars_of("...\n(truncated to fit size limit)");
    match bytes_within(&mark, max_chars) {
        Some(mark_bytes) => {
            let kept = prefix_within(&result, max_chars - mark_bytes);
            let mut cut = slice(&result, 0, kept);
            push_all(&mut cut, &mark);
            assert(cut@ =~= hard_truncated(result@, max_chars as nat));
            cut
        },
        None => {
            let kept = prefix_within(&result, max_chars);
            let cut = slice(&result, 0, kept);
            assert(cut@ =~= hard_truncated(result@, max_chars as nat));
            cut
        },
    }
}

/// Makes a validation output fit `max_chars` bytes. An output that fits
/// comes back unchanged. A longer one is reduced to its first lines (up to
/// 15) and its last lines (up to 10), never more than half of the lines from
/// either end, with the count of the omitted lines in between; an output of
/// one line keeps that line. If that is still too long, it is cut between
/// two characters so that what is left and the mark of the cut are within
/// `max_chars` bytes. The result never has more than `max_chars` bytes, and
/// so never more than `max_chars` characters.
pub fn smart_truncate_validation_output(output: &str, max_chars: usize) -> (r: String)
    ensures
        r@ == smart_truncated(output@, max_chars as nat),
        byte_len(r@) <= max_chars,
        r@.len() <= max_chars,
{
    let text = chars_of(output);
    let cut = truncate_chars(&text, max_chars);
    string_of(&cut)
}

/// The lines closed by line feeds begin with the first line and its line
/// feed.
pub proof fn lemma_with_newlines_first(lines: Seq<Seq<char>>)
    requires
        lines.len() > 0,
    ensures
        with_newlines(lines) == lines[0] + "\n"@ + with_newlines(lines.drop_first()),
    decreases lines.len(),
{
    if lines.len() == 1 {
        assert(lines.drop_last() =~= Seq::<Seq<char>>::empty());
        assert(lines.drop_first() =~= Seq::<Seq<char>>::empty());
        assert(with_newlines(lines) =~= lines[0] + "\n"@ + with_newlines(lines.drop_first()));
    } else {
        lemma_with_newlines_first(lines.drop_last());
        assert(lines.drop_last().drop_first() =~= lines.drop_first().drop_last());
        assert(lines.drop_last()[0] == lines[0]);
        assert(lines.drop_first().last() == lines.last());
        assert(with_newlines(lines) =~= lines[0] + "\n"@ + with_newlines(lines.drop_first()));
    }
}

/// The text cut to `max` bytes is within `max` bytes.
pub proof fn lemma_hard_truncated(text: Seq<char>, max: nat)
    ensures
        byte_len(hard_truncated(text, max)) <= max,
{
    let mark = truncation_marker();
    if byte_len(text) <= max {
    } else if byte_len(mark) <= max {
        let left = (max - byte_len(mark)) as nat;
        lemma_fitting_prefix(text, left);
        lemma_byte_len_concat(text.take(fitting_prefix(text, left) as int), mark);
    } else {
        lemma_fitting_prefix(text, max);
    }
}

/// A text that is not empty has a first line.
pub proof fn lemma_has_a_line(text: Seq<char>)
    requires
        text.len() > 0,
    ensures
        lines_of(text).len() > 0,
{
    crate::text::lemma_line_end(text, 0);
}

/// The truncated text never takes more bytes than the bound, whatever the
/// text, and so never has more characters than the bound; a text within the
/// bound stays as it is.
pub proof fn lemma_truncation_bounded(output: Seq<char>, max: nat)
    ensures
        byte_len(smart_truncated(output, max)) <= max,
        smart_truncated(output, max).len() <= max,
        byte_len(output) <= max ==> smart_truncated(output, max) == output,
{
    lemma_hard_truncated(line_window(lines_of(output)), max);
    lemma_byte_len_bounds(smart_truncated(output, max), 0);
}

/// Where a text is too long but its first and last lines around the omission
/// note fit the bound, the truncated text is exactly those lines and that
/// note, begins with the first line of the text and ends with its last line.
pub proof fn lemma_truncation_keeps_ends(output: Seq<char>, max: nat)
    requires
        byte_len(output) > max,
        byte_len(line_window(lines_of(output))) <= max,
    ensures
        lines_of(output).len() > 0,
        smart_truncated(output, max) == line_window(lines_of(output)),
        occurs_at(smart_truncated(output, max), lines_of(output).first() + "\n"@, 0),
        occurs_at(
            smart_truncated(output, max),
            lines_of(output).last() + "\n"@,
            smart_truncated(output, max).len() - (lines_of(output).last() + "\n"@).len(),
        ),
{
    if output.len() == 0 {
        assert(vstd::utf8::encode_utf8(output) =~= Seq::<u8>::empty());
    }
    lemma_has_a_line(output);
    let lines = lines_of(output);
    let total = lines.len();
    let head = head_count(total);
    let tail = tail_count(total);
    let first = lines.take(head as int);
    let last = lines.skip(total - tail);
    let note = omission_note((total - head - tail) as nat);
    let result = smart_truncated(output, max);
    assert(result == with_newlines(first) + note + with_newlines(last));
    lemma_with_newlines_first(first);
    assert(first[0] == lines.first());
    let a = lines.first() + "\n"@;
    assert(result.subrange(0, a.len() as int) =~= a);
    let b = lines.last() + "\n"@;
    if tail == 0 {
        assert(total == 1);
        assert(first.drop_first() =~= Seq::<Seq<char>>::empty());
        assert(last =~= Seq::<Seq<char>>::empty());
        assert(result =~= b);
        assert(result.subrange(result.len() - b.len(), result.len() as int) =~= b);
    } else {
        assert(last.last() == lines.last());
        assert(with_newlines(last) == with_newlines(last.drop_last()) + lines.last() + "\n"@);
        assert(result.subrange(result.len() - b.len(), result.len() as int) =~= b);
    }
}

/// The request that asks an assistant to sum up a validation output.
pub open spec fn summary_request_text(output: Seq<char>) -> Seq<char> {
    "Summarize the following validation errors into 3-5 concise bullet points. Focus on the root causes and actionable fixes. Do not include explanations, just the bullet points:\n\n"@
        + output
}

/// The request that asks an assistant to sum up a validation output.
pub fn summary_request(validation_output: &str) -> (r: String)
    ensures
        r@ == summary_request_text(validation_output@),
{
    let mut out: Vec<char> = Vec::new();
    push_str(
        &mut out,
        "Summarize the following validation errors into 3-5 concise bullet points. Focus on the root causes and actionable fixes. Do not include explanations, just the bullet points:\n\n",
    );
    push_str(&mut out, validation_output);
    assert(out@ =~= summary_request_text(validation_output@));
    string_of(&out)
}

/// The summary of a validation output that is stored with a failed event:
/// nothing for an empty output; else the assistant's summary without the
/// white space around it, where there is one, or the output itself, made to
/// fit `MAX_VALIDATION_OUTPUT` bytes.
pub open spec fn summarized(output: Seq<char>, summary: Option<Seq<char>>) -> Seq<char> {
    if output.len() == 0 {
        Seq::empty()
    } else {
        match summary {
            Some(s) => smart_truncated(trim(s), MAX_VALIDATION_OUTPUT as nat),
            None => smart_truncated(output, MAX_VALIDATION_OUTPUT as nat),
        }
    }
}

/// Sums up a validation output for the ledger. `summary` is what an outside
/// summarizer made of the output, `None` where it gave nothing or there is
/// none: the output is then cut down by lines. The summary never takes
/// more than `MAX_VALIDATION_OUTPUT` bytes.
pub fn summarize_validation_output(validation_output: &str, summary: Option<&str>) -> (r: String)
    ensures
        r@ == summarized(
            validation_output@,
            match summary {
                Some(s) => Some(s@),
                None => None,
            },
        ),
        byte_len(r@) <= MAX_VALIDATION_OUTPUT,
        r@.len() <= MAX_VALIDATION_OUTPUT,
{
    if validation_output.unicode_len() == 0 {
        let r = String::new();
        assert(r@ =~= Seq::<char>::empty());
        assert(vstd::utf8::encode_utf8(r@) =~= Seq::<u8>::empty());
        return r;
    }
    match summary {
        Some(s) => {
            let text = chars_of(s);
            let t = trimmed(&text);
            let cut = truncate_chars(&t, MAX_VALIDATION_OUTPUT);
            string_of(&cut)
        },
        None => smart_truncate_validation_output(validation_output, MAX_VALIDATION_OUTPUT),
    }
}

/// A stored failure message as it is shown in a prompt: made to fit
/// `MAX_VALIDATION_OUTPUT` bytes, every note and mark included.
pub open spec fn shown_failure(message: Seq<char>) -> Seq<char> {
    smart_truncated(message, MAX_VALIDATION_OUTPUT as nat)
}

/// What a prompt shows of a stored failure message never takes more than
/// `MAX_VALIDATION_OUTPUT` bytes, nor has more characters than that. A
/// message within that bound is shown whole. Of a longer one whose first and
/// last lines around the omission note fit the bound, exactly those lines
/// and that note are shown, so that what is shown begins with the first line
/// of the message and ends with its last.
pub proof fn lemma_shown_failure(message: Seq<char>)
    ensures
        byte_len(shown_failure(message)) <= MAX_VALIDATION_OUTPUT,
        shown_failure(message).len() <= MAX_VALIDATION_OUTPUT,
        byte_len(message) <= MAX_VALIDATION_OUTPUT ==> shown_failure(message) == message,
        byte_len(message) > MAX_VALIDATION_OUTPUT && byte_len(line_window(lines_of(message)))
            <= MAX_VALIDATION_OUTPUT ==> {
            &&& lines_of(message).len() > 0
            &&& shown_failure(message) == line_window(lines_of(message))
            &&& occurs_at(shown_failure(message), lines_of(message).first() + "\n"@, 0)
            &&& occurs_at(
                shown_failure(message),
                lines_of(message).last() + "\n"@,
                shown_failure(message).len() - (lines_of(message).last() + "\n"@).len(),
            )
        },
{
    lemma_truncation_bounded(message, MAX_VALIDATION_OUTPUT as nat);
    if byte_len(message) > MAX_VALIDATION_OUTPUT && byte_len(line_window(lines_of(message)))
        <= MAX_VALIDATION_OUTPUT {
        lemma_truncation_keeps_ends(message, MAX_VALIDATION_OUTPUT as nat);
    }
}

/// What is stored of a failed validation is shown whole in the next prompt:
/// a stored summary is within the bound already.
pub proof fn lemma_stored_summary_is_shown_whole(output: Seq<char>, summary: Option<Seq<char>>)
    ensures
        byte_len(summarized(output, summary)) <= MAX_VALIDATION_OUTPUT,
        summarized(output, summary).len() <= MAX_VALIDATION_OUTPUT,
        shown_failure(summarized(output, summary)) == summarized(output, summary),
{
    if output.len() == 0 {
        assert(vstd::utf8::encode_utf8(Seq::<char>::empty()) =~= Seq::<u8>::empty());
    } else {
        match summary {
            Some(s) => lemma_truncation_bounded(trim(s), MAX_VALIDATION_OUTPUT as nat),
            None => lemma_truncation_bounded(output, MAX_VALIDATION_OUTPUT as nat),
        }
    }
}

/// The part of a prompt that reports the failure of the previous attempt.
pub open spec fn failure_section(message: Seq<char>) -> Seq<char> {
    "\n\n⚠️  PREVIOUS ITERATION FAILED VALIDATION:\n\n"@ + shown_failure(message)
        + "\n\n🚨 YOU MUST FIX THESE ERRORS BEFORE FINISHING.\nRead the error output above and fix the root cause.\nDO NOT finish your work until validation passes."@
}

/// The acceptance criteria as bullet lines, joined by line feeds.
pub open spec fn criteria_lines(criteria: Seq<Seq<char>>) -> Seq<char>
    decreases criteria.len(),
{
    if criteria.len() == 0 {
        Seq::empty()
    } else if criteria.len() == 1 {
        "- "@ + criteria[0]
    } else {
        criteria_lines(criteria.drop_last()) + "\n"@ + "- "@ + criteria.last()
    }
}

/// The stages that a prompt announces: `test` only in a full sweep.
pub open spec fn stage_list(full_sweep: bool) -> Seq<char> {
    if full_sweep {
        "fmt -> lint -> typecheck -> test"@
    } else {
        "fmt -> lint -> typecheck"@
    }
}

/// The prompt without a failure report: the requirement's id, the feature,
/// the iteration, the title, the acceptance criteria and the stages that
/// validation will run.
pub open spec fn task_text(slug: Seq<char>, req: RequirementView, iteration: u32, full_sweep: bool) -> Seq<
    char,
> {
    "Implement requirement "@ + req.id + " for feature '"@ + slug + "' (iteration "@ + decimal(
        iteration as nat,
    ) + ").\n\nTitle: "@ + req.title + "\n\nAcceptance Criteria:\n"@ + criteria_lines(
        req.acceptance_criteria,
    ) + "\n\nValidation: "@ + stage_list(full_sweep)
        + "\n\nUpdate PRD status only after validation passes."@
}

/// The prompt for an attempt. The failure of the previous attempt is
/// reported only after the first iteration, and only where there is one.
pub open spec fn prompt_text(
    slug: Seq<char>,
    req: RequirementView,
    iteration: u32,
    full_sweep: bool,
    prior_failure: Option<Seq<char>>,
) -> Seq<char> {
    match prior_failure {
        Some(message) => if iteration > 1 {
            task_text(slug, req, iteration, full_sweep) + failure_section(message)
        } else {
            task_text(slug, req, iteration, full_sweep)
        },
        None => task_text(slug, req, iteration, full_sweep),
    }
}

/// Every prompt names the requirement: its id stands right after the
/// opening words.
pub proof fn lemma_prompt_names_the_requirement(
    slug: Seq<char>,
    req: RequirementView,
    iteration: u32,
    full_sweep: bool,
    prior_failure: Option<Seq<char>>,
)
    ensures
        occurs_at(
            prompt_text(slug, req, iteration, full_sweep, prior_failure),
            req.id,
            "Implement requirement "@.len() as int,
        ),
{
    let prompt = prompt_text(slug, req, iteration, full_sweep, prior_failure);
    let at = "Implement requirement "@.len() as int;
    assert(prompt.subrange(at, at + req.id.len()) =~= req.id);
}

fn push_criteria_lines(out: &mut Vec<char>, criteria: &Vec<String>)
    ensures
        final(out)@ == old(out)@ + criteria_lines(texts(criteria@)),
{
    let mut i: usize = 0;
    assert(texts(criteria@).take(0) =~= Seq::<Seq<char>>::empty());
    assert(out@ =~= old(out)@ + criteria_lines(texts(criteria@).take(0)));
    while i < criteria.len()
        invariant
            i <= criteria.len(),
            out@ == old(out)@ + criteria_lines(texts(criteria@).take(i as int)),
        decreases criteria.len() - i,
    {
        let ghost done = texts(criteria@).take(i as int);
        let ghost next = texts(criteria@).take(i + 1);
        assert(next.drop_last() =~= done);
        assert(next.last() == criteria@[i as int]@);
        assert(next[0] == criteria@[0]@);
        if i > 0 {
            push_str(out, "\n");
        }
        push_str(out, "- ");
        push_str(out, criteria[i].as_str());
        assert(out@ =~= old(out)@ + criteria_lines(next));
        i += 1;
    }
    assert(texts(criteria@).take(i as int) =~= texts(criteria@));
}

/// Builds the prompt for an attempt at `req` of the feature `slug`. It always
/// names the requirement's id, title and acceptance criteria and the stages
/// that validation will run. `prior_failure` is the stored message of the
/// previous failed attempt, if any; it is added from the second iteration
/// on, made to fit `MAX_VALIDATION_OUTPUT` bytes: whole where it fits, else
/// its first and last lines around a note of what was left out.
pub fn build_prompt(
    slug: &str,
    req: &Requirement,
    iteration: u32,
    full_sweep: bool,
    prior_failure: Option<&str>,
) -> (r: String)
    ensures
        r@ == prompt_text(
            slug@,
            req@,
            iteration,
            full_sweep,
            match prior_failure {
                Some(m) => Some(m@),
                None => None,
            },
        ),
{
    let mut out: Vec<char> = Vec::new();
    push_str(&mut out, "Implement requirement ");
    push_str(&mut out, req.id.as_str());
    push_str(&mut out, " for feature '");
    push_str(&mut out, slug);
    push_str(&mut out, "' (iteration ");
    push_decimal(&mut out, iteration as usize);
    push_str(&mut out, ").\n\nTitle: ");
    push_str(&mut out, req.title.as_str());
    push_str(&mut out, "\n\nAcceptance Criteria:\n");
    push_criteria_lines(&mut out, &req.acceptance_criteria);
    push_str(&mut out, "\n\nValidation: ");
    if full_sweep {
        push_str(&mut out, "fmt -> lint -> typecheck -> test");
    } else {
        push_str(&mut out, "fmt -> lint -> typecheck");
    }
    push_str(&mut out, "\n\nUpdate PRD status only after validation passes.");
    let ghost task = out@;
    assert(task =~= task_text(slug@, req@, iteration, full_sweep));
    if iteration > 1 {
        match prior_failure {
            Some(message) => {
                let mut part: Vec<char> = Vec::new();
                push_str(&mut part, "\n\n⚠️  PREVIOUS ITERATION FAILED VALIDATION:\n\n");
                let text = chars_of(message);
                let shown = truncate_chars(&text, MAX_VALIDATION_OUTPUT);
                push_all(&mut part, &shown);
                push_str(
                    &mut part,
                    "\n\n🚨 YOU MUST FIX THESE ERRORS BEFORE FINISHING.\nRead the error output above and fix the root cause.\nDO NOT finish your work until validation passes.",
                );
                assert(part@ =~= failure_section(message@));
                push_all(&mut out, &part);
            },
            None => {},
        }
    }
    string_of(&out)
}

/// Builds the prompt for an attempt at `req`, with the failure that the
/// ledger records for it: from the second iteration on, where the last event
/// about the requirement is a failure with a message, that message is fed
/// back.
pub fn generate_prompt(
    prd: &Prd,
    req: &Requirement,
    ledger: &Ledger,
    iteration: u32,
    run_full_tests: bool,
) -> (r: String)
    ensures
        r@ == prompt_text(
            prd@.slug,
            req@,
            iteration,
            run_full_tests,
            last_failure_message(ledger@, req@.id),
        ),
{
    let prior = ledger.get_last_validation_failure(req.id.as_str());
    match &prior {
        Some(m) => build_prompt(prd.slug.as_str(), req, iteration, run_full_tests, Some(m.as_str())),
        None => build_prompt(prd.slug.as_str(), req, iteration, run_full_tests, None),
    }
}

} // verus!
