//! Whole runs of the loop: what the controller comes to when its
//! collaborators behave the same way at every attempt.

use vstd::prelude::*;
use crate::feedback::{lemma_prompt_names_the_requirement, summarized};
use crate::implement::{
    attempt_prompt, decide, final_status, next, one_more, outcome_event,
    started_event, AssistantOutcome, AttemptView, ControllerView, LoopActionView, LoopEventView,
    Phase, StopReason,
};
use crate::ledger::{
    last_failure_message, lemma_append_event, max_iteration, EventStatus, LedgerEventView, Timestamp, FULL_SWEEP_EVERY,
};
use crate::prd::{
    first_eligible, lemma_eligible_from, with_status_at, PrdView, RequirementStatus,
    RequirementView,
};
use crate::text::occurs_at;
use crate::validation::{
    all_passed, first_failure_report, lemma_failure_from, ValidationResultView,
};

verus! {

/// Collaborators that behave the same way at every attempt: storing never
/// fails, the assistant always ends alike, validation always gives the same
/// results and the summarizer the same summary.
pub struct Steady {
    /// How the assistant ends.
    pub assistant: AssistantOutcome,
    /// What validation gives; `None` where it is skipped.
    pub results: Option<Seq<ValidationResultView>>,
    /// What the summarizer gives.
    pub summary: Option<Seq<char>>,
}

impl Steady {
    /// Whether validation passes.
    pub open spec fn passes(self) -> bool {
        match self.results {
            Some(rs) => all_passed(rs),
            None => true,
        }
    }

    /// Whether an attempt completes its requirement.
    pub open spec fn completes(self) -> bool {
        self.assistant.succeeded() && self.passes()
    }

    /// The report on the first failed stage.
    pub open spec fn failure(self) -> Option<Seq<char>> {
        match self.results {
            Some(rs) => first_failure_report(rs),
            None => None,
        }
    }

    /// The message that the outcome event carries.
    pub open spec fn message(self) -> Option<Seq<char>> {
        match self.failure() {
            Some(output) => Some(summarized(output, self.summary)),
            None => None,
        }
    }

    /// How many steps one attempt takes, from selecting to the decision: one
    /// more where a failed output is summed up.
    pub open spec fn attempt_steps(self) -> nat {
        if self.failure() is Some {
            9
        } else {
            8
        }
    }

    /// What the driver reports after it has performed `action`.
    pub open spec fn report(self, action: LoopActionView) -> LoopEventView {
        match action {
            LoopActionView::InvokeAssistant { .. } => LoopEventView::AssistantFinished {
                outcome: self.assistant,
            },
            LoopActionView::RunValidation { .. } => LoopEventView::ValidationFinished {
                results: self.results,
            },
            LoopActionView::Summarize { .. } => LoopEventView::SummaryReady {
                summary: self.summary,
            },
            _ => LoopEventView::Ack,
        }
    }
}

/// The controller after `steps` steps with steady collaborators, and the
/// report that it gets next. `event` is the report that it gets first.
pub open spec fn steady_run(
    c: ControllerView,
    event: LoopEventView,
    env: Steady,
    now: Timestamp,
    steps: nat,
) -> (ControllerView, LoopEventView)
    decreases steps,
{
    if steps == 0 {
        (c, event)
    } else {
        let (after, action) = next(c, event, now);
        steady_run(after, env.report(action), env, now, (steps - 1) as nat)
    }
}

/// Runs can be cut in two: `a + b` steps are `a` steps and then `b` more.
pub proof fn lemma_steady_run_split(
    c: ControllerView,
    event: LoopEventView,
    env: Steady,
    now: Timestamp,
    a: nat,
    b: nat,
)
    ensures
        steady_run(c, event, env, now, a + b) == steady_run(
            steady_run(c, event, env, now, a).0,
            steady_run(c, event, env, now, a).1,
            env,
            now,
            b,
        ),
    decreases a,
{
    if a > 0 {
        let (after, action) = next(c, event, now);
        lemma_steady_run_split(after, env.report(action), env, now, (a - 1) as nat, b);
        assert((a + b - 1) as nat == (a - 1) as nat + b);
    }
}

/// A controller that is about to make an attempt: it is selecting, it is no
/// dry run, a cap of zero does not stop it, a requirement is left and the
/// ledger has room for one more iteration.
pub open spec fn ready(c: ControllerView) -> bool {
    &&& c.phase == Phase::Selecting
    &&& !c.dry_run
    &&& !(c.loop_enabled && c.max_iterations == 0)
    &&& first_eligible(c.prd.requirements) is Some
    &&& max_iteration(c.ledger) < u32::MAX
}

/// The controller as one whole attempt with steady collaborators leaves it,
/// the decision taken: the requirement has its final status, the ledger has
/// grown by the `Started` event and the outcome event of the next iteration,
/// and one more attempt is counted.
pub open spec fn attempted(c: ControllerView, env: Steady, now: Timestamp) -> ControllerView {
    let i = first_eligible(c.prd.requirements)->0;
    let iteration = (max_iteration(c.ledger) + 1) as u32;
    let attempt = AttemptView {
        requirement: i,
        iteration,
        full_sweep: iteration % FULL_SWEEP_EVERY == 0,
        prompt: attempt_prompt(c, i, iteration),
        assistant_success: env.assistant.succeeded(),
        validation_passed: env.passes(),
        failed_output: env.failure(),
        pending: None,
    };
    let recorded = ControllerView {
        prd: PrdView {
            requirements: with_status_at(c.prd.requirements, i, final_status(attempt)),
            ..c.prd
        },
        attempt,
        ..c
    };
    let decided = ControllerView {
        ledger: c.ledger.push(started_event(recorded, now)).push(
            outcome_event(recorded, env.message(), now),
        ),
        attempts: one_more(c.attempts),
        phase: Phase::Deciding,
        ..recorded
    };
    decide(decided).0
}

/// One whole attempt: from selecting, a steady run of as many steps as an
/// attempt takes leaves the controller as `attempted` says, waiting for the
/// report `Ack`.
pub proof fn lemma_attempt(c: ControllerView, env: Steady, now: Timestamp)
    requires
        ready(c),
    ensures
        steady_run(c, LoopEventView::Ack, env, now, env.attempt_steps()) == (
            attempted(c, env, now),
            LoopEventView::Ack,
        ),
{
    let i = first_eligible(c.prd.requirements)->0;
    lemma_eligible_from(c.prd.requirements, 0);
    match env.results {
        Some(rs) => {
            lemma_failure_from(rs, 0);
        },
        None => {},
    }
    let ack = LoopEventView::Ack;
    let (c1, a1) = next(c, ack, now);
    assert(c1.phase == Phase::MarkingInProgress);
    let (c2, a2) = next(c1, env.report(a1), now);
    assert(c2.phase == Phase::LoggingStart);
    let (c3, a3) = next(c2, env.report(a2), now);
    assert(c3.phase == Phase::InvokingAssistant);
    let (c4, a4) = next(c3, env.report(a3), now);
    assert(c4.phase == Phase::Validating);
    let (c5, a5) = next(c4, env.report(a4), now);
    assert(c5.phase == Phase::SavingStatus);
    assert(c5.prd.requirements =~= with_status_at(
        c.prd.requirements,
        i,
        final_status(c5.attempt),
    ));
    let (c6, a6) = next(c5, env.report(a5), now);
    let target = attempted(c, env, now);
    if env.failure() is Some {
        assert(c6.phase == Phase::Summarizing);
        let (c7, a7) = next(c6, env.report(a6), now);
        assert(c7.phase == Phase::LoggingOutcome);
        let (c8, a8) = next(c7, env.report(a7), now);
        assert(c8.phase == Phase::Deciding);
        let (c9, a9) = next(c8, env.report(a8), now);
        assert(c9.ledger =~= target.ledger);
        assert(c9 == target);
        assert(env.report(a9) == ack);
        reveal_with_fuel(steady_run, 10);
        assert(steady_run(c, ack, env, now, 9) == (c9, ack));
    } else {
        assert(c6.phase == Phase::LoggingOutcome);
        let (c7, a7) = next(c6, env.report(a6), now);
        assert(c7.phase == Phase::Deciding);
        let (c8, a8) = next(c7, env.report(a7), now);
        assert(c8.ledger =~= target.ledger);
        assert(c8 == target);
        assert(env.report(a8) == ack);
        reveal_with_fuel(steady_run, 9);
        assert(steady_run(c, ack, env, now, 8) == (c8, ack));
    }
}

/// The `Started` event of an attempt at the requirement `id`.
pub open spec fn round_start(id: Seq<char>, iteration: u32, now: Timestamp) -> LedgerEventView {
    LedgerEventView {
        timestamp: now,
        iteration,
        requirement: id,
        status: EventStatus::Started,
        validation_passed: None,
        message: None,
    }
}

/// The event that records the outcome of an attempt at the requirement `id`
/// with steady collaborators.
pub open spec fn round_outcome(id: Seq<char>, iteration: u32, env: Steady, now: Timestamp) -> LedgerEventView {
    LedgerEventView {
        timestamp: now,
        iteration,
        requirement: id,
        status: if env.completes() {
            EventStatus::Done
        } else {
            EventStatus::Failed
        },
        validation_passed: Some(env.passes()),
        message: env.message(),
    }
}

/// What one attempt changes: the ledger grows by the two events of the next
/// iteration, whose number is then the largest; the requirement gets its
/// final status and nothing else changes in the document; one more attempt
/// is counted; and the controller selects again unless the attempt failed
/// with the cap reached, or the run was for one attempt only.
pub proof fn lemma_attempted(c: ControllerView, env: Steady, now: Timestamp)
    requires
        ready(c),
    ensures
        ({
            let i = first_eligible(c.prd.requirements)->0;
            let iteration = (max_iteration(c.ledger) + 1) as u32;
            let id = c.prd.requirements[i].id;
            let d = attempted(c, env, now);
            &&& 0 <= i < c.prd.requirements.len()
            &&& c.prd.requirements[i].status.eligible()
            &&& forall|j: int| 0 <= j < i ==> !c.prd.requirements[j].status.eligible()
            &&& d.ledger == c.ledger.push(round_start(id, iteration, now)).push(
                round_outcome(id, iteration, env, now),
            )
            &&& max_iteration(d.ledger) == iteration
            &&& d.prd == (PrdView {
                requirements: with_status_at(
                    c.prd.requirements,
                    i,
                    if env.completes() {
                        RequirementStatus::Done
                    } else {
                        RequirementStatus::InProgress
                    },
                ),
                ..c.prd
            })
            &&& d.attempts == one_more(c.attempts)
            &&& d.phase == if !c.loop_enabled {
                Phase::Terminated(StopReason::SingleIteration)
            } else if env.completes() || one_more(c.attempts) < c.max_iterations {
                Phase::Selecting
            } else {
                Phase::Terminated(StopReason::MaxIterationsReached)
            }
            &&& d.dry_run == c.dry_run
            &&& d.loop_enabled == c.loop_enabled
            &&& d.max_iterations == c.max_iterations
        }),
{
    let i = first_eligible(c.prd.requirements)->0;
    let iteration = (max_iteration(c.ledger) + 1) as u32;
    let id = c.prd.requirements[i].id;
    lemma_eligible_from(c.prd.requirements, 0);
    let first = c.ledger.push(round_start(id, iteration, now));
    lemma_append_event(c.ledger, round_start(id, iteration, now), id);
    lemma_append_event(first, round_outcome(id, iteration, env, now), id);
}

/// An attempt is about the first requirement that may be selected, whatever
/// the collaborators report. Once the document and the `Started` event are
/// stored, the assistant is asked with the prompt for that requirement, which
/// names its id. Both events that the attempt appends are about that
/// requirement. In the document only that requirement changes, and only in
/// its status; every other requirement, a `Done` one among them, is left as
/// it was.
pub proof fn lemma_attempt_is_about_the_first(c: ControllerView, env: Steady, now: Timestamp)
    requires
        ready(c),
    ensures
        ({
            let i = first_eligible(c.prd.requirements)->0;
            let id = c.prd.requirements[i].id;
            let iteration = (max_iteration(c.ledger) + 1) as u32;
            let stored = steady_run(c, LoopEventView::Ack, env, now, 2);
            let d = attempted(c, env, now);
            &&& 0 <= i < c.prd.requirements.len()
            &&& c.prd.requirements[i].status.eligible()
            &&& forall|j: int| 0 <= j < i ==> !c.prd.requirements[j].status.eligible()
            &&& next(stored.0, stored.1, now).1 == (LoopActionView::InvokeAssistant {
                prompt: attempt_prompt(c, i, iteration),
            })
            &&& occurs_at(
                attempt_prompt(c, i, iteration),
                id,
                "Implement requirement "@.len() as int,
            )
            &&& d.ledger.len() == c.ledger.len() + 2
            &&& d.ledger[c.ledger.len() as int].requirement == id
            &&& d.ledger[c.ledger.len() as int + 1].requirement == id
            &&& d.prd.requirements.len() == c.prd.requirements.len()
            &&& d.prd.requirements[i] == (RequirementView {
                status: d.prd.requirements[i].status,
                ..c.prd.requirements[i]
            })
            &&& forall|j: int|
                0 <= j < c.prd.requirements.len() && j != i ==> #[trigger] d.prd.requirements[j]
                    == c.prd.requirements[j]
        }),
{
    let i = first_eligible(c.prd.requirements)->0;
    let iteration = (max_iteration(c.ledger) + 1) as u32;
    lemma_attempted(c, env, now);
    lemma_prompt_names_the_requirement(
        c.prd.slug,
        c.prd.requirements[i],
        iteration,
        iteration % FULL_SWEEP_EVERY == 0,
        last_failure_message(c.ledger, c.prd.requirements[i].id),
    );
    let ack = LoopEventView::Ack;
    let (c1, a1) = next(c, ack, now);
    let (c2, a2) = next(c1, env.report(a1), now);
    reveal_with_fuel(steady_run, 3);
    assert(steady_run(c, ack, env, now, 2) == (c2, env.report(a2)));
}

/// The first requirement that may be selected is still the first after it
/// was set `InProgress`.
pub proof fn lemma_still_first(reqs: Seq<RequirementView>, i: int)
    requires
        first_eligible(reqs) == Some(i),
    ensures
        first_eligible(with_status_at(reqs, i, RequirementStatus::InProgress)) == Some(i),
{
    let after = with_status_at(reqs, i, RequirementStatus::InProgress);
    lemma_eligible_from(reqs, 0);
    lemma_eligible_from(after, 0);
    assert(after[i].status.eligible());
    match first_eligible(after) {
        Some(k) => {
            if k < i {
                assert(after[k] == reqs[k]);
                assert(!reqs[k].status.eligible());
            }
        },
        None => {},
    }
}

/// A run in which no attempt completes its requirement. With steady
/// collaborators that never complete an attempt, a looping run that has
/// `rounds` attempts left under the cap makes exactly that many attempts at
/// the first requirement that may be selected, and then ends with
/// `MaxIterationsReached`: the ledger has grown by one `Started` and one
/// `Failed` event for each attempt, with iteration numbers that go up by one
/// from the largest there was; the requirement is `InProgress`, and nothing
/// else has changed in the document.
pub proof fn lemma_failing_run(c: ControllerView, env: Steady, now: Timestamp, rounds: nat)
    requires
        ready(c),
        c.loop_enabled,
        !env.completes(),
        rounds > 0,
        c.attempts + rounds == c.max_iterations,
        max_iteration(c.ledger) + rounds <= u32::MAX,
    ensures
        ({
            let i = first_eligible(c.prd.requirements)->0;
            let id = c.prd.requirements[i].id;
            let first = max_iteration(c.ledger) + 1;
            let d = steady_run(c, LoopEventView::Ack, env, now, rounds * env.attempt_steps()).0;
            &&& d.phase == Phase::Terminated(StopReason::MaxIterationsReached)
            &&& d.attempts == c.max_iterations
            &&& d.prd == (PrdView {
                requirements: with_status_at(c.prd.requirements, i, RequirementStatus::InProgress),
                ..c.prd
            })
            &&& d.ledger.len() == c.ledger.len() + 2 * rounds
            &&& d.ledger.take(c.ledger.len() as int) == c.ledger
            &&& forall|j: int|
                0 <= j < rounds ==> {
                    &&& #[trigger] d.ledger[c.ledger.len() + 2 * j] == round_start(
                        id,
                        (first + j) as u32,
                        now,
                    )
                    &&& d.ledger[c.ledger.len() + 2 * j + 1] == round_outcome(
                        id,
                        (first + j) as u32,
                        env,
                        now,
                    )
                }
        }),
    decreases rounds,
{
    let ack = LoopEventView::Ack;
    let steps = env.attempt_steps();
    let i = first_eligible(c.prd.requirements)->0;
    let id = c.prd.requirements[i].id;
    let first = max_iteration(c.ledger) + 1;
    let len = c.ledger.len() as int;
    let c1 = attempted(c, env, now);
    lemma_attempt(c, env, now);
    lemma_attempted(c, env, now);
    assert(c1.ledger.take(len) =~= c.ledger);
    if rounds == 1 {
        assert(rounds * steps == steps) by (nonlinear_arith)
            requires
                rounds == 1,
        ;
    } else {
        lemma_still_first(c.prd.requirements, i);
        let rest = (rounds - 1) as nat;
        assert(rounds * steps == steps + rest * steps) by (nonlinear_arith)
            requires
                rest == rounds - 1,
        ;
        lemma_steady_run_split(c, ack, env, now, steps, rest * steps);
        lemma_failing_run(c1, env, now, rest);
        let d = steady_run(c1, ack, env, now, rest * steps).0;
        assert(d == steady_run(c, ack, env, now, rounds * steps).0);
        assert(with_status_at(c1.prd.requirements, i, RequirementStatus::InProgress) =~= with_status_at(
            c.prd.requirements,
            i,
            RequirementStatus::InProgress,
        ));
        assert(d.ledger.take(len) =~= c.ledger) by {
            assert(d.ledger.take(len + 2).take(len) =~= d.ledger.take(len));
        }
        assert forall|j: int| 0 <= j < rounds implies {
            &&& #[trigger] d.ledger[len + 2 * j] == round_start(id, (first + j) as u32, now)
            &&& d.ledger[len + 2 * j + 1] == round_outcome(id, (first + j) as u32, env, now)
        } by {
            if j == 0 {
                assert(d.ledger[len] == d.ledger.take(len + 2)[len]);
                assert(d.ledger[len + 1] == d.ledger.take(len + 2)[len + 1]);
            } else {
                assert(d.ledger[(len + 2) + 2 * (j - 1)] == round_start(
                    id,
                    ((first + 1) + (j - 1)) as u32,
                    now,
                ));
            }
        }
    }
}

/// The ids of the requirements from `start` on that may be selected, in list
/// order.
pub open spec fn eligible_ids(reqs: Seq<RequirementView>, start: int) -> Seq<Seq<char>>
    decreases reqs.len() - start,
{
    if start < 0 || start >= reqs.len() {
        Seq::empty()
    } else if reqs[start].status.eligible() {
        seq![reqs[start].id] + eligible_ids(reqs, start + 1)
    } else {
        eligible_ids(reqs, start + 1)
    }
}

/// The requirements with every one that may be selected set `Done`.
pub open spec fn all_done(reqs: Seq<RequirementView>) -> Seq<RequirementView> {
    Seq::new(
        reqs.len(),
        |j: int|
            if reqs[j].status.eligible() {
                RequirementView { status: RequirementStatus::Done, ..reqs[j] }
            } else {
                reqs[j]
            },
    )
}

proof fn lemma_same_eligible_ids(a: Seq<RequirementView>, b: Seq<RequirementView>, start: int)
    requires
        0 <= start,
        a.len() == b.len(),
        forall|j: int| start <= j < a.len() ==> a[j] == b[j],
    ensures
        eligible_ids(a, start) == eligible_ids(b, start),
    decreases a.len() - start,
{
    if start < a.len() {
        lemma_same_eligible_ids(a, b, start + 1);
    }
}

proof fn lemma_eligible_ids_from(reqs: Seq<RequirementView>, start: int, i: int)
    requires
        0 <= start <= i < reqs.len(),
        reqs[i].status.eligible(),
        forall|j: int| start <= j < i ==> !reqs[j].status.eligible(),
    ensures
        eligible_ids(reqs, start) == seq![reqs[i].id] + eligible_ids(
            with_status_at(reqs, i, RequirementStatus::Done),
            start,
        ),
    decreases i - start,
{
    let after = with_status_at(reqs, i, RequirementStatus::Done);
    if start == i {
        lemma_same_eligible_ids(reqs, after, i + 1);
        assert(!after[i].status.eligible());
    } else {
        lemma_eligible_ids_from(reqs, start + 1, i);
        assert(after[start] == reqs[start]);
    }
}

proof fn lemma_no_eligible_ids(reqs: Seq<RequirementView>, start: int)
    requires
        0 <= start,
        forall|j: int| start <= j < reqs.len() ==> !reqs[j].status.eligible(),
    ensures
        eligible_ids(reqs, start) == Seq::<Seq<char>>::empty(),
    decreases reqs.len() - start,
{
    if start < reqs.len() {
        lemma_no_eligible_ids(reqs, start + 1);
    }
}

/// The ids of the requirements that may be selected begin with the id of the
/// first of them, and go on with those that are left once it is `Done`;
/// there are none exactly if no requirement may be selected.
pub proof fn lemma_eligible_ids(reqs: Seq<RequirementView>)
    ensures
        match first_eligible(reqs) {
            Some(i) => eligible_ids(reqs, 0) == seq![reqs[i].id] + eligible_ids(
                with_status_at(reqs, i, RequirementStatus::Done),
                0,
            ) && all_done(with_status_at(reqs, i, RequirementStatus::Done)) == all_done(reqs),
            None => eligible_ids(reqs, 0) == Seq::<Seq<char>>::empty() && all_done(reqs) == reqs,
        },
{
    lemma_eligible_from(reqs, 0);
    match first_eligible(reqs) {
        Some(i) => {
            lemma_eligible_ids_from(reqs, 0, i);
            assert(all_done(with_status_at(reqs, i, RequirementStatus::Done)) =~= all_done(reqs));
        },
        None => {
            lemma_no_eligible_ids(reqs, 0);
            assert(all_done(reqs) =~= reqs);
        },
    }
}

/// A run in which every attempt completes its requirement. With steady
/// collaborators that complete every attempt, a looping run with a cap above
/// zero makes one attempt at each requirement that may be selected, in list
/// order, and then ends with `AllComplete`: each of those requirements is
/// `Done` and nothing else has changed in the document; the ledger has grown
/// by one `Started` and one `Done` event for each of them, with iteration
/// numbers that go up by one from the largest there was.
pub proof fn lemma_completing_run(c: ControllerView, env: Steady, now: Timestamp)
    requires
        c.phase == Phase::Selecting,
        !c.dry_run,
        c.loop_enabled,
        c.max_iterations > 0,
        env.completes(),
        max_iteration(c.ledger) + eligible_ids(c.prd.requirements, 0).len() <= u32::MAX,
    ensures
        ({
            let ids = eligible_ids(c.prd.requirements, 0);
            let first = max_iteration(c.ledger) + 1;
            let d = steady_run(c, LoopEventView::Ack, env, now, ids.len() * 8 + 1).0;
            &&& d.phase == Phase::Terminated(StopReason::AllComplete)
            &&& d.prd == (PrdView { requirements: all_done(c.prd.requirements), ..c.prd })
            &&& d.ledger.len() == c.ledger.len() + 2 * ids.len()
            &&& d.ledger.take(c.ledger.len() as int) == c.ledger
            &&& forall|j: int|
                0 <= j < ids.len() ==> {
                    &&& #[trigger] d.ledger[c.ledger.len() + 2 * j] == round_start(
                        ids[j],
                        (first + j) as u32,
                        now,
                    )
                    &&& d.ledger[c.ledger.len() + 2 * j + 1] == round_outcome(
                        ids[j],
                        (first + j) as u32,
                        env,
                        now,
                    )
                }
        }),
    decreases eligible_ids(c.prd.requirements, 0).len(),
{
    let ack = LoopEventView::Ack;
    let reqs = c.prd.requirements;
    let ids = eligible_ids(reqs, 0);
    let first = max_iteration(c.ledger) + 1;
    let len = c.ledger.len() as int;
    lemma_eligible_ids(reqs);
    match env.results {
        Some(rs) => {
            lemma_failure_from(rs, 0);
        },
        None => {},
    }
    assert(env.failure() is None);
    match first_eligible(reqs) {
        None => {
            reveal_with_fuel(steady_run, 2);
            assert(ids.len() * 8 + 1 == 1);
            let d = steady_run(c, ack, env, now, 1).0;
            assert(d.ledger.take(len) =~= c.ledger);
        },
        Some(i) => {
            let c1 = attempted(c, env, now);
            lemma_attempt(c, env, now);
            lemma_attempted(c, env, now);
            let rest = eligible_ids(c1.prd.requirements, 0);
            assert(ids.len() == rest.len() + 1);
            assert(ids.len() * 8 + 1 == 8 + (rest.len() * 8 + 1)) by (nonlinear_arith)
                requires
                    ids.len() == rest.len() + 1,
            ;
            lemma_steady_run_split(c, ack, env, now, 8, rest.len() * 8 + 1);
            lemma_completing_run(c1, env, now);
            let d = steady_run(c1, ack, env, now, rest.len() * 8 + 1).0;
            assert(d == steady_run(c, ack, env, now, ids.len() * 8 + 1).0);
            assert(c1.ledger.take(len) =~= c.ledger);
            assert(d.ledger.take(len) =~= c.ledger) by {
                assert(d.ledger.take(len + 2).take(len) =~= d.ledger.take(len));
            }
            assert forall|j: int| 0 <= j < ids.len() implies {
                &&& #[trigger] d.ledger[len + 2 * j] == round_start(ids[j], (first + j) as u32, now)
                &&& d.ledger[len + 2 * j + 1] == round_outcome(
                    ids[j],
                    (first + j) as u32,
                    env,
                    now,
                )
            } by {
                if j == 0 {
                    assert(d.ledger[len] == d.ledger.take(len + 2)[len]);
                    assert(d.ledger[len + 1] == d.ledger.take(len + 2)[len + 1]);
                    assert(ids[0] == reqs[i].id);
                } else {
                    assert(ids[j] == rest[j - 1]);
                    assert(d.ledger[(len + 2) + 2 * (j - 1)] == round_start(
                        rest[j - 1],
                        ((first + 1) + (j - 1)) as u32,
                        now,
                    ));
                }
            }
        },
    }
}

} // verus!
