//! The loop controller: the state machine that selects a requirement, runs
//! one attempt at it, validates, records the outcome and decides whether to
//! go on.
//!
//! The controller performs no outside work itself. Each call of
//! [`LoopController::step`] takes what the previous action came to and gives
//! the next action to perform; whoever drives the controller performs it and
//! reports back. The controller owns the requirement document and the ledger
//! for the whole run, and changes the ledger only after an event was stored.

use vstd::prelude::*;
use vstd::string::*;
use crate::feedback::{
    generate_prompt, prompt_text, summarize_validation_output, summarized, summary_request,
    summary_request_text,
};
use crate::ledger::{
    last_failure_message, lemma_append_event, lemma_append_keeps_order, max_iteration, monotone,
    opt_text, EventStatus, Ledger, LedgerEvent, LedgerEventView, Timestamp, FULL_SWEEP_EVERY,
};
use crate::prd::{
    first_eligible, with_status_at, Prd, PrdView, RequirementStatus, RequirementView,
};
use crate::validation::{
    all_passed, assess, first_failure_report, result_views, ValidationResult, ValidationResultView,
};

verus! {

/// The settings of a run.
#[derive(Debug, Clone, PartialEq, Eq)]
pub struct ImplementConfig {
    /// Stable identifier of the feature.
    pub slug: String,
    /// Report what would be done, and do none of it.
    pub dry_run: bool,
    /// Say more about what is going on.
    pub verbose: bool,
    /// Go on until every requirement is done or the cap is reached; without
    /// it the run ends after one attempt.
    pub loop_enabled: bool,
    /// The iteration cap: the run stops when an attempt does not complete
    /// its requirement and the attempts made are at least this many.
    pub max_iterations: u32,
}

/// Why a run ended.
#[derive(Debug, Clone, Copy, PartialEq, Eq, Structural)]
pub enum StopReason {
    /// No requirement is left to work on.
    AllComplete,
    /// The iteration cap was reached with work left.
    MaxIterationsReached,
    /// The run was asked for one attempt only, and made it.
    SingleIteration,
    /// The requirement document or a ledger event could not be stored.
    StorageFailure,
    /// The ledger holds the largest iteration number there is.
    IterationOverflow,
    /// The driver reported something that the controller was not waiting for.
    UnexpectedEvent,
}

/// The states of the loop.
#[derive(Debug, Clone, Copy, PartialEq, Eq, Structural)]
pub enum LoopState {
    Selecting,
    Attempting,
    Validating,
    Recording,
    Deciding,
    Terminated(StopReason),
}

/// Where the controller stands: the state of the loop and, within it, the
/// action whose outcome it is waiting for.
#[derive(Debug, Clone, Copy, PartialEq, Eq, Structural)]
pub enum Phase {
    /// About to select the next requirement.
    Selecting,
    /// Attempting: the document with the requirement in progress is being
    /// stored.
    MarkingInProgress,
    /// Attempting: the `Started` event is being stored.
    LoggingStart,
    /// Attempting: the assistant is at work.
    InvokingAssistant,
    /// Attempting in a dry run: the attempt that would be made is being
    /// reported.
    DryAttempt,
    /// Validating in a dry run: the validation that would be run is being
    /// reported.
    DryValidation,
    /// Recording in a dry run: what would be recorded is being reported.
    DryRecording,
    /// Validating: the validation pipeline is running.
    Validating,
    /// Recording: the document with the requirement's new status is being
    /// stored.
    SavingStatus,
    /// Recording: the failed output is being summed up.
    Summarizing,
    /// Recording: the event with the outcome is being stored.
    LoggingOutcome,
    /// About to decide whether to go on.
    Deciding,
    /// The run is over.
    Terminated(StopReason),
}

impl Phase {
    /// The state of the loop that the phase belongs to.
    pub open spec fn loop_state(self) -> LoopState {
        match self {
            Phase::Selecting => LoopState::Selecting,
            Phase::MarkingInProgress => LoopState::Attempting,
            Phase::LoggingStart => LoopState::Attempting,
            Phase::InvokingAssistant => LoopState::Attempting,
            Phase::DryAttempt => LoopState::Attempting,
            Phase::DryValidation => LoopState::Validating,
            Phase::DryRecording => LoopState::Recording,
            Phase::Validating => LoopState::Validating,
            Phase::SavingStatus => LoopState::Recording,
            Phase::Summarizing => LoopState::Recording,
            Phase::LoggingOutcome => LoopState::Recording,
            Phase::Deciding => LoopState::Deciding,
            Phase::Terminated(reason) => LoopState::Terminated(reason),
        }
    }

    /// The state of the loop that the phase belongs to.
    pub fn state(self) -> (s: LoopState)
        ensures
            s == self.loop_state(),
    {
        match self {
            Phase::Selecting => LoopState::Selecting,
            Phase::MarkingInProgress => LoopState::Attempting,
            Phase::LoggingStart => LoopState::Attempting,
            Phase::InvokingAssistant => LoopState::Attempting,
            Phase::DryAttempt => LoopState::Attempting,
            Phase::DryValidation => LoopState::Validating,
            Phase::DryRecording => LoopState::Recording,
            Phase::Validating => LoopState::Validating,
            Phase::SavingStatus => LoopState::Recording,
            Phase::Summarizing => LoopState::Recording,
            Phase::LoggingOutcome => LoopState::Recording,
            Phase::Deciding => LoopState::Deciding,
            Phase::Terminated(reason) => LoopState::Terminated(reason),
        }
    }
}

/// A step that a dry run reports and does not take.
#[derive(Debug, Clone, Copy, PartialEq, Eq, Structural)]
pub enum SkippedStep {
    /// Marking the requirement, logging the start and running the assistant.
    Attempt,
    /// Running the validation pipeline.
    Validation,
    /// Storing the requirement's new status and the outcome event.
    Recording,
}

/// How an invocation of the assistant ended. That the assistant could not
/// be started at all is told apart from its running and reporting failure;
/// both count as a failed attempt.
#[derive(Debug, Clone, Copy, PartialEq, Eq, Structural)]
pub enum AssistantOutcome {
    /// The assistant ran and reported success.
    Succeeded,
    /// The assistant ran and reported failure.
    Failed,
    /// The assistant could not be started.
    LaunchFailed,
}

impl AssistantOutcome {
    /// Whether the assistant ran and reported success.
    pub open spec fn succeeded(self) -> bool {
        self == AssistantOutcome::Succeeded
    }

    /// Whether the assistant ran and reported success.
    pub fn is_success(self) -> (r: bool)
        ensures
            r == self.succeeded(),
    {
        match self {
            AssistantOutcome::Succeeded => true,
            AssistantOutcome::Failed => false,
            AssistantOutcome::LaunchFailed => false,
        }
    }
}

/// What the driver reports to the controller.
#[derive(Debug, Clone)]
pub enum LoopEvent {
    /// The action was carried out.
    Ack,
    /// The document or the event could not be stored.
    StorageFailed,
    /// The assistant ended; `outcome` says how.
    AssistantFinished { outcome: AssistantOutcome },
    /// Validation ended with these results; `None` where no profile applies
    /// and validation was skipped.
    ValidationFinished { results: Option<Vec<ValidationResult>> },
    /// The summarizer ended; `None` where it gave no summary.
    SummaryReady { summary: Option<String> },
}

/// The mathematical value of a [`LoopEvent`].
pub enum LoopEventView {
    Ack,
    StorageFailed,
    AssistantFinished { outcome: AssistantOutcome },
    ValidationFinished { results: Option<Seq<ValidationResultView>> },
    SummaryReady { summary: Option<Seq<char>> },
}

impl View for LoopEvent {
    type V = LoopEventView;

    open spec fn view(&self) -> LoopEventView {
        match self {
            LoopEvent::Ack => LoopEventView::Ack,
            LoopEvent::StorageFailed => LoopEventView::StorageFailed,
            LoopEvent::AssistantFinished { outcome } => LoopEventView::AssistantFinished {
                outcome: *outcome,
            },
            LoopEvent::ValidationFinished { results } => LoopEventView::ValidationFinished {
                results: match results {
                    Some(rs) => Some(result_views(rs@)),
                    None => None,
                },
            },
            LoopEvent::SummaryReady { summary } => LoopEventView::SummaryReady {
                summary: opt_text(*summary),
            },
        }
    }
}

/// What the controller asks the driver to do next.
#[derive(Debug, Clone, PartialEq, Eq)]
pub enum LoopAction {
    /// Nothing to do outside: report `Ack`.
    Continue,
    /// Store the requirement document as the controller holds it now; report
    /// `Ack` or `StorageFailed`.
    SaveDocument,
    /// Store this event at the end of the durable ledger; report `Ack` or
    /// `StorageFailed`.
    AppendEvent { event: LedgerEvent },
    /// Run the assistant with this prompt; report `AssistantFinished`.
    InvokeAssistant { prompt: String },
    /// Run the validation pipeline, with the `test` stage if `full_sweep`
    /// says so; report `ValidationFinished`.
    RunValidation { full_sweep: bool },
    /// Ask the summarizer with this request; report `SummaryReady`.
    Summarize { request: String },
    /// Dry run: say that this step of an attempt at this requirement would
    /// be taken, and do nothing; report `Ack`.
    WouldDo { step: SkippedStep, requirement: String, iteration: u32, full_sweep: bool },
    /// The run is over.
    Stop { reason: StopReason },
}

/// The mathematical value of a [`LoopAction`].
pub enum LoopActionView {
    Continue,
    SaveDocument,
    AppendEvent { event: LedgerEventView },
    InvokeAssistant { prompt: Seq<char> },
    RunValidation { full_sweep: bool },
    Summarize { request: Seq<char> },
    WouldDo { step: SkippedStep, requirement: Seq<char>, iteration: u32, full_sweep: bool },
    Stop { reason: StopReason },
}

impl View for LoopAction {
    type V = LoopActionView;

    open spec fn view(&self) -> LoopActionView {
        match self {
            LoopAction::Continue => LoopActionView::Continue,
            LoopAction::SaveDocument => LoopActionView::SaveDocument,
            LoopAction::AppendEvent { event } => LoopActionView::AppendEvent { event: event@ },
            LoopAction::InvokeAssistant { prompt } => LoopActionView::InvokeAssistant {
                prompt: prompt@,
            },
            LoopAction::RunValidation { full_sweep } => LoopActionView::RunValidation {
                full_sweep: *full_sweep,
            },
            LoopAction::Summarize { request } => LoopActionView::Summarize { request: request@ },
            LoopAction::WouldDo { step, requirement, iteration, full_sweep } => LoopActionView::WouldDo {
                step: *step,
                requirement: requirement@,
                iteration: *iteration,
                full_sweep: *full_sweep,
            },
            LoopAction::Stop { reason } => LoopActionView::Stop { reason: *reason },
        }
    }
}

/// The attempt that is under way.
#[derive(Debug, Clone)]
pub struct Attempt {
    /// The index of the requirement in the document.
    pub requirement: usize,
    /// The iteration number of the attempt.
    pub iteration: u32,
    /// Whether validation includes the `test` stage.
    pub full_sweep: bool,
    /// The prompt for the assistant.
    pub prompt: String,
    /// Whether the assistant reported success.
    pub assistant_success: bool,
    /// Whether validation passed.
    pub validation_passed: bool,
    /// The report on the first failed stage.
    pub failed_output: Option<String>,
    /// The event that is being stored.
    pub pending: Option<LedgerEvent>,
}

/// The mathematical value of an [`Attempt`].
pub struct AttemptView {
    pub requirement: int,
    pub iteration: u32,
    pub full_sweep: bool,
    pub prompt: Seq<char>,
    pub assistant_success: bool,
    pub validation_passed: bool,
    pub failed_output: Option<Seq<char>>,
    pub pending: Option<LedgerEventView>,
}

impl View for Attempt {
    type V = AttemptView;

    open spec fn view(&self) -> AttemptView {
        AttemptView {
            requirement: self.requirement as int,
            iteration: self.iteration,
            full_sweep: self.full_sweep,
            prompt: self.prompt@,
            assistant_success: self.assistant_success,
            validation_passed: self.validation_passed,
            failed_output: opt_text(self.failed_output),
            pending: match self.pending {
                Some(e) => Some(e@),
                None => None,
            },
        }
    }
}

impl AttemptView {
    /// Whether the attempt completed its requirement: the assistant succeeded
    /// and validation passed.
    pub open spec fn completed(self) -> bool {
        self.assistant_success && self.validation_passed
    }
}

/// The mathematical value of a [`LoopController`].
pub struct ControllerView {
    pub slug: Seq<char>,
    pub verbose: bool,
    pub dry_run: bool,
    pub loop_enabled: bool,
    pub max_iterations: u32,
    pub prd: PrdView,
    pub ledger: Seq<LedgerEventView>,
    pub phase: Phase,
    /// How many attempts the run has made.
    pub attempts: u32,
    pub attempt: AttemptView,
}

/// The attempt before anything is known of its outcome.
pub open spec fn fresh_attempt(requirement: int, iteration: u32, prompt: Seq<char>) -> AttemptView {
    AttemptView {
        requirement,
        iteration,
        full_sweep: iteration % FULL_SWEEP_EVERY == 0,
        prompt,
        assistant_success: false,
        validation_passed: false,
        failed_output: None,
        pending: None,
    }
}

/// The run ends for the given reason.
pub open spec fn stopped(c: ControllerView, reason: StopReason) -> (ControllerView, LoopActionView) {
    (ControllerView { phase: Phase::Terminated(reason), ..c }, LoopActionView::Stop { reason })
}

/// The count of attempts after one more, held at the largest number.
pub open spec fn one_more(attempts: u32) -> u32 {
    if attempts == u32::MAX {
        attempts
    } else {
        (attempts + 1) as u32
    }
}

/// The report of a step that a dry run does not take.
pub open spec fn would_do(c: ControllerView, attempt: AttemptView, step: SkippedStep) -> LoopActionView {
    LoopActionView::WouldDo {
        step,
        requirement: c.prd.requirements[attempt.requirement].id,
        iteration: attempt.iteration,
        full_sweep: attempt.full_sweep,
    }
}

/// The prompt for an attempt at the requirement at `index`: the failure that
/// the ledger records for the requirement, as it stands before the attempt
/// begins, is fed back.
pub open spec fn attempt_prompt(c: ControllerView, index: int, iteration: u32) -> Seq<char> {
    prompt_text(
        c.prd.slug,
        c.prd.requirements[index],
        iteration,
        iteration % FULL_SWEEP_EVERY == 0,
        last_failure_message(c.ledger, c.prd.requirements[index].id),
    )
}

/// Selecting. With a cap of zero a looping run ends at once. Else the first
/// requirement in list order that is `Todo` or `InProgress` is taken; where
/// there is none the run ends with `AllComplete`. The attempt gets the
/// iteration number that follows the largest in the ledger, and includes the
/// full sweep on every fifth. The requirement is set `InProgress` and the
/// document is to be stored before anything else happens; a dry run changes
/// nothing and reports only.
pub open spec fn select(c: ControllerView) -> (ControllerView, LoopActionView) {
    if c.loop_enabled && c.max_iterations == 0 {
        stopped(c, StopReason::MaxIterationsReached)
    } else {
        match first_eligible(c.prd.requirements) {
            None => stopped(c, StopReason::AllComplete),
            Some(i) => if max_iteration(c.ledger) == u32::MAX {
                stopped(c, StopReason::IterationOverflow)
            } else {
                let iteration = (max_iteration(c.ledger) + 1) as u32;
                if c.dry_run {
                    let attempt = fresh_attempt(i, iteration, Seq::empty());
                    (
                        ControllerView { phase: Phase::DryAttempt, attempt, ..c },
                        would_do(c, attempt, SkippedStep::Attempt),
                    )
                } else {
                    let attempt = fresh_attempt(i, iteration, attempt_prompt(c, i, iteration));
                    (
                        ControllerView {
                            phase: Phase::MarkingInProgress,
                            attempt,
                            prd: PrdView {
                                requirements: with_status_at(
                                    c.prd.requirements,
                                    i,
                                    RequirementStatus::InProgress,
                                ),
                                ..c.prd
                            },
                            ..c
                        },
                        LoopActionView::SaveDocument,
                    )
                }
            },
        }
    }
}

/// The `Started` event of the attempt under way.
pub open spec fn started_event(c: ControllerView, now: Timestamp) -> LedgerEventView {
    LedgerEventView {
        timestamp: now,
        iteration: c.attempt.iteration,
        requirement: c.prd.requirements[c.attempt.requirement].id,
        status: EventStatus::Started,
        validation_passed: None,
        message: None,
    }
}

/// The event that records the outcome of the attempt under way: `Done` if
/// the attempt completed its requirement, else `Failed`; with the validation
/// result and, after a failed validation, the summary of its output.
pub open spec fn outcome_event(c: ControllerView, message: Option<Seq<char>>, now: Timestamp) -> LedgerEventView {
    LedgerEventView {
        timestamp: now,
        iteration: c.attempt.iteration,
        requirement: c.prd.requirements[c.attempt.requirement].id,
        status: if c.attempt.completed() {
            EventStatus::Done
        } else {
            EventStatus::Failed
        },
        validation_passed: Some(c.attempt.validation_passed),
        message,
    }
}

/// The controller with `event` as the event that is being stored.
pub open spec fn storing(c: ControllerView, phase: Phase, event: LedgerEventView) -> (
    ControllerView,
    LoopActionView,
) {
    (
        ControllerView { phase, attempt: AttemptView { pending: Some(event), ..c.attempt }, ..c },
        LoopActionView::AppendEvent { event },
    )
}

/// Validating is over: the attempt passes validation if every stage that was
/// run succeeded, or if validation was skipped. The requirement becomes
/// `Done` if the assistant succeeded and validation passed, and stays
/// `InProgress` otherwise; the document is to be stored.
pub open spec fn validated(c: ControllerView, results: Option<Seq<ValidationResultView>>) -> (
    ControllerView,
    LoopActionView,
) {
    let passed = match results {
        Some(rs) => all_passed(rs),
        None => true,
    };
    let failed_output = match results {
        Some(rs) => first_failure_report(rs),
        None => None,
    };
    let attempt = AttemptView { validation_passed: passed, failed_output, ..c.attempt };
    (
        ControllerView {
            phase: Phase::SavingStatus,
            attempt,
            prd: PrdView {
                requirements: with_status_at(
                    c.prd.requirements,
                    c.attempt.requirement,
                    final_status(attempt),
                ),
                ..c.prd
            },
            ..c
        },
        LoopActionView::SaveDocument,
    )
}

/// Deciding. A run of one attempt ends. Else the loop goes back to selecting
/// if the attempt completed its requirement, or if the cap is not reached;
/// it ends with `MaxIterationsReached` once the attempts made are as many as
/// the cap.
pub open spec fn decide(c: ControllerView) -> (ControllerView, LoopActionView) {
    if !c.loop_enabled {
        stopped(c, StopReason::SingleIteration)
    } else if c.attempt.completed() || c.attempts < c.max_iterations {
        (ControllerView { phase: Phase::Selecting, ..c }, LoopActionView::Continue)
    } else {
        stopped(c, StopReason::MaxIterationsReached)
    }
}

/// The transition of the loop: the controller after `event`, and the next
/// action. `now` is the time stamp that a new ledger event gets.
pub open spec fn next(c: ControllerView, event: LoopEventView, now: Timestamp) -> (
    ControllerView,
    LoopActionView,
) {
    match c.phase {
        Phase::Terminated(reason) => stopped(c, reason),
        Phase::Selecting => match event {
            LoopEventView::Ack => select(c),
            _ => stopped(c, StopReason::UnexpectedEvent),
        },
        Phase::MarkingInProgress => match event {
            LoopEventView::Ack => storing(c, Phase::LoggingStart, started_event(c, now)),
            LoopEventView::StorageFailed => stopped(c, StopReason::StorageFailure),
            _ => stopped(c, StopReason::UnexpectedEvent),
        },
        Phase::LoggingStart => match event {
            LoopEventView::Ack => {
                let ledger = c.ledger.push(c.attempt.pending->0);
                (
                    ControllerView {
                        phase: Phase::InvokingAssistant,
                        ledger,
                        attempt: AttemptView { pending: None, ..c.attempt },
                        ..c
                    },
                    LoopActionView::InvokeAssistant { prompt: c.attempt.prompt },
                )
            },
            LoopEventView::StorageFailed => stopped(c, StopReason::StorageFailure),
            _ => stopped(c, StopReason::UnexpectedEvent),
        },
        Phase::InvokingAssistant => match event {
            LoopEventView::AssistantFinished { outcome } => (
                ControllerView {
                    phase: Phase::Validating,
                    attempt: AttemptView { assistant_success: outcome.succeeded(), ..c.attempt },
                    ..c
                },
                LoopActionView::RunValidation { full_sweep: c.attempt.full_sweep },
            ),
            _ => stopped(c, StopReason::UnexpectedEvent),
        },
        Phase::DryAttempt => match event {
            LoopEventView::Ack => (
                ControllerView { phase: Phase::DryValidation, ..c },
                would_do(c, c.attempt, SkippedStep::Validation),
            ),
            _ => stopped(c, StopReason::UnexpectedEvent),
        },
        Phase::DryValidation => match event {
            LoopEventView::Ack => (
                ControllerView { phase: Phase::DryRecording, ..c },
                would_do(c, c.attempt, SkippedStep::Recording),
            ),
            _ => stopped(c, StopReason::UnexpectedEvent),
        },
        Phase::DryRecording => match event {
            LoopEventView::Ack => (
                ControllerView { phase: Phase::Deciding, attempts: one_more(c.attempts), ..c },
                LoopActionView::Continue,
            ),
            _ => stopped(c, StopReason::UnexpectedEvent),
        },
        Phase::Validating => match event {
            LoopEventView::ValidationFinished { results } => validated(c, results),
            _ => stopped(c, StopReason::UnexpectedEvent),
        },
        Phase::SavingStatus => match event {
            LoopEventView::Ack => match c.attempt.failed_output {
                Some(output) => (
                    ControllerView { phase: Phase::Summarizing, ..c },
                    LoopActionView::Summarize { request: summary_request_text(output) },
                ),
                None => storing(c, Phase::LoggingOutcome, outcome_event(c, None, now)),
            },
            LoopEventView::StorageFailed => stopped(c, StopReason::StorageFailure),
            _ => stopped(c, StopReason::UnexpectedEvent),
        },
        Phase::Summarizing => match event {
            LoopEventView::SummaryReady { summary } => storing(
                c,
                Phase::LoggingOutcome,
                outcome_event(c, Some(summarized(c.attempt.failed_output->0, summary)), now),
            ),
            _ => stopped(c, StopReason::UnexpectedEvent),
        },
        Phase::LoggingOutcome => match event {
            LoopEventView::Ack => (
                ControllerView {
                    phase: Phase::Deciding,
                    ledger: c.ledger.push(c.attempt.pending->0),
                    attempts: one_more(c.attempts),
                    attempt: AttemptView { pending: None, ..c.attempt },
                    ..c
                },
                LoopActionView::Continue,
            ),
            LoopEventView::StorageFailed => stopped(c, StopReason::StorageFailure),
            _ => stopped(c, StopReason::UnexpectedEvent),
        },
        Phase::Deciding => match event {
            LoopEventView::Ack => decide(c),
            _ => stopped(c, StopReason::UnexpectedEvent),
        },
    }
}

/// During an attempt the requirement is one of the document's, and the
/// attempt's iteration number is at least the largest in the ledger.
pub open spec fn in_attempt(c: ControllerView) -> bool {
    &&& 0 <= c.attempt.requirement < c.prd.requirements.len()
    &&& max_iteration(c.ledger) <= c.attempt.iteration
}

/// The status that the requirement of the attempt has in the document.
pub open spec fn attempt_status(c: ControllerView) -> RequirementStatus {
    c.prd.requirements[c.attempt.requirement].status
}

/// The status that an attempt leaves its requirement in: `Done` if the
/// assistant succeeded and validation passed, else `InProgress`.
pub open spec fn final_status(attempt: AttemptView) -> RequirementStatus {
    if attempt.completed() {
        RequirementStatus::Done
    } else {
        RequirementStatus::InProgress
    }
}

/// An event that is being stored belongs to the attempt under way.
pub open spec fn pending_fits(c: ControllerView) -> bool {
    c.attempt.pending matches Some(e) && e.iteration == c.attempt.iteration
}

/// What holds of the controller's data in each phase. From the start of an
/// attempt until validation ends its requirement is `InProgress`; while the
/// outcome is recorded the requirement has its final status; and while an
/// event is being stored, or an output summed up, that event or output is at
/// hand.
pub open spec fn consistent(c: ControllerView) -> bool {
    match c.phase {
        Phase::Selecting => true,
        Phase::Deciding => true,
        Phase::Terminated(_) => true,
        Phase::DryAttempt => in_attempt(c),
        Phase::DryValidation => in_attempt(c),
        Phase::DryRecording => in_attempt(c),
        Phase::MarkingInProgress => in_attempt(c) && attempt_status(c)
            == RequirementStatus::InProgress,
        Phase::LoggingStart => in_attempt(c) && attempt_status(c) == RequirementStatus::InProgress
            && pending_fits(c),
        Phase::InvokingAssistant => in_attempt(c) && attempt_status(c)
            == RequirementStatus::InProgress,
        Phase::Validating => in_attempt(c) && attempt_status(c) == RequirementStatus::InProgress,
        Phase::SavingStatus => in_attempt(c) && attempt_status(c) == final_status(c.attempt),
        Phase::Summarizing => in_attempt(c) && attempt_status(c) == final_status(c.attempt)
            && c.attempt.failed_output is Some,
        Phase::LoggingOutcome => in_attempt(c) && attempt_status(c) == final_status(c.attempt)
            && pending_fits(c),
    }
}

/// Every step leaves the controller's data consistent.
pub proof fn lemma_step_consistent(c: ControllerView, event: LoopEventView, now: Timestamp)
    requires
        consistent(c),
    ensures
        consistent(next(c, event, now).0),
{
    let after = next(c, event, now).0;
    if c.phase == Phase::Selecting && event is Ack {
        crate::prd::lemma_eligible_from(c.prd.requirements, 0);
    }
    if (c.phase == Phase::LoggingStart || c.phase == Phase::LoggingOutcome) && event is Ack {
        lemma_append_event(c.ledger, c.attempt.pending->0, Seq::empty());
    }
}

/// The ledger is append-only: a step leaves it as it was or adds the one
/// event that was stored, at the end. An event is added only on the report
/// that it was stored.
pub proof fn lemma_step_appends_only(c: ControllerView, event: LoopEventView, now: Timestamp)
    requires
        consistent(c),
    ensures
        next(c, event, now).0.ledger == c.ledger || (event is Ack && c.attempt.pending is Some
            && next(c, event, now).0.ledger == c.ledger.push(c.attempt.pending->0)),
        c.ledger.is_prefix_of(next(c, event, now).0.ledger),
{
    let after = next(c, event, now).0.ledger;
    if after != c.ledger {
        assert(after == c.ledger.push(c.attempt.pending->0));
        assert(after.subrange(0, c.ledger.len() as int) =~= c.ledger);
    } else {
        assert(after.subrange(0, c.ledger.len() as int) =~= c.ledger);
    }
}

/// Iteration numbers never go down along the ledger: a step keeps them in
/// order.
pub proof fn lemma_step_keeps_order(c: ControllerView, event: LoopEventView, now: Timestamp)
    requires
        consistent(c),
        monotone(c.ledger),
    ensures
        monotone(next(c, event, now).0.ledger),
{
    lemma_step_appends_only(c, event, now);
    if next(c, event, now).0.ledger != c.ledger {
        lemma_append_keeps_order(c.ledger, c.attempt.pending->0);
    }
}

/// A failure to store the document or an event is fatal: the run ends with
/// `StorageFailure`, and the document and the ledger stay as they were.
pub proof fn lemma_storage_failure_is_fatal(c: ControllerView, now: Timestamp)
    requires
        c.phase == Phase::MarkingInProgress || c.phase == Phase::LoggingStart || c.phase
            == Phase::SavingStatus || c.phase == Phase::LoggingOutcome,
    ensures
        next(c, LoopEventView::StorageFailed, now) == stopped(c, StopReason::StorageFailure),
        next(c, LoopEventView::StorageFailed, now).0.ledger == c.ledger,
        next(c, LoopEventView::StorageFailed, now).0.prd == c.prd,
{
}

/// When no attempt is made. A looping run with a cap of zero ends at once
/// with `MaxIterationsReached`; else a document without a requirement that
/// may be selected ends the run with `AllComplete`; else a ledger that holds
/// the largest iteration number ends it with `IterationOverflow`. In each
/// case nothing but the phase changes. In every other case selecting begins
/// an attempt.
pub proof fn lemma_no_attempt(c: ControllerView)
    requires
        c.phase == Phase::Selecting,
    ensures
        c.loop_enabled && c.max_iterations == 0 ==> select(c) == stopped(
            c,
            StopReason::MaxIterationsReached,
        ),
        !(c.loop_enabled && c.max_iterations == 0) && first_eligible(c.prd.requirements) is None
            ==> select(c) == stopped(c, StopReason::AllComplete),
        !(c.loop_enabled && c.max_iterations == 0) && first_eligible(c.prd.requirements) is Some
            && max_iteration(c.ledger) == u32::MAX ==> select(c) == stopped(
            c,
            StopReason::IterationOverflow,
        ),
        !(c.loop_enabled && c.max_iterations == 0) && first_eligible(c.prd.requirements) is Some
            && max_iteration(c.ledger) < u32::MAX ==> select(c).0.phase.loop_state()
            == LoopState::Attempting,
{
}

/// The phases that a dry run goes through.
pub open spec fn is_dry_phase(phase: Phase) -> bool {
    match phase {
        Phase::Selecting => true,
        Phase::DryAttempt => true,
        Phase::DryValidation => true,
        Phase::DryRecording => true,
        Phase::Deciding => true,
        Phase::Terminated(_) => true,
        _ => false,
    }
}

/// An action that asks for no work outside: going on, saying what a dry run
/// would do, or stopping.
pub open spec fn is_idle_action(action: LoopActionView) -> bool {
    action is Continue || action is WouldDo || action is Stop
}

/// A dry run does nothing: every step leaves the document and the ledger as
/// they were, stays within the phases of a dry run, and asks for no storing,
/// no assistant, no validation and no summary.
pub proof fn lemma_dry_run_is_idle(c: ControllerView, event: LoopEventView, now: Timestamp)
    requires
        c.dry_run,
        is_dry_phase(c.phase),
    ensures
        next(c, event, now).0.prd == c.prd,
        next(c, event, now).0.ledger == c.ledger,
        next(c, event, now).0.dry_run,
        is_dry_phase(next(c, event, now).0.phase),
        is_idle_action(next(c, event, now).1),
{
}

/// Once the run has ended nothing changes any more.
pub proof fn lemma_terminated_is_final(c: ControllerView, event: LoopEventView, now: Timestamp)
    requires
        c.phase is Terminated,
    ensures
        next(c, event, now).0 == c,
        next(c, event, now).1 == (LoopActionView::Stop { reason: c.phase->Terminated_0 }),
{
}

/// A step changes nothing of the document but the status of the requirement
/// of the attempt, and a requirement that is `Done` or `Blocked` is never
/// changed.
pub proof fn lemma_step_changes_status_only(c: ControllerView, event: LoopEventView, now: Timestamp)
    requires
        consistent(c),
    ensures
        ({
            let after = next(c, event, now).0;
            &&& after.prd.requirements.len() == c.prd.requirements.len()
            &&& after.prd == (PrdView { requirements: after.prd.requirements, ..c.prd })
            &&& forall|j: int|
                0 <= j < c.prd.requirements.len() ==> {
                    &&& (#[trigger] after.prd.requirements[j]) == (RequirementView {
                        status: after.prd.requirements[j].status,
                        ..c.prd.requirements[j]
                    })
                    &&& j != after.attempt.requirement ==> after.prd.requirements[j]
                        == c.prd.requirements[j]
                    &&& !c.prd.requirements[j].status.eligible() ==> after.prd.requirements[j]
                        == c.prd.requirements[j]
                }
        }),
{
    if c.phase == Phase::Selecting && event is Ack {
        crate::prd::lemma_eligible_from(c.prd.requirements, 0);
    }
}

/// The iteration number of a new attempt is one more than the largest in the
/// ledger, and the attempt includes the full sweep exactly on every fifth
/// iteration.
pub proof fn lemma_selection(c: ControllerView)
    requires
        c.phase == Phase::Selecting,
        !(c.loop_enabled && c.max_iterations == 0),
        max_iteration(c.ledger) < u32::MAX,
    ensures
        first_eligible(c.prd.requirements) is None ==> select(c) == stopped(
            c,
            StopReason::AllComplete,
        ),
        first_eligible(c.prd.requirements) matches Some(i) ==> {
            let after = select(c).0;
            &&& after.attempt.requirement == i
            &&& 0 <= i < c.prd.requirements.len()
            &&& c.prd.requirements[i].status.eligible()
            &&& forall|j: int| 0 <= j < i ==> !c.prd.requirements[j].status.eligible()
            &&& after.attempt.iteration == max_iteration(c.ledger) + 1
            &&& after.attempt.full_sweep == (after.attempt.iteration % 5 == 0)
            &&& after.phase.loop_state() == LoopState::Attempting
        },
{
    crate::prd::lemma_eligible_from(c.prd.requirements, 0);
}

/// The loop controller. It owns the requirement document and the ledger for
/// the duration of a run.
#[derive(Debug)]
pub struct LoopController {
    config: ImplementConfig,
    prd: Prd,
    ledger: Ledger,
    phase: Phase,
    attempts: u32,
    attempt: Attempt,
}

impl View for LoopController {
    type V = ControllerView;

    closed spec fn view(&self) -> ControllerView {
        ControllerView {
            slug: self.config.slug@,
            verbose: self.config.verbose,
            dry_run: self.config.dry_run,
            loop_enabled: self.config.loop_enabled,
            max_iterations: self.config.max_iterations,
            prd: self.prd@,
            ledger: self.ledger@,
            phase: self.phase,
            attempts: self.attempts,
            attempt: self.attempt@,
        }
    }
}

impl LoopController {
    /// A controller about to select, for a run on the given document and
    /// ledger.
    pub fn new(config: ImplementConfig, prd: Prd, ledger: Ledger) -> (c: Self)
        ensures
            consistent(c@),
            c@ == (ControllerView {
                slug: config.slug@,
                verbose: config.verbose,
                dry_run: config.dry_run,
                loop_enabled: config.loop_enabled,
                max_iterations: config.max_iterations,
                prd: prd@,
                ledger: ledger@,
                phase: Phase::Selecting,
                attempts: 0,
                attempt: fresh_attempt(0, 0, Seq::empty()),
            }),
    {
        LoopController {
            config,
            prd,
            ledger,
            phase: Phase::Selecting,
            attempts: 0,
            attempt: Attempt {
                requirement: 0,
                iteration: 0,
                full_sweep: true,
                prompt: String::new(),
                assistant_success: false,
                validation_passed: false,
                failed_output: None,
                pending: None,
            },
        }
    }

    /// The requirement document as it stands.
    pub fn prd(&self) -> (p: &Prd)
        ensures
            p@ == self@.prd,
    {
        &self.prd
    }

    /// The ledger as it stands.
    pub fn ledger(&self) -> (l: &Ledger)
        ensures
            l@ == self@.ledger,
    {
        &self.ledger
    }

    /// The settings of the run.
    pub fn config(&self) -> (c: &ImplementConfig)
        ensures
            c.slug@ == self@.slug,
            c.verbose == self@.verbose,
            c.dry_run == self@.dry_run,
            c.loop_enabled == self@.loop_enabled,
            c.max_iterations == self@.max_iterations,
    {
        &self.config
    }

    /// Where the controller stands.
    pub fn phase(&self) -> (p: Phase)
        ensures
            p == self@.phase,
    {
        self.phase
    }

    /// The state of the loop.
    pub fn state(&self) -> (s: LoopState)
        ensures
            s == self@.phase.loop_state(),
    {
        self.phase.state()
    }

    /// How many attempts the run has made.
    pub fn attempts(&self) -> (n: u32)
        ensures
            n == self@.attempts,
    {
        self.attempts
    }

    /// Why the run ended, once it has.
    pub fn stop_reason(&self) -> (r: Option<StopReason>)
        ensures
            r == match self@.phase {
                Phase::Terminated(reason) => Some(reason),
                _ => None,
            },
    {
        match self.phase {
            Phase::Terminated(reason) => Some(reason),
            _ => None,
        }
    }

    /// Whether the controller's data is consistent. It always is in a
    /// controller that `new` made and only `step` changed.
    pub fn is_consistent(&self) -> (r: bool)
        ensures
            r == consistent(self@),
    {
        match self.phase {
            Phase::Selecting => true,
            Phase::Deciding => true,
            Phase::Terminated(_) => true,
            _ => {
                if self.attempt.requirement >= self.prd.requirements.len() {
                    return false;
                }
                if self.ledger.latest_iteration() > self.attempt.iteration {
                    return false;
                }
                let status = self.prd.requirements[self.attempt.requirement].status;
                let last = if self.attempt.assistant_success && self.attempt.validation_passed {
                    RequirementStatus::Done
                } else {
                    RequirementStatus::InProgress
                };
                let fits = match &self.attempt.pending {
                    Some(e) => e.iteration == self.attempt.iteration,
                    None => false,
                };
                match self.phase {
                    Phase::DryAttempt => true,
                    Phase::DryValidation => true,
                    Phase::DryRecording => true,
                    Phase::MarkingInProgress => status == RequirementStatus::InProgress,
                    Phase::LoggingStart => status == RequirementStatus::InProgress && fits,
                    Phase::InvokingAssistant => status == RequirementStatus::InProgress,
                    Phase::Validating => status == RequirementStatus::InProgress,
                    Phase::SavingStatus => status == last,
                    Phase::Summarizing => status == last && self.attempt.failed_output.is_some(),
                    Phase::LoggingOutcome => status == last && fits,
                    _ => true,
                }
            },
        }
    }

    /// Gives the document and the ledger back.
    pub fn into_parts(self) -> (parts: (Prd, Ledger))
        ensures
            parts.0@ == self@.prd,
            parts.1@ == self@.ledger,
    {
        (self.prd, self.ledger)
    }

    fn stop(&mut self, reason: StopReason) -> (action: LoopAction)
        ensures
            (final(self)@, action@) == stopped(old(self)@, reason),
            consistent(final(self)@),
    {
        self.phase = Phase::Terminated(reason);
        LoopAction::Stop { reason }
    }

    fn store(&mut self, phase: Phase, event: LedgerEvent) -> (action: LoopAction)
        requires
            phase == Phase::LoggingStart || phase == Phase::LoggingOutcome,
            in_attempt(old(self)@),
            event@.iteration == old(self)@.attempt.iteration,
            attempt_status(old(self)@) == if phase == Phase::LoggingStart {
                RequirementStatus::InProgress
            } else {
                final_status(old(self)@.attempt)
            },
        ensures
            (final(self)@, action@) == storing(old(self)@, phase, event@),
            consistent(final(self)@),
    {
        let copy = event.duplicate();
        self.attempt.pending = Some(event);
        self.phase = phase;
        LoopAction::AppendEvent { event: copy }
    }

    fn do_select(&mut self) -> (action: LoopAction)
        ensures
            (final(self)@, action@) == select(old(self)@),
            consistent(final(self)@),
    {
        if self.config.loop_enabled && self.config.max_iterations == 0 {
            return self.stop(StopReason::MaxIterationsReached);
        }
        let index = match self.prd.next_requirement_index() {
            Some(i) => i,
            None => {
                return self.stop(StopReason::AllComplete);
            },
        };
        let latest = self.ledger.latest_iteration();
        if latest == u32::MAX {
            return self.stop(StopReason::IterationOverflow);
        }
        let iteration: u32 = latest + 1;
        let full_sweep = iteration % FULL_SWEEP_EVERY == 0;
        let prompt = if self.config.dry_run {
            String::new()
        } else {
            generate_prompt(
                &self.prd,
                &self.prd.requirements[index],
                &self.ledger,
                iteration,
                full_sweep,
            )
        };
        self.attempt = Attempt {
            requirement: index,
            iteration,
            full_sweep,
            prompt,
            assistant_success: false,
            validation_passed: false,
            failed_output: None,
            pending: None,
        };
        if self.config.dry_run {
            self.phase = Phase::DryAttempt;
            self.would(SkippedStep::Attempt)
        } else {
            self.prd.set_status_at(index, RequirementStatus::InProgress);
            self.phase = Phase::MarkingInProgress;
            LoopAction::SaveDocument
        }
    }

    fn do_decide(&mut self) -> (action: LoopAction)
        ensures
            (final(self)@, action@) == decide(old(self)@),
            consistent(final(self)@),
    {
        if !self.config.loop_enabled {
            self.stop(StopReason::SingleIteration)
        } else if (self.attempt.assistant_success && self.attempt.validation_passed)
            || self.attempts < self.config.max_iterations {
            self.phase = Phase::Selecting;
            LoopAction::Continue
        } else {
            self.stop(StopReason::MaxIterationsReached)
        }
    }

    fn count_attempt(&mut self)
        ensures
            final(self)@ == (ControllerView {
                attempts: one_more(old(self)@.attempts),
                ..old(self)@
            }),
    {
        if self.attempts < u32::MAX {
            self.attempts = self.attempts + 1;
        }
    }

    fn commit_pending(&mut self)
        requires
            old(self)@.attempt.pending is Some,
        ensures
            final(self)@ == (ControllerView {
                ledger: old(self)@.ledger.push(old(self)@.attempt.pending->0),
                attempt: AttemptView { pending: None, ..old(self)@.attempt },
                ..old(self)@
            }),
    {
        let pending = self.attempt.pending.take();
        match pending {
            Some(event) => {
                let _ = self.ledger.append(event);
            },
            None => {},
        }
    }

    fn outcome(&self, message: Option<String>, now: Timestamp) -> (e: LedgerEvent)
        requires
            in_attempt(self@),
        ensures
            e@ == outcome_event(self@, opt_text(message), now),
    {
        let status = if self.attempt.assistant_success && self.attempt.validation_passed {
            EventStatus::Done
        } else {
            EventStatus::Failed
        };
        let e = LedgerEvent::at(
            now,
            self.attempt.iteration,
            self.prd.requirements[self.attempt.requirement].id.as_str(),
            status,
        ).with_validation(self.attempt.validation_passed);
        match message {
            Some(m) => e.with_validation_output(m),
            None => e,
        }
    }

    fn do_validated(&mut self, results: Option<Vec<ValidationResult>>) -> (action: LoopAction)
        requires
            in_attempt(old(self)@),
        ensures
            (final(self)@, action@) == validated(
                old(self)@,
                match results {
                    Some(rs) => Some(result_views(rs@)),
                    None => None,
                },
            ),
            consistent(final(self)@),
    {
        match results {
            Some(rs) => {
                let verdict = assess(&rs);
                self.attempt.validation_passed = verdict.passed;
                self.attempt.failed_output = verdict.failed_output;
            },
            None => {
                self.attempt.validation_passed = true;
                self.attempt.failed_output = None;
            },
        }
        let status = if self.attempt.assistant_success && self.attempt.validation_passed {
            RequirementStatus::Done
        } else {
            RequirementStatus::InProgress
        };
        self.prd.set_status_at(self.attempt.requirement, status);
        self.phase = Phase::SavingStatus;
        LoopAction::SaveDocument
    }

    fn after_marking(&mut self, event: LoopEvent, now: Timestamp) -> (action: LoopAction)
        requires
            consistent(old(self)@),
            old(self)@.phase == Phase::MarkingInProgress,
        ensures
            (final(self)@, action@) == next(old(self)@, event@, now),
    {
        match event {
            LoopEvent::Ack => {
                let started = LedgerEvent::at(
                    now,
                    self.attempt.iteration,
                    self.prd.requirements[self.attempt.requirement].id.as_str(),
                    EventStatus::Started,
                );
                self.store(Phase::LoggingStart, started)
            },
            LoopEvent::StorageFailed => self.stop(StopReason::StorageFailure),
            _ => self.stop(StopReason::UnexpectedEvent),
        }
    }

    fn after_start_logged(&mut self, event: LoopEvent, now: Timestamp) -> (action: LoopAction)
        requires
            consistent(old(self)@),
            old(self)@.phase == Phase::LoggingStart,
        ensures
            (final(self)@, action@) == next(old(self)@, event@, now),
    {
        match event {
            LoopEvent::Ack => {
                self.commit_pending();
                self.phase = Phase::InvokingAssistant;
                LoopAction::InvokeAssistant { prompt: self.attempt.prompt.clone() }
            },
            LoopEvent::StorageFailed => self.stop(StopReason::StorageFailure),
            _ => self.stop(StopReason::UnexpectedEvent),
        }
    }

    fn after_assistant(&mut self, event: LoopEvent, now: Timestamp) -> (action: LoopAction)
        requires
            consistent(old(self)@),
            old(self)@.phase == Phase::InvokingAssistant,
        ensures
            (final(self)@, action@) == next(old(self)@, event@, now),
    {
        match event {
            LoopEvent::AssistantFinished { outcome } => {
                self.attempt.assistant_success = outcome.is_success();
                self.phase = Phase::Validating;
                LoopAction::RunValidation { full_sweep: self.attempt.full_sweep }
            },
            _ => self.stop(StopReason::UnexpectedEvent),
        }
    }

    fn would(&self, step: SkippedStep) -> (action: LoopAction)
        requires
            in_attempt(self@),
        ensures
            action@ == would_do(self@, self@.attempt, step),
    {
        LoopAction::WouldDo {
            step,
            requirement: self.prd.requirements[self.attempt.requirement].id.clone(),
            iteration: self.attempt.iteration,
            full_sweep: self.attempt.full_sweep,
        }
    }

    fn after_dry_step(&mut self, event: LoopEvent, now: Timestamp) -> (action: LoopAction)
        requires
            consistent(old(self)@),
            old(self)@.phase == Phase::DryAttempt || old(self)@.phase == Phase::DryValidation
                || old(self)@.phase == Phase::DryRecording,
        ensures
            (final(self)@, action@) == next(old(self)@, event@, now),
    {
        match event {
            LoopEvent::Ack => match self.phase {
                Phase::DryAttempt => {
                    self.phase = Phase::DryValidation;
                    self.would(SkippedStep::Validation)
                },
                Phase::DryValidation => {
                    self.phase = Phase::DryRecording;
                    self.would(SkippedStep::Recording)
                },
                _ => {
                    self.count_attempt();
                    self.phase = Phase::Deciding;
                    LoopAction::Continue
                },
            },
            _ => self.stop(StopReason::UnexpectedEvent),
        }
    }

    fn after_validation(&mut self, event: LoopEvent, now: Timestamp) -> (action: LoopAction)
        requires
            consistent(old(self)@),
            old(self)@.phase == Phase::Validating,
        ensures
            (final(self)@, action@) == next(old(self)@, event@, now),
    {
        match event {
            LoopEvent::ValidationFinished { results } => self.do_validated(results),
            _ => self.stop(StopReason::UnexpectedEvent),
        }
    }

    fn after_status_saved(&mut self, event: LoopEvent, now: Timestamp) -> (action: LoopAction)
        requires
            consistent(old(self)@),
            old(self)@.phase == Phase::SavingStatus,
        ensures
            (final(self)@, action@) == next(old(self)@, event@, now),
    {
        match event {
            LoopEvent::Ack => {
                let request = match &self.attempt.failed_output {
                    Some(output) => Some(summary_request(output.as_str())),
                    None => None,
                };
                match request {
                    Some(request) => {
                        self.phase = Phase::Summarizing;
                        LoopAction::Summarize { request }
                    },
                    None => {
                        let e = self.outcome(None, now);
                        self.store(Phase::LoggingOutcome, e)
                    },
                }
            },
            LoopEvent::StorageFailed => self.stop(StopReason::StorageFailure),
            _ => self.stop(StopReason::UnexpectedEvent),
        }
    }

    fn after_summary(&mut self, event: LoopEvent, now: Timestamp) -> (action: LoopAction)
        requires
            consistent(old(self)@),
            old(self)@.phase == Phase::Summarizing,
        ensures
            (final(self)@, action@) == next(old(self)@, event@, now),
    {
        match event {
            LoopEvent::SummaryReady { summary } => {
                let message = match &self.attempt.failed_output {
                    Some(output) => match &summary {
                        Some(s) => summarize_validation_output(output.as_str(), Some(s.as_str())),
                        None => summarize_validation_output(output.as_str(), None),
                    },
                    None => String::new(),
                };
                let e = self.outcome(Some(message), now);
                self.store(Phase::LoggingOutcome, e)
            },
            _ => self.stop(StopReason::UnexpectedEvent),
        }
    }

    fn after_outcome_logged(&mut self, event: LoopEvent, now: Timestamp) -> (action: LoopAction)
        requires
            consistent(old(self)@),
            old(self)@.phase == Phase::LoggingOutcome,
        ensures
            (final(self)@, action@) == next(old(self)@, event@, now),
    {
        match event {
            LoopEvent::Ack => {
                self.commit_pending();
                self.count_attempt();
                self.phase = Phase::Deciding;
                LoopAction::Continue
            },
            LoopEvent::StorageFailed => self.stop(StopReason::StorageFailure),
            _ => self.stop(StopReason::UnexpectedEvent),
        }
    }

    /// Takes what the previous action came to and gives the next action. A
    /// report that the controller was not waiting for ends the run, and so
    /// does a failure to store the document or an event: the ledger and the
    /// stored status then stay as they were last stored. Once the run has
    /// ended every further step gives `Stop` again.
    pub fn step(&mut self, event: LoopEvent, now: Timestamp) -> (action: LoopAction)
        requires
            consistent(old(self)@),
        ensures
            consistent(final(self)@),
            (final(self)@, action@) == next(old(self)@, event@, now),
    {
        proof {
            lemma_step_consistent(self@, event@, now);
        }
        match self.phase {
            Phase::Terminated(reason) => self.stop(reason),
            Phase::Selecting => match event {
                LoopEvent::Ack => self.do_select(),
                _ => self.stop(StopReason::UnexpectedEvent),
            },
            Phase::MarkingInProgress => self.after_marking(event, now),
            Phase::LoggingStart => self.after_start_logged(event, now),
            Phase::InvokingAssistant => self.after_assistant(event, now),
            Phase::DryAttempt => self.after_dry_step(event, now),
            Phase::DryValidation => self.after_dry_step(event, now),
            Phase::DryRecording => self.after_dry_step(event, now),
            Phase::Validating => self.after_validation(event, now),
            Phase::SavingStatus => self.after_status_saved(event, now),
            Phase::Summarizing => self.after_summary(event, now),
            Phase::LoggingOutcome => self.after_outcome_logged(event, now),
            Phase::Deciding => match event {
                LoopEvent::Ack => self.do_decide(),
                _ => self.stop(StopReason::UnexpectedEvent),
            },
        }
    }
}

} // verus!
