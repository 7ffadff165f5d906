use ralph_lib::feedback::{build_prompt, summary_request};
use ralph_lib::implement::{
    AssistantOutcome, ImplementConfig, LoopAction, LoopController, LoopEvent, LoopState, Phase, SkippedStep,
    StopReason,
};
use ralph_lib::ledger::{EventStatus, Ledger, LedgerEvent, Timestamp};
use ralph_lib::prd::{Prd, Requirement, RequirementStatus};
use ralph_lib::validation::{
    CommandOutcome, DetectRules, ProfileCommands, ValidationProfile, ValidationResult,
    ValidationStage,
};

/// Stands in for the shell: `ok` succeeds, `fail <text>` writes the text to
/// standard error and exits with 1.
fn shell(cmd: &String, _cwd: &str) -> CommandOutcome {
    match cmd.strip_prefix("fail ") {
        Some(text) => CommandOutcome::Exited {
            code: Some(1),
            stdout: String::new(),
            stderr: text.to_string(),
        },
        None => CommandOutcome::Exited {
            code: Some(0),
            stdout: String::new(),
            stderr: String::new(),
        },
    }
}

fn profile(lint: &str) -> ValidationProfile {
    ValidationProfile {
        detect: DetectRules::default(),
        commands: ProfileCommands {
            fmt: vec!["ok".to_string()],
            lint: vec![lint.to_string()],
            typecheck: vec!["ok".to_string()],
            test: vec!["ok".to_string()],
        },
    }
}

fn requirement(id: &str, status: RequirementStatus) -> Requirement {
    Requirement {
        id: id.to_string(),
        title: format!("Title of {}", id),
        status,
        acceptance_criteria: vec!["It works".to_string()],
    }
}

fn prd_of(requirements: Vec<Requirement>) -> Prd {
    Prd {
        schema_version: "1.0".to_string(),
        slug: "feature".to_string(),
        title: "Feature".to_string(),
        active_run_id: "run-1".to_string(),
        validation_profiles: vec!["p".to_string()],
        requirements,
    }
}

fn config(max_iterations: u32) -> ImplementConfig {
    ImplementConfig {
        slug: "feature".to_string(),
        dry_run: false,
        verbose: false,
        loop_enabled: true,
        max_iterations,
    }
}

fn clock() -> Timestamp {
    Timestamp { secs: 1_768_824_000, nanos: 0 }
}

/// The outside of the controller: what is stored, and how the collaborators
/// behave.
struct World {
    profile: Option<ValidationProfile>,
    assistant: Vec<AssistantOutcome>,
    summary: Option<String>,
    fail_save: Option<usize>,
    fail_append: Option<usize>,
    saved: Vec<Prd>,
    stored: Vec<LedgerEvent>,
    prompts: Vec<String>,
    sweeps: Vec<bool>,
    requests: Vec<String>,
    dry: Vec<(SkippedStep, String, u32, bool)>,
    states: Vec<LoopState>,
}

fn world(profile: Option<ValidationProfile>, assistant: bool) -> World {
    World {
        profile,
        assistant: vec![if assistant { AssistantOutcome::Succeeded } else { AssistantOutcome::Failed }],
        summary: None,
        fail_save: None,
        fail_append: None,
        saved: vec![],
        stored: vec![],
        prompts: vec![],
        sweeps: vec![],
        requests: vec![],
        dry: vec![],
        states: vec![],
    }
}

fn perform(world: &mut World, controller: &LoopController, action: LoopAction) -> Option<LoopEvent> {
    Some(match action {
        LoopAction::Continue => LoopEvent::Ack,
        LoopAction::SaveDocument => {
            if world.fail_save == Some(world.saved.len()) {
                LoopEvent::StorageFailed
            } else {
                world.saved.push(controller.prd().clone());
                LoopEvent::Ack
            }
        }
        LoopAction::AppendEvent { event } => {
            if world.fail_append == Some(world.stored.len()) {
                LoopEvent::StorageFailed
            } else {
                world.stored.push(event);
                LoopEvent::Ack
            }
        }
        LoopAction::InvokeAssistant { prompt } => {
            let n = world.prompts.len();
            world.prompts.push(prompt);
            let outcome = world.assistant[n.min(world.assistant.len() - 1)];
            LoopEvent::AssistantFinished { outcome }
        }
        LoopAction::RunValidation { full_sweep } => {
            world.sweeps.push(full_sweep);
            LoopEvent::ValidationFinished {
                results: world.profile.as_ref().map(|p| p.run_all(".", full_sweep, &shell)),
            }
        }
        LoopAction::Summarize { request } => {
            world.requests.push(request);
            LoopEvent::SummaryReady { summary: world.summary.clone() }
        }
        LoopAction::WouldDo { step, requirement, iteration, full_sweep } => {
            world.dry.push((step, requirement, iteration, full_sweep));
            LoopEvent::Ack
        }
        LoopAction::Stop { .. } => return None,
    })
}

fn run(controller: &mut LoopController, world: &mut World) -> StopReason {
    let mut event = LoopEvent::Ack;
    for _ in 0..100_000 {
        world.states.push(controller.state());
        assert!(controller.is_consistent());
        let action = controller.step(event, clock());
        if let LoopAction::Stop { reason } = action {
            assert_eq!(controller.stop_reason(), Some(reason));
            assert_eq!(controller.state(), LoopState::Terminated(reason));
            return reason;
        }
        event = perform(world, controller, action).unwrap();
    }
    panic!("the loop did not end");
}

fn statuses(events: &[LedgerEvent]) -> Vec<(u32, EventStatus)> {
    events.iter().map(|e| (e.iteration, e.status)).collect()
}

#[test]
fn a_lint_that_always_fails_exhausts_the_cap() {
    let prd = prd_of(vec![requirement("R1", RequirementStatus::Todo)]);
    let mut controller = LoopController::new(config(3), prd, Ledger::new());
    let mut world = world(Some(profile("fail unused variable")), true);
    let reason = run(&mut controller, &mut world);

    assert_eq!(reason, StopReason::MaxIterationsReached);
    assert_eq!(
        statuses(&world.stored),
        vec![
            (1, EventStatus::Started),
            (1, EventStatus::Failed),
            (2, EventStatus::Started),
            (2, EventStatus::Failed),
            (3, EventStatus::Started),
            (3, EventStatus::Failed),
        ]
    );
    assert_eq!(controller.ledger().events(), world.stored.as_slice());
    assert_eq!(controller.prd().requirements[0].status, RequirementStatus::InProgress);
    assert_eq!(world.saved.last().unwrap().requirements[0].status, RequirementStatus::InProgress);
    assert_eq!(controller.attempts(), 3);
    assert_eq!(world.prompts.len(), 3);
    for e in &world.stored {
        assert_eq!(e.requirement, "R1");
        assert_eq!(e.timestamp, clock());
    }
    for e in world.stored.iter().filter(|e| e.status == EventStatus::Failed) {
        assert_eq!(e.validation_passed, Some(false));
        assert_eq!(e.message, Some("Stage: Lint\n\nunused variable".to_string()));
    }
    for e in world.stored.iter().filter(|e| e.status == EventStatus::Started) {
        assert_eq!(e.validation_passed, None);
        assert_eq!(e.message, None);
    }
}

#[test]
fn a_first_attempt_that_passes_completes_the_run() {
    let prd = prd_of(vec![requirement("R1", RequirementStatus::Todo)]);
    let mut controller = LoopController::new(config(10), prd, Ledger::new());
    let mut world = world(Some(profile("ok")), true);
    let reason = run(&mut controller, &mut world);

    assert_eq!(reason, StopReason::AllComplete);
    assert_eq!(
        statuses(&world.stored),
        vec![(1, EventStatus::Started), (1, EventStatus::Done)]
    );
    assert_eq!(world.stored[1].validation_passed, Some(true));
    assert_eq!(world.stored[1].message, None);
    assert_eq!(controller.prd().requirements[0].status, RequirementStatus::Done);
    assert_eq!(controller.ledger().events(), world.stored.as_slice());
    assert_eq!(world.saved.len(), 2);
    assert_eq!(world.saved[0].requirements[0].status, RequirementStatus::InProgress);
    assert_eq!(world.saved[1].requirements[0].status, RequirementStatus::Done);
    assert!(world.requests.is_empty());
    assert_eq!(
        world.prompts,
        vec![build_prompt("feature", &requirement("R1", RequirementStatus::Todo), 1, false, None)]
    );
}

#[test]
fn nothing_to_do_ends_with_all_complete() {
    let prd = prd_of(vec![
        requirement("R1", RequirementStatus::Done),
        requirement("R2", RequirementStatus::Done),
    ]);
    let mut controller = LoopController::new(config(10), prd.clone(), Ledger::new());
    let mut world = world(Some(profile("ok")), true);
    assert_eq!(run(&mut controller, &mut world), StopReason::AllComplete);
    assert!(world.stored.is_empty());
    assert!(world.saved.is_empty());
    assert!(world.prompts.is_empty());
    assert_eq!(controller.prd(), &prd);

    let blocked = prd_of(vec![requirement("R1", RequirementStatus::Blocked)]);
    let mut controller = LoopController::new(config(10), blocked.clone(), Ledger::new());
    assert_eq!(run(&mut controller, &mut world), StopReason::AllComplete);
    assert_eq!(controller.prd(), &blocked);
}

#[test]
fn requirements_are_worked_in_list_order_and_done_ones_are_skipped() {
    let prd = prd_of(vec![
        requirement("R1", RequirementStatus::Done),
        requirement("R2", RequirementStatus::Blocked),
        requirement("R3", RequirementStatus::InProgress),
        requirement("R4", RequirementStatus::Todo),
    ]);
    let mut controller = LoopController::new(config(10), prd, Ledger::new());
    let mut world = world(Some(profile("ok")), true);
    assert_eq!(run(&mut controller, &mut world), StopReason::AllComplete);
    let worked: Vec<(&str, u32, EventStatus)> =
        world.stored.iter().map(|e| (e.requirement.as_str(), e.iteration, e.status)).collect();
    assert_eq!(
        worked,
        vec![
            ("R3", 1, EventStatus::Started),
            ("R3", 1, EventStatus::Done),
            ("R4", 2, EventStatus::Started),
            ("R4", 2, EventStatus::Done),
        ]
    );
    let after: Vec<RequirementStatus> =
        controller.prd().requirements.iter().map(|r| r.status).collect();
    assert_eq!(
        after,
        vec![
            RequirementStatus::Done,
            RequirementStatus::Blocked,
            RequirementStatus::Done,
            RequirementStatus::Done
        ]
    );
}

#[test]
fn the_iteration_number_continues_from_the_ledger() {
    let mut ledger = Ledger::new();
    ledger.append(LedgerEvent::at(clock(), 3, "R1", EventStatus::Started)).unwrap();
    ledger
        .append(
            LedgerEvent::at(clock(), 3, "R1", EventStatus::Failed)
                .with_validation(false)
                .with_message("E0001 earlier"),
        )
        .unwrap();
    let prd = prd_of(vec![requirement("R1", RequirementStatus::InProgress)]);
    let mut controller = LoopController::new(config(10), prd, ledger);
    let mut world = world(Some(profile("ok")), true);
    assert_eq!(run(&mut controller, &mut world), StopReason::AllComplete);
    assert_eq!(statuses(&world.stored), vec![(4, EventStatus::Started), (4, EventStatus::Done)]);
    assert_eq!(controller.ledger().len(), 4);
    assert_eq!(controller.ledger().latest_iteration(), 4);
    assert_eq!(
        world.prompts,
        vec![build_prompt(
            "feature",
            &requirement("R1", RequirementStatus::InProgress),
            4,
            false,
            Some("E0001 earlier")
        )]
    );
}

#[test]
fn every_fifth_iteration_runs_the_full_sweep() {
    let prd = prd_of(vec![requirement("R1", RequirementStatus::Todo)]);
    let mut controller = LoopController::new(config(11), prd, Ledger::new());
    let mut world = world(Some(profile("fail x")), true);
    assert_eq!(run(&mut controller, &mut world), StopReason::MaxIterationsReached);
    assert_eq!(
        world.sweeps,
        vec![false, false, false, false, true, false, false, false, false, true, false]
    );
    assert!(world.prompts[4].contains("Validation: fmt -> lint -> typecheck -> test\n"));
    assert!(world.prompts[3].contains("Validation: fmt -> lint -> typecheck\n"));
    assert_eq!(controller.ledger().full_test_count(), 2);
}

#[test]
fn the_failure_is_fed_back_into_the_next_prompt() {
    let prd = prd_of(vec![requirement("R1", RequirementStatus::Todo)]);
    let mut controller = LoopController::new(config(2), prd, Ledger::new());
    let mut world = world(Some(profile("fail E0308 mismatched types")), true);
    world.summary = Some("  - fix the types\n".to_string());
    assert_eq!(run(&mut controller, &mut world), StopReason::MaxIterationsReached);
    assert_eq!(
        world.requests,
        vec![
            summary_request("Stage: Lint\n\nE0308 mismatched types"),
            summary_request("Stage: Lint\n\nE0308 mismatched types")
        ]
    );
    assert_eq!(world.stored[1].message, Some("- fix the types".to_string()));
    let in_progress = requirement("R1", RequirementStatus::InProgress);
    assert_eq!(
        world.prompts[0],
        build_prompt("feature", &requirement("R1", RequirementStatus::Todo), 1, false, None)
    );
    assert_eq!(
        world.prompts[1],
        build_prompt("feature", &in_progress, 2, false, Some("- fix the types"))
    );
    assert!(world.prompts[1].contains("PREVIOUS ITERATION FAILED VALIDATION:\n\n- fix the types\n\n"));
}

#[test]
fn an_assistant_failure_is_retried_up_to_the_cap() {
    let prd = prd_of(vec![requirement("R1", RequirementStatus::Todo)]);
    let mut controller = LoopController::new(config(2), prd, Ledger::new());
    let mut world = world(Some(profile("ok")), false);
    assert_eq!(run(&mut controller, &mut world), StopReason::MaxIterationsReached);
    assert_eq!(
        statuses(&world.stored),
        vec![
            (1, EventStatus::Started),
            (1, EventStatus::Failed),
            (2, EventStatus::Started),
            (2, EventStatus::Failed),
        ]
    );
    assert_eq!(world.stored[1].validation_passed, Some(true));
    assert_eq!(world.stored[1].message, None);
    assert_eq!(controller.prd().requirements[0].status, RequirementStatus::InProgress);
}

#[test]
fn a_retry_that_passes_goes_on_to_the_next_requirement() {
    let prd = prd_of(vec![
        requirement("R1", RequirementStatus::Todo),
        requirement("R2", RequirementStatus::Todo),
    ]);
    let mut controller = LoopController::new(config(5), prd, Ledger::new());
    let mut world = world(Some(profile("ok")), true);
    world.assistant = vec![
        AssistantOutcome::LaunchFailed,
        AssistantOutcome::Succeeded,
        AssistantOutcome::Succeeded,
    ];
    assert_eq!(run(&mut controller, &mut world), StopReason::AllComplete);
    let worked: Vec<(&str, u32, EventStatus)> =
        world.stored.iter().map(|e| (e.requirement.as_str(), e.iteration, e.status)).collect();
    assert_eq!(
        worked,
        vec![
            ("R1", 1, EventStatus::Started),
            ("R1", 1, EventStatus::Failed),
            ("R1", 2, EventStatus::Started),
            ("R1", 2, EventStatus::Done),
            ("R2", 3, EventStatus::Started),
            ("R2", 3, EventStatus::Done),
        ]
    );
    assert_eq!(controller.attempts(), 3);
}

#[test]
fn completed_requirements_do_not_stop_the_run_at_the_cap() {
    let prd = prd_of(vec![
        requirement("R1", RequirementStatus::Todo),
        requirement("R2", RequirementStatus::Todo),
        requirement("R3", RequirementStatus::Todo),
    ]);
    let mut controller = LoopController::new(config(1), prd, Ledger::new());
    let mut world = world(Some(profile("ok")), true);
    assert_eq!(run(&mut controller, &mut world), StopReason::AllComplete);
    assert_eq!(world.stored.len(), 6);

    let prd = prd_of(vec![
        requirement("R1", RequirementStatus::Todo),
        requirement("R2", RequirementStatus::Todo),
    ]);
    let mut controller = LoopController::new(config(1), prd, Ledger::new());
    let mut world = self::world(Some(profile("ok")), true);
    world.assistant = vec![AssistantOutcome::Succeeded, AssistantOutcome::Failed];
    assert_eq!(run(&mut controller, &mut world), StopReason::MaxIterationsReached);
    assert_eq!(world.stored.len(), 4);
    assert_eq!(controller.prd().requirements[0].status, RequirementStatus::Done);
    assert_eq!(controller.prd().requirements[1].status, RequirementStatus::InProgress);
}

#[test]
fn without_a_profile_validation_passes() {
    let prd = prd_of(vec![requirement("R1", RequirementStatus::Todo)]);
    let mut controller = LoopController::new(config(3), prd, Ledger::new());
    let mut world = world(None, true);
    assert_eq!(run(&mut controller, &mut world), StopReason::AllComplete);
    assert_eq!(statuses(&world.stored), vec![(1, EventStatus::Started), (1, EventStatus::Done)]);
    assert_eq!(world.stored[1].validation_passed, Some(true));
}

#[test]
fn a_cap_of_zero_allows_no_attempt() {
    let prd = prd_of(vec![requirement("R1", RequirementStatus::Todo)]);
    let mut controller = LoopController::new(config(0), prd.clone(), Ledger::new());
    let mut world = world(Some(profile("ok")), true);
    assert_eq!(run(&mut controller, &mut world), StopReason::MaxIterationsReached);
    assert!(world.stored.is_empty());
    assert!(world.saved.is_empty());
    assert_eq!(controller.prd(), &prd);
}

#[test]
fn a_single_iteration_run_makes_one_attempt() {
    let prd = prd_of(vec![
        requirement("R1", RequirementStatus::Todo),
        requirement("R2", RequirementStatus::Todo),
    ]);
    let mut cfg = config(0);
    cfg.loop_enabled = false;
    let mut controller = LoopController::new(cfg, prd, Ledger::new());
    let mut world = world(Some(profile("ok")), true);
    assert_eq!(run(&mut controller, &mut world), StopReason::SingleIteration);
    assert_eq!(statuses(&world.stored), vec![(1, EventStatus::Started), (1, EventStatus::Done)]);
    assert_eq!(controller.prd().requirements[0].status, RequirementStatus::Done);
    assert_eq!(controller.prd().requirements[1].status, RequirementStatus::Todo);
}

#[test]
fn a_dry_run_reports_and_changes_nothing() {
    let prd = prd_of(vec![
        requirement("R1", RequirementStatus::Done),
        requirement("R2", RequirementStatus::Todo),
    ]);
    let mut cfg = config(3);
    cfg.dry_run = true;
    let mut ledger = Ledger::new();
    ledger.append(LedgerEvent::at(clock(), 4, "R1", EventStatus::Done)).unwrap();
    let mut controller = LoopController::new(cfg, prd.clone(), ledger);
    let mut world = world(Some(profile("ok")), true);
    assert_eq!(run(&mut controller, &mut world), StopReason::MaxIterationsReached);
    let round = vec![
        (SkippedStep::Attempt, "R2".to_string(), 5, true),
        (SkippedStep::Validation, "R2".to_string(), 5, true),
        (SkippedStep::Recording, "R2".to_string(), 5, true),
    ];
    assert_eq!(world.dry, [round.clone(), round.clone(), round].concat());
    assert!(world.stored.is_empty());
    assert!(world.saved.is_empty());
    assert!(world.prompts.is_empty());
    assert!(world.sweeps.is_empty());
    assert_eq!(controller.prd(), &prd);
    assert_eq!(controller.ledger().len(), 1);
    assert_eq!(
        world.states[0..6],
        [
            LoopState::Selecting,
            LoopState::Attempting,
            LoopState::Validating,
            LoopState::Recording,
            LoopState::Deciding,
            LoopState::Selecting,
        ]
    );
    assert_eq!(controller.attempts(), 3);
}

#[test]
fn the_states_of_an_attempt_come_in_order() {
    let prd = prd_of(vec![requirement("R1", RequirementStatus::Todo)]);
    let mut controller = LoopController::new(config(1), prd, Ledger::new());
    let mut world = world(Some(profile("fail x")), true);
    assert_eq!(run(&mut controller, &mut world), StopReason::MaxIterationsReached);
    assert_eq!(
        world.states,
        vec![
            LoopState::Selecting,
            LoopState::Attempting,
            LoopState::Attempting,
            LoopState::Attempting,
            LoopState::Validating,
            LoopState::Recording,
            LoopState::Recording,
            LoopState::Recording,
            LoopState::Deciding,
        ]
    );
}

#[test]
fn the_requirement_is_in_progress_before_the_assistant_runs() {
    let prd = prd_of(vec![requirement("R1", RequirementStatus::Todo)]);
    let mut controller = LoopController::new(config(1), prd, Ledger::new());
    assert_eq!(controller.phase(), Phase::Selecting);
    let action = controller.step(LoopEvent::Ack, clock());
    assert_eq!(action, LoopAction::SaveDocument);
    assert_eq!(controller.phase(), Phase::MarkingInProgress);
    assert_eq!(controller.prd().requirements[0].status, RequirementStatus::InProgress);
    let action = controller.step(LoopEvent::Ack, clock());
    assert_eq!(
        action,
        LoopAction::AppendEvent { event: LedgerEvent::at(clock(), 1, "R1", EventStatus::Started) }
    );
    assert_eq!(controller.ledger().len(), 0);
    let action = controller.step(LoopEvent::Ack, clock());
    assert!(matches!(action, LoopAction::InvokeAssistant { .. }));
    assert_eq!(controller.ledger().len(), 1);
    let action = controller.step(LoopEvent::AssistantFinished { outcome: AssistantOutcome::Succeeded }, clock());
    assert_eq!(action, LoopAction::RunValidation { full_sweep: false });
    let results = vec![ValidationResult::success(ValidationStage::Fmt)];
    let action = controller.step(LoopEvent::ValidationFinished { results: Some(results) }, clock());
    assert_eq!(action, LoopAction::SaveDocument);
    assert_eq!(controller.prd().requirements[0].status, RequirementStatus::Done);
    let (prd, ledger) = controller.into_parts();
    assert_eq!(prd.requirements[0].status, RequirementStatus::Done);
    assert_eq!(ledger.len(), 1);
}

#[test]
fn a_failure_to_store_the_document_ends_the_run() {
    let prd = prd_of(vec![requirement("R1", RequirementStatus::Todo)]);
    let mut controller = LoopController::new(config(5), prd, Ledger::new());
    let mut world = world(Some(profile("ok")), true);
    world.fail_save = Some(0);
    assert_eq!(run(&mut controller, &mut world), StopReason::StorageFailure);
    assert!(world.stored.is_empty());
    assert!(world.prompts.is_empty());
    assert_eq!(controller.ledger().len(), 0);

    let prd = prd_of(vec![requirement("R1", RequirementStatus::Todo)]);
    let mut controller = LoopController::new(config(5), prd, Ledger::new());
    let mut world = self::world(Some(profile("ok")), true);
    world.fail_save = Some(1);
    assert_eq!(run(&mut controller, &mut world), StopReason::StorageFailure);
    assert_eq!(statuses(&world.stored), vec![(1, EventStatus::Started)]);
    assert_eq!(controller.ledger().len(), 1);
}

#[test]
fn an_event_that_cannot_be_stored_never_enters_the_ledger() {
    for failing in [0usize, 1] {
        let prd = prd_of(vec![requirement("R1", RequirementStatus::Todo)]);
        let mut controller = LoopController::new(config(5), prd, Ledger::new());
        let mut world = world(Some(profile("ok")), true);
        world.fail_append = Some(failing);
        assert_eq!(run(&mut controller, &mut world), StopReason::StorageFailure);
        assert_eq!(world.stored.len(), failing);
        assert_eq!(controller.ledger().events(), world.stored.as_slice());
        assert_eq!(world.prompts.len(), failing);
    }
}

#[test]
fn an_unexpected_report_ends_the_run() {
    let prd = prd_of(vec![requirement("R1", RequirementStatus::Todo)]);
    let mut controller = LoopController::new(config(5), prd.clone(), Ledger::new());
    let action = controller.step(LoopEvent::AssistantFinished { outcome: AssistantOutcome::Succeeded }, clock());
    assert_eq!(action, LoopAction::Stop { reason: StopReason::UnexpectedEvent });
    assert_eq!(controller.prd(), &prd);

    let mut controller = LoopController::new(config(5), prd, Ledger::new());
    controller.step(LoopEvent::Ack, clock());
    let action = controller.step(LoopEvent::SummaryReady { summary: None }, clock());
    assert_eq!(action, LoopAction::Stop { reason: StopReason::UnexpectedEvent });
}

#[test]
fn after_the_end_every_step_stops_again() {
    let prd = prd_of(vec![]);
    let mut controller = LoopController::new(config(5), prd, Ledger::new());
    assert_eq!(
        controller.step(LoopEvent::Ack, clock()),
        LoopAction::Stop { reason: StopReason::AllComplete }
    );
    for event in [
        LoopEvent::Ack,
        LoopEvent::StorageFailed,
        LoopEvent::AssistantFinished { outcome: AssistantOutcome::Succeeded },
        LoopEvent::ValidationFinished { results: None },
    ] {
        assert_eq!(
            controller.step(event, clock()),
            LoopAction::Stop { reason: StopReason::AllComplete }
        );
    }
    assert_eq!(controller.attempts(), 0);
    assert_eq!(controller.config().max_iterations, 5);
}

#[test]
fn a_ledger_at_the_largest_iteration_number_cannot_go_on() {
    let mut ledger = Ledger::new();
    ledger.append(LedgerEvent::at(clock(), u32::MAX, "R1", EventStatus::Failed)).unwrap();
    let prd = prd_of(vec![requirement("R1", RequirementStatus::Todo)]);
    let mut controller = LoopController::new(config(5), prd, ledger);
    assert_eq!(
        controller.step(LoopEvent::Ack, clock()),
        LoopAction::Stop { reason: StopReason::IterationOverflow }
    );
}

#[test]
fn phases_belong_to_states() {
    assert_eq!(Phase::Selecting.state(), LoopState::Selecting);
    assert_eq!(Phase::MarkingInProgress.state(), LoopState::Attempting);
    assert_eq!(Phase::LoggingStart.state(), LoopState::Attempting);
    assert_eq!(Phase::InvokingAssistant.state(), LoopState::Attempting);
    assert_eq!(Phase::DryAttempt.state(), LoopState::Attempting);
    assert_eq!(Phase::DryValidation.state(), LoopState::Validating);
    assert_eq!(Phase::DryRecording.state(), LoopState::Recording);
    assert_eq!(Phase::Validating.state(), LoopState::Validating);
    assert_eq!(Phase::SavingStatus.state(), LoopState::Recording);
    assert_eq!(Phase::Summarizing.state(), LoopState::Recording);
    assert_eq!(Phase::LoggingOutcome.state(), LoopState::Recording);
    assert_eq!(Phase::Deciding.state(), LoopState::Deciding);
    assert_eq!(
        Phase::Terminated(StopReason::AllComplete).state(),
        LoopState::Terminated(StopReason::AllComplete)
    );
}

#[test]
fn only_a_reported_success_counts_as_success() {
    assert!(AssistantOutcome::Succeeded.is_success());
    assert!(!AssistantOutcome::Failed.is_success());
    assert!(!AssistantOutcome::LaunchFailed.is_success());
}
