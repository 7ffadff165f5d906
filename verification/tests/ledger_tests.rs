use ralph_lib::avro::{event_row, AvroField};
use ralph_lib::error::RalphError;
use ralph_lib::ledger::{EventStatus, Ledger, LedgerEvent, Timestamp};

fn sample_event() -> LedgerEvent {
    LedgerEvent::new(1, "REQ-01", EventStatus::Started)
}

fn stamp() -> Timestamp {
    Timestamp { secs: 1_768_824_000, nanos: 0 }
}

fn event(iteration: u32, requirement: &str, status: EventStatus) -> LedgerEvent {
    LedgerEvent::at(stamp(), iteration, requirement, status)
}

/// Reads a line of the form `<iteration> <requirement> <status>`.
fn parse_line(line: &String) -> Result<LedgerEvent, String> {
    let parts: Vec<&str> = line.split_whitespace().collect();
    if parts.len() != 3 {
        return Err(format!("expected 3 fields, found {}", parts.len()));
    }
    let iteration: u32 = parts[0].parse().map_err(|_| "bad iteration".to_string())?;
    let status = match parts[2] {
        "started" => EventStatus::Started,
        "in_progress" => EventStatus::InProgress,
        "done" => EventStatus::Done,
        "failed" => EventStatus::Failed,
        other => return Err(format!("unknown status {}", other)),
    };
    Ok(event(iteration, parts[1], status))
}

#[test]
fn test_event_creation() {
    let event = sample_event();
    assert_eq!(event.iteration, 1);
    assert_eq!(event.requirement, "REQ-01");
    assert_eq!(event.status, EventStatus::Started);
    assert!(event.validation_passed.is_none());
}

#[test]
fn test_event_with_validation() {
    let event = sample_event().with_validation(true);
    assert_eq!(event.validation_passed, Some(true));
}

#[test]
fn test_event_with_message() {
    let event = sample_event().with_message("Test message");
    assert_eq!(event.message, Some("Test message".to_string()));
}

#[test]
fn test_ledger_append_inmemory() {
    let mut ledger = Ledger::new();
    ledger.append(sample_event()).unwrap();
    assert_eq!(ledger.events().len(), 1);
}

#[test]
fn test_ledger_file_roundtrip() {
    // The lines stand in for the file.
    let file = std::cell::RefCell::new(Vec::new());
    let write_line = |e: &LedgerEvent| {
        let status = match e.status {
            EventStatus::Started => "started",
            EventStatus::InProgress => "in_progress",
            EventStatus::Done => "done",
            EventStatus::Failed => "failed",
        };
        file.borrow_mut().push(format!("{} {} {}", e.iteration, e.requirement, status));
        Ok(())
    };

    // Create and append
    {
        let mut ledger = Ledger::new();
        ledger.append_with(sample_event(), &write_line).unwrap();
        ledger
            .append_with(LedgerEvent::new(2, "REQ-02", EventStatus::Done), &write_line)
            .unwrap();
    }

    // Reload and verify
    let ledger = Ledger::from_lines(&file.borrow(), &parse_line).unwrap();
    assert_eq!(ledger.events().len(), 2);
    assert_eq!(ledger.events()[0].requirement, "REQ-01");
    assert_eq!(ledger.events()[1].requirement, "REQ-02");
}

#[test]
fn test_ledger_latest_iteration() {
    let mut ledger = Ledger::new();
    assert_eq!(ledger.latest_iteration(), 0);

    ledger.append(sample_event()).unwrap();
    assert_eq!(ledger.latest_iteration(), 1);

    ledger
        .append(LedgerEvent::new(5, "REQ-01", EventStatus::Done))
        .unwrap();
    assert_eq!(ledger.latest_iteration(), 5);
}

#[test]
fn test_events_for_requirement() {
    let mut ledger = Ledger::new();
    ledger.append(sample_event()).unwrap();
    ledger
        .append(LedgerEvent::new(2, "REQ-02", EventStatus::Started))
        .unwrap();
    ledger
        .append(LedgerEvent::new(3, "REQ-01", EventStatus::Done))
        .unwrap();

    let req1_events = ledger.events_for_requirement("REQ-01");
    assert_eq!(req1_events.len(), 2);
}

#[test]
fn test_is_requirement_failed() {
    let mut ledger = Ledger::new();
    ledger.append(sample_event()).unwrap();
    assert!(!ledger.is_requirement_failed("REQ-01"));

    ledger
        .append(LedgerEvent::new(2, "REQ-01", EventStatus::Failed))
        .unwrap();
    assert!(ledger.is_requirement_failed("REQ-01"));
}

#[test]
fn test_avro_serialization() {
    let mut ledger = Ledger::new();
    ledger.append(sample_event()).unwrap();
    ledger
        .append(
            LedgerEvent::new(2, "REQ-01", EventStatus::Done)
                .with_validation(true)
                .with_message("Completed successfully"),
        )
        .unwrap();

    let avro_data = ledger.to_avro().unwrap();
    assert!(!avro_data.is_empty());
    // AVRO data should have the magic bytes and schema
    assert!(avro_data.len() > 10);
}

#[test]
fn avro_file_starts_with_magic_and_holds_the_fields() {
    let mut ledger = Ledger::new();
    ledger
        .append(event(7, "REQ-42", EventStatus::Failed).with_validation(false).with_message("lint broke"))
        .unwrap();
    let data = ledger.to_avro().unwrap();
    assert_eq!(&data[0..4], &[b'O', b'b', b'j', 1u8]);
    let text = String::from_utf8_lossy(&data).to_string();
    assert!(text.contains("REQ-42"));
    assert!(text.contains("failed"));
    assert!(text.contains("lint broke"));
    assert!(text.contains("2026-01-19T12:00:00+00:00"));
}

#[test]
fn avro_export_of_an_empty_ledger_succeeds() {
    let data = Ledger::new().to_avro().unwrap();
    assert_eq!(&data[0..4], &[b'O', b'b', b'j', 1u8]);
}

#[test]
fn avro_export_fails_on_a_time_out_of_range() {
    let mut ledger = Ledger::new();
    ledger
        .append(LedgerEvent::at(
            Timestamp { secs: i64::MAX, nanos: 0 },
            1,
            "REQ-01",
            EventStatus::Started,
        ))
        .unwrap();
    match ledger.to_avro() {
        Err(RalphError::Ledger(text)) => {
            assert_eq!(text, "Failed to write AVRO record: time stamp out of range")
        }
        other => panic!("unexpected result: {:?}", other),
    }
}

#[test]
fn event_row_names_the_six_fields_in_order() {
    let e = event(3, "REQ-02", EventStatus::InProgress).with_validation(true);
    let row = event_row(&e, "2026-01-19T12:00:00+00:00".to_string());
    assert_eq!(
        row,
        vec![
            (
                "timestamp".to_string(),
                AvroField::Text("2026-01-19T12:00:00+00:00".to_string())
            ),
            ("iteration".to_string(), AvroField::Long(3)),
            ("requirement".to_string(), AvroField::Text("REQ-02".to_string())),
            ("status".to_string(), AvroField::Text("in_progress".to_string())),
            ("validationPassed".to_string(), AvroField::OptionalBool(Some(true))),
            ("message".to_string(), AvroField::OptionalText(None)),
        ]
    );
}

#[test]
fn timestamp_is_written_by_pattern() {
    let t = Timestamp { secs: 1_768_824_000, nanos: 0 };
    assert_eq!(t.format("%Y%m%d-%H%M%S"), Some("20260119-120000".to_string()));
    assert_eq!(t.format("%Y-%m-%d %H:%M"), Some("2026-01-19 12:00".to_string()));
    assert_eq!(Timestamp { secs: 0, nanos: 0 }.format("%Y"), Some("1970".to_string()));
}

#[test]
fn timestamp_out_of_range_or_bad_pattern_gives_none() {
    assert_eq!(Timestamp { secs: i64::MAX, nanos: 0 }.format("%Y"), None);
    assert_eq!(Timestamp { secs: 0, nanos: 0 }.format("%Q"), None);
    assert_eq!(Timestamp { secs: i64::MAX, nanos: 0 }.to_rfc3339(), None);
}

#[test]
fn timestamp_as_rfc3339() {
    let t = Timestamp { secs: 1_768_824_000, nanos: 500_000_000 };
    assert_eq!(t.to_rfc3339(), Some("2026-01-19T12:00:00.500+00:00".to_string()));
}

#[test]
fn now_is_after_2020() {
    assert!(Timestamp::now().secs > 1_577_836_800);
    assert!(sample_event().timestamp.secs > 1_577_836_800);
}

#[test]
fn event_at_sets_every_field() {
    let e = event(4, "REQ-09", EventStatus::Failed);
    assert_eq!(
        e,
        LedgerEvent {
            timestamp: stamp(),
            iteration: 4,
            requirement: "REQ-09".to_string(),
            status: EventStatus::Failed,
            validation_passed: None,
            message: None,
        }
    );
    let e = e.with_validation(false).with_validation_output("boom".to_string());
    assert_eq!(e.validation_passed, Some(false));
    assert_eq!(e.message, Some("boom".to_string()));
    assert_eq!(e.iteration, 4);
    assert_eq!(e.duplicate(), e);
}

#[test]
fn latest_iteration_is_the_maximum_not_the_last() {
    let mut ledger = Ledger::new();
    ledger.append(event(3, "A", EventStatus::Started)).unwrap();
    ledger.append(event(9, "B", EventStatus::Started)).unwrap();
    ledger.append(event(4, "A", EventStatus::Done)).unwrap();
    assert_eq!(ledger.latest_iteration(), 9);
    assert_eq!(ledger.len(), 3);
}

#[test]
fn events_for_requirement_keeps_the_order() {
    let mut ledger = Ledger::new();
    ledger.append(event(1, "A", EventStatus::Started)).unwrap();
    ledger.append(event(2, "B", EventStatus::Started)).unwrap();
    ledger.append(event(3, "A", EventStatus::Failed)).unwrap();
    ledger.append(event(4, "A", EventStatus::Done)).unwrap();
    let found = ledger.events_for_requirement("A");
    let iterations: Vec<u32> = found.iter().map(|e| e.iteration).collect();
    assert_eq!(iterations, vec![1, 3, 4]);
    assert!(ledger.events_for_requirement("C").is_empty());
    assert!(ledger.events_for_requirement("").is_empty());
}

#[test]
fn a_done_event_after_a_failure_clears_it() {
    let mut ledger = Ledger::new();
    assert!(!ledger.is_requirement_failed("A"));
    ledger.append(event(1, "A", EventStatus::Failed)).unwrap();
    ledger.append(event(2, "B", EventStatus::Started)).unwrap();
    assert!(ledger.is_requirement_failed("A"));
    assert!(!ledger.is_requirement_failed("B"));
    ledger.append(event(3, "A", EventStatus::Done)).unwrap();
    assert!(!ledger.is_requirement_failed("A"));
    ledger.append(event(4, "B", EventStatus::Failed)).unwrap();
    assert!(!ledger.is_requirement_failed("A"));
    assert!(ledger.is_requirement_failed("B"));
}

#[test]
fn last_validation_failure_is_the_message_of_a_last_failed_event() {
    let mut ledger = Ledger::new();
    assert_eq!(ledger.get_last_validation_failure("A"), None);
    ledger
        .append(event(1, "A", EventStatus::Failed).with_validation(false).with_message("first"))
        .unwrap();
    assert_eq!(ledger.get_last_validation_failure("A"), Some("first".to_string()));
    ledger.append(event(2, "A", EventStatus::Started)).unwrap();
    assert_eq!(ledger.get_last_validation_failure("A"), None);
    ledger
        .append(event(2, "A", EventStatus::Failed).with_validation(false).with_message("second"))
        .unwrap();
    assert_eq!(ledger.get_last_validation_failure("A"), Some("second".to_string()));
    assert_eq!(ledger.get_last_validation_failure("B"), None);
    ledger.append(event(3, "A", EventStatus::Failed)).unwrap();
    assert_eq!(ledger.get_last_validation_failure("A"), None);
    ledger.append(event(4, "A", EventStatus::Done).with_message("fine")).unwrap();
    assert_eq!(ledger.get_last_validation_failure("A"), None);
}

#[test]
fn full_test_count_counts_validated_events_of_every_fifth_iteration() {
    let mut ledger = Ledger::new();
    ledger.append(event(5, "A", EventStatus::Started)).unwrap();
    ledger.append(event(5, "A", EventStatus::Done).with_validation(true)).unwrap();
    ledger.append(event(6, "B", EventStatus::Failed).with_validation(false)).unwrap();
    ledger.append(event(10, "B", EventStatus::Failed).with_validation(false)).unwrap();
    ledger.append(event(0, "C", EventStatus::Done).with_validation(true)).unwrap();
    assert_eq!(ledger.full_test_count(), 3);
    assert_eq!(Ledger::new().full_test_count(), 0);
}

#[test]
fn append_with_stores_before_it_adds() {
    let mut ledger = Ledger::new();
    let stored = std::cell::RefCell::new(Vec::new());
    let r = ledger.append_with(event(1, "A", EventStatus::Started), |e: &LedgerEvent| {
        stored.borrow_mut().push(e.duplicate());
        Ok(())
    });
    assert!(r.is_ok());
    assert_eq!(ledger.len(), 1);
    assert_eq!(stored.borrow().len(), 1);
    assert_eq!(stored.borrow()[0], ledger.events()[0]);
}

#[test]
fn append_with_leaves_the_ledger_alone_when_storing_fails() {
    let mut ledger = Ledger::new();
    ledger.append(event(1, "A", EventStatus::Started)).unwrap();
    let r = ledger.append_with(event(2, "A", EventStatus::Done), |_e: &LedgerEvent| {
        Err(RalphError::Io("disk full".to_string()))
    });
    assert_eq!(r, Err(RalphError::Io("disk full".to_string())));
    assert_eq!(ledger.len(), 1);
    assert_eq!(ledger.latest_iteration(), 1);
}

#[test]
fn from_lines_reads_events_in_order_and_skips_blank_lines() {
    let lines = vec![
        "1 REQ-01 started".to_string(),
        "".to_string(),
        "   \t".to_string(),
        "1 REQ-01 failed".to_string(),
        "2 REQ-01 done".to_string(),
    ];
    let ledger = Ledger::from_lines(&lines, &parse_line).unwrap();
    assert_eq!(ledger.len(), 3);
    assert_eq!(ledger.events()[0], event(1, "REQ-01", EventStatus::Started));
    assert_eq!(ledger.events()[1], event(1, "REQ-01", EventStatus::Failed));
    assert_eq!(ledger.events()[2], event(2, "REQ-01", EventStatus::Done));
    assert_eq!(ledger.latest_iteration(), 2);
}

#[test]
fn from_lines_of_nothing_is_an_empty_ledger() {
    let ledger = Ledger::from_lines(&Vec::new(), &parse_line).unwrap();
    assert_eq!(ledger.len(), 0);
    let ledger = Ledger::from_lines(&vec![" ".to_string(), String::new()], &parse_line).unwrap();
    assert_eq!(ledger.len(), 0);
}

#[test]
fn from_lines_names_the_malformed_line() {
    let lines = vec![
        "1 REQ-01 started".to_string(),
        "".to_string(),
        "oops".to_string(),
        "also bad".to_string(),
    ];
    match Ledger::from_lines(&lines, &parse_line) {
        Err(RalphError::Ledger(text)) => {
            assert_eq!(text, "Failed to parse line 3: expected 3 fields, found 1")
        }
        other => panic!("unexpected result: {:?}", other),
    }
}

#[test]
fn from_lines_stops_reading_at_the_malformed_line() {
    let calls = std::cell::RefCell::new(0u32);
    let counting = |line: &String| {
        *calls.borrow_mut() += 1;
        parse_line(line)
    };
    let lines = vec![
        "1 A started".to_string(),
        "1 A broken".to_string(),
        "2 A started".to_string(),
    ];
    let r = Ledger::from_lines(&lines, &counting);
    assert_eq!(
        r.err(),
        Some(RalphError::Ledger("Failed to parse line 2: unknown status broken".to_string()))
    );
    assert_eq!(*calls.borrow(), 2);
}

#[test]
fn appended_events_come_back_when_the_lines_are_read_again() {
    let events = vec![
        event(1, "A", EventStatus::Started),
        event(1, "A", EventStatus::Failed),
        event(2, "A", EventStatus::Started),
        event(2, "A", EventStatus::Done),
    ];
    let mut ledger = Ledger::new();
    let lines = std::cell::RefCell::new(Vec::new());
    for e in &events {
        ledger
            .append_with(e.duplicate(), |e: &LedgerEvent| {
                let status = match e.status {
                    EventStatus::Started => "started",
                    EventStatus::InProgress => "in_progress",
                    EventStatus::Done => "done",
                    EventStatus::Failed => "failed",
                };
                lines.borrow_mut().push(format!("{} {} {}", e.iteration, e.requirement, status));
                Ok(())
            })
            .unwrap();
    }
    let reloaded = Ledger::from_lines(&lines.borrow(), &parse_line).unwrap();
    assert_eq!(reloaded.events(), ledger.events());
    assert_eq!(reloaded.events(), events.as_slice());
}

#[test]
fn error_message_has_the_prefix_of_its_kind() {
    assert_eq!(RalphError::Io("x".to_string()).message(), "I/O error: x");
    assert_eq!(RalphError::Json("x".to_string()).message(), "JSON error: x");
    assert_eq!(
        RalphError::PrdValidation("x".to_string()).message(),
        "PRD validation error: x"
    );
    assert_eq!(RalphError::Ledger("x".to_string()).message(), "Ledger error: x");
    assert_eq!(
        RalphError::ValidationProfile("x".to_string()).message(),
        "Validation profile error: x"
    );
    assert_eq!(RalphError::Command("x".to_string()).message(), "Command failed: x");
    assert_eq!(RalphError::Git("x".to_string()).message(), "Git error: x");
    assert_eq!(RalphError::Copilot("".to_string()).message(), "Copilot error: ");
}

#[test]
fn a_ledger_from_events_holds_them_in_order() {
    let events = vec![event(2, "B", EventStatus::Started), event(1, "A", EventStatus::Done)];
    let ledger = Ledger::from_events(events.clone());
    assert_eq!(ledger.events(), events.as_slice());
    assert_eq!(ledger.latest_iteration(), 2);
    assert_eq!(Ledger::from_events(vec![]).len(), 0);
}
