use ralph_lib::validation::{
    active_profile, assess, CommandOutcome, DetectRules, ProfileCommands, ValidationConfig,
    ValidationProfile, ValidationResult, ValidationStage, Verdict,
};
use std::cell::RefCell;

/// Stands in for the shell: knows `echo '<text>'`, `exit <code>` and
/// `fail <text>` (writes the text to standard error and exits with 2);
/// anything else cannot be started.
fn shell(cmd: &String, _cwd: &str) -> CommandOutcome {
    if let Some(rest) = cmd.strip_prefix("echo '") {
        let text = rest.strip_suffix('\'').unwrap_or(rest);
        CommandOutcome::Exited {
            code: Some(0),
            stdout: format!("{}\n", text),
            stderr: String::new(),
        }
    } else if let Some(code) = cmd.strip_prefix("exit ") {
        CommandOutcome::Exited {
            code: Some(code.parse().unwrap()),
            stdout: String::new(),
            stderr: String::new(),
        }
    } else if let Some(text) = cmd.strip_prefix("fail ") {
        CommandOutcome::Exited {
            code: Some(2),
            stdout: "out:".to_string(),
            stderr: text.to_string(),
        }
    } else {
        CommandOutcome::LaunchFailed { error: format!("sh: {}: not found", cmd) }
    }
}

#[test]
fn test_run_stage_success() {
    let profile = ValidationProfile {
        detect: DetectRules::default(),
        commands: ProfileCommands {
            fmt: vec!["echo 'ok'".to_string()],
            ..Default::default()
        },
    };

    let result = profile.run_stage(ValidationStage::Fmt, ".", &shell);
    assert!(result.success);
    assert_eq!(result.exit_code, Some(0));
}

#[test]
fn test_run_stage_failure() {
    let profile = ValidationProfile {
        detect: DetectRules::default(),
        commands: ProfileCommands {
            fmt: vec!["exit 1".to_string()],
            ..Default::default()
        },
    };

    let result = profile.run_stage(ValidationStage::Fmt, ".", &shell);
    assert!(!result.success);
    assert_eq!(result.exit_code, Some(1));
}

#[test]
fn test_run_all_short_circuits() {
    let profile = ValidationProfile {
        detect: DetectRules::default(),
        commands: ProfileCommands {
            fmt: vec!["echo 'fmt ok'".to_string()],
            lint: vec!["exit 1".to_string()],
            typecheck: vec!["echo 'should not run'".to_string()],
            test: vec!["echo 'should not run'".to_string()],
        },
    };

    let results = profile.run_all(".", false, &shell);
    assert_eq!(results.len(), 2); // fmt + lint, then short-circuit
    assert!(results[0].success);
    assert!(!results[1].success);
}

#[test]
fn test_validation_stage_iterators() {
    assert_eq!(ValidationStage::all().len(), 4);
    assert_eq!(ValidationStage::short_circuit().len(), 3);
}

fn commands(fmt: &[&str], lint: &[&str], typecheck: &[&str], test: &[&str]) -> ValidationProfile {
    let own = |v: &[&str]| v.iter().map(|s| s.to_string()).collect::<Vec<String>>();
    ValidationProfile {
        detect: DetectRules::default(),
        commands: ProfileCommands {
            fmt: own(fmt),
            lint: own(lint),
            typecheck: own(typecheck),
            test: own(test),
        },
    }
}

fn marked(files: &[&str]) -> ValidationProfile {
    ValidationProfile {
        detect: DetectRules { any_files_exist: files.iter().map(|s| s.to_string()).collect() },
        commands: ProfileCommands::default(),
    }
}

/// Stands in for a directory that holds `Cargo.toml` and nothing else.
fn cargo_dir(_dir: &str, file: &String) -> bool {
    file == "Cargo.toml"
}

fn sample_config() -> ValidationConfig {
    ValidationConfig {
        schema_version: "1.0".to_string(),
        profiles: vec![
            ("rust-cargo".to_string(), marked(&["Cargo.toml"])),
            ("node-npm".to_string(), marked(&["package.json"])),
        ],
    }
}

#[test]
fn test_detect_rules_matches() {
    let rules = DetectRules {
        any_files_exist: vec!["Cargo.toml".to_string()],
    };
    assert!(rules.matches(".", &cargo_dir));

    let rules2 = DetectRules {
        any_files_exist: vec!["package.json".to_string()],
    };
    assert!(!rules2.matches(".", &cargo_dir));
}

#[test]
fn test_detect_profiles() {
    let config = sample_config();
    let detected = config.detect_profiles(".", &cargo_dir);
    assert_eq!(detected.len(), 1);
    assert!(detected.contains(&"rust-cargo"));
}

#[test]
fn detection_stops_at_the_first_file_that_is_there() {
    let asked = RefCell::new(Vec::new());
    let probe = |dir: &str, file: &String| {
        asked.borrow_mut().push(format!("{}/{}", dir, file));
        file == "b"
    };
    let rules = DetectRules {
        any_files_exist: vec!["a".to_string(), "b".to_string(), "c".to_string()],
    };
    assert!(rules.matches("dir", &probe));
    assert_eq!(*asked.borrow(), vec!["dir/a".to_string(), "dir/b".to_string()]);
    assert!(!DetectRules::default().matches("dir", &probe));
}

#[test]
fn detected_profiles_come_in_list_order() {
    let config = ValidationConfig {
        schema_version: "1.0".to_string(),
        profiles: vec![
            ("one".to_string(), marked(&["x", "Cargo.toml"])),
            ("two".to_string(), marked(&[])),
            ("three".to_string(), marked(&["Cargo.toml"])),
        ],
    };
    assert_eq!(config.detect_profiles(".", &cargo_dir), vec!["one", "three"]);
    let none = |_: &str, _: &String| false;
    assert!(config.detect_profiles(".", &none).is_empty());
}

#[test]
fn get_finds_a_profile_by_name() {
    let config = sample_config();
    assert_eq!(config.get("node-npm"), Some(&marked(&["package.json"])));
    assert_eq!(config.get("rust-cargo"), Some(&marked(&["Cargo.toml"])));
    assert_eq!(config.get("python"), None);
    assert_eq!(config.get(""), None);
}

#[test]
fn get_takes_the_first_of_two_profiles_with_one_name() {
    let config = ValidationConfig {
        schema_version: "1.0".to_string(),
        profiles: vec![("p".to_string(), marked(&["a"])), ("p".to_string(), marked(&["b"]))],
    };
    assert_eq!(config.get("p"), Some(&marked(&["a"])));
}

#[test]
fn active_profile_is_the_first_named_by_the_document() {
    let config = sample_config();
    let names = vec!["node-npm".to_string(), "rust-cargo".to_string()];
    assert_eq!(active_profile(&names, Some(&config)), Some(&marked(&["package.json"])));
    assert_eq!(active_profile(&names, None), None);
    assert_eq!(active_profile(&vec![], Some(&config)), None);
    assert_eq!(active_profile(&vec!["unknown".to_string()], Some(&config)), None);
}

#[test]
fn commands_for_stage_picks_the_stage() {
    let profile = commands(&["f"], &["l1", "l2"], &[], &["t"]);
    assert_eq!(profile.commands_for_stage(ValidationStage::Fmt), ["f".to_string()]);
    assert_eq!(
        profile.commands_for_stage(ValidationStage::Lint),
        ["l1".to_string(), "l2".to_string()]
    );
    assert!(profile.commands_for_stage(ValidationStage::Typecheck).is_empty());
    assert_eq!(profile.commands_for_stage(ValidationStage::Test), ["t".to_string()]);
}

#[test]
fn stage_lists_are_in_running_order() {
    assert_eq!(
        ValidationStage::all(),
        [
            ValidationStage::Fmt,
            ValidationStage::Lint,
            ValidationStage::Typecheck,
            ValidationStage::Test
        ]
    );
    assert_eq!(
        ValidationStage::short_circuit(),
        [ValidationStage::Fmt, ValidationStage::Lint, ValidationStage::Typecheck]
    );
    assert_eq!(ValidationStage::Typecheck.name(), "Typecheck");
    assert_eq!(ValidationStage::Fmt.name(), "Fmt");
    assert_eq!(ValidationStage::Lint.name(), "Lint");
    assert_eq!(ValidationStage::Test.name(), "Test");
}

#[test]
fn a_stage_without_commands_succeeds() {
    let profile = commands(&[], &[], &[], &[]);
    let result = profile.run_stage(ValidationStage::Lint, ".", &shell);
    assert_eq!(result.stage, ValidationStage::Lint);
    assert!(result.success);
    assert_eq!(result.output, "");
    assert_eq!(result.exit_code, Some(0));
}

#[test]
fn a_failing_command_gives_its_output_and_ends_the_stage() {
    let ran = RefCell::new(Vec::new());
    let runner = |cmd: &String, cwd: &str| {
        ran.borrow_mut().push(cmd.clone());
        shell(cmd, cwd)
    };
    let profile = commands(&["echo 'one'", "fail broken", "echo 'never'"], &[], &[], &[]);
    let result = profile.run_stage(ValidationStage::Fmt, ".", &runner);
    assert!(!result.success);
    assert_eq!(result.stage, ValidationStage::Fmt);
    assert_eq!(result.output, "out:broken");
    assert_eq!(result.exit_code, Some(2));
    assert_eq!(*ran.borrow(), vec!["echo 'one'".to_string(), "fail broken".to_string()]);
}

#[test]
fn a_command_that_cannot_start_fails_the_stage() {
    let profile = commands(&[], &[], &["no-such-tool --check"], &[]);
    let result = profile.run_stage(ValidationStage::Typecheck, ".", &shell);
    assert!(!result.success);
    assert_eq!(result.output, "sh: no-such-tool --check: not found");
    assert_eq!(result.exit_code, None);
}

#[test]
fn a_command_killed_by_a_signal_fails_the_stage() {
    let killed = |_: &String, _: &str| CommandOutcome::Exited {
        code: None,
        stdout: "partial".to_string(),
        stderr: " killed".to_string(),
    };
    let profile = commands(&["x"], &[], &[], &[]);
    let result = profile.run_stage(ValidationStage::Fmt, ".", &killed);
    assert!(!result.success);
    assert_eq!(result.output, "partial killed");
    assert_eq!(result.exit_code, None);
}

#[test]
fn the_runner_gets_the_directory() {
    let seen = RefCell::new(Vec::new());
    let runner = |cmd: &String, cwd: &str| {
        seen.borrow_mut().push(cwd.to_string());
        shell(cmd, cwd)
    };
    commands(&["echo 'a'"], &[], &[], &[]).run_stage(ValidationStage::Fmt, "/work/dir", &runner);
    assert_eq!(*seen.borrow(), vec!["/work/dir".to_string()]);
}

#[test]
fn outcome_success_is_exit_code_zero() {
    let exited = |code| CommandOutcome::Exited { code, stdout: String::new(), stderr: String::new() };
    assert!(exited(Some(0)).is_success());
    assert!(!exited(Some(1)).is_success());
    assert!(!exited(Some(-1)).is_success());
    assert!(!exited(None).is_success());
    assert!(!CommandOutcome::LaunchFailed { error: String::new() }.is_success());
}

#[test]
fn run_all_without_the_full_sweep_never_runs_test() {
    let profile = commands(&["echo 'f'"], &["echo 'l'"], &["echo 't'"], &["exit 3"]);
    let results = profile.run_all(".", false, &shell);
    let stages: Vec<ValidationStage> = results.iter().map(|r| r.stage).collect();
    assert_eq!(
        stages,
        vec![ValidationStage::Fmt, ValidationStage::Lint, ValidationStage::Typecheck]
    );
    assert!(results.iter().all(|r| r.success));
}

#[test]
fn run_all_with_the_full_sweep_runs_test_last() {
    let profile = commands(&["echo 'f'"], &["echo 'l'"], &["echo 't'"], &["exit 3"]);
    let results = profile.run_all(".", true, &shell);
    let stages: Vec<ValidationStage> = results.iter().map(|r| r.stage).collect();
    assert_eq!(stages, ValidationStage::all().to_vec());
    assert!(results[0].success && results[1].success && results[2].success);
    assert!(!results[3].success);
    assert_eq!(results[3].exit_code, Some(3));
}

#[test]
fn a_failing_lint_stage_ends_the_run_in_both_modes() {
    let ran = RefCell::new(Vec::new());
    let runner = |cmd: &String, cwd: &str| {
        ran.borrow_mut().push(cmd.clone());
        shell(cmd, cwd)
    };
    let profile = commands(&["echo 'f'"], &["exit 1"], &["echo 'ty'"], &["echo 'te'"]);
    for full in [false, true] {
        ran.borrow_mut().clear();
        let results = profile.run_all(".", full, &runner);
        let stages: Vec<ValidationStage> = results.iter().map(|r| r.stage).collect();
        assert_eq!(stages, vec![ValidationStage::Fmt, ValidationStage::Lint]);
        assert_eq!(*ran.borrow(), vec!["echo 'f'".to_string(), "exit 1".to_string()]);
    }
}

#[test]
fn a_failing_fmt_stage_is_the_only_result() {
    let profile = commands(&["exit 9"], &["echo 'l'"], &[], &[]);
    let results = profile.run_all(".", true, &shell);
    assert_eq!(results.len(), 1);
    assert_eq!(results[0].stage, ValidationStage::Fmt);
    assert_eq!(results[0].exit_code, Some(9));
}

#[test]
fn result_constructors() {
    let ok = ValidationResult::success(ValidationStage::Test);
    assert!(ok.success);
    assert_eq!(ok.stage, ValidationStage::Test);
    assert_eq!(ok.output, "");
    assert_eq!(ok.exit_code, Some(0));
    let failed = ValidationResult::failure(
        ValidationStage::Lint,
        &CommandOutcome::Exited {
            code: Some(101),
            stdout: "a".to_string(),
            stderr: "b".to_string(),
        },
    );
    assert!(!failed.success);
    assert_eq!(failed.stage, ValidationStage::Lint);
    assert_eq!(failed.output, "ab");
    assert_eq!(failed.exit_code, Some(101));
}

#[test]
fn verdict_reports_the_first_failed_stage() {
    let profile = commands(&["echo 'f'"], &["fail E0308"], &[], &[]);
    let results = profile.run_all(".", false, &shell);
    assert_eq!(
        assess(&results),
        Verdict { passed: false, failed_output: Some("Stage: Lint\n\nout:E0308".to_string()) }
    );
    let passing = commands(&[], &[], &[], &[]).run_all(".", true, &shell);
    assert_eq!(assess(&passing), Verdict { passed: true, failed_output: None });
    assert_eq!(assess(&vec![]), Verdict { passed: true, failed_output: None });
    let two = vec![
        ValidationResult {
            stage: ValidationStage::Typecheck,
            success: false,
            output: String::new(),
            exit_code: None,
        },
        ValidationResult {
            stage: ValidationStage::Test,
            success: false,
            output: "later".to_string(),
            exit_code: Some(1),
        },
    ];
    assert_eq!(
        assess(&two),
        Verdict { passed: false, failed_output: Some("Stage: Typecheck\n\n".to_string()) }
    );
}

#[test]
fn a_configuration_is_well_formed_if_names_are_unique() {
    assert!(sample_config().is_well_formed());
    let empty = ValidationConfig { schema_version: "1.0".to_string(), profiles: vec![] };
    assert!(empty.is_well_formed());
    let twice = ValidationConfig {
        schema_version: "1.0".to_string(),
        profiles: vec![
            ("p".to_string(), marked(&["a"])),
            ("q".to_string(), marked(&["a"])),
            ("p".to_string(), marked(&["b"])),
        ],
    };
    assert!(!twice.is_well_formed());
}

#[test]
fn insert_puts_a_profile_under_its_name() {
    let mut config = ValidationConfig::new("1.0".to_string());
    assert_eq!(config.schema_version, "1.0");
    assert!(config.profiles.is_empty());
    assert!(config.is_well_formed());
    assert_eq!(config.position("a"), None);

    assert!(!config.insert("a".to_string(), marked(&["x"])));
    assert!(!config.insert("b".to_string(), marked(&["y"])));
    assert!(config.insert("a".to_string(), marked(&["z"])));
    assert_eq!(
        config.profiles,
        vec![("a".to_string(), marked(&["z"])), ("b".to_string(), marked(&["y"]))]
    );
    assert!(config.is_well_formed());
    assert_eq!(config.get("a"), Some(&marked(&["z"])));
    assert_eq!(config.get("b"), Some(&marked(&["y"])));
    assert_eq!(config.position("b"), Some(1));
    assert_eq!(config.schema_version, "1.0");
}
