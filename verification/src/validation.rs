//! The validation pipeline: profiles of shell commands grouped into stages
//! that run in a fixed order and stop at the first failure.
//!
//! The library starts no process and reads no directory. A caller hands in
//! the capability to run a command (or to look for a file) as a function, and
//! the contracts say what the pipeline makes of whatever that function gives.

use vstd::prelude::*;
use vstd::string::*;
use crate::text::{chars_of, push_str, str_eq, string_of};

verus! {

/// The rule that says whether a profile applies to a directory.
#[derive(Debug, Clone, Default, PartialEq, Eq)]
pub struct DetectRules {
    /// The profile applies if any of these files exists.
    pub any_files_exist: Vec<String>,
}

/// The commands of each validation stage, in the order in which they run.
#[derive(Debug, Clone, Default, PartialEq, Eq)]
pub struct ProfileCommands {
    /// Format check commands.
    pub fmt: Vec<String>,
    /// Lint commands.
    pub lint: Vec<String>,
    /// Type check commands.
    pub typecheck: Vec<String>,
    /// Test commands.
    pub test: Vec<String>,
}

/// The validation stages, in the order in which they run.
#[derive(Debug, Clone, Copy, PartialEq, Eq, Structural)]
pub enum ValidationStage {
    Fmt,
    Lint,
    Typecheck,
    Test,
}

/// What became of one command.
#[derive(Debug, Clone, PartialEq, Eq)]
pub enum CommandOutcome {
    /// The command ran and ended: its exit code, if it has one, and what it
    /// wrote to standard output and to standard error.
    Exited { code: Option<i32>, stdout: String, stderr: String },
    /// The command could not be started; `error` says why.
    LaunchFailed { error: String },
}

/// The result of running one stage.
#[derive(Debug, Clone)]
pub struct ValidationResult {
    /// The stage that was run.
    pub stage: ValidationStage,
    /// Whether every command of the stage succeeded.
    pub success: bool,
    /// What the failing command wrote; empty on success.
    pub output: String,
    /// The exit code, if there is one.
    pub exit_code: Option<i32>,
}

/// The mathematical value of a [`ValidationResult`].
pub struct ValidationResultView {
    pub stage: ValidationStage,
    pub success: bool,
    pub output: Seq<char>,
    pub exit_code: Option<i32>,
}

impl View for ValidationResult {
    type V = ValidationResultView;

    open spec fn view(&self) -> ValidationResultView {
        ValidationResultView {
            stage: self.stage,
            success: self.success,
            output: self.output@,
            exit_code: self.exit_code,
        }
    }
}

/// The views of a sequence of results.
pub open spec fn result_views(results: Seq<ValidationResult>) -> Seq<ValidationResultView> {
    Seq::new(results.len(), |i: int| results[i]@)
}

/// A validation profile: when it applies, and what it runs.
#[derive(Debug, Clone, PartialEq, Eq)]
pub struct ValidationProfile {
    /// The rule that says whether the profile applies.
    pub detect: DetectRules,
    /// The commands to run.
    pub commands: ProfileCommands,
}

/// All validation profiles, by name.
#[derive(Debug, Clone, PartialEq)]
pub struct ValidationConfig {
    /// Schema version.
    pub schema_version: String,
    /// The profiles with their names. A name stands for the first profile
    /// that carries it.
    pub profiles: Vec<(String, ValidationProfile)>,
}

/// All four stages, in running order.
pub open spec fn all_stages() -> Seq<ValidationStage> {
    seq![
        ValidationStage::Fmt,
        ValidationStage::Lint,
        ValidationStage::Typecheck,
        ValidationStage::Test,
    ]
}

/// The stages of a run without the full sweep: all but `Test`.
pub open spec fn short_circuit_stages() -> Seq<ValidationStage> {
    seq![ValidationStage::Fmt, ValidationStage::Lint, ValidationStage::Typecheck]
}

/// The stages that a run goes through: `Test` is part of it only in a full
/// sweep.
pub open spec fn planned_stages(include_tests: bool) -> Seq<ValidationStage> {
    if include_tests {
        all_stages()
    } else {
        short_circuit_stages()
    }
}

impl ValidationStage {
    /// All stages, in running order.
    pub fn all() -> (r: &'static [ValidationStage])
        ensures
            r@ == all_stages(),
    {
        let r: &'static [ValidationStage] = &[
            ValidationStage::Fmt,
            ValidationStage::Lint,
            ValidationStage::Typecheck,
            ValidationStage::Test,
        ];
        assert(r@ =~= all_stages());
        r
    }

    /// The stages of a run without the full sweep, in running order.
    pub fn short_circuit() -> (r: &'static [ValidationStage])
        ensures
            r@ == short_circuit_stages(),
    {
        let r: &'static [ValidationStage] = &[
            ValidationStage::Fmt,
            ValidationStage::Lint,
            ValidationStage::Typecheck,
        ];
        assert(r@ =~= short_circuit_stages());
        r
    }

    /// The name of the stage as it is written in reports.
    pub open spec fn label(self) -> Seq<char> {
        match self {
            ValidationStage::Fmt => "Fmt"@,
            ValidationStage::Lint => "Lint"@,
            ValidationStage::Typecheck => "Typecheck"@,
            ValidationStage::Test => "Test"@,
        }
    }

    /// The name of the stage as it is written in reports.
    pub fn name(self) -> (s: &'static str)
        ensures
            s@ == self.label(),
    {
        match self {
            ValidationStage::Fmt => "Fmt",
            ValidationStage::Lint => "Lint",
            ValidationStage::Typecheck => "Typecheck",
            ValidationStage::Test => "Test",
        }
    }
}

impl CommandOutcome {
    /// Whether the command ran and ended with exit code 0.
    pub open spec fn succeeded(self) -> bool {
        self matches CommandOutcome::Exited { code: Some(c), .. } && c == 0
    }

    /// Whether the command ran and ended with exit code 0.
    pub fn is_success(&self) -> (r: bool)
        ensures
            r == self.succeeded(),
    {
        match self {
            CommandOutcome::Exited { code: Some(c), .. } => *c == 0,
            _ => false,
        }
    }
}

/// The result of a stage whose commands all succeeded.
pub open spec fn success_result(stage: ValidationStage) -> ValidationResultView {
    ValidationResultView { stage, success: true, output: Seq::empty(), exit_code: Some(0i32) }
}

/// The result of a stage in which a command ended as `outcome` says, other
/// than with success: the output is what the command wrote to standard
/// output followed by what it wrote to standard error, or, where it could not
/// be started, the description of that error.
pub open spec fn failure_result(stage: ValidationStage, outcome: CommandOutcome) -> ValidationResultView {
    match outcome {
        CommandOutcome::Exited { code, stdout, stderr } => ValidationResultView {
            stage,
            success: false,
            output: stdout@ + stderr@,
            exit_code: code,
        },
        CommandOutcome::LaunchFailed { error } => ValidationResultView {
            stage,
            success: false,
            output: error@,
            exit_code: None,
        },
    }
}

/// The result of a stage, given the outcomes of the commands that were run
/// for it, in order: a failure made from the last outcome where that is not
/// a success, else a success.
pub open spec fn stage_outcome(stage: ValidationStage, outcomes: Seq<CommandOutcome>) -> ValidationResultView {
    if outcomes.len() > 0 && !outcomes.last().succeeded() {
        failure_result(stage, outcomes.last())
    } else {
        success_result(stage)
    }
}

/// `runner` can be called on each of `commands` in the directory `cwd`.
pub open spec fn can_run<F: Fn(&String, &str) -> CommandOutcome>(
    runner: &F,
    commands: Seq<String>,
    cwd: &str,
) -> bool {
    forall|i: int| 0 <= i < commands.len() ==> runner.requires((&#[trigger] commands[i], cwd))
}

/// `outcomes` is what running `commands` in order with `runner`, up to and
/// including the first that does not succeed, can give.
pub open spec fn is_run<F: Fn(&String, &str) -> CommandOutcome>(
    runner: &F,
    commands: Seq<String>,
    cwd: &str,
    outcomes: Seq<CommandOutcome>,
) -> bool {
    &&& outcomes.len() <= commands.len()
    &&& forall|i: int|
        0 <= i < outcomes.len() ==> runner.ensures((&commands[i], cwd), #[trigger] outcomes[i])
    &&& forall|i: int| 0 <= i < outcomes.len() - 1 ==> (#[trigger] outcomes[i]).succeeded()
    &&& outcomes.len() < commands.len() ==> outcomes.len() > 0 && !outcomes.last().succeeded()
}

/// `result` is what running `commands` as the stage `stage` with `runner`
/// can give.
pub open spec fn is_stage_result<F: Fn(&String, &str) -> CommandOutcome>(
    runner: &F,
    commands: Seq<String>,
    stage: ValidationStage,
    cwd: &str,
    result: ValidationResultView,
) -> bool {
    exists|outcomes: Seq<CommandOutcome>|
        is_run(runner, commands, cwd, outcomes) && result == stage_outcome(stage, outcomes)
}

impl ValidationResult {
    /// The result of a stage whose commands all succeeded.
    pub fn success(stage: ValidationStage) -> (r: Self)
        ensures
            r@ == success_result(stage),
    {
        ValidationResult { stage, success: true, output: String::new(), exit_code: Some(0) }
    }

    /// The result of a stage in which a command ended as `outcome` says.
    pub fn failure(stage: ValidationStage, outcome: &CommandOutcome) -> (r: Self)
        ensures
            r@ == failure_result(stage, *outcome),
    {
        match outcome {
            CommandOutcome::Exited { code, stdout, stderr } => {
                let mut out: Vec<char> = chars_of(stdout.as_str());
                push_str(&mut out, stderr.as_str());
                ValidationResult { stage, success: false, output: string_of(&out), exit_code: *code }
            },
            CommandOutcome::LaunchFailed { error } => ValidationResult {
                stage,
                success: false,
                output: error.clone(),
                exit_code: None,
            },
        }
    }
}

impl ProfileCommands {
    /// The commands of the stage `stage`.
    pub open spec fn of_stage(self, stage: ValidationStage) -> Seq<String> {
        match stage {
            ValidationStage::Fmt => self.fmt@,
            ValidationStage::Lint => self.lint@,
            ValidationStage::Typecheck => self.typecheck@,
            ValidationStage::Test => self.test@,
        }
    }
}

impl ValidationProfile {
    /// The commands of the stage `stage`, in running order.
    pub fn commands_for_stage(&self, stage: ValidationStage) -> (r: &[String])
        ensures
            r@ == self.commands.of_stage(stage),
    {
        match stage {
            ValidationStage::Fmt => self.commands.fmt.as_slice(),
            ValidationStage::Lint => self.commands.lint.as_slice(),
            ValidationStage::Typecheck => self.commands.typecheck.as_slice(),
            ValidationStage::Test => self.commands.test.as_slice(),
        }
    }

    /// Runs the commands of one stage in order, each with `runner` in the
    /// directory `cwd`, and stops at the first that does not succeed. The
    /// stage succeeds if every command ends with exit code 0; otherwise the
    /// result carries what the failing command wrote, or why it could not be
    /// started, and no later command is run.
    pub fn run_stage<F: Fn(&String, &str) -> CommandOutcome>(
        &self,
        stage: ValidationStage,
        cwd: &str,
        runner: &F,
    ) -> (r: ValidationResult)
        requires
            can_run(runner, self.commands.of_stage(stage), cwd),
        ensures
            r@.stage == stage,
            is_stage_result(runner, self.commands.of_stage(stage), stage, cwd, r@),
            self.commands.of_stage(stage).len() == 0 ==> r@ == success_result(stage),
            r@.success ==> r@ == success_result(stage),
    {
        let commands = self.commands_for_stage(stage);
        let ghost mut outcomes: Seq<CommandOutcome> = Seq::empty();
        let mut i: usize = 0;
        while i < commands.len()
            invariant
                i <= commands.len(),
                commands@ == self.commands.of_stage(stage),
                outcomes.len() == i,
                can_run(runner, commands@, cwd),
                forall|k: int|
                    0 <= k < i ==> runner.ensures((&commands@[k], cwd), #[trigger] outcomes[k]),
                forall|k: int| 0 <= k < i ==> (#[trigger] outcomes[k]).succeeded(),
            decreases commands.len() - i,
        {
            let outcome = runner(&commands[i], cwd);
            proof {
                outcomes = outcomes.push(outcome);
            }
            if !outcome.is_success() {
                let r = ValidationResult::failure(stage, &outcome);
                assert(is_run(runner, commands@, cwd, outcomes));
                assert(r@ == stage_outcome(stage, outcomes));
                return r;
            }
            i += 1;
        }
        let r = ValidationResult::success(stage);
        assert(is_run(runner, commands@, cwd, outcomes));
        assert(r@ == stage_outcome(stage, outcomes));
        r
    }

    /// Runs the stages in their fixed order, `fmt`, `lint`, `typecheck`, and
    /// `test` only if `include_tests` says so, and stops at the first that
    /// fails. The results of the stages that were run come back in order;
    /// stages after a failing one are not run and have no result.
    pub fn run_all<F: Fn(&String, &str) -> CommandOutcome>(
        &self,
        cwd: &str,
        include_tests: bool,
        runner: &F,
    ) -> (r: Vec<ValidationResult>)
        requires
            forall|k: int|
                0 <= k < planned_stages(include_tests).len() ==> can_run(
                    runner,
                    self.commands.of_stage(#[trigger] planned_stages(include_tests)[k]),
                    cwd,
                ),
        ensures
            1 <= r.len() <= planned_stages(include_tests).len(),
            forall|i: int|
                0 <= i < r.len() ==> {
                    &&& (#[trigger] r[i])@.stage == planned_stages(include_tests)[i]
                    &&& is_stage_result(
                        runner,
                        self.commands.of_stage(planned_stages(include_tests)[i]),
                        planned_stages(include_tests)[i],
                        cwd,
                        r[i]@,
                    )
                },
            forall|i: int| 0 <= i < r.len() - 1 ==> (#[trigger] r[i]).success,
            r.len() < planned_stages(include_tests).len() ==> !r[r.len() - 1].success,
            !include_tests ==> forall|i: int|
                0 <= i < r.len() ==> (#[trigger] r[i]).stage != ValidationStage::Test,
            forall|i: int, j: int|
                0 <= i < j < r.len() ==> (#[trigger] r[i]).success && r[i].stage != (
                #[trigger] r[j]).stage,
            forall|i: int, j: int|
                0 <= i < r.len() && 0 <= j < r.len() && (#[trigger] r[i]).stage
                    == ValidationStage::Lint && !r[i].success ==> (#[trigger] r[j]).stage
                    != ValidationStage::Typecheck && r[j].stage != ValidationStage::Test,
    {
        let stages = if include_tests {
            ValidationStage::all()
        } else {
            ValidationStage::short_circuit()
        };
        let mut results: Vec<ValidationResult> = Vec::new();
        let mut i: usize = 0;
        while i < stages.len()
            invariant
                i <= stages.len(),
                stages@ == planned_stages(include_tests),
                results.len() == i,
                forall|k: int|
                    0 <= k < stages.len() ==> can_run(
                        runner,
                        self.commands.of_stage(#[trigger] stages[k]),
                        cwd,
                    ),
                forall|k: int|
                    0 <= k < i ==> {
                        &&& (#[trigger] results[k])@.stage == stages[k]
                        &&& results[k].success
                        &&& is_stage_result(
                            runner,
                            self.commands.of_stage(stages[k]),
                            stages[k],
                            cwd,
                            results[k]@,
                        )
                    },
            decreases stages.len() - i,
        {
            let result = self.run_stage(stages[i], cwd, runner);
            let success = result.success;
            results.push(result);
            if !success {
                return results;
            }
            i += 1;
        }
        results
    }
}

/// `probe` can be asked about each of `files` in the directory `dir`.
pub open spec fn can_probe<F: Fn(&str, &String) -> bool>(probe: &F, files: Seq<String>, dir: &str) -> bool {
    forall|i: int| 0 <= i < files.len() ==> probe.requires((dir, &#[trigger] files[i]))
}

/// `answer` is what looking for the files of `files` in `dir` with `probe`,
/// in order and up to the first that is there, can give: `true` with a file
/// that `probe` found and none found before it, `false` with every file looked
/// for and none found.
pub open spec fn is_detection<F: Fn(&str, &String) -> bool>(
    probe: &F,
    files: Seq<String>,
    dir: &str,
    answer: bool,
) -> bool {
    if answer {
        exists|i: int|
            0 <= i < files.len() && probe.ensures((dir, &#[trigger] files[i]), true) && forall|
                j: int,
            |
                0 <= j < i ==> probe.ensures((dir, &#[trigger] files[j]), false)
    } else {
        forall|i: int| 0 <= i < files.len() ==> probe.ensures((dir, &#[trigger] files[i]), false)
    }
}

impl DetectRules {
    /// Whether the rule matches the directory `dir`: whether any of its
    /// marker files is there, as `probe` tells. A rule without marker files
    /// matches nothing.
    pub fn matches<F: Fn(&str, &String) -> bool>(&self, dir: &str, probe: &F) -> (r: bool)
        requires
            can_probe(probe, self.any_files_exist@, dir),
        ensures
            is_detection(probe, self.any_files_exist@, dir, r),
            self.any_files_exist@.len() == 0 ==> !r,
    {
        let mut i: usize = 0;
        while i < self.any_files_exist.len()
            invariant
                i <= self.any_files_exist.len(),
                can_probe(probe, self.any_files_exist@, dir),
                forall|j: int|
                    0 <= j < i ==> probe.ensures((dir, &#[trigger] self.any_files_exist@[j]), false),
            decreases self.any_files_exist.len() - i,
        {
            if probe(dir, &self.any_files_exist[i]) {
                assert(probe.ensures((dir, &self.any_files_exist@[i as int]), true));
                return true;
            }
            i += 1;
        }
        false
    }
}

/// The names of the profiles, in list order.
pub open spec fn profile_names(profiles: Seq<(String, ValidationProfile)>) -> Seq<Seq<char>> {
    Seq::new(profiles.len(), |i: int| profiles[i].0@)
}

/// The first index at or after `start` whose profile carries the name `name`.
pub open spec fn profile_from(names: Seq<Seq<char>>, name: Seq<char>, start: int) -> Option<int>
    decreases names.len() - start,
{
    if start < 0 || start >= names.len() {
        None
    } else if names[start] == name {
        Some(start)
    } else {
        profile_from(names, name, start + 1)
    }
}

/// The index of the first profile that carries the name `name`.
pub open spec fn profile_index(names: Seq<Seq<char>>, name: Seq<char>) -> Option<int> {
    profile_from(names, name, 0)
}

/// The entries of `names` whose flag in `hits` is set, in order.
pub open spec fn picked(names: Seq<Seq<char>>, hits: Seq<bool>) -> Seq<Seq<char>>
    decreases names.len(),
{
    if names.len() == 0 || hits.len() != names.len() {
        Seq::empty()
    } else if hits.last() {
        picked(names.drop_last(), hits.drop_last()).push(names.last())
    } else {
        picked(names.drop_last(), hits.drop_last())
    }
}

/// The views of a sequence of string slices.
pub open spec fn slice_texts(v: Seq<&str>) -> Seq<Seq<char>> {
    Seq::new(v.len(), |i: int| v[i]@)
}

/// `profile_from` finds a profile with the name and none stands before it;
/// `None` means that no profile from `start` on carries the name.
pub proof fn lemma_profile_from(names: Seq<Seq<char>>, name: Seq<char>, start: int)
    requires
        0 <= start,
    ensures
        match profile_from(names, name, start) {
            Some(i) => {
                &&& start <= i < names.len()
                &&& names[i] == name
                &&& forall|j: int| start <= j < i ==> names[j] != name
            },
            None => forall|j: int| start <= j < names.len() ==> names[j] != name,
        },
    decreases names.len() - start,
{
    if start < names.len() && names[start] != name {
        lemma_profile_from(names, name, start + 1);
    }
}

/// No two profiles carry the same name.
pub open spec fn unique_names(names: Seq<Seq<char>>) -> bool {
    forall|i: int, j: int| 0 <= i < j < names.len() ==> #[trigger] names[i] != #[trigger] names[j]
}

/// Where no two profiles carry the same name, a name stands for the one
/// profile that carries it.
pub proof fn lemma_unique_profile(names: Seq<Seq<char>>, index: int)
    requires
        unique_names(names),
        0 <= index < names.len(),
    ensures
        profile_index(names, names[index]) == Some(index),
{
    lemma_profile_from(names, names[index], 0);
}

impl ValidationConfig {
    /// Whether the configuration is well formed: no two profiles carry the
    /// same name.
    pub open spec fn well_formed(&self) -> bool {
        unique_names(profile_names(self.profiles@))
    }

    /// Whether the configuration is well formed.
    pub fn is_well_formed(&self) -> (r: bool)
        ensures
            r == self.well_formed(),
    {
        let ghost names = profile_names(self.profiles@);
        let mut j: usize = 0;
        while j < self.profiles.len()
            invariant
                j <= self.profiles.len(),
                names == profile_names(self.profiles@),
                forall|a: int, b: int| 0 <= a < b < j ==> #[trigger] names[a] != #[trigger] names[b],
            decreases self.profiles.len() - j,
        {
            let mut i: usize = 0;
            while i < j
                invariant
                    i <= j < self.profiles.len(),
                    names == profile_names(self.profiles@),
                    forall|a: int| 0 <= a < i ==> #[trigger] names[a] != names[j as int],
                decreases j - i,
            {
                if str_eq(self.profiles[i].0.as_str(), self.profiles[j].0.as_str()) {
                    assert(names[i as int] == names[j as int]);
                    return false;
                }
                i += 1;
            }
            j += 1;
        }
        true
    }

    /// A configuration without profiles.
    pub fn new(schema_version: String) -> (c: Self)
        ensures
            c.schema_version == schema_version,
            c.profiles@ == Seq::<(String, ValidationProfile)>::empty(),
            c.well_formed(),
    {
        ValidationConfig { schema_version, profiles: Vec::new() }
    }

    /// The place of the first profile with the name `name`.
    pub fn position(&self, name: &str) -> (r: Option<usize>)
        ensures
            match r {
                Some(i) => profile_index(profile_names(self.profiles@), name@) == Some(i as int)
                    && i < self.profiles.len(),
                None => profile_index(profile_names(self.profiles@), name@) is None,
            },
    {
        let mut i: usize = 0;
        while i < self.profiles.len()
            invariant
                i <= self.profiles.len(),
                profile_index(profile_names(self.profiles@), name@) == profile_from(
                    profile_names(self.profiles@),
                    name@,
                    i as int,
                ),
            decreases self.profiles.len() - i,
        {
            if str_eq(self.profiles[i].0.as_str(), name) {
                return Some(i);
            }
            i += 1;
        }
        None
    }

    /// Puts a profile under a name. Where the name stands for a profile
    /// already, that profile is replaced in its place and the result is
    /// `true`; else the profile is added at the end and the result is
    /// `false`. A well-formed configuration stays well formed, and the name
    /// then stands for the profile that was put.
    pub fn insert(&mut self, name: String, profile: ValidationProfile) -> (replaced: bool)
        ensures
            final(self).schema_version == old(self).schema_version,
            replaced == profile_index(profile_names(old(self).profiles@), name@).is_some(),
            match profile_index(profile_names(old(self).profiles@), name@) {
                Some(i) => final(self).profiles@ == old(self).profiles@.update(i, (name, profile)),
                None => final(self).profiles@ == old(self).profiles@.push((name, profile)),
            },
            profile_names(final(self).profiles@) == match profile_index(
                profile_names(old(self).profiles@),
                name@,
            ) {
                Some(i) => profile_names(old(self).profiles@),
                None => profile_names(old(self).profiles@).push(name@),
            },
            old(self).well_formed() ==> final(self).well_formed(),
            profile_index(profile_names(final(self).profiles@), name@) matches Some(i) && 0 <= i
                < final(self).profiles.len() && final(self).profiles[i] == (name, profile),
    {
        let ghost names = profile_names(self.profiles@);
        proof {
            lemma_profile_from(names, name@, 0);
        }
        match self.position(name.as_str()) {
            Some(i) => {
                self.profiles.set(i, (name, profile));
                assert(profile_names(self.profiles@) =~= names);
                true
            },
            None => {
                self.profiles.push((name, profile));
                assert(profile_names(self.profiles@) =~= names.push(name@));
                proof {
                    let after = names.push(name@);
                    lemma_profile_from(after, name@, 0);
                    assert(after[names.len() as int] == name@);
                    match profile_index(after, name@) {
                        Some(k) => {
                            if k < names.len() {
                                assert(after[k] == names[k]);
                            }
                        },
                        None => {},
                    }
                    assert forall|x: int, y: int| 0 <= x < y < after.len() && unique_names(
                        names,
                    ) implies #[trigger] after[x] != #[trigger] after[y] by {
                        if y < names.len() {
                            assert(after[x] == names[x] && after[y] == names[y]);
                        } else {
                            assert(after[x] == names[x]);
                        }
                    }
                }
                false
            },
        }
    }

    /// The profile with the name `name`: the first in the list that carries
    /// it, `None` where none does.
    pub fn get(&self, name: &str) -> (r: Option<&ValidationProfile>)
        ensures
            match r {
                Some(p) => profile_index(profile_names(self.profiles@), name@) matches Some(i)
                    && 0 <= i < self.profiles.len() && *p == self.profiles[i].1,
                None => profile_index(profile_names(self.profiles@), name@) is None,
            },
    {
        match self.position(name) {
            Some(i) => Some(&self.profiles[i].1),
            None => None,
        }
    }

    /// The names of the profiles that apply to the directory `dir`, in list
    /// order: those whose rule matches, as `probe` tells.
    pub fn detect_profiles<'a, F: Fn(&str, &String) -> bool>(&'a self, dir: &str, probe: &F) -> (r:
        Vec<&'a str>)
        requires
            forall|i: int|
                0 <= i < self.profiles.len() ==> can_probe(
                    probe,
                    (#[trigger] self.profiles[i]).1.detect.any_files_exist@,
                    dir,
                ),
        ensures
            exists|hits: Seq<bool>|
                {
                    &&& hits.len() == self.profiles.len()
                    &&& forall|i: int|
                        0 <= i < hits.len() ==> is_detection(
                            probe,
                            self.profiles[i].1.detect.any_files_exist@,
                            dir,
                            #[trigger] hits[i],
                        )
                    &&& slice_texts(r@) == picked(profile_names(self.profiles@), hits)
                },
    {
        let mut out: Vec<&'a str> = Vec::new();
        let ghost mut hits: Seq<bool> = Seq::empty();
        let ghost names = profile_names(self.profiles@);
        let mut i: usize = 0;
        assert(slice_texts(out@) =~= picked(names.take(0), hits));
        while i < self.profiles.len()
            invariant
                i <= self.profiles.len(),
                names == profile_names(self.profiles@),
                hits.len() == i,
                forall|k: int|
                    0 <= k < self.profiles.len() ==> can_probe(
                        probe,
                        (#[trigger] self.profiles[k]).1.detect.any_files_exist@,
                        dir,
                    ),
                forall|k: int|
                    0 <= k < i ==> is_detection(
                        probe,
                        self.profiles[k].1.detect.any_files_exist@,
                        dir,
                        #[trigger] hits[k],
                    ),
                slice_texts(out@) == picked(names.take(i as int), hits),
            decreases self.profiles.len() - i,
        {
            let hit = self.profiles[i].1.detect.matches(dir, probe);
            let ghost before = slice_texts(out@);
            let ghost old_hits = hits;
            proof {
                hits = hits.push(hit);
                assert(hits.drop_last() =~= old_hits);
                assert(names.take(i + 1).drop_last() =~= names.take(i as int));
                assert(names.take(i + 1).last() == self.profiles[i as int].0@);
            }
            if hit {
                out.push(self.profiles[i].0.as_str());
                assert(slice_texts(out@) =~= before.push(self.profiles[i as int].0@));
            }
            i += 1;
        }
        assert(names.take(i as int) =~= names);
        out
    }
}

/// Whether every stage of `results` succeeded.
pub open spec fn all_passed(results: Seq<ValidationResultView>) -> bool {
    forall|i: int| 0 <= i < results.len() ==> (#[trigger] results[i]).success
}

/// The index of the first result at or after `start` that is a failure.
pub open spec fn failure_from(results: Seq<ValidationResultView>, start: int) -> Option<int>
    decreases results.len() - start,
{
    if start < 0 || start >= results.len() {
        None
    } else if !results[start].success {
        Some(start)
    } else {
        failure_from(results, start + 1)
    }
}

/// The report on a failed stage: the stage's name, an empty line, then what
/// the failing command wrote.
pub open spec fn failure_report(result: ValidationResultView) -> Seq<char> {
    "Stage: "@ + result.stage.label() + "\n\n"@ + result.output
}

/// The report on the first failed stage, `None` where every stage passed.
pub open spec fn first_failure_report(results: Seq<ValidationResultView>) -> Option<Seq<char>> {
    match failure_from(results, 0) {
        Some(i) => Some(failure_report(results[i])),
        None => None,
    }
}

/// `failure_from` finds a failed result and none stands before it; `None`
/// means that every result from `start` on is a success.
pub proof fn lemma_failure_from(results: Seq<ValidationResultView>, start: int)
    requires
        0 <= start,
    ensures
        match failure_from(results, start) {
            Some(i) => {
                &&& start <= i < results.len()
                &&& !results[i].success
                &&& forall|j: int| start <= j < i ==> results[j].success
            },
            None => forall|j: int| start <= j < results.len() ==> results[j].success,
        },
    decreases results.len() - start,
{
    if start < results.len() && results[start].success {
        lemma_failure_from(results, start + 1);
    }
}

/// What a validation run comes to: whether it passed, and the report on the
/// first failed stage where it did not.
#[derive(Debug, Clone, PartialEq, Eq)]
pub struct Verdict {
    /// Whether every stage passed.
    pub passed: bool,
    /// The report on the first failed stage.
    pub failed_output: Option<String>,
}

/// Sums up a validation run: it passed if every stage that was run succeeded
/// (so an empty run passes), and the report is made from the first stage that
/// failed.
pub fn assess(results: &Vec<ValidationResult>) -> (v: Verdict)
    ensures
        v.passed == all_passed(result_views(results@)),
        v.passed == (first_failure_report(result_views(results@)) is None),
        match v.failed_output {
            Some(text) => first_failure_report(result_views(results@)) == Some(text@),
            None => first_failure_report(result_views(results@)) is None,
        },
{
    let ghost views = result_views(results@);
    let mut i: usize = 0;
    while i < results.len()
        invariant
            i <= results.len(),
            views == result_views(results@),
            failure_from(views, 0) == failure_from(views, i as int),
            forall|j: int| 0 <= j < i ==> (#[trigger] views[j]).success,
        decreases results.len() - i,
    {
        if !results[i].success {
            let mut out: Vec<char> = Vec::new();
            push_str(&mut out, "Stage: ");
            push_str(&mut out, results[i].stage.name());
            push_str(&mut out, "\n\n");
            push_str(&mut out, results[i].output.as_str());
            assert(out@ =~= failure_report(views[i as int]));
            assert(!views[i as int].success);
            return Verdict { passed: false, failed_output: Some(string_of(&out)) };
        }
        i += 1;
    }
    Verdict { passed: true, failed_output: None }
}

/// The profile that validates a document whose profile names are `names`.
pub fn active_profile<'a>(names: &Vec<String>, config: Option<&'a ValidationConfig>) -> (r: Option<
    &'a ValidationProfile,
>)
    ensures
        match r {
            Some(p) => {
                &&& config is Some
                &&& names.len() > 0
                &&& profile_index(profile_names(config->0.profiles@), names[0]@) matches Some(i)
                    && 0 <= i < config->0.profiles.len() && *p == config->0.profiles[i].1
            },
            None => {
                ||| config is None
                ||| names.len() == 0
                ||| profile_index(profile_names(config->0.profiles@), names[0]@) is None
            },
        },
{
    match config {
        Some(c) => {
            if names.len() == 0 {
                None
            } else {
                c.get(names[0].as_str())
            }
        },
        None => None,
    }
}

} // verus!
