//! Booting a sandbox: each attempt, what is tried again, and the walk over several names.

use rightsize_msb::boot::{
    after_heal, after_restore_launch, boot_step, boot_verb, classify_exit, describe_heal_result,
    exit_code, fast_exit_ran_to_completion, poll_failure, restore_boot_failure_diagnostics,
    restore_poll, run_step, start_kind, workload_argv, workload_step, BootKind, BootPhase,
    BootStep, BootVerb, PreRunningFailure, RestoreLaunch, RestorePoll, RunAction, RunEvent,
    WorkloadAction, AGENT_ENDPOINT_RETRY_BUDGET_MS, FIRST_RUN_TIMEOUT_MS,
    INSTALL_LOCK_RETRY_BUDGET_MS, INSTALL_LOCK_RETRY_DELAY_MS, READINESS_POLL_MS,
};
use rightsize_msb::broker::{broker_with_direct_fallback, extract_restore_name};
use rightsize_msb::candidates::{
    reboot_retry_step, retarget, CandidateWalk, RetryStep, WalkPurpose, WalkStep,
    ALREADY_EXISTS_RETRY_BUDGET_MS, ALREADY_EXISTS_RETRY_DELAY_MS,
};
use rightsize_msb::classify::{is_restore_access_denied_error, SANDBOX_STARTED_MARKER};
use rightsize_msb::commands;
use rightsize_msb::ls_json::LsEntry;
use rightsize_msb::model::{ContainerSpec, ExecResult, RightsizeError};
use rightsize_msb::registry::Registry;
use std::cell::RefCell;

const ACCESS_DENIED: &str = "error: io error: Access is denied. (os error 5)";

/// A stand-in for `msb`: what each of its commands answers, and what was asked of it.
struct FakeMsb {
    /// What `restore` answers, in turn; the last answer stays.
    restores: Vec<(i32, &'static str)>,
    /// What `ls` says of the sandbox, in turn; `None` where it is not listed.
    statuses: Vec<Option<&'static str>>,
    /// What the sandbox's own log says.
    log: &'static str,
    /// How the workload ends, if it ends at once.
    workload: Option<(i32, &'static str)>,
    restore_calls: RefCell<Vec<Vec<String>>>,
    ls_calls: RefCell<usize>,
    exec_calls: RefCell<Vec<String>>,
    rm_calls: RefCell<Vec<String>>,
}

impl FakeMsb {
    fn new(restores: Vec<(i32, &'static str)>, statuses: Vec<Option<&'static str>>) -> FakeMsb {
        FakeMsb {
            restores,
            statuses,
            log: "fake system log tail",
            workload: None,
            restore_calls: RefCell::new(Vec::new()),
            ls_calls: RefCell::new(0),
            exec_calls: RefCell::new(Vec::new()),
            rm_calls: RefCell::new(Vec::new()),
        }
    }

    fn ls(&self, name: &str) -> Option<Vec<LsEntry>> {
        let mut calls = self.ls_calls.borrow_mut();
        let at = (*calls).min(self.statuses.len() - 1);
        *calls += 1;
        Some(match self.statuses[at] {
            None => Vec::new(),
            Some(status) => vec![LsEntry {
                name: Some(name.to_string()),
                status: Some(status.to_string()),
            }],
        })
    }

    fn logs(&self) -> ExecResult {
        ExecResult {
            exit_code: 0,
            stdout: self.log.to_string(),
            stderr: String::new(),
        }
    }

    fn restore(&self, argv: &[String]) -> Result<RestoreLaunch, String> {
        let mut calls = self.restore_calls.borrow_mut();
        let at = calls.len().min(self.restores.len() - 1);
        calls.push(argv.to_vec());
        let (code, output) = self.restores[at];
        Ok(RestoreLaunch::Exited {
            success: code == 0,
            code: Some(code),
            output: output.to_string(),
        })
    }
}

type Launcher<'a> = dyn Fn(&[String]) -> Result<RestoreLaunch, String> + 'a;

/// One restore: the command, the wait until the sandbox runs, and its workload.
fn try_restore(
    msb: &FakeMsb,
    spec: &ContainerSpec,
    launcher: &Launcher,
) -> Option<PreRunningFailure> {
    let name = spec.name.as_str();
    let argv = commands::restore(spec, spec.checkpoint_ref.as_ref().expect("a checkpoint"));
    if let Some(failure) = after_restore_launch(name, &argv, &launcher(&argv)) {
        return Some(failure);
    }
    let mut elapsed = 0;
    loop {
        match restore_poll(true, &msb.ls(name), name, elapsed) {
            RestorePoll::SpawnWorkload => break,
            RestorePoll::Wait => elapsed += READINESS_POLL_MS,
            poll => {
                let said = restore_boot_failure_diagnostics(name, &Ok(msb.logs()));
                return poll_failure(poll, name, &said);
            }
        }
    }
    let argv = match workload_argv(spec) {
        Ok(argv) => argv,
        Err(failure) => return Some(failure),
    };
    msb.exec_calls.borrow_mut().push(argv[1..].join(" "));
    let (code, output) = match msb.workload {
        None => return None,
        Some(ended) => ended,
    };
    match workload_step(name, code == 0, Some(code), output, 0, None) {
        WorkloadAction::CheckCompletion => {
            let done = fast_exit_ran_to_completion(&msb.ls(name), name, &Some(msb.logs()));
            match workload_step(name, code == 0, Some(code), output, 0, Some(done)) {
                WorkloadAction::Booted => None,
                WorkloadAction::Fail(failure) => Some(failure),
                other => panic!("unexpected {other:?}"),
            }
        }
        WorkloadAction::Fail(failure) => Some(failure),
        other => panic!("unexpected {other:?}"),
    }
}

/// A whole boot: attempts until one succeeds or the rules say to give up.
fn boot(
    kind: BootKind,
    spec: &ContainerSpec,
    attempt: &dyn Fn() -> Option<PreRunningFailure>,
) -> Result<(), RightsizeError> {
    let mut phase = BootPhase::First;
    let mut elapsed = 0;
    loop {
        match boot_step(kind, &spec.name, &spec.image, phase, attempt(), elapsed) {
            BootStep::Booted => return Ok(()),
            BootStep::Fail(error) => return Err(error),
            BootStep::RetryAfter { delay_ms, phase: next } => {
                elapsed += delay_ms;
                phase = next;
            }
            BootStep::Heal { first } => {
                phase = after_heal(first, &Err("not run here".to_string()));
            }
        }
    }
}

fn spec_from_checkpoint(name: &str) -> ContainerSpec {
    let mut spec = ContainerSpec::new(name, "unused-image", "run-1");
    spec.checkpoint_ref = Some("/tmp/snap_fake".to_string());
    spec
}

fn message_of(failure: Option<PreRunningFailure>) -> String {
    match failure {
        Some(PreRunningFailure::Other(error)) => error.message(),
        other => panic!("expected a plain failure, got {other:?}"),
    }
}

/// An attached run that ends at once; what it is taken for.
fn fast_exit(code: i32, status: &str, log: &str) -> RunAction {
    let name = "rz-fast-exit";
    let first = run_step(
        name,
        &RunEvent::Exited {
            success: code == 0,
            code: Some(code),
            output: String::new(),
        },
    );
    match first {
        RunAction::CheckCompletion => {
            let listing = Some(vec![LsEntry {
                name: Some(name.to_string()),
                status: Some(status.to_string()),
            }]);
            let log = ExecResult {
                exit_code: 0,
                stdout: format!("{log}\n"),
                stderr: String::new(),
            };
            let completed = fast_exit_ran_to_completion(&listing, name, &Some(log));
            run_step(
                name,
                &RunEvent::CompletionChecked {
                    completed,
                    code: Some(code),
                    output: String::new(),
                },
            )
        }
        other => other,
    }
}

fn fails_before_running(action: RunAction) {
    match action {
        RunAction::Fail(failure) => {
            let msg = message_of(Some(failure));
            assert!(msg.contains("before reaching Running"), "{msg}");
        }
        other => panic!("expected a failure, got {other:?}"),
    }
}

#[test]
fn fast_exit_with_stopped_state_and_started_marker_classifies_as_success() {
    assert!(matches!(
        fast_exit(0, "Stopped", SANDBOX_STARTED_MARKER),
        RunAction::Booted
    ));
}

#[test]
fn fast_exit_without_the_started_marker_still_fails_with_the_existing_error() {
    fails_before_running(fast_exit(
        0,
        "Stopped",
        "--- some unrelated system log line ---",
    ));
}

#[test]
fn fast_exit_with_a_non_stopped_state_still_fails_with_the_existing_error() {
    fails_before_running(fast_exit(0, "Exited", SANDBOX_STARTED_MARKER));
}

#[test]
fn fast_exit_classification_never_applies_to_a_non_zero_exit() {
    fails_before_running(fast_exit(1, "Stopped", SANDBOX_STARTED_MARKER));
}

#[test]
fn restore_succeeds_when_the_sandbox_reaches_running_only_after_a_few_polls() {
    let name = "rz-restore-eventually-running";
    let msb = FakeMsb::new(
        vec![(0, "")],
        vec![Some("Starting"), Some("Starting"), Some("Running")],
    );
    let mut spec = spec_from_checkpoint(name);
    spec.command = Some(vec!["redis-server".to_string()]);
    let failure = try_restore(&msb, &spec, &|argv| msb.restore(argv));
    assert!(failure.is_none(), "{failure:?}");
    assert!(*msb.ls_calls.borrow() >= 3);
    assert_eq!(
        *msb.exec_calls.borrow(),
        vec![format!("{name} -- redis-server")]
    );
}

#[test]
fn restore_exiting_nonzero_with_a_state_db_signature_is_classified_not_treated_as_a_generic_failure()
{
    let msb = FakeMsb::new(
        vec![(
            1,
            "error: database error: Execution Error: index idx already exists",
        )],
        vec![Some("Running")],
    );
    let spec = spec_from_checkpoint("rz-restore-state-db");
    let failure = try_restore(&msb, &spec, &|argv| msb.restore(argv));
    assert!(matches!(
        failure,
        Some(PreRunningFailure::StateDbError { .. })
    ));
}

#[test]
fn restore_exiting_nonzero_with_no_known_signature_surfaces_a_plain_classified_failure() {
    let name = "rz-restore-plain-failure";
    let msb = FakeMsb::new(
        vec![(1, "error: snapshot corrupt: bad magic bytes")],
        vec![Some("Running")],
    );
    let spec = spec_from_checkpoint(name);
    let msg = boot(BootKind::OneName, &spec, &|| {
        try_restore(&msb, &spec, &|argv| msb.restore(argv))
    })
    .expect_err("a restore that fails to activate at all must surface as an Err")
    .message();
    assert!(msg.contains(name), "{msg}");
    assert!(msg.contains("bad magic bytes"), "{msg}");
}

#[test]
fn restore_whose_sandbox_reaches_stopped_fails_fast_instead_of_hanging_out_the_budget() {
    let name = "rz-restore-stopped";
    let msb = FakeMsb::new(vec![(0, "")], vec![Some("Stopped")]);
    let spec = spec_from_checkpoint(name);
    let msg = message_of(try_restore(&msb, &spec, &|argv| msb.restore(argv)));
    assert_eq!(*msb.ls_calls.borrow(), 1);
    assert!(msg.contains(name), "{msg}");
    assert!(msg.contains("Stopped"), "{msg}");
    assert!(msg.contains("fake system log tail"), "{msg}");
}

#[test]
fn restore_whose_sandbox_disappears_from_ls_fails_fast_instead_of_hanging_out_the_budget() {
    let name = "rz-restore-absent";
    let msb = FakeMsb::new(vec![(0, "")], vec![None]);
    let spec = spec_from_checkpoint(name);
    let msg = message_of(try_restore(&msb, &spec, &|argv| msb.restore(argv)));
    assert_eq!(*msb.ls_calls.borrow(), 1);
    assert!(msg.contains(name), "{msg}");
    assert!(msg.contains("dropped out of"), "{msg}");
}

#[test]
fn restore_with_an_explicit_command_spawns_the_workload_exec_with_it_and_the_dash_e_env_pairs() {
    let name = "rz-restore-explicit-command";
    let msb = FakeMsb::new(vec![(0, "")], vec![Some("Running")]);
    let mut spec = spec_from_checkpoint(name);
    spec.command = Some(vec![
        "redis-server".to_string(),
        "--port".to_string(),
        "6379".to_string(),
    ]);
    spec.env = vec![
        ("A".to_string(), "1".to_string()),
        ("B".to_string(), "2".to_string()),
    ];
    assert!(try_restore(&msb, &spec, &|argv| msb.restore(argv)).is_none());
    assert_eq!(
        *msb.exec_calls.borrow(),
        vec![format!("-e A=1 -e B=2 {name} -- redis-server --port 6379")]
    );
}

#[test]
fn restore_with_no_command_uses_the_captured_cmdline_field_when_present() {
    let name = "rz-restore-captured-cmdline";
    let msb = FakeMsb::new(vec![(0, "")], vec![Some("Running")]);
    let mut spec = spec_from_checkpoint(name);
    assert!(spec.command.is_none());
    spec.checkpoint_captured_cmdline = Some(vec!["node".to_string(), "server.js".to_string()]);
    assert!(try_restore(&msb, &spec, &|argv| msb.restore(argv)).is_none());
    assert_eq!(
        *msb.exec_calls.borrow(),
        vec![format!("{name} -- node server.js")]
    );
}

#[test]
fn restore_with_neither_a_command_nor_a_captured_cmdline_fails_typed_instead_of_booting_idle() {
    let name = "rz-restore-no-command-no-capture";
    let msb = FakeMsb::new(vec![(0, "")], vec![Some("Running")]);
    let spec = spec_from_checkpoint(name);
    let msg = message_of(try_restore(&msb, &spec, &|argv| msb.restore(argv)));
    assert!(msg.contains(name), "{msg}");
    assert!(msg.contains("predates workload capture"), "{msg}");
    assert!(msb.exec_calls.borrow().is_empty());
}

#[test]
fn workload_exec_exiting_nonzero_quickly_is_a_classified_boot_failure() {
    let name = "rz-restore-exec-early-fail";
    let mut msb = FakeMsb::new(vec![(0, "")], vec![Some("Running")]);
    msb.workload = Some((127, "sh: nope: not found\n"));
    let mut spec = spec_from_checkpoint(name);
    spec.command = Some(vec!["nope".to_string()]);
    let msg = message_of(try_restore(&msb, &spec, &|argv| msb.restore(argv)));
    assert!(msg.contains(name), "{msg}");
    assert!(msg.contains("code 127"), "{msg}");
    assert!(msg.contains("not found"), "{msg}");
}

#[test]
fn workload_exec_exiting_zero_quickly_succeeds_when_the_sandbox_state_confirms_completion() {
    let name = "rz-restore-exec-fast-exit-zero";
    let mut msb = FakeMsb::new(vec![(0, "")], vec![Some("Running"), Some("Stopped")]);
    msb.workload = Some((0, ""));
    msb.log = SANDBOX_STARTED_MARKER;
    let mut spec = spec_from_checkpoint(name);
    spec.command = Some(vec!["true".to_string()]);
    assert!(try_restore(&msb, &spec, &|argv| msb.restore(argv)).is_none());
}

#[test]
fn restore_access_denied_once_then_success_boots_with_exactly_two_restore_invocations() {
    let msb = FakeMsb::new(vec![(1, ACCESS_DENIED), (0, "")], vec![Some("Running")]);
    let mut spec = spec_from_checkpoint("rz-restore-access-denied");
    spec.command = Some(vec!["true".to_string()]);
    assert_eq!(start_kind(&spec), BootKind::OneName);
    boot(start_kind(&spec), &spec, &|| {
        try_restore(&msb, &spec, &|argv| msb.restore(argv))
    })
    .expect("one access-denied hit followed by a clean retry must still boot");
    assert_eq!(msb.restore_calls.borrow().len(), 2);
}

#[test]
fn restore_access_denied_twice_in_a_row_surfaces_a_real_error_not_an_infinite_retry() {
    let name = "rz-restore-access-denied-twice";
    let msb = FakeMsb::new(vec![(1, ACCESS_DENIED)], vec![Some("Running")]);
    let spec = spec_from_checkpoint(name);
    let msg = boot(BootKind::OneName, &spec, &|| {
        try_restore(&msb, &spec, &|argv| msb.restore(argv))
    })
    .expect_err("a persistent access-denied failure must not retry forever")
    .message();
    assert!(msg.contains(name), "{msg}");
    assert!(msg.contains("Access is denied"), "{msg}");
    assert_eq!(msb.restore_calls.borrow().len(), 2);
}

#[test]
fn try_restore_and_await_running_with_launcher_classifies_brokered_output_through_the_same_predicates_the_direct_path_uses()
{
    let msb = FakeMsb::new(vec![(0, "")], vec![Some("Running")]);
    let spec = spec_from_checkpoint("rz-brokered-classification");
    let failure = try_restore(&msb, &spec, &|_| {
        Ok(RestoreLaunch::Exited {
            success: false,
            code: Some(1),
            output: ACCESS_DENIED.to_string(),
        })
    });
    assert!(
        matches!(failure, Some(PreRunningFailure::RestoreAccessDenied { .. })),
        "{failure:?}"
    );
}

#[test]
fn spawn_and_await_reboot_restore_never_retries_an_access_denied_attempt_in_place() {
    let msb = FakeMsb::new(vec![(1, ACCESS_DENIED)], vec![Some("Running")]);
    let mut spec = spec_from_checkpoint("rz-reboot-restore-ad");
    spec.command = Some(vec!["true".to_string()]);
    let err = boot(BootKind::Candidate, &spec, &|| {
        try_restore(&msb, &spec, &|argv| msb.restore(argv))
    })
    .expect_err("an access-denied attempt must surface as its own classified error");
    assert_eq!(msb.restore_calls.borrow().len(), 1);
    assert!(is_restore_access_denied_error(&err), "{err:?}");
}

#[test]
fn spawn_and_await_reboot_restore_still_retries_the_state_db_race_once() {
    let msb = FakeMsb::new(
        vec![
            (1, "error: database error: UNIQUE constraint failed"),
            (1, "error: some unrelated, unclassified restore failure"),
        ],
        vec![Some("Running")],
    );
    let mut spec = spec_from_checkpoint("rz-reboot-restore-statedb");
    spec.command = Some(vec!["true".to_string()]);
    let err = boot(BootKind::Candidate, &spec, &|| {
        try_restore(&msb, &spec, &|argv| msb.restore(argv))
    })
    .expect_err("the second, unrelated failure must still surface as an error");
    assert_eq!(msb.restore_calls.borrow().len(), 2);
    assert!(err.message().contains("unrelated"), "{err:?}");
}

/// Starts a container under one of several names, on a clock that moves on between two
/// attempts; gives the name that was taken.
fn walk(
    msb: &FakeMsb,
    spec: &ContainerSpec,
    broker: Option<&Launcher>,
) -> Result<String, RightsizeError> {
    let candidates = spec.restore_name_candidates.clone().expect("several names");
    let reference = spec.checkpoint_ref.clone().expect("a checkpoint");
    let mut walk = CandidateWalk::new();
    let mut attempt = spec.clone();
    let mut last = None;
    let mut elapsed = 0;
    loop {
        let step = walk.next(WalkPurpose::Restore, &candidates, broker.is_some());
        let outcome = match step {
            WalkStep::Exhausted { remove_first, error } => {
                msb.rm_calls.borrow_mut().extend(remove_first);
                Err(error)
            }
            WalkStep::Attempt {
                remove_first,
                name,
                via_broker,
            } => {
                msb.rm_calls.borrow_mut().extend(remove_first);
                retarget(
                    &mut attempt,
                    &name,
                    &reference,
                    &spec.checkpoint_captured_cmdline,
                );
                let direct = |argv: &[String]| msb.restore(argv);
                let brokered = |argv: &[String]| match broker {
                    Some(broker) => {
                        broker_with_direct_fallback(broker(argv), || msb.restore(argv))
                    }
                    None => msb.restore(argv),
                };
                let launcher: &Launcher = if via_broker { &brokered } else { &direct };
                let outcome = boot(BootKind::Candidate, &attempt, &|| {
                    try_restore(msb, &attempt, launcher)
                });
                walk.record(&outcome);
                outcome
            }
        };
        let budget = ALREADY_EXISTS_RETRY_BUDGET_MS;
        match reboot_retry_step(&spec.name, &reference, &last, &outcome, elapsed, budget) {
            RetryStep::Done => return Ok(attempt.name),
            RetryStep::Fail(error) => return Err(error),
            RetryStep::RetryAfter { last: refusal } => last = Some(refusal),
        }
        elapsed += ALREADY_EXISTS_RETRY_DELAY_MS;
    }
}

fn spec_with_candidates(candidates: &[&str]) -> ContainerSpec {
    let mut spec = spec_from_checkpoint(candidates[0]);
    spec.command = Some(vec!["redis-server".to_string()]);
    spec.restore_name_candidates = Some(candidates.iter().map(|c| c.to_string()).collect());
    spec
}

#[test]
fn ordinary_restore_an_access_denied_advances_immediately_never_retrying_the_same_candidate() {
    let candidates = [
        "rz-ordinary-restore-ad-cand-0",
        "rz-ordinary-restore-ad-cand-1",
    ];
    let msb = FakeMsb::new(vec![(1, ACCESS_DENIED), (0, "")], vec![Some("Running")]);
    let spec = spec_with_candidates(&candidates);
    assert_eq!(start_kind(&spec), BootKind::Candidate);
    let mut registry: Registry<(), ()> = Registry::new();
    registry.create(candidates[0]);
    let winner = walk(&msb, &spec, None).expect("the second name must be taken");
    registry.start(candidates[0], &winner, None, false);
    assert_eq!(
        registry.winning_start(candidates[0]),
        Some(candidates[1].to_string())
    );
    assert!(registry.winning_start(candidates[0]).is_none());
    let calls = msb.restore_calls.borrow();
    assert_eq!(calls.len(), 2, "{calls:?}");
    assert_eq!(extract_restore_name(&calls[0]), Some(candidates[0]));
    assert_eq!(extract_restore_name(&calls[1]), Some(candidates[1]));
    assert_eq!(*msb.rm_calls.borrow(), vec![candidates[0].to_string()]);
}

#[test]
fn ordinary_restore_escalates_to_the_injected_broker_after_an_access_denied_and_succeeds() {
    let candidates = [
        "rz-ordinary-restore-broker-cand-0",
        "rz-ordinary-restore-broker-cand-1",
    ];
    let msb = FakeMsb::new(vec![(1, ACCESS_DENIED)], vec![Some("Running")]);
    let broker_calls: RefCell<Vec<Vec<String>>> = RefCell::new(Vec::new());
    let broker = |argv: &[String]| {
        broker_calls.borrow_mut().push(argv.to_vec());
        Ok(RestoreLaunch::Exited {
            success: true,
            code: Some(0),
            output: String::new(),
        })
    };
    let winner = walk(&msb, &spec_with_candidates(&candidates), Some(&broker))
        .expect("the brokered attempt must succeed");
    assert_eq!(winner, candidates[1]);
    assert_eq!(msb.restore_calls.borrow().len(), 1);
    let calls = broker_calls.borrow();
    assert_eq!(calls.len(), 1, "{calls:?}");
    assert_eq!(extract_restore_name(&calls[0]), Some(candidates[1]));
}

#[test]
fn ordinary_restore_falls_back_to_direct_when_the_broker_itself_cannot_launch() {
    let candidates = [
        "rz-ordinary-restore-broker-infra-cand-0",
        "rz-ordinary-restore-broker-infra-cand-1",
    ];
    let msb = FakeMsb::new(vec![(1, ACCESS_DENIED), (0, "")], vec![Some("Running")]);
    let broker_calls = RefCell::new(0u32);
    let broker = |_: &[String]| {
        *broker_calls.borrow_mut() += 1;
        Err("simulated: powershell.exe not found".to_string())
    };
    let winner = walk(&msb, &spec_with_candidates(&candidates), Some(&broker))
        .expect("a broker that cannot launch must not sink the restore");
    assert_eq!(winner, candidates[1]);
    assert_eq!(*broker_calls.borrow(), 1);
    let calls = msb.restore_calls.borrow();
    assert_eq!(extract_restore_name(&calls[1]), Some(candidates[1]));
}

#[test]
fn ordinary_restore_whose_first_attempt_succeeds_never_re_keys_anything() {
    let candidates = [
        "rz-ordinary-restore-first-cand-0",
        "rz-ordinary-restore-first-cand-1",
    ];
    let msb = FakeMsb::new(vec![(0, "")], vec![Some("Running")]);
    let mut registry: Registry<(), ()> = Registry::new();
    registry.create(candidates[0]);
    let winner = walk(&msb, &spec_with_candidates(&candidates), None).expect("a clean start");
    assert_eq!(winner, candidates[0]);
    registry.start(candidates[0], &winner, None, false);
    assert!(registry.winning_start(candidates[0]).is_none());
    assert_eq!(msb.restore_calls.borrow().len(), 1);
}

#[test]
fn a_walk_that_runs_out_of_names_says_so() {
    let candidates = ["rz-a", "rz-b"];
    let msb = FakeMsb::new(vec![(1, ACCESS_DENIED)], vec![Some("Running")]);
    let err = walk(&msb, &spec_with_candidates(&candidates), None)
        .expect_err("both names are refused");
    let msg = err.message();
    assert!(
        msg.starts_with("re-booting sandbox rz-a from checkpoint /tmp/snap_fake failed ("),
        "{msg}"
    );
    assert!(
        msg.contains(
            "every restore name candidate was tried and refused (2 candidates) — by msb's own \
             \"already exists\" check, the Windows job-object access-denied transient, or both"
        ),
        "{msg}"
    );
    assert!(msg.contains("after previously hitting a refusal"), "{msg}");
    assert_eq!(
        *msb.rm_calls.borrow(),
        vec!["rz-a".to_string(), "rz-b".to_string()]
    );
}

#[test]
fn a_name_that_is_taken_is_left_for_the_next_one() {
    let candidates = ["rz-a", "rz-b", "rz-c"];
    let taken = "error: sandbox already exists";
    let msb = FakeMsb::new(vec![(1, taken), (1, taken), (0, "")], vec![Some("Running")]);
    let broker_calls = RefCell::new(0u32);
    let broker = |_: &[String]| {
        *broker_calls.borrow_mut() += 1;
        Err("unused".to_string())
    };
    let winner = walk(&msb, &spec_with_candidates(&candidates), Some(&broker));
    assert_eq!(winner.expect("the third name is free"), "rz-c");
    assert_eq!(*broker_calls.borrow(), 0);
    assert_eq!(
        *msb.rm_calls.borrow(),
        vec!["rz-a".to_string(), "rz-b".to_string()]
    );
}

#[test]
fn try_spawn_and_await_running_emits_msb_run_when_checkpoint_ref_is_unset() {
    let spec = ContainerSpec::new("rz-run", "alpine:3.19", "run-1");
    assert_eq!(boot_verb(&spec), BootVerb::Run);
    assert_eq!(commands::run(&spec)[0], "run");
}

#[test]
fn try_spawn_and_await_running_emits_msb_restore_with_no_disk_only_flag_when_checkpoint_ref_is_set()
{
    let spec = spec_from_checkpoint("rz-restore");
    assert_eq!(boot_verb(&spec), BootVerb::Restore);
    let argv = commands::restore(&spec, "/tmp/snap_fake");
    assert_eq!(argv[0], "restore");
    assert!(!argv.iter().any(|arg| arg == "--disk-only"), "{argv:?}");
}

#[test]
fn a_running_sandbox_is_waited_for_until_the_time_is_up() {
    let polled = |running: bool, elapsed_ms: u64| {
        run_step("a", &RunEvent::Polled { running, elapsed_ms })
    };
    assert!(matches!(polled(true, FIRST_RUN_TIMEOUT_MS), RunAction::Booted));
    assert!(matches!(polled(false, FIRST_RUN_TIMEOUT_MS - 1), RunAction::Wait));
    assert!(matches!(polled(false, FIRST_RUN_TIMEOUT_MS), RunAction::Kill));
    let killed = run_step(
        "a",
        &RunEvent::Killed {
            output: "pulling".to_string(),
        },
    );
    match killed {
        RunAction::Fail(failure) => assert_eq!(
            message_of(Some(failure)),
            "Sandbox a did not reach Running within 600s — this can mean a slow image pull, a \
             crash-looping entrypoint, or msb itself being unresponsive; last output:\npulling"
        ),
        other => panic!("unexpected {other:?}"),
    }
    assert_eq!(
        restore_poll(false, &None, "a", FIRST_RUN_TIMEOUT_MS),
        RestorePoll::TimedOut
    );
    assert_eq!(restore_poll(false, &None, "a", 0), RestorePoll::Wait);
    assert_eq!(exit_code(None), -1);
}

#[test]
fn conflicts_are_named_by_the_command_that_met_them() {
    match classify_exit(BootVerb::Run, "a", "Address already in use") {
        Some(PreRunningFailure::Other(RightsizeError::PortBindConflict { message })) => {
            assert!(message.contains("msb run"), "{message}");
            assert!(message.contains("Address already in use"), "{message}");
        }
        other => panic!("unexpected {other:?}"),
    }
    match classify_exit(BootVerb::Restore, "a", "sandbox 'a' already exists") {
        Some(PreRunningFailure::Other(RightsizeError::NameConflict { message })) => {
            assert!(message.contains("msb restore"), "{message}");
        }
        other => panic!("unexpected {other:?}"),
    }
    assert!(classify_exit(BootVerb::Run, "a", ACCESS_DENIED).is_none());
    assert!(matches!(
        classify_exit(BootVerb::Restore, "a", ACCESS_DENIED),
        Some(PreRunningFailure::RestoreAccessDenied { .. })
    ));
}

#[test]
fn the_install_lock_is_waited_out_and_a_broken_cache_is_healed_once() {
    let spec = ContainerSpec::new("rz-1", "alpine:3.19", "run-1");
    let attempts = RefCell::new(0u64);
    let err = boot(BootKind::OneName, &spec, &|| {
        *attempts.borrow_mut() += 1;
        Some(PreRunningFailure::InstallLockActive {
            output: "busy".to_string(),
        })
    })
    .expect_err("the lock is never released");
    assert_eq!(
        *attempts.borrow(),
        INSTALL_LOCK_RETRY_BUDGET_MS / INSTALL_LOCK_RETRY_DELAY_MS + 1
    );
    assert!(err.message().contains("30s"), "{err:?}");

    let attempts = RefCell::new(0u64);
    let err = boot(BootKind::OneName, &spec, &|| {
        *attempts.borrow_mut() += 1;
        Some(PreRunningFailure::CacheCorruption {
            output: format!("corrupt {}", *attempts.borrow()),
        })
    })
    .expect_err("the cache stays broken");
    assert_eq!(*attempts.borrow(), 2);
    assert!(err.message().contains("corrupt 1"), "{err:?}");
    assert!(err.message().contains("corrupt 2"), "{err:?}");
    assert!(err.message().contains("alpine:3.19"), "{err:?}");
}

#[test]
fn what_became_of_a_removed_image() {
    let answer = |exit_code: i32, stderr: &str| {
        Ok(ExecResult {
            exit_code,
            stdout: String::new(),
            stderr: stderr.to_string(),
        })
    };
    assert_eq!(describe_heal_result(&answer(0, "")), "removed");
    assert!(describe_heal_result(&answer(3, " in use \n")).contains("in use"));
    assert!(describe_heal_result(&Err("gone".to_string())).contains("gone"));
}

#[test]
fn a_guest_that_does_not_listen_yet_is_asked_again() {
    let early = "error: agent client error: connect /run/x.sock: No such file";
    assert!(matches!(
        workload_step("a", false, Some(1), early, 0, None),
        WorkloadAction::Retry
    ));
    assert!(matches!(
        workload_step("a", false, Some(1), early, AGENT_ENDPOINT_RETRY_BUDGET_MS, None),
        WorkloadAction::Fail(_)
    ));
    assert!(matches!(
        workload_step("a", true, Some(0), "", 0, None),
        WorkloadAction::CheckCompletion
    ));
    assert!(matches!(
        workload_step("a", true, Some(0), "", 0, Some(true)),
        WorkloadAction::Booted
    ));
}
