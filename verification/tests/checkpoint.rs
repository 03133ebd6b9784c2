//! Checkpoints: the cycle that takes one, and what becomes of its archive.

use rightsize_msb::candidates::{reboot_retry_step, RetryStep};
use rightsize_msb::checkpoint::{
    after_export, after_import, after_snapshot_inspect, after_snapshot_rm, begin_cycle,
    cycle_command, cycle_step, pick_staging_file, plan_checkpoint, probe_checkpoint,
    wants_salvage, CheckpointPlan, CheckpointProbe, CycleStage, CycleStep, DirEntry,
};
use rightsize_msb::commands;
use rightsize_msb::ls_json::LsEntry;
use rightsize_msb::model::{ContainerSpec, ExecResult, RightsizeError};
use rightsize_msb::refs::PathStyle;
use std::cell::RefCell;

type Invoke<'a> = dyn FnMut(&[String]) -> Result<ExecResult, RightsizeError> + 'a;
type Reboot<'a> = dyn FnMut(&str, Option<&[String]>) -> Result<(), RightsizeError> + 'a;

fn parse_ls(stdout: &str) -> Option<Vec<LsEntry>> {
    let value: serde_json::Value = serde_json::from_str(stdout).ok()?;
    let mut entries = Vec::new();
    for item in value.as_array()? {
        let text = |key: &str| item.get(key).and_then(|v| v.as_str()).map(str::to_string);
        entries.push(LsEntry {
            name: text("name"),
            status: text("status"),
        });
    }
    Some(entries)
}

fn fake_snapshot_create_stdout(dest_dir: &str, source_sandbox: &str) -> String {
    format!(
        "Snapshot ID: deadbeefcafedeadbeefcafedeadbeef\n{dest_dir}/{source_sandbox}/snap_deadbeefcafedeadbeefcafedeadbeef\n"
    )
}

/// Boots from a checkpoint until an attempt succeeds or the time is up, on a clock that
/// moves on by `delay` between two attempts.
fn reboot_with_already_exists_retry(
    reboot: &mut Reboot,
    reference: &str,
    captured: Option<&[String]>,
    name: &str,
    budget: u64,
    delay: u64,
) -> Result<(), RightsizeError> {
    let mut last = None;
    let mut elapsed = 0;
    loop {
        let outcome = reboot(reference, captured);
        match reboot_retry_step(name, reference, &last, &outcome, elapsed, budget) {
            RetryStep::Done => return Ok(()),
            RetryStep::Fail(error) => return Err(error),
            RetryStep::RetryAfter { last: refusal } => last = Some(refusal),
        }
        elapsed += delay;
    }
}

/// Runs a whole cycle, on a clock that moves on by 300 ms between two listings.
#[allow(clippy::too_many_arguments)]
fn msb_checkpoint_cycle_with_reboot_retry_budget(
    invoke: &mut Invoke,
    reboot: &mut Reboot,
    name: &str,
    basename: &str,
    dest_dir: &str,
    capture: bool,
    budget: u64,
    delay: u64,
) -> Result<(String, (), Option<Vec<String>>), RightsizeError> {
    let plan = CheckpointPlan {
        name: name.to_string(),
        basename: basename.to_string(),
        dest_dir: dest_dir.to_string(),
        style: PathStyle::Unix,
        capture,
    };
    let mut stage = begin_cycle(&plan);
    let mut elapsed = 0;
    loop {
        if let CycleStage::Reboot { captured, reference } = &stage {
            reboot_with_already_exists_retry(
                reboot,
                reference,
                captured.as_deref(),
                name,
                budget,
                delay,
            )?;
            return Ok((reference.clone(), (), captured.clone()));
        }
        let argv = cycle_command(&plan, &stage).expect("only the boot has no command");
        let result = invoke(&argv);
        let listing = match &result {
            Ok(result) => parse_ls(&result.stdout),
            Err(_) => None,
        };
        stage = match cycle_step(&plan, stage, result, &listing, elapsed) {
            CycleStep::Go(next) => next,
            CycleStep::Wait(again) => {
                elapsed += 300;
                again
            }
            CycleStep::Fail(error) => return Err(error),
        };
    }
}

fn msb_checkpoint_cycle(
    invoke: &mut Invoke,
    reboot: &mut Reboot,
    name: &str,
    basename: &str,
    dest_dir: &str,
    capture: bool,
) -> Result<(String, (), Option<Vec<String>>), RightsizeError> {
    msb_checkpoint_cycle_with_reboot_retry_budget(
        invoke, reboot, name, basename, dest_dir, capture, 30_000, 2_000,
    )
}

fn msb_import_checkpoint_cycle(
    invoke: &mut dyn FnMut() -> Result<ExecResult, RightsizeError>,
) -> Result<String, RightsizeError> {
    after_import(PathStyle::Unix, &invoke()?)
}

fn msb_export_checkpoint_cycle(
    invoke: &mut dyn FnMut() -> Result<ExecResult, RightsizeError>,
    salvage: &mut dyn FnMut(&str) -> bool,
    checkpoint_ref: &str,
    dest: &str,
) -> Result<(), RightsizeError> {
    let result = invoke()?;
    let salvaged = wants_salvage(&result) && salvage(dest);
    after_export(checkpoint_ref, dest, &result, salvaged)
}

/// What `msb snapshot save` prints where Windows refuses to flush the archive.
const WINDOWS_FSYNC_SAVE_STDERR: &str = "error: io error: Access is denied. (os error 5)";

#[test]
fn msb_checkpoint_cycle_happy_path_drives_stop_snapshot_rm_then_reboot_in_order() {
    let log: RefCell<Vec<String>> = RefCell::new(Vec::new());
    let dest_dir = "/tmp/rz-msb-checkpoint-cycle-happy-path";
    let expected_ref = format!("{dest_dir}/rz-abc-1/snap_deadbeefcafedeadbeefcafedeadbeef");
    let result = {
        let mut invoke = |args: &[String]| {
            log.borrow_mut().push(args.join(" "));
            if args == &commands::ls()[..] {
                return Ok(ExecResult {
                    exit_code: 0,
                    stdout: "[]".to_string(),
                    stderr: String::new(),
                });
            }
            Ok(ExecResult {
                exit_code: 0,
                stdout: fake_snapshot_create_stdout(dest_dir, "rz-abc-1"),
                stderr: String::new(),
            })
        };
        let mut reboot = |real_ref: &str, _captured: Option<&[String]>| -> Result<(), RightsizeError> {
            log.borrow_mut().push(format!("reboot {real_ref}"));
            Ok(())
        };
        msb_checkpoint_cycle(
            &mut invoke,
            &mut reboot,
            "rz-abc-1",
            "rz-ckpt-deadbeefcafe",
            dest_dir,
            false,
        )
    };
    let (returned_ref, (), captured_cmdline) = result.expect("happy path must succeed");
    assert_eq!(
        captured_cmdline, None,
        "capture was never attempted (attempt_cmdline_capture = false)"
    );
    assert_eq!(returned_ref, expected_ref);
    assert_eq!(
        *log.borrow(),
        vec![
            commands::stop("rz-abc-1").join(" "),
            commands::snapshot_create_in("rz-abc-1", "rz-ckpt-deadbeefcafe", dest_dir)
                .join(" "),
            commands::rm("rz-abc-1").join(" "),
            commands::ls().join(" "),
            format!("reboot {expected_ref}"),
        ]
    );
}

#[test]
fn msb_checkpoint_cycle_captures_the_guest_cmdline_before_stop_and_hands_it_to_reboot() {
    let log: RefCell<Vec<String>> = RefCell::new(Vec::new());
    let dest_dir = "/tmp/rz-msb-checkpoint-cycle-captures-cmdline";
    let result = {
        let mut invoke = |args: &[String]| {
            log.borrow_mut().push(args.join(" "));
            if args == &commands::capture_workload_cmdline("rz-abc-1")[..] {
                return Ok(ExecResult {
                    exit_code: 0,
                    stdout: "redis-server\0--port\x006379\0\n".to_string(),
                    stderr: String::new(),
                });
            }
            if args == &commands::ls()[..] {
                return Ok(ExecResult {
                    exit_code: 0,
                    stdout: "[]".to_string(),
                    stderr: String::new(),
                });
            }
            Ok(ExecResult {
                exit_code: 0,
                stdout: fake_snapshot_create_stdout(dest_dir, "rz-abc-1"),
                stderr: String::new(),
            })
        };
        let mut reboot = |real_ref: &str, captured: Option<&[String]>| -> Result<(), RightsizeError> {
            log.borrow_mut().push(format!(
                "reboot {real_ref} captured={:?}",
                captured.map(<[String]>::to_vec)
            ));
            Ok(())
        };
        msb_checkpoint_cycle(
            &mut invoke,
            &mut reboot,
            "rz-abc-1",
            "rz-ckpt-deadbeefcafe",
            dest_dir,
            true,
        )
    };
    let (_ref, (), captured_cmdline) = result.expect("happy path must succeed");
    assert_eq!(
        captured_cmdline,
        Some(vec![
            "redis-server".to_string(),
            "--port".to_string(),
            "6379".to_string()
        ])
    );
    let log = log.borrow();
    assert_eq!(
        log[0],
        commands::capture_workload_cmdline("rz-abc-1").join(" "),
        "the capture exec must be the very first invocation — before `stop`: {log:?}"
    );
    assert_eq!(log[1], commands::stop("rz-abc-1").join(" "));
    let last = log.last().unwrap();
    assert!(last.starts_with("reboot "), "{last}");
    assert!(
        last.contains(
            &format!("{dest_dir}/rz-abc-1/snap_deadbeefcafedeadbeefcafedeadbeef")
        ),
        "reboot must receive the parsed artifact ref: {last}"
    );
    assert!(
        last.contains(r#"captured=Some(["redis-server", "--port", "6379"])"#),
        "reboot must receive the captured argv: {last}"
    );
}

#[test]
fn msb_checkpoint_cycle_skips_the_capture_exec_entirely_when_attempt_is_false() {
    let calls: RefCell<Vec<Vec<String>>> = RefCell::new(Vec::new());
    let dest_dir = "/tmp/rz-msb-checkpoint-cycle-no-capture";
    let result = {
        let mut invoke = |args: &[String]| {
            calls.borrow_mut().push(args.to_vec());
            if args == &commands::ls()[..] {
                return Ok(ExecResult {
                    exit_code: 0,
                    stdout: "[]".to_string(),
                    stderr: String::new(),
                });
            }
            Ok(ExecResult {
                exit_code: 0,
                stdout: fake_snapshot_create_stdout(dest_dir, "rz-abc-1"),
                stderr: String::new(),
            })
        };
        let mut reboot = |_: &str, _: Option<&[String]>| -> Result<(), RightsizeError> { Ok(()) };
        msb_checkpoint_cycle(
            &mut invoke,
            &mut reboot,
            "rz-abc-1",
            "rz-ckpt-deadbeefcafe",
            dest_dir,
            false,
        )
    };
    let (_ref, (), captured) = result.expect("happy path must succeed");
    assert_eq!(captured, None);
    assert!(
        !calls
            .borrow()
            .iter()
            .any(|c| c.first().map(String::as_str) == Some("exec")),
        "no exec call must be made when attempt_cmdline_capture is false: {:?}",
        calls.borrow()
    );
}

#[test]
fn msb_checkpoint_cycle_a_failed_capture_exec_does_not_fail_the_checkpoint() {
    let dest_dir = "/tmp/rz-msb-checkpoint-cycle-capture-fails";
    let result = {
        let mut invoke = |args: &[String]| {
            if args == &commands::capture_workload_cmdline("rz-abc-1")[..] {
                return Err(RightsizeError::Backend("exec unavailable".to_string()));
            }
            if args == &commands::ls()[..] {
                return Ok(ExecResult {
                    exit_code: 0,
                    stdout: "[]".to_string(),
                    stderr: String::new(),
                });
            }
            Ok(ExecResult {
                exit_code: 0,
                stdout: fake_snapshot_create_stdout(dest_dir, "rz-abc-1"),
                stderr: String::new(),
            })
        };
        let mut reboot = |_: &str, _: Option<&[String]>| -> Result<(), RightsizeError> { Ok(()) };
        msb_checkpoint_cycle(
            &mut invoke,
            &mut reboot,
            "rz-abc-1",
            "rz-ckpt-deadbeefcafe",
            dest_dir,
            true,
        )
    };
    let (_ref, (), captured) = result.expect("a failed capture must not fail the checkpoint");
    assert_eq!(captured, None);
}

#[test]
fn msb_checkpoint_cycle_a_capture_exiting_nonzero_or_unparseable_yields_no_captured_cmdline() {
    let dest_dir = "/tmp/rz-msb-checkpoint-cycle-capture-nonzero";
    let result = {
        let mut invoke = |args: &[String]| {
            if args == &commands::capture_workload_cmdline("rz-abc-1")[..] {
                return Ok(ExecResult {
                    exit_code: 1,
                    stdout: String::new(),
                    stderr: "no such process".to_string(),
                });
            }
            if args == &commands::ls()[..] {
                return Ok(ExecResult {
                    exit_code: 0,
                    stdout: "[]".to_string(),
                    stderr: String::new(),
                });
            }
            Ok(ExecResult {
                exit_code: 0,
                stdout: fake_snapshot_create_stdout(dest_dir, "rz-abc-1"),
                stderr: String::new(),
            })
        };
        let mut reboot = |_: &str, _: Option<&[String]>| -> Result<(), RightsizeError> { Ok(()) };
        msb_checkpoint_cycle(
            &mut invoke,
            &mut reboot,
            "rz-abc-1",
            "rz-ckpt-deadbeefcafe",
            dest_dir,
            true,
        )
    };
    let (_ref, (), captured) =
        result.expect("a nonzero capture exit must not fail the checkpoint");
    assert_eq!(captured, None);
}

#[test]
fn msb_checkpoint_cycle_snapshot_failure_leaves_the_sandbox_stopped_and_skips_rm_and_reboot() {
    let mut calls: Vec<Vec<String>> = Vec::new();
    let mut reboot_called = false;
    let result = {
        let mut invoke = |args: &[String]| {
            calls.push(args.to_vec());
            if args[0] == "snapshot" {
                Ok(ExecResult {
                    exit_code: 1,
                    stdout: String::new(),
                    stderr: "disk full".to_string(),
                })
            } else {
                Ok(ExecResult {
                    exit_code: 0,
                    stdout: String::new(),
                    stderr: String::new(),
                })
            }
        };
        let mut reboot = |_: &str, _: Option<&[String]>| -> Result<(), RightsizeError> {
            reboot_called = true;
            Ok(())
        };
        msb_checkpoint_cycle(
            &mut invoke,
            &mut reboot,
            "rz-abc-1",
            "rz-ckpt-deadbeefcafe",
            "/cache/checkpoints",
            false,
        )
    };
    let err = result.expect_err("a failed snapshot step must propagate as an error");
    let msg = err.message();
    assert!(msg.contains("disk full"), "{msg}");
    assert!(msg.contains("left stopped"), "{msg}");
    assert!(msg.contains("msb start rz-abc-1"), "{msg}");
    assert!(msg.contains("--from-sandbox"), "{msg}");
    assert_eq!(
        calls.len(),
        2,
        "a failed snapshot step must not be followed by rm: {calls:?}"
    );
    assert!(
        !reboot_called,
        "a failed snapshot step must not be followed by a reboot attempt"
    );
}

#[test]
fn msb_checkpoint_cycle_short_circuits_before_any_snapshot_rm_or_reboot_if_stop_itself_fails() {
    let mut calls: Vec<Vec<String>> = Vec::new();
    let mut reboot_called = false;
    let result = {
        let mut invoke = |args: &[String]| {
            calls.push(args.to_vec());
            Ok(ExecResult {
                exit_code: 1,
                stdout: String::new(),
                stderr: "boom".to_string(),
            })
        };
        let mut reboot = |_: &str, _: Option<&[String]>| -> Result<(), RightsizeError> {
            reboot_called = true;
            Ok(())
        };
        msb_checkpoint_cycle(
            &mut invoke,
            &mut reboot,
            "rz-abc-1",
            "rz-ckpt-deadbeefcafe",
            "/cache/checkpoints",
            false,
        )
    };
    assert!(result.is_err());
    assert_eq!(
        calls.len(),
        1,
        "a failed stop must short-circuit before any snapshot/rm/reboot attempt: {calls:?}"
    );
    assert!(!reboot_called);
}

#[test]
fn msb_checkpoint_cycle_a_successful_snapshot_create_with_unparseable_stdout_leaves_the_sandbox_stopped_and_skips_rm_and_reboot() {
    let mut calls: Vec<Vec<String>> = Vec::new();
    let mut reboot_called = false;
    let result = {
        let mut invoke = |args: &[String]| {
            calls.push(args.to_vec());
            Ok(ExecResult {
                exit_code: 0,
                stdout: "ok\n".to_string(),
                stderr: String::new(),
            })
        };
        let mut reboot = |_: &str, _: Option<&[String]>| -> Result<(), RightsizeError> {
            reboot_called = true;
            Ok(())
        };
        msb_checkpoint_cycle(
            &mut invoke,
            &mut reboot,
            "rz-abc-1",
            "rz-ckpt-deadbeefcafe",
            "/cache/checkpoints",
            false,
        )
    };
    let err = result.expect_err("unparseable snapshot-create stdout must not mint a bogus ref");
    let msg = err.message();
    assert!(msg.contains("left stopped"), "{msg}");
    assert!(msg.contains("msb start rz-abc-1"), "{msg}");
    assert!(msg.contains("ok"), "the raw stdout must be quoted: {msg}");
    assert_eq!(
        calls.len(),
        2,
        "unparseable output must not be followed by rm: {calls:?}"
    );
    assert!(!reboot_called);
}

#[test]
fn msb_checkpoint_cycle_reboot_failure_after_a_successful_snapshot_names_the_ref_and_the_recovery_path() {
    let mut calls: Vec<Vec<String>> = Vec::new();
    let dest_dir = "/tmp/rz-msb-checkpoint-cycle-reboot-failure";
    let result = {
        let mut invoke = |args: &[String]| {
            calls.push(args.to_vec());
            if args == &commands::ls()[..] {
                return Ok(ExecResult {
                    exit_code: 0,
                    stdout: "[]".to_string(),
                    stderr: String::new(),
                });
            }
            Ok(ExecResult {
                exit_code: 0,
                stdout: fake_snapshot_create_stdout(dest_dir, "rz-abc-1"),
                stderr: String::new(),
            })
        };
        let mut reboot = |_: &str, _: Option<&[String]>| -> Result<(), RightsizeError> {
            Err(RightsizeError::Backend("boom".to_string()))
        };
        msb_checkpoint_cycle(
            &mut invoke,
            &mut reboot,
            "rz-abc-1",
            "rz-ckpt-deadbeefcafe",
            dest_dir,
            false,
        )
    };
    let err = result.expect_err("a failed reboot must surface, not be swallowed");
    let msg = err.message();
    assert!(msg.contains("boom"), "{msg}");
    assert!(
        msg.contains(
            &format!("{dest_dir}/rz-abc-1/snap_deadbeefcafedeadbeefcafedeadbeef")
        ),
        "the parsed artifact ref (not the dest_dir/basename guess) must be named: {msg}"
    );
    assert!(msg.contains("Container::from_checkpoint"), "{msg}");
    assert_eq!(
        calls.len(),
        4,
        "rm and the post-rm name-release poll must still run before a reboot failure \
         surfaces: {calls:?}"
    );
    assert_eq!(calls[2], commands::rm("rz-abc-1"));
    assert_eq!(calls[3], commands::ls());
}

#[test]
fn msb_checkpoint_cycle_waits_out_a_transient_post_rm_listing_before_rebooting() {
    let ls_calls = RefCell::new(0u32);
    let mut reboot_called = false;
    let dest_dir = "/tmp/rz-msb-checkpoint-cycle-name-release-wait";
    let result = {
        let mut invoke = |args: &[String]| {
            if args == &commands::ls()[..] {
                let mut n = ls_calls.borrow_mut();
                *n += 1;
                return Ok(ExecResult {
                    exit_code: 0,
                    stdout: if *n <= 2 {
                        "[{\"name\":\"rz-abc-1\",\"status\":\"Stopped\"}]".to_string()
                    } else {
                        "[]".to_string()
                    },
                    stderr: String::new(),
                });
            }
            Ok(ExecResult {
                exit_code: 0,
                stdout: fake_snapshot_create_stdout(dest_dir, "rz-abc-1"),
                stderr: String::new(),
            })
        };
        let mut reboot = |_: &str, _: Option<&[String]>| -> Result<(), RightsizeError> {
            reboot_called = true;
            Ok(())
        };
        msb_checkpoint_cycle(
            &mut invoke,
            &mut reboot,
            "rz-abc-1",
            "rz-ckpt-deadbeefcafe",
            dest_dir,
            false,
        )
    };
    result.expect("a transient post-rm listing must not fail the checkpoint once it clears");
    assert!(
        reboot_called,
        "the reboot must still run once the name frees"
    );
    assert_eq!(
        *ls_calls.borrow(),
        3,
        "must poll `msb ls` exactly until the name first reads absent, no more"
    );
}

#[test]
fn msb_checkpoint_cycle_a_failed_or_garbled_post_rm_ls_read_is_not_treated_as_released() {
    let ls_calls = RefCell::new(0u32);
    let mut reboot_called = false;
    let dest_dir = "/tmp/rz-msb-checkpoint-cycle-garbled-ls-not-released";
    let result = {
        let mut invoke = |args: &[String]| {
            if args == &commands::ls()[..] {
                let mut n = ls_calls.borrow_mut();
                *n += 1;
                return Ok(match *n {
                    1 => ExecResult {
                        exit_code: 1,
                        stdout: "{\"name\":\"rz-a".to_string(),
                        stderr: "unexpected EOF".to_string(),
                    },
                    2 => ExecResult {
                        exit_code: 0,
                        stdout: "[{\"name\":\"rz-abc-1\",\"status\":\"Stopped\"}]".to_string(),
                        stderr: String::new(),
                    },
                    _ => ExecResult {
                        exit_code: 0,
                        stdout: "[]".to_string(),
                        stderr: String::new(),
                    },
                });
            }
            Ok(ExecResult {
                exit_code: 0,
                stdout: fake_snapshot_create_stdout(dest_dir, "rz-abc-1"),
                stderr: String::new(),
            })
        };
        let mut reboot = |_: &str, _: Option<&[String]>| -> Result<(), RightsizeError> {
            reboot_called = true;
            Ok(())
        };
        msb_checkpoint_cycle(
            &mut invoke,
            &mut reboot,
            "rz-abc-1",
            "rz-ckpt-deadbeefcafe",
            dest_dir,
            false,
        )
    };
    result
        .expect("a failed/garbled ls read must not short-circuit the wait to a false release");
    assert!(
        reboot_called,
        "the reboot must still run once a clean read confirms release"
    );
    assert_eq!(
        *ls_calls.borrow(),
        3,
        "the failed read must cost one more poll, not be read as release on poll one"
    );
}

#[test]
fn msb_checkpoint_cycle_an_exit_0_but_unparseable_ls_read_is_not_treated_as_released() {
    let ls_calls = RefCell::new(0u32);
    let mut reboot_called = false;
    let dest_dir = "/tmp/rz-msb-checkpoint-cycle-exit-0-unparseable-ls-not-released";
    let result = {
        let mut invoke = |args: &[String]| {
            if args == &commands::ls()[..] {
                let mut n = ls_calls.borrow_mut();
                *n += 1;
                return Ok(match *n {
                    1 => ExecResult {
                        exit_code: 0,
                        stdout: "msb: warming up cache...\n".to_string(),
                        stderr: String::new(),
                    },
                    _ => ExecResult {
                        exit_code: 0,
                        stdout: "[]".to_string(),
                        stderr: String::new(),
                    },
                });
            }
            Ok(ExecResult {
                exit_code: 0,
                stdout: fake_snapshot_create_stdout(dest_dir, "rz-abc-1"),
                stderr: String::new(),
            })
        };
        let mut reboot = |_: &str, _: Option<&[String]>| -> Result<(), RightsizeError> {
            reboot_called = true;
            Ok(())
        };
        msb_checkpoint_cycle(
            &mut invoke,
            &mut reboot,
            "rz-abc-1",
            "rz-ckpt-deadbeefcafe",
            dest_dir,
            false,
        )
    };
    result.expect(
        "an exit-0-but-unparseable ls read must not short-circuit the wait to a false release",
    );
    assert!(
        reboot_called,
        "the reboot must still run once a clean read confirms release"
    );
    assert_eq!(
        *ls_calls.borrow(),
        2,
        "the unparseable read must cost one more poll, not be read as release on poll one"
    );
}

#[test]
fn msb_checkpoint_cycle_a_name_that_never_frees_fails_clearly_without_rebooting() {
    let mut reboot_called = false;
    let dest_dir = "/tmp/rz-msb-checkpoint-cycle-name-never-frees";
    let result = {
        let mut invoke = |args: &[String]| {
            if args == &commands::ls()[..] {
                return Ok(ExecResult {
                    exit_code: 0,
                    stdout: "[{\"name\":\"rz-abc-1\",\"status\":\"Stopped\"}]".to_string(),
                    stderr: String::new(),
                });
            }
            Ok(ExecResult {
                exit_code: 0,
                stdout: fake_snapshot_create_stdout(dest_dir, "rz-abc-1"),
                stderr: String::new(),
            })
        };
        let mut reboot = |_: &str, _: Option<&[String]>| -> Result<(), RightsizeError> {
            reboot_called = true;
            Ok(())
        };
        msb_checkpoint_cycle(
            &mut invoke,
            &mut reboot,
            "rz-abc-1",
            "rz-ckpt-deadbeefcafe",
            dest_dir,
            false,
        )
    };
    let err =
        result.expect_err("a name that never frees must fail, not hang or silently reboot");
    let msg = err.message();
    assert!(
        msg.contains("rz-abc-1"),
        "the stuck sandbox must be named: {msg}"
    );
    assert!(
        msg.contains("Container::from_checkpoint"),
        "the snapshot's own recovery path must still be named, since it already succeeded: \
         {msg}"
    );
    assert!(
        !reboot_called,
        "the reboot must never be attempted once the release wait itself has failed"
    );
}

#[test]
fn msb_checkpoint_cycle_retries_the_reboot_on_an_already_exists_refusal_past_the_old_one_shot_budget_then_succeeds() {
    let reboot_calls = RefCell::new(0u32);
    const ALREADY_EXISTS_REFUSALS: u32 = 5;
    let dest_dir = "/tmp/rz-msb-checkpoint-cycle-reboot-already-exists";
    let result = {
        let mut invoke = |args: &[String]| {
            if args == &commands::ls()[..] {
                return Ok(ExecResult {
                    exit_code: 0,
                    stdout: "[]".to_string(),
                    stderr: String::new(),
                });
            }
            Ok(ExecResult {
                exit_code: 0,
                stdout: fake_snapshot_create_stdout(dest_dir, "rz-abc-1"),
                stderr: String::new(),
            })
        };
        let mut reboot = |_: &str, _: Option<&[String]>| -> Result<(), RightsizeError> {
            let mut n = reboot_calls.borrow_mut();
            *n += 1;
            if *n <= ALREADY_EXISTS_REFUSALS {
                return Err(RightsizeError::NameConflict {
                    message: "sandbox 'rz-abc-1' already exists".to_string(),
                });
            }
            Ok(())
        };
        msb_checkpoint_cycle_with_reboot_retry_budget(
            &mut invoke,
            &mut reboot,
            "rz-abc-1",
            "rz-ckpt-deadbeefcafe",
            dest_dir,
            false,
            200,
            1,
        )
    };
    result.expect(
        "the reboot budget must survive more already-exists refusals than the old one-shot \
         retry ever could, and still let the checkpoint succeed once they stop",
    );
    assert_eq!(
        *reboot_calls.borrow(),
        ALREADY_EXISTS_REFUSALS + 1,
        "exactly one reboot attempt per refusal, plus the one that finally succeeds"
    );
}

#[test]
fn msb_checkpoint_cycle_an_already_exists_refusal_that_never_clears_fails_clearly_once_the_budget_runs_out() {
    let reboot_calls = RefCell::new(0u32);
    let budget = 200;
    let delay = 1;
    let dest_dir = "/tmp/rz-msb-checkpoint-cycle-reboot-already-exists-forever";
    let result = {
        let mut invoke = |args: &[String]| {
            if args == &commands::ls()[..] {
                return Ok(ExecResult {
                    exit_code: 0,
                    stdout: "[]".to_string(),
                    stderr: String::new(),
                });
            }
            Ok(ExecResult {
                exit_code: 0,
                stdout: fake_snapshot_create_stdout(dest_dir, "rz-abc-1"),
                stderr: String::new(),
            })
        };
        let mut reboot = |_: &str, _: Option<&[String]>| -> Result<(), RightsizeError> {
            *reboot_calls.borrow_mut() += 1;
            Err(RightsizeError::NameConflict {
                message: "sandbox 'rz-abc-1' already exists".to_string(),
            })
        };
        msb_checkpoint_cycle_with_reboot_retry_budget(
            &mut invoke,
            &mut reboot,
            "rz-abc-1",
            "rz-ckpt-deadbeefcafe",
            dest_dir,
            false,
            budget,
            delay,
        )
    };
    let err = result.expect_err(
        "an already-exists refusal that never clears must not retry forever, nor succeed",
    );
    let msg = err.message();
    assert!(msg.contains("already exists"), "{msg}");
    assert!(msg.contains("Container::from_checkpoint"), "{msg}");
    assert!(
        *reboot_calls.borrow() > 2,
        "the budget must allow strictly more attempts than the old one-shot retry's fixed \
         two, even at this shrunk size: got {}",
        *reboot_calls.borrow()
    );
}

#[test]
fn reboot_with_already_exists_retry_also_retries_the_classified_access_denied_class() {
    let reboot_calls = RefCell::new(0u32);
    let result = {
        let mut reboot = |_: &str, _: Option<&[String]>| -> Result<(), RightsizeError> {
            let mut n = reboot_calls.borrow_mut();
            *n += 1;
            if *n == 1 {
                return Err(RightsizeError::Backend(
                    "msb restore for sandbox rz-abc-1 hit the Windows job-object \
                     access-denied transient: error: io error: Access is denied. \
                     (os error 5)"
                        .to_string(),
                ));
            }
            Ok(())
        };
        reboot_with_already_exists_retry(
            &mut reboot,
            "/fake/checkpoints/rz-ckpt-1",
            None,
            "rz-abc-1",
            200,
            1,
        )
    };
    result.expect(
        "an access-denied refusal must be retried (i.e. the candidate walk \
                    advances), not surfaced immediately",
    );
    assert_eq!(*reboot_calls.borrow(), 2);
}

#[test]
fn reboot_with_already_exists_retry_a_persistent_access_denied_class_still_fails_clearly() {
    let reboot_calls = RefCell::new(0u32);
    let budget = 150;
    let delay = 1;
    let result = {
        let mut reboot = |_: &str, _: Option<&[String]>| -> Result<(), RightsizeError> {
            *reboot_calls.borrow_mut() += 1;
            Err(RightsizeError::Backend(
                "hit the Windows job-object access-denied transient: error: io error: \
                 Access is denied. (os error 5)"
                    .to_string(),
            ))
        };
        reboot_with_already_exists_retry(
            &mut reboot,
            "/fake/checkpoints/rz-ckpt-1",
            None,
            "rz-abc-1",
            budget,
            delay,
        )
    };
    let err = result
        .expect_err("a persistent access-denied refusal must not retry forever, nor succeed");
    let msg = err.message();
    assert!(msg.contains("access-denied"), "{msg}");
    assert!(msg.contains("Container::from_checkpoint"), "{msg}");
    assert!(*reboot_calls.borrow() > 2, "{}", *reboot_calls.borrow());
}

#[test]
fn msb_import_checkpoint_cycle_happy_path_returns_the_loaded_artifact_path() {
    let artifact = "/tmp/checkpoints/msb-deadbeef/snap_b9c0448ee9d54e33b9c0448ee9d54e33";
    let mut import_calls = 0;
    let result = {
        let mut invoke_import = || {
            import_calls += 1;
            Ok(ExecResult {
                exit_code: 0,
                stdout: format!(
                    "group msb-deadbeef: head snap_b9c0448ee9d54e33b9c0448ee9d54e33 \
                     (Initialized)\ndigest: sha256:fulldigesthere\n{}\n",
                    artifact
                ),
                stderr: String::new(),
            })
        };
        msb_import_checkpoint_cycle(&mut invoke_import)
    };
    assert_eq!(
        result.unwrap(),
        artifact.to_string(),
        "the effective ref must be the loaded artifact's own absolute path — msb 0.7.1 \
         prints it directly, never a digest-dir name resolved separately via `snapshot list`"
    );
    assert_eq!(import_calls, 1);
}

#[test]
fn msb_import_checkpoint_cycle_treats_already_exists_as_success_when_stdout_has_the_path() {
    let artifact = "/tmp/checkpoints/msb-deadbeef/snap_b9c0448ee9d54e33b9c0448ee9d54e33";
    let result = {
        let mut invoke_import = || {
            Ok(ExecResult {
                exit_code: 1,
                stdout: format!(
                    "group msb-deadbeef: head snap_b9c0448ee9d54e33b9c0448ee9d54e33 \
                     (Initialized)\n{}\n",
                    artifact
                ),
                stderr: format!("error: snapshot already exists: {}", artifact),
            })
        };
        msb_import_checkpoint_cycle(&mut invoke_import)
    };
    assert_eq!(
        result.unwrap(),
        artifact.to_string(),
        "an already-exists import is success for a content-addressed archive, resolving to \
         the same artifact path a fresh import would"
    );
}

#[test]
fn msb_import_checkpoint_cycle_already_exists_falls_back_to_stderr_when_stdout_has_no_path() {
    let artifact = "/tmp/checkpoints/msb-deadbeef/snap_b9c0448ee9d54e33b9c0448ee9d54e33";
    let result = {
        let mut invoke_import = || {
            Ok(ExecResult {
                exit_code: 1,
                stdout: String::new(),
                stderr: format!("error: snapshot already exists: {}", artifact),
            })
        };
        msb_import_checkpoint_cycle(&mut invoke_import)
    };
    assert_eq!(
        result.unwrap(),
        artifact.to_string(),
        "an already-exists import with an empty stdout must still resolve the ref, parsed \
         off the \"already exists\" stderr line the same way the pre-0.7.1 `import` verb did"
    );
}

#[test]
fn msb_import_checkpoint_cycle_already_exists_with_no_path_anywhere_fails_with_a_clear_error() {
    let result = {
        let mut invoke_import = || {
            Ok(ExecResult {
                exit_code: 1,
                stdout: String::new(),
                stderr: "error: snapshot already exists: relative/looking/path".to_string(),
            })
        };
        msb_import_checkpoint_cycle(&mut invoke_import)
    };
    let err = result.expect_err(
        "an already-exists outcome with no parseable absolute path on either stream must \
         never resolve to a bogus ref",
    );
    let message = err.message();
    assert!(
        message.contains("did not end with a recognizable"),
        "{message}"
    );
}

#[test]
fn msb_import_checkpoint_cycle_a_genuine_failure_surfaces_stderr() {
    let result = {
        let mut invoke_import = || {
            Ok(ExecResult {
                exit_code: 1,
                stdout: String::new(),
                stderr: "error: corrupt archive: bad checksum".to_string(),
            })
        };
        msb_import_checkpoint_cycle(&mut invoke_import)
    };
    let err = result.expect_err("a genuine import failure must surface");
    assert!(err.message().contains("bad checksum"), "{err:?}");
}

#[test]
fn msb_import_checkpoint_cycle_garbage_stdout_fails_with_a_clear_error() {
    let result = {
        let mut invoke_import = || {
            Ok(ExecResult {
                exit_code: 0,
                stdout: "not a path, just some prose\n".to_string(),
                stderr: String::new(),
            })
        };
        msb_import_checkpoint_cycle(&mut invoke_import)
    };
    let err = result.expect_err(
        "stdout whose last line isn't an absolute path must never resolve to a ref",
    );
    let message = err.message();
    assert!(
        message.contains("did not end with a recognizable"),
        "{message}"
    );
    assert!(message.contains("not a path, just some prose"), "{message}");
}

#[test]
fn msb_import_checkpoint_cycle_blank_stdout_fails_with_a_clear_error() {
    let result = {
        let mut invoke_import = || {
            Ok(ExecResult {
                exit_code: 0,
                stdout: String::new(),
                stderr: String::new(),
            })
        };
        msb_import_checkpoint_cycle(&mut invoke_import)
    };
    result
        .expect_err("entirely blank stdout on a reported success must never resolve to a ref");
}

#[test]
fn msb_export_checkpoint_cycle_surfaces_an_unrelated_failure_without_salvaging() {
    let mut salvage_attempts = 0usize;
    let result = {
        let mut invoke_export = || {
            Ok(ExecResult {
                exit_code: 1,
                stdout: String::new(),
                stderr: "error: snapshot not found: rz-ckpt-fccd7568-archive".to_string(),
            })
        };
        let mut salvage = |_: &str| {
            salvage_attempts += 1;
            true
        };
        msb_export_checkpoint_cycle(
            &mut invoke_export,
            &mut salvage,
            "rz-ckpt-fccd7568-archive",
            "/tmp/rightsize-archive-export/artifact",
        )
    };
    let err = result.expect_err("a failure that isn't the Windows fsync bug must propagate");
    let message = err.message();
    assert!(
        message.contains("msb snapshot save rz-ckpt-fccd7568-archive"),
        "{message}"
    );
    assert!(message.contains("exit 1"), "{message}");
    assert!(
        message.contains("error: snapshot not found: rz-ckpt-fccd7568-archive"),
        "{message}"
    );
    assert_eq!(
        salvage_attempts, 0,
        "salvage is reserved for the one failure it was written for"
    );
}

#[test]
fn msb_export_checkpoint_cycle_reports_success_once_the_staging_file_is_salvaged() {
    let mut salvage_attempts = 0usize;
    let result = {
        let mut invoke_export = || {
            Ok(ExecResult {
                exit_code: 1,
                stdout: String::new(),
                stderr: WINDOWS_FSYNC_SAVE_STDERR.to_string(),
            })
        };
        let mut salvage = |_: &str| {
            salvage_attempts += 1;
            true
        };
        msb_export_checkpoint_cycle(
            &mut invoke_export,
            &mut salvage,
            "rz-ckpt-fccd7568-archive",
            "/tmp/rightsize-archive-export/artifact",
        )
    };
    result.expect("a salvaged archive is a completed export, not a failure");
    assert_eq!(salvage_attempts, 1);
}

#[test]
fn msb_export_checkpoint_cycle_surfaces_the_original_error_when_the_salvage_declines() {
    let mut salvage_attempts = 0usize;
    let result = {
        let mut invoke_export = || {
            Ok(ExecResult {
                exit_code: 1,
                stdout: String::new(),
                stderr: WINDOWS_FSYNC_SAVE_STDERR.to_string(),
            })
        };
        let mut salvage = |_: &str| {
            salvage_attempts += 1;
            false
        };
        msb_export_checkpoint_cycle(
            &mut invoke_export,
            &mut salvage,
            "rz-ckpt-fccd7568-archive",
            "/tmp/rightsize-archive-export/artifact",
        )
    };
    let message = result
        .expect_err("a declined salvage must not be reported as a successful export")
        .message();
    assert!(message.contains(WINDOWS_FSYNC_SAVE_STDERR), "{message}");
    assert_eq!(salvage_attempts, 1);
}

fn file(name: &str) -> DirEntry {
    DirEntry {
        name: Some(name.to_string()),
        is_file: true,
    }
}

#[test]
fn salvage_archive_staging_file_moves_the_single_staging_file_onto_the_destination() {
    let entries = [
        file("artifact.log"),
        file(".artifact.tmp.8980.1785507050813959600"),
        DirEntry {
            name: None,
            is_file: true,
        },
    ];
    assert_eq!(pick_staging_file("artifact", &entries), Some(1));
}

#[test]
fn salvage_archive_staging_file_reports_failure_when_there_is_no_staging_file() {
    assert_eq!(pick_staging_file("artifact", &[file("unrelated")]), None);
    assert_eq!(pick_staging_file("artifact", &[]), None);
}

#[test]
fn salvage_archive_staging_file_refuses_to_guess_between_two_staging_files() {
    let entries = [
        file(".artifact.tmp.8980.1785507050813959600"),
        file(".artifact.tmp.9042.1785507061112223344"),
    ];
    assert_eq!(pick_staging_file("artifact", &entries), None);
}

#[test]
fn salvage_archive_staging_file_ignores_a_directory_carrying_the_staging_name() {
    let entries = [DirEntry {
        name: Some(".artifact.tmp.8980.1785507050813959600".to_string()),
        is_file: false,
    }];
    assert_eq!(pick_staging_file("artifact", &entries), None);
}

#[test]
fn create_checkpoint_on_a_tmpfs_root_container_refuses_before_touching_msb() {
    let mut spec = ContainerSpec::new("rz-tmpfs-1", "alpine:3.19", "run-1");
    spec.tmpfs_root_mb = Some(64);
    assert!(matches!(
        plan_checkpoint(&spec, "rz-ckpt-1", "/cache/checkpoints", PathStyle::Unix),
        Err(RightsizeError::TmpfsRootCheckpoint)
    ));
}

#[test]
fn the_command_line_is_captured_only_where_no_command_was_given() {
    let mut spec = ContainerSpec::new("rz-1", "alpine:3.19", "run-1");
    let plan = plan_checkpoint(&spec, "b", "/d", PathStyle::Unix).expect("no tmpfs root");
    assert!(plan.capture);
    assert!(matches!(begin_cycle(&plan), CycleStage::Capture));
    spec.command = Some(vec!["true".to_string()]);
    let plan = plan_checkpoint(&spec, "b", "/d", PathStyle::Unix).expect("no tmpfs root");
    assert!(!plan.capture);
    assert_eq!((plan.name.as_str(), plan.basename.as_str()), ("rz-1", "b"));
}

#[test]
fn a_path_reference_is_looked_at_and_any_other_is_asked_about() {
    match probe_checkpoint(PathStyle::Unix, "/c/rz-ckpt-1") {
        CheckpointProbe::Look { dir } => assert_eq!(dir, "/c/rz-ckpt-1"),
        other => panic!("unexpected {other:?}"),
    }
    match probe_checkpoint(PathStyle::Unix, "rz-ckpt-1") {
        CheckpointProbe::Ask { argv } => {
            assert_eq!(argv, vec!["snapshot", "inspect", "rz-ckpt-1"]);
        }
        other => panic!("unexpected {other:?}"),
    }
}

#[test]
fn a_missing_checkpoint_is_removed_already_and_is_not_there() {
    let answer = |exit_code: i32, stderr: &str| ExecResult {
        exit_code,
        stdout: String::new(),
        stderr: stderr.to_string(),
    };
    let missing = "error: snapshot not found: rz-ckpt-1";
    let unix = PathStyle::Unix;
    assert_eq!(after_snapshot_rm(unix, "rz-ckpt-1", &answer(0, "")).unwrap(), None);
    assert_eq!(
        after_snapshot_rm(unix, "/c/rz-ckpt-1", &answer(0, "")).unwrap(),
        Some("/c/rz-ckpt-1".to_string())
    );
    assert_eq!(after_snapshot_rm(unix, "rz-ckpt-1", &answer(1, missing)).unwrap(), None);
    assert_eq!(
        after_snapshot_rm(unix, "rz-ckpt-1", &answer(1, " is the head \n")).unwrap_err().message(),
        "msb could not remove checkpoint 'rz-ckpt-1' (exit 1): is the head"
    );
    assert_eq!(after_snapshot_inspect("r", &answer(0, "")).ok(), Some(true));
    assert_eq!(after_snapshot_inspect("r", &answer(1, missing)).ok(), Some(false));
    assert_eq!(
        after_snapshot_inspect("r", &answer(2, "daemon down")).unwrap_err().message(),
        "msb could not inspect checkpoint 'r' (exit 2): daemon down"
    );
}
