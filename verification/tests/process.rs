//! Running `msb`, and the tunnel of a link.

use rightsize_msb::exec_tunnel::{
    listener_command, pump_step, read_timeout_ms, respawn_delay, serve_step, PumpEvent, PumpStep,
    ReadOutcome,
    ServeAction, ServeEvent,
};
use rightsize_msb::model::{Capabilities, ExecResult, RightsizeError};
use rightsize_msb::process::{
    after_copy_in, after_copy_out, after_logs, after_ls, backend_name, capabilities, child_step,
    exec_again, shell_single_quote, spawn_error, spawn_retry_delay, state_db_retry,
    supports_native_networks, timeout_error, watchdog_kill_script, ChildStep,
};
use rightsize_msb::refs::PathStyle;

fn result(exit_code: i32, stdout: &str, stderr: &str) -> ExecResult {
    ExecResult {
        exit_code,
        stdout: stdout.to_string(),
        stderr: stderr.to_string(),
    }
}

#[test]
fn capabilities_report_hardware_isolation_and_checkpoint_that_restarts_the_workload() {
    assert_eq!(
        capabilities(),
        Capabilities {
            hardware_isolated: true,
            checkpoint: true,
            checkpoint_restarts_workload: true,
        }
    );
    assert_eq!(backend_name(), "microsandbox");
    assert!(!supports_native_networks());
}

#[test]
fn watchdog_kill_command_wraps_stop_then_rm_with_a_retry_on_state_db_error() {
    let cmd = watchdog_kill_script(PathStyle::Unix, "/opt/msb/bin/msb");
    assert_eq!(cmd[0], "sh");
    assert_eq!(cmd[1], "-c");
    let script = &cmd[2];
    assert!(script.contains("/opt/msb/bin/msb"), "{script}");
    assert!(script.contains("stop"), "{script}");
    assert!(script.contains("rm"), "{script}");
    assert!(script.contains("error: database error:"), "{script}");
    assert_eq!(cmd[3], "sh");
    assert_eq!(
        script,
        "try() { out=$(\"$@\" 2>&1); case \"$out\" in *'error: database error:'*) sleep 0.5; \"$@\" >/dev/null 2>&1 ;; esac; }; try '/opt/msb/bin/msb' stop \"$1\"; try '/opt/msb/bin/msb' rm \"$1\""
    );
}

#[test]
fn the_watchdog_of_windows_uses_powershell() {
    let cmd = watchdog_kill_script(PathStyle::Windows, "C:\\it's\\msb.exe");
    assert_eq!(
        cmd,
        vec![
            "powershell",
            "-NoProfile",
            "-NonInteractive",
            "-Command",
            "$m = 'C:\\it''s\\msb.exe'; function Try-Cmd($a) { $o = & $m $a $args[0] 2>&1 | Out-String; if ($o -match 'error: database error:') { Start-Sleep -Milliseconds 500; & $m $a $args[0] | Out-Null } }; Try-Cmd 'stop'; Try-Cmd 'rm'",
        ]
    );
}

#[test]
fn shell_single_quote_escapes_an_embedded_single_quote() {
    assert_eq!(shell_single_quote("it's"), "'it'\\''s'");
}

#[test]
fn a_busy_executable_is_tried_again_and_nothing_else_is() {
    let delays: Vec<Option<u64>> = (0..7).map(|n| spawn_retry_delay(n, Some(26))).collect();
    assert_eq!(
        delays,
        vec![Some(10), Some(20), Some(40), Some(80), Some(160), None, None]
    );
    assert_eq!(spawn_retry_delay(0, Some(2)), None);
    assert_eq!(spawn_retry_delay(0, None), None);
}

#[test]
fn processes_are_waited_for_until_their_time_is_up() {
    assert_eq!(child_step(true, 99, 10), ChildStep::Ended);
    assert_eq!(child_step(false, 9, 10), ChildStep::Wait);
    assert_eq!(child_step(false, 10, 10), ChildStep::Kill);
    let args = ["ls".to_string(), "--format".to_string()];
    assert_eq!(
        spawn_error(&args, "not found").message(),
        "failed to spawn msb ls --format: not found"
    );
    assert_eq!(
        timeout_error(&args, 60, false).message(),
        "msb ls --format timed out after 60s and was force-killed"
    );
    assert_eq!(
        timeout_error(&args, 60, true).message(),
        "msb ls --format timed out after 60s and was force-killed — the msb daemon may be overloaded or unresponsive; retry, or check `msb` directly"
    );
}

#[test]
fn a_command_is_tried_again_only_while_the_guest_is_not_listening() {
    let early = "error: agent client error: connect /run/x.sock: No such file";
    assert!(exec_again(&result(1, "", early), 29_999));
    assert!(!exec_again(&result(1, "", early), 30_000));
    assert!(!exec_again(&result(0, "", early), 0));
    assert!(!exec_again(&result(1, "", "cat: x: No such file"), 0));
}

#[test]
fn invoke_retrying_on_state_db_error_retries_exactly_once_on_a_db_error() {
    let failure = "error: database error: Execution Error: index idx already exists";
    assert!(state_db_retry(&Ok(result(1, "", failure))));
    assert!(state_db_retry(&Ok(result(0, failure, ""))));
}

#[test]
fn invoke_retrying_on_state_db_error_does_not_retry_on_a_clean_success() {
    assert!(!state_db_retry(&Ok(result(0, "", ""))));
    assert!(!state_db_retry(&Err(RightsizeError::Backend(
        "error: database error:".to_string()
    ))));
}

#[test]
fn failed_copies_and_looks_say_what_failed() {
    assert!(after_copy_in("a", &result(0, "", "x")).is_ok());
    assert_eq!(
        after_copy_in("a", &result(2, "", " gone \n")).unwrap_err().message(),
        "msb copy into sandbox a failed (exit 2): gone"
    );
    assert!(after_copy_out("a", &result(0, "", "x")).is_ok());
    assert_eq!(
        after_copy_out("a", &result(-1, "", "gone")).unwrap_err().message(),
        "msb copy out of sandbox a failed (exit -1): gone"
    );
    assert_eq!(after_logs("a", result(0, "lines", "")).unwrap(), "lines");
    assert_eq!(
        after_logs("a", result(1, "", "no\n")).unwrap_err().message(),
        "msb logs a --tail 1000 exited 1: no"
    );
    assert_eq!(after_ls(result(0, "[]", "")).unwrap(), "[]");
    assert_eq!(
        after_ls(result(1, "", "no\n")).unwrap_err().message(),
        "msb ls --format json exited 1: no"
    );
}

/// Relays reads until the pump says to stop; gives the bytes that were flushed and the times
/// allowed.
fn relay(reads: &[(ReadOutcome, &[u8])]) -> (Vec<u8>, Vec<u64>) {
    let mut written: Vec<u8> = Vec::new();
    let mut flushed = Vec::new();
    let mut saw_data = false;
    let mut allowed = vec![read_timeout_ms(saw_data)];
    let mut next = 0;
    let mut event = PumpEvent::Read(reads[next].0);
    loop {
        event = match pump_step(event, saw_data) {
            PumpStep::Stop => return (flushed, allowed),
            PumpStep::Write { count, tighten } => {
                if tighten {
                    saw_data = true;
                    allowed.push(read_timeout_ms(saw_data));
                }
                written.extend_from_slice(&reads[next].1[..count]);
                PumpEvent::Written(true)
            }
            PumpStep::Flush => {
                flushed.append(&mut written);
                PumpEvent::Flushed(true)
            }
            PumpStep::Read => {
                assert!(written.is_empty(), "a read came before the flush");
                next += 1;
                PumpEvent::Read(reads[next].0)
            }
        };
    }
}

#[test]
fn pump_relays_bytes_until_eof() {
    let (out, _) = relay(&[
        (ReadOutcome::Data(5), b"hello"),
        (ReadOutcome::Data(6), b" world"),
        (ReadOutcome::Data(0), b""),
        (ReadOutcome::Data(4), b"more"),
    ]);
    assert_eq!(out, b"hello world");
}

#[test]
fn pump_on_an_empty_source_writes_nothing() {
    let (out, _) = relay(&[(ReadOutcome::Data(0), b"")]);
    assert!(out.is_empty());
}

#[test]
fn pump_with_idle_timeout_tightens_the_window_after_the_first_byte() {
    let (out, allowed) = relay(&[
        (ReadOutcome::Data(1), b"a"),
        (ReadOutcome::Data(1), b"b"),
        (ReadOutcome::TimedOut, b""),
    ]);
    assert_eq!(out, b"ab");
    assert_eq!(allowed, vec![10_000, 500]);
    assert_eq!(
        pump_step(PumpEvent::Read(ReadOutcome::Failed), true),
        PumpStep::Stop
    );
}

#[test]
fn what_was_read_is_written_and_flushed_before_the_next_read() {
    assert_eq!(
        pump_step(PumpEvent::Read(ReadOutcome::Data(7)), true),
        PumpStep::Write { count: 7, tighten: false }
    );
    assert_eq!(
        pump_step(PumpEvent::Read(ReadOutcome::Data(7)), false),
        PumpStep::Write { count: 7, tighten: true }
    );
    assert_eq!(pump_step(PumpEvent::Written(true), true), PumpStep::Flush);
    assert_eq!(pump_step(PumpEvent::Flushed(true), true), PumpStep::Read);
    assert_eq!(pump_step(PumpEvent::Written(false), true), PumpStep::Stop);
    assert_eq!(pump_step(PumpEvent::Flushed(false), true), PumpStep::Stop);
}

#[test]
fn a_listener_that_served_nobody_is_started_again_after_a_pause() {
    assert_eq!(respawn_delay(false, false), Some(200));
    assert_eq!(respawn_delay(false, true), None);
    assert_eq!(respawn_delay(true, false), None);
    assert_eq!(listener_command(6379), vec!["nc", "-l", "-p", "6379"]);
}

#[test]
fn one_connection_at_a_time_is_served() {
    let idle = ServeAction::End { kill: true, served: false };
    assert_eq!(serve_step(ServeEvent::FirstRead(0)), idle);
    assert_eq!(serve_step(ServeEvent::FirstRead(1)), ServeAction::Connect);
    assert_eq!(serve_step(ServeEvent::ConnectFailed), idle);
    assert_eq!(
        serve_step(ServeEvent::FirstReadFailed),
        ServeAction::End { kill: false, served: false }
    );
    assert_eq!(serve_step(ServeEvent::Connected), ServeAction::Relay);
    let checked = |finished: bool, elapsed_ms: u64| {
        serve_step(ServeEvent::GuestChecked { finished, elapsed_ms })
    };
    let done = ServeAction::End { kill: true, served: true };
    assert_eq!(checked(true, 0), done);
    assert_eq!(checked(false, 1_999), ServeAction::Wait);
    assert_eq!(checked(false, 2_000), done);
}
