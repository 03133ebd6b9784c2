//! Running `msb`: when a process is started again, waited for or killed, what its result
//! means to the caller, and the commands that a watchdog runs.

use vstd::prelude::*;
use vstd::string::*;

use crate::boot;
use crate::classify;
use crate::messages;
use crate::model::{Capabilities, ErrorView, ExecResult, RightsizeError};
use crate::refs::PathStyle;
use crate::text;

verus! {

/// How long stopping or removing may take, in seconds.
pub const STOP_TIMEOUT_SECS: u64 = 60;

/// How long a command in a guest may take, in seconds.
pub const EXEC_TIMEOUT_SECS: u64 = 120;

/// How long a look at a log or a listing may take, in seconds.
pub const LOGS_TIMEOUT_SECS: u64 = 30;

/// How long a stopped sandbox's own process may take to end, in milliseconds.
pub const ATTACHED_STOP_TIMEOUT_MS: u64 = 10_000;

/// How long a copy may take, in seconds.
pub const COPY_TIMEOUT_SECS: u64 = 300;

/// How long a step of a checkpoint may take, in seconds.
pub const CHECKPOINT_STEP_TIMEOUT_SECS: u64 = 120;

/// How long writing or reading an archive may take, in seconds.
pub const ARCHIVE_TIMEOUT_SECS: u64 = 300;

/// The error of the operating system for an executable that is open for writing.
pub const ETXTBSY: i32 = 26;

/// How often a busy executable is tried again.
pub const BUSY_RETRIES: u32 = 5;

/// How long to wait before an executable that was busy is started again, in milliseconds:
/// ten the first time, twice as long each time after. Any other error, and an executable
/// that stayed busy, is not tried again.
pub open spec fn spawn_retry_delay_spec(failed: u32, os_error: Option<i32>) -> Option<int> {
    if os_error == Some(ETXTBSY) && failed < BUSY_RETRIES {
        Some(10 * vstd::arithmetic::power2::pow2(failed as nat) as int)
    } else {
        None
    }
}

/// How long to wait before an executable is started again after so many failures, if it is
/// to be.
pub fn spawn_retry_delay(failed: u32, os_error: Option<i32>) -> (delay_ms: Option<u64>)
    ensures
        match delay_ms {
            Some(delay_ms) => spawn_retry_delay_spec(failed, os_error) == Some(delay_ms as int),
            None => spawn_retry_delay_spec(failed, os_error) is None,
        },
{
    proof {
        vstd::arithmetic::power2::lemma2_to64();
    }
    let busy = match os_error {
        Some(code) => code == ETXTBSY,
        None => false,
    };
    if !busy {
        return None;
    }
    match failed {
        0 => Some(10),
        1 => Some(20),
        2 => Some(40),
        3 => Some(80),
        4 => Some(160),
        _ => None,
    }
}

/// What is to be done about a process that is waited for.
#[derive(Clone, Copy, Debug, PartialEq, Eq, Structural)]
pub enum ChildStep {
    /// It has ended.
    Ended,
    /// It took too long: kill it.
    Kill,
    /// Wait, then look again.
    Wait,
}

/// Decides what is to be done about a process that is waited for.
pub fn child_step(ended: bool, elapsed_ms: u64, timeout_ms: u64) -> (step: ChildStep)
    ensures
        step == (if ended {
            ChildStep::Ended
        } else if elapsed_ms >= timeout_ms {
            ChildStep::Kill
        } else {
            ChildStep::Wait
        }),
{
    if ended {
        ChildStep::Ended
    } else if elapsed_ms >= timeout_ms {
        ChildStep::Kill
    } else {
        ChildStep::Wait
    }
}

/// The error of a process that could not be started.
pub fn spawn_error(args: &[String], error: &str) -> (shown: RightsizeError)
    ensures
        shown@ == ErrorView::Backend(
            messages::spawn_failed(text::join_spec(text::texts(args@), " "@), error@),
        ),
{
    RightsizeError::Backend(messages::spawn_failed_text(text::join(args, " ").as_str(), error))
}

/// The error of a process that took too long; one of the backend itself says more.
pub fn timeout_error(args: &[String], timeout_secs: u64, of_backend: bool) -> (shown:
    RightsizeError)
    ensures
        shown@ == ErrorView::Backend(
            if of_backend {
                messages::daemon_timed_out(
                    text::join_spec(text::texts(args@), " "@),
                    timeout_secs as nat,
                )
            } else {
                messages::command_timed_out(
                    text::join_spec(text::texts(args@), " "@),
                    timeout_secs as nat,
                )
            },
        ),
{
    let joined = text::join(args, " ");
    if of_backend {
        RightsizeError::Backend(messages::daemon_timed_out_text(joined.as_str(), timeout_secs))
    } else {
        RightsizeError::Backend(messages::command_timed_out_text(joined.as_str(), timeout_secs))
    }
}

/// Whether a command in a guest is to be tried again: it failed because the guest was not
/// listening yet, and there is time left.
pub open spec fn exec_again_spec(result: ExecResult, elapsed_ms: u64) -> bool {
    result.exit_code != 0 && classify::names_agent_endpoint_not_ready(result.stderr@) && elapsed_ms
        < boot::AGENT_ENDPOINT_RETRY_BUDGET_MS
}

/// Whether a command in a guest is to be tried again.
pub fn exec_again(result: &ExecResult, elapsed_ms: u64) -> (again: bool)
    ensures
        again == exec_again_spec(*result, elapsed_ms),
{
    result.exit_code != 0 && classify::is_agent_endpoint_not_ready(result.stderr.as_str())
        && elapsed_ms < boot::AGENT_ENDPOINT_RETRY_BUDGET_MS
}

/// Whether a best-effort command is to be run once more: the state database failed, as
/// either stream says.
pub fn state_db_retry(result: &Result<ExecResult, RightsizeError>) -> (again: bool)
    ensures
        again == (result matches Ok(result) && (classify::names_state_db_error(result.stdout@)
            || classify::names_state_db_error(result.stderr@))),
{
    match result {
        Ok(result) => classify::is_msb_state_db_error(result.stdout.as_str())
            || classify::is_msb_state_db_error(result.stderr.as_str()),
        Err(_) => false,
    }
}

/// Judges a copy into a sandbox.
pub fn after_copy_in(name: &str, result: &ExecResult) -> (outcome: Result<(), RightsizeError>)
    ensures
        match outcome {
            Ok(()) => result.exit_code == 0,
            Err(error) => result.exit_code != 0 && error@ == ErrorView::Backend(
                messages::copy_in_failed(
                    name@,
                    result.exit_code as int,
                    text::trim_spec(result.stderr@),
                ),
            ),
        },
{
    if result.exit_code != 0 {
        let stderr = text::trim(result.stderr.as_str());
        return Err(
            RightsizeError::Backend(
                messages::copy_in_failed_text(name, result.exit_code, stderr.as_str()),
            ),
        );
    }
    Ok(())
}

/// Judges a copy out of a sandbox.
pub fn after_copy_out(name: &str, result: &ExecResult) -> (outcome: Result<(), RightsizeError>)
    ensures
        match outcome {
            Ok(()) => result.exit_code == 0,
            Err(error) => result.exit_code != 0 && error@ == ErrorView::Backend(
                messages::copy_out_failed(
                    name@,
                    result.exit_code as int,
                    text::trim_spec(result.stderr@),
                ),
            ),
        },
{
    if result.exit_code != 0 {
        let stderr = text::trim(result.stderr.as_str());
        return Err(
            RightsizeError::Backend(
                messages::copy_out_failed_text(name, result.exit_code, stderr.as_str()),
            ),
        );
    }
    Ok(())
}

/// Judges a look at a log: its lines, or an error where the command failed.
pub fn after_logs(name: &str, result: ExecResult) -> (outcome: Result<String, RightsizeError>)
    ensures
        match outcome {
            Ok(lines) => result.exit_code == 0 && lines@ == result.stdout@,
            Err(error) => result.exit_code != 0 && error@ == ErrorView::Backend(
                messages::logs_failed(
                    name@,
                    result.exit_code as int,
                    text::trim_spec(result.stderr@),
                ),
            ),
        },
{
    if result.exit_code != 0 {
        let stderr = text::trim(result.stderr.as_str());
        return Err(
            RightsizeError::Backend(
                messages::logs_failed_text(name, result.exit_code, stderr.as_str()),
            ),
        );
    }
    Ok(result.stdout)
}

/// Judges a look at the sandboxes: the listing, or an error where the command failed.
pub fn after_ls(result: ExecResult) -> (outcome: Result<String, RightsizeError>)
    ensures
        match outcome {
            Ok(listing) => result.exit_code == 0 && listing@ == result.stdout@,
            Err(error) => result.exit_code != 0 && error@ == ErrorView::Backend(
                messages::ls_failed(result.exit_code as int, text::trim_spec(result.stderr@)),
            ),
        },
{
    if result.exit_code != 0 {
        let stderr = text::trim(result.stderr.as_str());
        return Err(
            RightsizeError::Backend(messages::ls_failed_text(result.exit_code, stderr.as_str())),
        );
    }
    Ok(result.stdout)
}

/// The name callers choose the backend by.
pub fn backend_name() -> (name: &'static str)
    ensures
        name@ == "microsandbox"@,
{
    "microsandbox"
}

/// Whether guests share a network of their own: they do not.
pub fn supports_native_networks() -> (yes: bool)
    ensures
        !yes,
{
    false
}

/// What the backend is able to do: its guests are virtual machines, and a checkpoint of one
/// is of its disk, so that its workload starts anew.
pub fn capabilities() -> (capabilities: Capabilities)
    ensures
        capabilities == (Capabilities {
            hardware_isolated: true,
            checkpoint: true,
            checkpoint_restarts_workload: true,
        }),
{
    Capabilities { hardware_isolated: true, checkpoint: true, checkpoint_restarts_workload: true }
}

/// A text as the inside of a single-quoted string of a POSIX shell: each quote ends the
/// string, stands escaped by itself, and begins the string again.
pub open spec fn shell_escaped(value: Seq<char>) -> Seq<char> {
    text::replace_char_spec(value, '\'', "'\\''"@)
}

/// A text as one word of a POSIX shell.
pub open spec fn shell_quoted(value: Seq<char>) -> Seq<char> {
    "'"@ + shell_escaped(value) + "'"@
}

/// Writes a text as one word of a POSIX shell.
pub fn shell_single_quote(value: &str) -> (quoted: String)
    ensures
        quoted@ == shell_quoted(value@),
{
    let mut quoted = "'".to_owned();
    quoted.append(text::replace_char(value, '\'', "'\\''").as_str());
    quoted.append("'");
    quoted
}

/// Where a POSIX shell is while it reads a word.
pub enum ShellState {
    /// Between quoted parts.
    Outside,
    /// In a single-quoted part.
    Quoted,
    /// Behind a backslash.
    Escaped,
    /// Past a character that was neither quoted nor escaped.
    Loose,
}

/// What a POSIX shell makes of a word, read from left to right: where it then is, and the
/// characters that the word stands for. In a single-quoted part every character stands for
/// itself up to the next quote.
pub open spec fn shell_read(word: Seq<char>) -> (ShellState, Seq<char>)
    decreases word.len(),
{
    if word.len() == 0 {
        (ShellState::Outside, Seq::empty())
    } else {
        let (state, value) = shell_read(word.drop_last());
        let c = word.last();
        match state {
            ShellState::Outside => if c == '\'' {
                (ShellState::Quoted, value)
            } else if c == '\\' {
                (ShellState::Escaped, value)
            } else {
                (ShellState::Loose, value)
            },
            ShellState::Quoted => if c == '\'' {
                (ShellState::Outside, value)
            } else {
                (ShellState::Quoted, value.push(c))
            },
            ShellState::Escaped => (ShellState::Outside, value.push(c)),
            ShellState::Loose => (ShellState::Loose, value),
        }
    }
}

/// What a shell has read of a quoted word before its last quote.
proof fn lemma_shell_read_inside(value: Seq<char>)
    ensures
        shell_read("'"@ + shell_escaped(value)) == (ShellState::Quoted, value),
    decreases value.len(),
{
    reveal_strlit("'");
    reveal_strlit("'\\''");
    let read = "'"@ + shell_escaped(value);
    if value.len() == 0 {
        assert(value =~= Seq::empty());
        assert(read.drop_last() =~= Seq::empty());
        assert(shell_read(read.drop_last()) == (ShellState::Outside, value));
        assert(read.last() == '\'');
    } else {
        let before = value.drop_last();
        let head = "'"@ + shell_escaped(before);
        lemma_shell_read_inside(before);
        if value.last() == '\'' {
            let one = head.push('\'');
            let two = one.push('\\');
            let three = two.push('\'');
            assert(one.drop_last() =~= head);
            assert(two.drop_last() =~= one);
            assert(three.drop_last() =~= two);
            assert(read =~= three.push('\''));
            assert(read.drop_last() =~= three);
            assert(shell_read(one) == (ShellState::Outside, before));
            assert(shell_read(two) == (ShellState::Escaped, before));
            assert(shell_read(three) == (ShellState::Outside, before.push('\'')));
        } else {
            assert(read.drop_last() =~= head);
        }
        assert(before.push(value.last()) =~= value);
    }
}

/// A POSIX shell reads a quoted word as the text that was quoted: no character of it stands
/// outside the quotes, and the last quote ends the word.
pub proof fn law_shell_quoting_is_undone(value: Seq<char>)
    ensures
        shell_read(shell_quoted(value)) == (ShellState::Outside, value),
{
    reveal_strlit("'");
    lemma_shell_read_inside(value);
    let word = shell_quoted(value);
    assert(word.drop_last() =~= "'"@ + shell_escaped(value));
    assert(word.last() == '\'');
}

/// The shell script that stops and removes the sandbox it is given, each tried once more where
/// the state database failed.
pub open spec fn unix_kill_script(msb: Seq<char>) -> Seq<char> {
    "try() { out=$(\"$@\" 2>&1); case \"$out\" in *'error: database error:'*) sleep 0.5; \"$@\" >/dev/null 2>&1 ;; esac; }; try "@
        + msb + " stop \"$1\"; try "@ + msb + " rm \"$1\""@
}

/// The shell script that stops and removes the sandbox it is given, each tried once more where
/// the state database failed.
fn unix_kill_script_text(msb: &str) -> (script: String)
    ensures
        script@ == unix_kill_script(msb@),
{
    let mut script = "try() { out=$(\"$@\" 2>&1); case \"$out\" in *'error: database error:'*) sleep 0.5; \"$@\" >/dev/null 2>&1 ;; esac; }; try ".to_owned();
    script.append(msb);
    script.append(" stop \"$1\"; try ");
    script.append(msb);
    script.append(" rm \"$1\"");
    script
}

/// The PowerShell script that stops and removes the sandbox it is given, each tried once more
/// where the state database failed.
pub open spec fn windows_kill_script(msb: Seq<char>) -> Seq<char> {
    "$m = '"@ + msb
        + "'; function Try-Cmd($a) { $o = & $m $a $args[0] 2>&1 | Out-String; if ($o -match 'error: database error:') { Start-Sleep -Milliseconds 500; & $m $a $args[0] | Out-Null } }; Try-Cmd 'stop'; Try-Cmd 'rm'"@
}

/// The PowerShell script that stops and removes the sandbox it is given, each tried once more
/// where the state database failed.
fn windows_kill_script_text(msb: &str) -> (script: String)
    ensures
        script@ == windows_kill_script(msb@),
{
    let mut script = "$m = '".to_owned();
    script.append(msb);
    script.append("'; function Try-Cmd($a) { $o = & $m $a $args[0] 2>&1 | Out-String; if ($o -match 'error: database error:') { Start-Sleep -Milliseconds 500; & $m $a $args[0] | Out-Null } }; Try-Cmd 'stop'; Try-Cmd 'rm'");
    script
}

/// The command by which a watchdog stops and removes a sandbox, which it is given as one
/// more argument.
pub open spec fn kill_command(style: PathStyle, msb: Seq<char>) -> Seq<Seq<char>> {
    match style {
        PathStyle::Unix => seq!["sh"@, "-c"@, unix_kill_script(shell_quoted(msb)), "sh"@],
        PathStyle::Windows => seq![
            "powershell"@,
            "-NoProfile"@,
            "-NonInteractive"@,
            "-Command"@,
            windows_kill_script(crate::broker::single_quote_escaped(msb)),
        ],
    }
}

/// The command by which a watchdog stops and removes a sandbox.
pub fn watchdog_kill_script(style: PathStyle, msb: &str) -> (command: Vec<String>)
    ensures
        text::texts(command@) == kill_command(style, msb@),
{
    let mut command: Vec<String> = Vec::new();
    match style {
        PathStyle::Unix => {
            let quoted = shell_single_quote(msb);
            let script = unix_kill_script_text(quoted.as_str());
            command.push("sh".to_owned());
            command.push("-c".to_owned());
            command.push(script);
            command.push("sh".to_owned());
        },
        PathStyle::Windows => {
            let escaped = crate::broker::powershell_single_quote_escape(msb);
            let script = windows_kill_script_text(escaped.as_str());
            command.push("powershell".to_owned());
            command.push("-NoProfile".to_owned());
            command.push("-NonInteractive".to_owned());
            command.push("-Command".to_owned());
            command.push(script);
        },
    }
    assert(text::texts(command@) =~= kill_command(style, msb@));
    command
}

/// An executable that is busy is started again five times, after ten milliseconds first and
/// twice as long each time; an executable that stayed busy, and one that failed otherwise, is
/// not.
pub proof fn law_a_busy_executable_is_tried_five_times(failed: u32, os_error: Option<i32>)
    ensures
        spawn_retry_delay_spec(0, Some(26)) == Some(10int),
        spawn_retry_delay_spec(1, Some(26)) == Some(20int),
        spawn_retry_delay_spec(2, Some(26)) == Some(40int),
        spawn_retry_delay_spec(3, Some(26)) == Some(80int),
        spawn_retry_delay_spec(4, Some(26)) == Some(160int),
        failed >= 5 ==> spawn_retry_delay_spec(failed, os_error) is None,
        os_error != Some(26i32) ==> spawn_retry_delay_spec(failed, os_error) is None,
{
    vstd::arithmetic::power2::lemma2_to64();
}

/// A command in a guest is tried again exactly where it failed, its error output tells of an
/// agent that cannot be connected to, and thirty seconds have not passed.
pub proof fn law_a_guest_has_thirty_seconds_to_listen(result: ExecResult, elapsed_ms: u64)
    ensures
        exec_again_spec(result, elapsed_ms) <==> result.exit_code != 0 && text::contains_text(
            result.stderr@,
            "agent client error"@,
        ) && text::contains_text(result.stderr@, "connect"@) && elapsed_ms < 30_000,
{
    classify::law_failures_told_by_two_parts(result.stderr@);
    classify::law_no_failure_without_its_words(result.stderr@);
}

/// On Unix a watchdog runs a script of the POSIX shell in which the binary stands as one word,
/// whatever characters its path has, first before `stop` and then before `rm`; both are given
/// the argument of the script.
pub proof fn law_a_unix_watchdog_stops_and_removes(msb: Seq<char>)
    ensures
        ({
            let command = kill_command(PathStyle::Unix, msb);
            let word = "'"@ + text::replace_char_spec(msb, '\'', "'\\''"@) + "'"@;
            &&& command.len() == 4
            &&& command[0] == "sh"@ && command[1] == "-c"@ && command[3] == "sh"@
            &&& shell_read(word) == (ShellState::Outside, msb)
            &&& exists|before: Seq<char>|
                command[2] == #[trigger] (before + ("; try "@ + word + " stop \"$1\"; try "@ + word
                    + " rm \"$1\""@))
            &&& text::contains_text(command[2], "'error: database error:'"@)
        }),
{
    let command = kill_command(PathStyle::Unix, msb);
    let word = shell_quoted(msb);
    law_shell_quoting_is_undone(msb);
    reveal_strlit(
        "try() { out=$(\"$@\" 2>&1); case \"$out\" in *'error: database error:'*) sleep 0.5; \"$@\" >/dev/null 2>&1 ;; esac; }; try ",
    );
    reveal_strlit("; try ");
    reveal_strlit("'error: database error:'");
    let script = unix_kill_script(word);
    let opening = "try() { out=$(\"$@\" 2>&1); case \"$out\" in *'error: database error:'*) sleep 0.5; \"$@\" >/dev/null 2>&1 ;; esac; }; try "@;
    let size = opening.len() as int;
    let before = opening.take(size - 6);
    assert(opening =~= before + "; try "@);
    let rest = "; try "@ + word + " stop \"$1\"; try "@ + word + " rm \"$1\""@;
    assert(script =~= before + rest);
    assert(command[2] == before + rest);
    assert(script.subrange(42, 66) =~= "'error: database error:'"@);
    assert(text::occurs_at(script, "'error: database error:'"@, 42));
}

/// On Windows a watchdog runs a script of PowerShell in which the binary stands inside single
/// quotes, each quote of its path doubled, and which stops and then removes.
pub proof fn law_a_windows_watchdog_stops_and_removes(msb: Seq<char>)
    ensures
        ({
            let command = kill_command(PathStyle::Windows, msb);
            &&& command.len() == 5
            &&& command[0] == "powershell"@ && command[1] == "-NoProfile"@
            &&& command[2] == "-NonInteractive"@ && command[3] == "-Command"@
            &&& exists|script: Seq<char>|
                command[4] == #[trigger] ("$m = '"@ + text::replace_char_spec(msb, '\'', "''"@)
                    + "'; "@ + script)
            &&& text::contains_text(command[4], "Try-Cmd 'stop'; Try-Cmd 'rm'"@)
            &&& text::contains_text(command[4], "'error: database error:'"@)
        }),
{
    let command = kill_command(PathStyle::Windows, msb);
    reveal_strlit(
        "'; function Try-Cmd($a) { $o = & $m $a $args[0] 2>&1 | Out-String; if ($o -match 'error: database error:') { Start-Sleep -Milliseconds 500; & $m $a $args[0] | Out-Null } }; Try-Cmd 'stop'; Try-Cmd 'rm'",
    );
    reveal_strlit("'; ");
    reveal_strlit("Try-Cmd 'stop'; Try-Cmd 'rm'");
    reveal_strlit("'error: database error:'");
    let tail = "'; function Try-Cmd($a) { $o = & $m $a $args[0] 2>&1 | Out-String; if ($o -match 'error: database error:') { Start-Sleep -Milliseconds 500; & $m $a $args[0] | Out-Null } }; Try-Cmd 'stop'; Try-Cmd 'rm'"@;
    let head = "$m = '"@ + text::replace_char_spec(msb, '\'', "''"@);
    let script = tail.skip(3);
    assert(tail =~= "'; "@ + script);
    assert(command[4] =~= head + "'; "@ + script);
    let size = tail.len() as int;
    let ending = size - 28;
    assert(tail.subrange(ending, size) =~= "Try-Cmd 'stop'; Try-Cmd 'rm'"@);
    assert(text::occurs_at(tail, "Try-Cmd 'stop'; Try-Cmd 'rm'"@, ending));
    assert(tail.subrange(81, 105) =~= "'error: database error:'"@);
    assert(text::occurs_at(tail, "'error: database error:'"@, 81));
    text::lemma_contains_in_larger(
        head,
        tail,
        Seq::empty(),
        "Try-Cmd 'stop'; Try-Cmd 'rm'"@,
    );
    text::lemma_contains_in_larger(head, tail, Seq::empty(), "'error: database error:'"@);
    assert(command[4] =~= head + tail + Seq::<char>::empty());
}

} // verus!
