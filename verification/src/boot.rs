//! Booting a sandbox: what each observation means, and which failed attempts are tried
//! again. The functions here decide; whoever calls them starts processes, waits and reads.

use vstd::prelude::*;
use vstd::string::*;

use crate::classify;
use crate::commands;
use crate::ls_json;
use crate::ls_json::LsEntry;
use crate::message_laws;
use crate::messages;
use crate::model;
use crate::model::{ContainerSpec, ErrorView, ExecResult, RightsizeError};
use crate::text;

verus! {

/// How long a boot may take, in seconds.
pub const FIRST_RUN_TIMEOUT_SECS: u64 = 600;

/// How long a boot may take, in milliseconds.
pub const FIRST_RUN_TIMEOUT_MS: u64 = 600_000;

/// How long to wait between two looks at a booting sandbox, in milliseconds.
pub const READINESS_POLL_MS: u64 = 300;

/// How long the agent of a guest may take to listen, in milliseconds.
pub const AGENT_ENDPOINT_RETRY_BUDGET_MS: u64 = 30_000;

/// How long to wait before the agent of a guest is tried again, in milliseconds.
pub const AGENT_ENDPOINT_RETRY_DELAY_MS: u64 = 250;

/// How long a revived workload is watched for an early end, in milliseconds.
pub const WORKLOAD_EXEC_EARLY_EXIT_GRACE_MS: u64 = 300;

/// How long to wait before a restore that was denied access is tried again.
pub const RESTORE_ACCESS_DENIED_RETRY_DELAY_MS: u64 = 500;

/// How long to wait before a failure of the state database is tried again.
pub const STATE_DB_RETRY_DELAY_MS: u64 = 500;

/// How long the install lock of `msb` is waited out, in seconds.
pub const INSTALL_LOCK_RETRY_BUDGET_SECS: u64 = 30;

/// How long the install lock of `msb` is waited out, in milliseconds.
pub const INSTALL_LOCK_RETRY_BUDGET_MS: u64 = 30_000;

/// How long to wait between two attempts while the install lock is held.
pub const INSTALL_LOCK_RETRY_DELAY_MS: u64 = 2_000;

/// The command that boots a sandbox.
#[derive(Clone, Copy, Debug, PartialEq, Eq, Structural)]
pub enum BootVerb {
    /// `msb run`, which stays attached to the sandbox.
    Run,
    /// `msb restore`, which starts the sandbox and ends.
    Restore,
}

/// The name of the command.
pub open spec fn verb_name(verb: BootVerb) -> Seq<char> {
    match verb {
        BootVerb::Run => "run"@,
        BootVerb::Restore => "restore"@,
    }
}

/// The name of the command.
fn verb_text(verb: BootVerb) -> (name: &'static str)
    ensures
        name@ == verb_name(verb),
{
    match verb {
        BootVerb::Run => "run",
        BootVerb::Restore => "restore",
    }
}

/// The command that boots a container: a checkpoint is restored, an image is run.
pub fn boot_verb(spec: &ContainerSpec) -> (verb: BootVerb)
    ensures
        verb == (if spec.checkpoint_ref is Some {
            BootVerb::Restore
        } else {
            BootVerb::Run
        }),
{
    if spec.checkpoint_ref.is_some() {
        BootVerb::Restore
    } else {
        BootVerb::Run
    }
}

/// Why a boot failed before the sandbox was running.
#[derive(Clone, Debug)]
pub enum PreRunningFailure {
    /// A layer of the image is missing from the cache.
    CacheCorruption { output: String },
    /// The state database of `msb` failed.
    StateDbError { output: String },
    /// An install operation of `msb` is under way.
    InstallLockActive { output: String },
    /// A restore was denied access.
    RestoreAccessDenied { output: String },
    /// Anything else, ready to be handed to the caller.
    Other(RightsizeError),
}

/// The contents of a [`PreRunningFailure`].
pub enum FailureView {
    CacheCorruption(Seq<char>),
    StateDbError(Seq<char>),
    InstallLockActive(Seq<char>),
    RestoreAccessDenied(Seq<char>),
    Other(ErrorView),
}

impl View for PreRunningFailure {
    type V = FailureView;

    open spec fn view(&self) -> FailureView {
        match self {
            PreRunningFailure::CacheCorruption { output } => FailureView::CacheCorruption(output@),
            PreRunningFailure::StateDbError { output } => FailureView::StateDbError(output@),
            PreRunningFailure::InstallLockActive { output } => FailureView::InstallLockActive(
                output@,
            ),
            PreRunningFailure::RestoreAccessDenied { output } => FailureView::RestoreAccessDenied(
                output@,
            ),
            PreRunningFailure::Other(error) => FailureView::Other(error@),
        }
    }
}

/// A failure that is a backend error.
pub open spec fn backend_failure(message: Seq<char>) -> FailureView {
    FailureView::Other(ErrorView::Backend(message))
}

/// A failure that is a backend error.
fn other_backend(message: String) -> (failure: PreRunningFailure)
    ensures
        failure@ == backend_failure(message@),
{
    PreRunningFailure::Other(RightsizeError::Backend(message))
}

/// The failure that the output of a boot command names, if it names one. The order
/// matters: the first that is named is taken. Only a restore can be denied access.
pub open spec fn signature_of(verb: BootVerb, name: Seq<char>, output: Seq<char>) -> Option<
    FailureView,
> {
    if classify::names_image_cache_corruption(output) {
        Some(FailureView::CacheCorruption(output))
    } else if classify::names_state_db_error(output) {
        Some(FailureView::StateDbError(output))
    } else if classify::names_install_lock_active(output) {
        Some(FailureView::InstallLockActive(output))
    } else if verb == BootVerb::Restore && classify::names_restore_access_denied(output) {
        Some(FailureView::RestoreAccessDenied(output))
    } else if classify::names_port_bind_conflict(text::lowercased(output)) {
        Some(
            FailureView::Other(
                ErrorView::PortBindConflict(messages::port_taken(verb_name(verb), name, output)),
            ),
        )
    } else if classify::names_name_conflict(text::lowercased(output)) {
        Some(
            FailureView::Other(
                ErrorView::NameConflict(messages::name_taken(verb_name(verb), name, output)),
            ),
        )
    } else {
        None
    }
}

/// The contents of an optional failure.
pub open spec fn failure_option(failure: Option<PreRunningFailure>) -> Option<FailureView> {
    match failure {
        Some(failure) => Some(failure@),
        None => None,
    }
}

/// The failure that the output of a boot command names, if it names one.
pub fn classify_exit(verb: BootVerb, name: &str, output: &str) -> (failure: Option<
    PreRunningFailure,
>)
    ensures
        failure_option(failure) == signature_of(verb, name@, output@),
{
    if classify::is_image_cache_corruption(output) {
        return Some(PreRunningFailure::CacheCorruption { output: output.to_owned() });
    }
    if classify::is_msb_state_db_error(output) {
        return Some(PreRunningFailure::StateDbError { output: output.to_owned() });
    }
    if classify::is_msb_install_lock_active(output) {
        return Some(PreRunningFailure::InstallLockActive { output: output.to_owned() });
    }
    if verb == BootVerb::Restore && classify::is_restore_access_denied(output) {
        return Some(PreRunningFailure::RestoreAccessDenied { output: output.to_owned() });
    }
    if classify::is_port_bind_conflict(output) {
        let message = messages::port_taken_text(verb_text(verb), name, output);
        return Some(PreRunningFailure::Other(RightsizeError::PortBindConflict { message }));
    }
    if classify::is_name_conflict(output) {
        let message = messages::name_taken_text(verb_text(verb), name, output);
        return Some(PreRunningFailure::Other(RightsizeError::NameConflict { message }));
    }
    None
}

/// The exit code of a process; `-1` where a signal ended it.
pub open spec fn exit_code_or_minus_one(code: Option<i32>) -> int {
    match code {
        Some(code) => code as int,
        None => -1,
    }
}

/// The exit code of a process; `-1` where a signal ended it.
pub fn exit_code(code: Option<i32>) -> (shown: i32)
    ensures
        shown == exit_code_or_minus_one(code),
{
    match code {
        Some(code) => code,
        None => -1,
    }
}

/// What was seen of an attached `msb run`.
#[derive(Clone, Debug)]
pub enum RunEvent {
    /// It ended; the last lines of its output are here.
    Exited { success: bool, code: Option<i32>, output: String },
    /// It ended well, and whether its workload had run to completion was looked up.
    CompletionChecked { completed: bool, code: Option<i32>, output: String },
    /// It is still there; whether the sandbox is listed as running, and the time so far.
    Polled { running: bool, elapsed_ms: u64 },
    /// It took too long and was killed.
    Killed { output: String },
}

/// What is to be done about an attached `msb run`.
#[derive(Clone, Debug)]
pub enum RunAction {
    /// The sandbox is up, or its workload is done.
    Booted,
    /// The attempt failed.
    Fail(PreRunningFailure),
    /// Look up whether the workload ran to completion.
    CheckCompletion,
    /// Wait, then look again.
    Wait,
    /// Kill it.
    Kill,
}

/// The contents of a [`RunAction`].
pub enum RunActionView {
    Booted,
    Fail(FailureView),
    CheckCompletion,
    Wait,
    Kill,
}

impl View for RunAction {
    type V = RunActionView;

    open spec fn view(&self) -> RunActionView {
        match self {
            RunAction::Booted => RunActionView::Booted,
            RunAction::Fail(failure) => RunActionView::Fail(failure@),
            RunAction::CheckCompletion => RunActionView::CheckCompletion,
            RunAction::Wait => RunActionView::Wait,
            RunAction::Kill => RunActionView::Kill,
        }
    }
}

/// What is to be done about an attached `msb run`. A failure that its output names comes
/// first; one that ended well without naming a failure may have done its work already.
pub open spec fn run_step_spec(name: Seq<char>, event: RunEvent) -> RunActionView {
    match event {
        RunEvent::Exited { success, code, output } => match signature_of(
            BootVerb::Run,
            name,
            output@,
        ) {
            Some(failure) => RunActionView::Fail(failure),
            None => if success {
                RunActionView::CheckCompletion
            } else {
                RunActionView::Fail(
                    backend_failure(
                        messages::run_exited(name, exit_code_or_minus_one(code), output@),
                    ),
                )
            },
        },
        RunEvent::CompletionChecked { completed, code, output } => if completed {
            RunActionView::Booted
        } else {
            RunActionView::Fail(
                backend_failure(messages::run_exited(name, exit_code_or_minus_one(code), output@)),
            )
        },
        RunEvent::Polled { running, elapsed_ms } => if running {
            RunActionView::Booted
        } else if elapsed_ms >= FIRST_RUN_TIMEOUT_MS {
            RunActionView::Kill
        } else {
            RunActionView::Wait
        },
        RunEvent::Killed { output } => RunActionView::Fail(
            backend_failure(
                messages::run_timed_out(name, FIRST_RUN_TIMEOUT_SECS as nat, output@),
            ),
        ),
    }
}

/// Decides what is to be done about an attached `msb run`.
pub fn run_step(name: &str, event: &RunEvent) -> (action: RunAction)
    ensures
        action@ == run_step_spec(name@, *event),
{
    match event {
        RunEvent::Exited { success, code, output } => {
            match classify_exit(BootVerb::Run, name, output.as_str()) {
                Some(failure) => RunAction::Fail(failure),
                None => {
                    if *success {
                        RunAction::CheckCompletion
                    } else {
                        let shown: i32 = exit_code(*code);
                        RunAction::Fail(
                            other_backend(messages::run_exited_text(name, shown, output.as_str())),
                        )
                    }
                },
            }
        },
        RunEvent::CompletionChecked { completed, code, output } => {
            if *completed {
                RunAction::Booted
            } else {
                let shown: i32 = exit_code(*code);
                RunAction::Fail(
                    other_backend(messages::run_exited_text(name, shown, output.as_str())),
                )
            }
        },
        RunEvent::Polled { running, elapsed_ms } => {
            if *running {
                RunAction::Booted
            } else if *elapsed_ms >= FIRST_RUN_TIMEOUT_MS {
                RunAction::Kill
            } else {
                RunAction::Wait
            }
        },
        RunEvent::Killed { output } => RunAction::Fail(
            other_backend(
                messages::run_timed_out_text(name, FIRST_RUN_TIMEOUT_SECS, output.as_str()),
            ),
        ),
    }
}

/// Whether a workload that ended at once had run to completion: its sandbox is listed as
/// stopped, and the sandbox's own log says that the workload was started.
pub open spec fn ran_to_completion(
    listing: Option<Vec<LsEntry>>,
    name: Seq<char>,
    log: Option<ExecResult>,
) -> bool {
    ls_json::listed_with(listing, name, "Stopped"@) && (log matches Some(log)
        && classify::log_shows_started_spec(log.stdout@, log.stderr@))
}

/// Whether a workload that ended at once had run to completion.
pub fn fast_exit_ran_to_completion(
    listing: &Option<Vec<LsEntry>>,
    name: &str,
    log: &Option<ExecResult>,
) -> (yes: bool)
    ensures
        yes == ran_to_completion(*listing, name@, *log),
{
    if !ls_json::status_is(listing, name, "Stopped") {
        return false;
    }
    match log {
        Some(log) => classify::log_shows_started(log.stdout.as_str(), log.stderr.as_str()),
        None => false,
    }
}

/// How a restore command ended.
#[derive(Clone, Debug)]
pub enum RestoreLaunch {
    /// It ended by itself.
    Exited { success: bool, code: Option<i32>, output: String },
    /// It did not end in time, or nobody can say how it ended.
    TimedOut { output: String },
}

/// The contents of a [`RestoreLaunch`].
pub enum LaunchView {
    Exited(bool, Option<i32>, Seq<char>),
    TimedOut(Seq<char>),
}

impl View for RestoreLaunch {
    type V = LaunchView;

    open spec fn view(&self) -> LaunchView {
        match self {
            RestoreLaunch::Exited { success, code, output } => LaunchView::Exited(
                *success,
                *code,
                output@,
            ),
            RestoreLaunch::TimedOut { output } => LaunchView::TimedOut(output@),
        }
    }
}

/// The failure of a restore command; none where it started the sandbox.
pub open spec fn launch_failure(
    name: Seq<char>,
    argv: Seq<Seq<char>>,
    launch: Result<RestoreLaunch, String>,
) -> Option<FailureView> {
    match launch {
        Err(error) => Some(
            backend_failure(messages::launch_failed(text::join_spec(argv, " "@), error@)),
        ),
        Ok(RestoreLaunch::TimedOut { output }) => Some(
            backend_failure(
                messages::restore_timed_out(name, FIRST_RUN_TIMEOUT_SECS as nat, output@),
            ),
        ),
        Ok(RestoreLaunch::Exited { success, code, output }) => if success {
            None
        } else {
            match signature_of(BootVerb::Restore, name, output@) {
                Some(failure) => Some(failure),
                None => Some(
                    backend_failure(
                        messages::restore_exited(name, exit_code_or_minus_one(code), output@),
                    ),
                ),
            }
        },
    }
}

/// Judges how a restore command ended; it makes no difference who ran the command.
pub fn after_restore_launch(
    name: &str,
    argv: &[String],
    launch: &Result<RestoreLaunch, String>,
) -> (failure: Option<PreRunningFailure>)
    ensures
        failure_option(failure) == launch_failure(name@, text::texts(argv@), *launch),
{
    match launch {
        Err(error) => {
            let args = text::join(argv, " ");
            Some(other_backend(messages::launch_failed_text(args.as_str(), error.as_str())))
        },
        Ok(RestoreLaunch::TimedOut { output }) => Some(
            other_backend(
                messages::restore_timed_out_text(name, FIRST_RUN_TIMEOUT_SECS, output.as_str()),
            ),
        ),
        Ok(RestoreLaunch::Exited { success, code, output }) => {
            if *success {
                return None;
            }
            match classify_exit(BootVerb::Restore, name, output.as_str()) {
                Some(failure) => Some(failure),
                None => {
                    let shown: i32 = exit_code(*code);
                    Some(
                        other_backend(messages::restore_exited_text(name, shown, output.as_str())),
                    )
                },
            }
        },
    }
}

/// What is to be done about a sandbox that a restore has started.
#[derive(Clone, Copy, Debug, PartialEq, Eq, Structural)]
pub enum RestorePoll {
    /// It is up: run its workload.
    SpawnWorkload,
    /// It is stopped: the boot failed.
    ReachedStopped,
    /// It is gone: the boot failed.
    DroppedOut,
    /// It took too long.
    TimedOut,
    /// Wait, then look again.
    Wait,
}

/// What is to be done about a sandbox that a restore has started. A command that could
/// not be run says nothing of the sandbox; a listing that could not be read counts as one
/// in which it is missing.
pub open spec fn restore_poll_spec(
    ran: bool,
    listing: Option<Vec<LsEntry>>,
    name: Seq<char>,
    elapsed_ms: u64,
) -> RestorePoll {
    let status = ls_json::status_of_spec(listing, name);
    if ran && status == Some("Running"@) {
        RestorePoll::SpawnWorkload
    } else if ran && status == Some("Stopped"@) {
        RestorePoll::ReachedStopped
    } else if ran && status is None {
        RestorePoll::DroppedOut
    } else if elapsed_ms >= FIRST_RUN_TIMEOUT_MS {
        RestorePoll::TimedOut
    } else {
        RestorePoll::Wait
    }
}

/// Decides what is to be done about a sandbox that a restore has started.
pub fn restore_poll(
    ran: bool,
    listing: &Option<Vec<LsEntry>>,
    name: &str,
    elapsed_ms: u64,
) -> (action: RestorePoll)
    ensures
        action == restore_poll_spec(ran, *listing, name@, elapsed_ms),
{
    proof {
        reveal_strlit("Running");
        reveal_strlit("Stopped");
        assert("Running"@[0] != "Stopped"@[0]);
    }
    if ran {
        match ls_json::status_of(listing, name) {
            Some(status) => {
                if text::same_text(status.as_str(), "Running") {
                    return RestorePoll::SpawnWorkload;
                }
                if text::same_text(status.as_str(), "Stopped") {
                    return RestorePoll::ReachedStopped;
                }
            },
            None => {
                return RestorePoll::DroppedOut;
            },
        }
    }
    if elapsed_ms >= FIRST_RUN_TIMEOUT_MS {
        RestorePoll::TimedOut
    } else {
        RestorePoll::Wait
    }
}

/// The failure of a restored sandbox that did not come up; `diagnostics` is what its own
/// log says.
pub open spec fn poll_failure_spec(
    poll: RestorePoll,
    name: Seq<char>,
    diagnostics: Seq<char>,
) -> Option<FailureView> {
    match poll {
        RestorePoll::ReachedStopped => Some(
            backend_failure(messages::restore_not_running(name, "reached Stopped"@, diagnostics)),
        ),
        RestorePoll::DroppedOut => Some(
            backend_failure(
                messages::restore_not_running(
                    name,
                    "dropped out of `msb ls` entirely"@,
                    diagnostics,
                ),
            ),
        ),
        RestorePoll::TimedOut => Some(
            backend_failure(
                messages::restore_poll_timed_out(name, FIRST_RUN_TIMEOUT_SECS as nat, diagnostics),
            ),
        ),
        RestorePoll::SpawnWorkload | RestorePoll::Wait => None,
    }
}

/// The failure of a restored sandbox that did not come up.
pub fn poll_failure(poll: RestorePoll, name: &str, diagnostics: &str) -> (failure: Option<
    PreRunningFailure,
>)
    ensures
        failure_option(failure) == poll_failure_spec(poll, name@, diagnostics@),
{
    match poll {
        RestorePoll::ReachedStopped => Some(
            other_backend(
                messages::restore_not_running_text(name, "reached Stopped", diagnostics),
            ),
        ),
        RestorePoll::DroppedOut => Some(
            other_backend(
                messages::restore_not_running_text(
                    name,
                    "dropped out of `msb ls` entirely",
                    diagnostics,
                ),
            ),
        ),
        RestorePoll::TimedOut => Some(
            other_backend(
                messages::restore_poll_timed_out_text(name, FIRST_RUN_TIMEOUT_SECS, diagnostics),
            ),
        ),
        RestorePoll::SpawnWorkload | RestorePoll::Wait => None,
    }
}

/// What a sandbox's own log says, for an error message.
pub open spec fn diagnostics_spec(name: Seq<char>, log: Result<ExecResult, String>) -> Seq<char> {
    match log {
        Ok(log) => if !text::is_blank(log.stdout@) || !text::is_blank(log.stderr@) {
            messages::system_log(name, log.stdout@, log.stderr@)
        } else {
            messages::system_log_empty(name)
        },
        Err(error) => messages::system_log_unreadable(name, error@),
    }
}

/// What a sandbox's own log says, for an error message.
pub fn restore_boot_failure_diagnostics(name: &str, log: &Result<ExecResult, String>) -> (said:
    String)
    ensures
        said@ == diagnostics_spec(name@, *log),
{
    match log {
        Ok(log) => {
            let out = text::trim(log.stdout.as_str());
            let err = text::trim(log.stderr.as_str());
            if !out.as_str().is_empty() || !err.as_str().is_empty() {
                messages::system_log_text(name, log.stdout.as_str(), log.stderr.as_str())
            } else {
                messages::system_log_empty_text(name)
            }
        },
        Err(error) => messages::system_log_unreadable_text(name, error.as_str()),
    }
}

/// The workload of a restored sandbox: the command asked for, else the one captured with
/// the checkpoint.
pub open spec fn workload_of(spec: ContainerSpec) -> Option<Seq<Seq<char>>> {
    match spec.command {
        Some(command) => Some(text::texts(command@)),
        None => commands::texts_option(spec.checkpoint_captured_cmdline),
    }
}

/// The arguments that run the workload of a restored sandbox; a failure where there is
/// neither a command nor a captured one, rather than a sandbox that runs nothing.
pub fn workload_argv(spec: &ContainerSpec) -> (argv: Result<Vec<String>, PreRunningFailure>)
    ensures
        match (argv, workload_of(*spec)) {
            (Ok(argv), Some(command)) => text::texts(argv@) == commands::exec_workload_argv(
                spec.name@,
                spec.env@,
                command,
            ),
            (Err(failure), None) => failure@ == backend_failure(
                messages::nothing_to_run(spec.name@),
            ),
            _ => false,
        },
{
    match &spec.command {
        Some(command) => Ok(
            commands::exec_workload(spec.name.as_str(), spec.env.as_slice(), command.as_slice()),
        ),
        None => match &spec.checkpoint_captured_cmdline {
            Some(command) => Ok(
                commands::exec_workload(spec.name.as_str(), spec.env.as_slice(), command.as_slice()),
            ),
            None => Err(other_backend(messages::nothing_to_run_text(spec.name.as_str()))),
        },
    }
}

/// What is to be done about a revived workload that ended within the grace period.
#[derive(Clone, Debug)]
pub enum WorkloadAction {
    /// The workload is done.
    Booted,
    /// The guest was not listening yet: wait, then start the workload again.
    Retry,
    /// Look up whether the workload ran to completion.
    CheckCompletion,
    /// The boot failed.
    Fail(PreRunningFailure),
}

/// The contents of a [`WorkloadAction`].
pub enum WorkloadActionView {
    Booted,
    Retry,
    CheckCompletion,
    Fail(FailureView),
}

impl View for WorkloadAction {
    type V = WorkloadActionView;

    open spec fn view(&self) -> WorkloadActionView {
        match self {
            WorkloadAction::Booted => WorkloadActionView::Booted,
            WorkloadAction::Retry => WorkloadActionView::Retry,
            WorkloadAction::CheckCompletion => WorkloadActionView::CheckCompletion,
            WorkloadAction::Fail(failure) => WorkloadActionView::Fail(failure@),
        }
    }
}

/// What is to be done about a revived workload that ended within the grace period.
/// `completed` is whether it ran to completion, once that was looked up, and
/// `elapsed_ms` the time since the workload was first started.
pub open spec fn workload_step_spec(
    name: Seq<char>,
    success: bool,
    code: Option<i32>,
    output: Seq<char>,
    elapsed_ms: u64,
    completed: Option<bool>,
) -> WorkloadActionView {
    let failed = WorkloadActionView::Fail(
        backend_failure(messages::workload_exited(name, exit_code_or_minus_one(code), output)),
    );
    match completed {
        Some(completed) => if completed {
            WorkloadActionView::Booted
        } else {
            failed
        },
        None => if classify::names_agent_endpoint_not_ready(output) && elapsed_ms
            < AGENT_ENDPOINT_RETRY_BUDGET_MS {
            WorkloadActionView::Retry
        } else if success {
            WorkloadActionView::CheckCompletion
        } else {
            failed
        },
    }
}

/// Decides what is to be done about a revived workload that ended within the grace period.
pub fn workload_step(
    name: &str,
    success: bool,
    code: Option<i32>,
    output: &str,
    elapsed_ms: u64,
    completed: Option<bool>,
) -> (action: WorkloadAction)
    ensures
        action@ == workload_step_spec(name@, success, code, output@, elapsed_ms, completed),
{
    match completed {
        Some(completed) => {
            if completed {
                return WorkloadAction::Booted;
            }
        },
        None => {
            if classify::is_agent_endpoint_not_ready(output) && elapsed_ms
                < AGENT_ENDPOINT_RETRY_BUDGET_MS {
                return WorkloadAction::Retry;
            }
            if success {
                return WorkloadAction::CheckCompletion;
            }
        },
    }
    let shown: i32 = exit_code(code);
    WorkloadAction::Fail(other_backend(messages::workload_exited_text(name, shown, output)))
}

/// What became of removing an image from the cache, for an error message.
pub open spec fn heal_description(result: Result<ExecResult, String>) -> Seq<char> {
    match result {
        Ok(result) => if result.exit_code == 0 {
            "removed"@
        } else {
            messages::heal_exited(result.exit_code as int, text::trim_spec(result.stderr@))
        },
        Err(error) => messages::heal_not_run(error@),
    }
}

/// What became of removing an image from the cache, for an error message.
pub fn describe_heal_result(result: &Result<ExecResult, String>) -> (said: String)
    ensures
        said@ == heal_description(*result),
{
    match result {
        Ok(result) => {
            if result.exit_code == 0 {
                "removed".to_owned()
            } else {
                let stderr = text::trim(result.stderr.as_str());
                messages::heal_exited_text(result.exit_code, stderr.as_str())
            }
        },
        Err(error) => messages::heal_not_run_text(error.as_str()),
    }
}

/// Which rules a boot is retried by.
#[derive(Clone, Copy, Debug, PartialEq, Eq, Structural)]
pub enum BootKind {
    /// A boot under the only name it has. A denied access is tried once more.
    OneName,
    /// A restore under one of several names. A denied access is left to the next name.
    Candidate,
}

/// By which rules a container is started: by those for several names where a checkpoint is
/// restored and there are names to choose from.
pub open spec fn start_kind_spec(spec: ContainerSpec) -> BootKind {
    if spec.checkpoint_ref is Some && (spec.restore_name_candidates matches Some(names)
        && names@.len() > 0) {
        BootKind::Candidate
    } else {
        BootKind::OneName
    }
}

/// By which rules a container is started.
pub fn start_kind(spec: &ContainerSpec) -> (kind: BootKind)
    ensures
        kind == start_kind_spec(*spec),
{
    let choice = match &spec.restore_name_candidates {
        Some(names) => names.len() > 0,
        None => false,
    };
    if spec.checkpoint_ref.is_some() && choice {
        BootKind::Candidate
    } else {
        BootKind::OneName
    }
}

/// The command that a boot of this kind is named by in its errors.
pub open spec fn kind_verb(kind: BootKind) -> BootVerb {
    match kind {
        BootKind::OneName => BootVerb::Run,
        BootKind::Candidate => BootVerb::Restore,
    }
}

/// The command that a boot of this kind is named by in its errors.
fn verb_of(kind: BootKind) -> (verb: BootVerb)
    ensures
        verb == kind_verb(kind),
{
    match kind {
        BootKind::OneName => BootVerb::Run,
        BootKind::Candidate => BootVerb::Restore,
    }
}

/// Where a boot stands: which failure, if any, led to the attempt that was just made.
#[derive(Clone, Debug)]
pub enum BootPhase {
    First,
    AfterStateDb { first: String },
    AfterAccessDenied { first: String },
    AfterHeal { first: String, heal: String },
    LockWait,
}

/// The contents of a [`BootPhase`].
pub enum PhaseView {
    First,
    AfterStateDb(Seq<char>),
    AfterAccessDenied(Seq<char>),
    AfterHeal(Seq<char>, Seq<char>),
    LockWait,
}

impl View for BootPhase {
    type V = PhaseView;

    open spec fn view(&self) -> PhaseView {
        match self {
            BootPhase::First => PhaseView::First,
            BootPhase::AfterStateDb { first } => PhaseView::AfterStateDb(first@),
            BootPhase::AfterAccessDenied { first } => PhaseView::AfterAccessDenied(first@),
            BootPhase::AfterHeal { first, heal } => PhaseView::AfterHeal(first@, heal@),
            BootPhase::LockWait => PhaseView::LockWait,
        }
    }
}

/// What is to be done after one attempt at a boot.
#[derive(Clone, Debug)]
pub enum BootStep {
    /// The sandbox is up.
    Booted,
    /// The boot failed for good.
    Fail(RightsizeError),
    /// Wait, then make another attempt.
    RetryAfter { delay_ms: u64, phase: BootPhase },
    /// Remove the image from the cache, then make another attempt; see [`after_heal`].
    Heal { first: String },
}

/// The contents of a [`BootStep`].
pub enum BootStepView {
    Booted,
    Fail(ErrorView),
    RetryAfter(u64, PhaseView),
    Heal(Seq<char>),
}

impl View for BootStep {
    type V = BootStepView;

    open spec fn view(&self) -> BootStepView {
        match self {
            BootStep::Booted => BootStepView::Booted,
            BootStep::Fail(error) => BootStepView::Fail(error@),
            BootStep::RetryAfter { delay_ms, phase } => BootStepView::RetryAfter(*delay_ms, phase@),
            BootStep::Heal { first } => BootStepView::Heal(first@),
        }
    }
}

/// A boot that failed with a backend error.
pub open spec fn fail_with(message: Seq<char>) -> BootStepView {
    BootStepView::Fail(ErrorView::Backend(message))
}

/// What follows a failure of the first attempt.
pub open spec fn first_failure_step(
    kind: BootKind,
    name: Seq<char>,
    failure: FailureView,
    lock_elapsed_ms: u64,
) -> BootStepView {
    match failure {
        FailureView::Other(error) => BootStepView::Fail(error),
        FailureView::InstallLockActive(output) => lock_step(kind, name, output, lock_elapsed_ms),
        FailureView::StateDbError(output) => BootStepView::RetryAfter(
            STATE_DB_RETRY_DELAY_MS,
            PhaseView::AfterStateDb(output),
        ),
        FailureView::CacheCorruption(output) => BootStepView::Heal(output),
        FailureView::RestoreAccessDenied(output) => match kind {
            BootKind::OneName => BootStepView::RetryAfter(
                RESTORE_ACCESS_DENIED_RETRY_DELAY_MS,
                PhaseView::AfterAccessDenied(output),
            ),
            BootKind::Candidate => fail_with(messages::denied_candidate(name, output)),
        },
    }
}

/// What follows a refusal by the install lock: another attempt, until the time is up.
pub open spec fn lock_step(
    kind: BootKind,
    name: Seq<char>,
    output: Seq<char>,
    lock_elapsed_ms: u64,
) -> BootStepView {
    if lock_elapsed_ms >= INSTALL_LOCK_RETRY_BUDGET_MS {
        fail_with(
            messages::lock_held(
                verb_name(kind_verb(kind)),
                name,
                INSTALL_LOCK_RETRY_BUDGET_SECS as nat,
                output,
            ),
        )
    } else {
        BootStepView::RetryAfter(INSTALL_LOCK_RETRY_DELAY_MS, PhaseView::LockWait)
    }
}

/// The end of a boot whose second attempt failed in another way than the first.
pub open spec fn other_failure_step(kind: BootKind, name: Seq<char>, failure: FailureView) ->
    BootStepView {
    let verb = verb_name(kind_verb(kind));
    match failure {
        FailureView::Other(error) => BootStepView::Fail(error),
        FailureView::RestoreAccessDenied(output) => match kind {
            BootKind::OneName => fail_with(messages::exited_early(verb, name, output)),
            BootKind::Candidate => fail_with(messages::denied_on_retry(name, output)),
        },
        FailureView::CacheCorruption(output) => fail_with(
            messages::exited_early(verb, name, output),
        ),
        FailureView::StateDbError(output) => fail_with(messages::exited_early(verb, name, output)),
        FailureView::InstallLockActive(output) => fail_with(
            messages::exited_early(verb, name, output),
        ),
    }
}

/// What is to be done after one attempt at a boot. `lock_elapsed_ms` is the time since the
/// install lock first refused.
pub open spec fn boot_step_spec(
    kind: BootKind,
    name: Seq<char>,
    image: Seq<char>,
    phase: PhaseView,
    failure: Option<FailureView>,
    lock_elapsed_ms: u64,
) -> BootStepView {
    let verb = verb_name(kind_verb(kind));
    match failure {
        None => BootStepView::Booted,
        Some(failure) => match (phase, failure) {
            (PhaseView::First, _) => first_failure_step(kind, name, failure, lock_elapsed_ms),
            (PhaseView::LockWait, FailureView::InstallLockActive(output)) => lock_step(
                kind,
                name,
                output,
                lock_elapsed_ms,
            ),
            (PhaseView::AfterStateDb(first), FailureView::StateDbError(output)) => fail_with(
                messages::state_db_twice(verb, name, first, output),
            ),
            (PhaseView::AfterAccessDenied(first), FailureView::RestoreAccessDenied(output)) =>
                fail_with(messages::denied_twice(name, first, output)),
            (PhaseView::AfterHeal(first, heal), FailureView::CacheCorruption(output)) => fail_with(
                messages::cache_twice(verb, name, image, heal, first, output),
            ),
            _ => other_failure_step(kind, name, failure),
        },
    }
}

/// A boot that failed with a backend error.
fn fail_boot(message: String) -> (step: BootStep)
    ensures
        step@ == fail_with(message@),
{
    BootStep::Fail(RightsizeError::Backend(message))
}

/// What follows a refusal by the install lock.
fn lock_refused(kind: BootKind, name: &str, output: &str, lock_elapsed_ms: u64) -> (step: BootStep)
    ensures
        step@ == lock_step(kind, name@, output@, lock_elapsed_ms),
{
    if lock_elapsed_ms >= INSTALL_LOCK_RETRY_BUDGET_MS {
        fail_boot(
            messages::lock_held_text(
                verb_text(verb_of(kind)),
                name,
                INSTALL_LOCK_RETRY_BUDGET_SECS,
                output,
            ),
        )
    } else {
        BootStep::RetryAfter { delay_ms: INSTALL_LOCK_RETRY_DELAY_MS, phase: BootPhase::LockWait }
    }
}

/// What follows a failure of the first attempt.
fn first_failure(kind: BootKind, name: &str, failure: PreRunningFailure, lock_elapsed_ms: u64) ->
    (step: BootStep)
    ensures
        step@ == first_failure_step(kind, name@, failure@, lock_elapsed_ms),
{
    match failure {
        PreRunningFailure::Other(error) => BootStep::Fail(error),
        PreRunningFailure::InstallLockActive { output } => lock_refused(
            kind,
            name,
            output.as_str(),
            lock_elapsed_ms,
        ),
        PreRunningFailure::StateDbError { output } => BootStep::RetryAfter {
            delay_ms: STATE_DB_RETRY_DELAY_MS,
            phase: BootPhase::AfterStateDb { first: output },
        },
        PreRunningFailure::CacheCorruption { output } => BootStep::Heal { first: output },
        PreRunningFailure::RestoreAccessDenied { output } => match kind {
            BootKind::OneName => BootStep::RetryAfter {
                delay_ms: RESTORE_ACCESS_DENIED_RETRY_DELAY_MS,
                phase: BootPhase::AfterAccessDenied { first: output },
            },
            BootKind::Candidate => fail_boot(
                messages::denied_candidate_text(name, output.as_str()),
            ),
        },
    }
}

/// The end of a boot whose second attempt failed in another way than the first.
fn other_failure(kind: BootKind, name: &str, failure: PreRunningFailure) -> (step: BootStep)
    ensures
        step@ == other_failure_step(kind, name@, failure@),
{
    let verb = verb_text(verb_of(kind));
    match failure {
        PreRunningFailure::Other(error) => BootStep::Fail(error),
        PreRunningFailure::RestoreAccessDenied { output } => match kind {
            BootKind::OneName => fail_boot(
                messages::exited_early_text(verb, name, output.as_str()),
            ),
            BootKind::Candidate => fail_boot(
                messages::denied_on_retry_text(name, output.as_str()),
            ),
        },
        PreRunningFailure::CacheCorruption { output } => fail_boot(
            messages::exited_early_text(verb, name, output.as_str()),
        ),
        PreRunningFailure::StateDbError { output } => fail_boot(
            messages::exited_early_text(verb, name, output.as_str()),
        ),
        PreRunningFailure::InstallLockActive { output } => fail_boot(
            messages::exited_early_text(verb, name, output.as_str()),
        ),
    }
}

/// Decides what is to be done after one attempt at a boot.
pub fn boot_step(
    kind: BootKind,
    name: &str,
    image: &str,
    phase: BootPhase,
    failure: Option<PreRunningFailure>,
    lock_elapsed_ms: u64,
) -> (step: BootStep)
    ensures
        step@ == boot_step_spec(
            kind,
            name@,
            image@,
            phase@,
            failure_option(failure),
            lock_elapsed_ms,
        ),
{
    let verb = verb_text(verb_of(kind));
    match failure {
        None => BootStep::Booted,
        Some(failure) => match (phase, failure) {
            (BootPhase::First, failure) => first_failure(kind, name, failure, lock_elapsed_ms),
            (BootPhase::LockWait, PreRunningFailure::InstallLockActive { output }) => lock_refused(
                kind,
                name,
                output.as_str(),
                lock_elapsed_ms,
            ),
            (BootPhase::AfterStateDb { first }, PreRunningFailure::StateDbError { output }) =>
                fail_boot(
                messages::state_db_twice_text(verb, name, first.as_str(), output.as_str()),
            ),
            (
                BootPhase::AfterAccessDenied { first },
                PreRunningFailure::RestoreAccessDenied { output },
            ) => fail_boot(messages::denied_twice_text(name, first.as_str(), output.as_str())),
            (BootPhase::AfterHeal { first, heal }, PreRunningFailure::CacheCorruption { output }) =>
                fail_boot(
                messages::cache_twice_text(
                    verb,
                    name,
                    image,
                    heal.as_str(),
                    first.as_str(),
                    output.as_str(),
                ),
            ),
            (_, failure) => other_failure(kind, name, failure),
        },
    }
}

/// Where a boot stands once the image was removed from the cache, or could not be.
pub fn after_heal(first: String, result: &Result<ExecResult, String>) -> (phase: BootPhase)
    ensures
        phase@ == PhaseView::AfterHeal(first@, heal_description(*result)),
{
    BootPhase::AfterHeal { first, heal: describe_heal_result(result) }
}

/// A boot is tried again at most once, the install lock aside: the attempt that a failure
/// other than the lock led to is the last one.
pub proof fn law_one_retry(
    kind: BootKind,
    name: Seq<char>,
    image: Seq<char>,
    phase: PhaseView,
    failure: Option<FailureView>,
    lock_elapsed_ms: u64,
)
    requires
        phase is AfterStateDb || phase is AfterAccessDenied || phase is AfterHeal,
    ensures
        ({
            let step = boot_step_spec(kind, name, image, phase, failure, lock_elapsed_ms);
            step is Booted || step is Fail
        }),
{
}

/// One failed attempt at a boot: how it failed, the time since the install lock first
/// refused, and what became of removing the image where that was tried.
pub struct FailedAttempt {
    pub failure: FailureView,
    pub lock_elapsed_ms: u64,
    pub heal: Seq<char>,
}

/// Where a boot stands after these failed attempts; nowhere where it is over.
pub open spec fn phase_after(
    kind: BootKind,
    name: Seq<char>,
    image: Seq<char>,
    attempts: Seq<FailedAttempt>,
) -> Option<PhaseView>
    decreases attempts.len(),
{
    if attempts.len() == 0 {
        Some(PhaseView::First)
    } else {
        match phase_after(kind, name, image, attempts.drop_last()) {
            None => None,
            Some(phase) => {
                let last = attempts.last();
                match boot_step_spec(
                    kind,
                    name,
                    image,
                    phase,
                    Some(last.failure),
                    last.lock_elapsed_ms,
                ) {
                    BootStepView::RetryAfter(_, phase) => Some(phase),
                    BootStepView::Heal(first) => Some(PhaseView::AfterHeal(first, last.heal)),
                    _ => None,
                }
            },
        }
    }
}

/// Whether an attempt failed because the install lock refused it while there was time left.
pub open spec fn waits_for_lock(attempt: FailedAttempt) -> bool {
    attempt.failure is InstallLockActive && attempt.lock_elapsed_ms < INSTALL_LOCK_RETRY_BUDGET_MS
}

/// No boot goes on after a second failed attempt, unless every attempt so far was refused by
/// the install lock while there was time left to wait for it.
pub proof fn law_only_the_lock_prolongs_a_boot(
    kind: BootKind,
    name: Seq<char>,
    image: Seq<char>,
    attempts: Seq<FailedAttempt>,
)
    requires
        attempts.len() >= 2,
        phase_after(kind, name, image, attempts) is Some,
    ensures
        forall|i: int| 0 <= i < attempts.len() ==> waits_for_lock(#[trigger] attempts[i]),
{
    lemma_phase_after(kind, name, image, attempts);
}

/// What the phase of a boot tells of the attempts before it.
proof fn lemma_phase_after(
    kind: BootKind,
    name: Seq<char>,
    image: Seq<char>,
    attempts: Seq<FailedAttempt>,
)
    requires
        phase_after(kind, name, image, attempts) is Some,
    ensures
        attempts.len() == 0 <==> phase_after(kind, name, image, attempts) == Some(PhaseView::First),
        attempts.len() >= 2 ==> phase_after(kind, name, image, attempts) == Some(
            PhaseView::LockWait,
        ),
        phase_after(kind, name, image, attempts) == Some(PhaseView::LockWait) ==> forall|i: int|
            0 <= i < attempts.len() ==> waits_for_lock(#[trigger] attempts[i]),
    decreases attempts.len(),
{
    if attempts.len() > 0 {
        let before = attempts.drop_last();
        lemma_phase_after(kind, name, image, before);
        assert forall|i: int|
            phase_after(kind, name, image, attempts) == Some(PhaseView::LockWait) && 0 <= i
                < attempts.len() implies waits_for_lock(#[trigger] attempts[i]) by {
            if i < before.len() {
                assert(waits_for_lock(before[i]));
            }
        }
    }
}

/// The install lock is waited out for its time and no longer: once it is up, no attempt
/// follows another.
pub proof fn law_lock_wait_is_bounded(
    kind: BootKind,
    name: Seq<char>,
    image: Seq<char>,
    failure: Option<FailureView>,
    lock_elapsed_ms: u64,
)
    requires
        lock_elapsed_ms >= INSTALL_LOCK_RETRY_BUDGET_MS,
    ensures
        ({
            let step = boot_step_spec(
                kind,
                name,
                image,
                PhaseView::LockWait,
                failure,
                lock_elapsed_ms,
            );
            step is Booted || step is Fail
        }),
{
}

/// A restore under one of several names never makes a second attempt for a denied access,
/// and the error it ends in still says that access was denied.
pub proof fn law_candidate_never_retries_denied_access(
    name: Seq<char>,
    image: Seq<char>,
    phase: PhaseView,
    output: Seq<char>,
    lock_elapsed_ms: u64,
)
    requires
        classify::names_restore_access_denied(output),
        !(phase is AfterAccessDenied),
    ensures
        boot_step_spec(
            BootKind::Candidate,
            name,
            image,
            phase,
            Some(FailureView::RestoreAccessDenied(output)),
            lock_elapsed_ms,
        ) matches BootStepView::Fail(error) && classify::is_access_denied_error_spec(error),
{
    let long = messages::denied_candidate(name, output);
    let short = messages::denied_on_retry(name, output);
    let long_head = long.take(long.len() - output.len());
    let short_head = short.take(short.len() - output.len());
    assert(long =~= long_head + output + Seq::<char>::empty());
    assert(short =~= short_head + output + Seq::<char>::empty());
    classify::law_access_denied_survives_wrapping(long_head, output, Seq::empty());
    classify::law_access_denied_survives_wrapping(short_head, output, Seq::empty());
}

/// A restore under one of several names never comes to stand after a denied access.
pub proof fn law_candidate_phases(
    name: Seq<char>,
    image: Seq<char>,
    phase: PhaseView,
    failure: Option<FailureView>,
    lock_elapsed_ms: u64,
)
    ensures
        boot_step_spec(
            BootKind::Candidate,
            name,
            image,
            phase,
            failure,
            lock_elapsed_ms,
        ) matches BootStepView::RetryAfter(_, next) ==> !(next is AfterAccessDenied),
{
}

/// A sandbox is never taken for booted on the strength of a process that ended with a
/// failure, whatever its output.
pub proof fn law_failed_run_is_never_booted(name: Seq<char>, code: Option<i32>, output: String)
    ensures
        run_step_spec(
            name,
            (RunEvent::Exited { success: false, code, output }),
        ) is Fail,
{
}

/// A restore command that ended with a failure is never taken for a started sandbox, and
/// one that ended well always is.
pub proof fn law_restore_activation(
    name: Seq<char>,
    argv: Seq<Seq<char>>,
    success: bool,
    code: Option<i32>,
    output: String,
)
    ensures
        launch_failure(name, argv, Ok(RestoreLaunch::Exited { success, code, output })) is None
            == success,
{
}

/// A restored sandbox that is stopped or gone fails at once, however little time has
/// passed.
pub proof fn law_stopped_or_gone_fails_at_once(
    listing: Option<Vec<LsEntry>>,
    name: Seq<char>,
    elapsed_ms: u64,
    diagnostics: Seq<char>,
)
    requires
        ls_json::status_of_spec(listing, name) is None || ls_json::status_of_spec(listing, name)
            == Some("Stopped"@),
    ensures
        poll_failure_spec(
            restore_poll_spec(true, listing, name, elapsed_ms),
            name,
            diagnostics,
        ) is Some,
{
    reveal_strlit("Running");
    reveal_strlit("Stopped");
    assert("Running"@[0] != "Stopped"@[0]);
}

/// A command that was asked for wins over one that was captured with the checkpoint.
pub proof fn law_explicit_command_wins(spec: ContainerSpec)
    requires
        spec.command is Some,
    ensures
        workload_of(spec) == Some(text::texts(spec.command->0@)),
{
}

/// What the output of a boot command says went wrong, in words: a broken image cache before
/// anything else, then the state database, then the install lock, then, for a restore alone, a
/// denied access.
pub proof fn law_outputs_are_told_apart(verb: BootVerb, name: Seq<char>, output: Seq<char>)
    ensures
        ({
            let cache = text::contains_text(output, "cache error at"@) && text::contains_text(
                output,
                "No such file"@,
            );
            let database = text::contains_text(output, "error: database error:"@);
            let lock = text::contains_text(output, "install operation in progress"@)
                || text::contains_text(output, "install operation is in progress"@);
            let denied = text::contains_text(output, "Access is denied"@) && (text::contains_text(
                output,
                "io error"@,
            ) || text::contains_text(output, "os error 5"@));
            let failure = signature_of(verb, name, output);
            &&& cache ==> failure == Some(FailureView::CacheCorruption(output))
            &&& database && !cache ==> failure == Some(FailureView::StateDbError(output))
            &&& lock && !cache && !database ==> failure == Some(
                FailureView::InstallLockActive(output),
            )
            &&& denied && !cache && !database && !lock && verb == BootVerb::Restore ==> failure
                == Some(FailureView::RestoreAccessDenied(output))
            &&& verb == BootVerb::Run ==> !(failure matches Some(
                FailureView::RestoreAccessDenied(_),
            ))
        }),
{
}

/// An output that names none of the failures that are tried again is told by its words, in
/// whatever case: a host port that is taken, else a name that is taken, else nothing. The error
/// keeps the sandbox and the output.
pub proof fn law_conflicts_are_told_apart(verb: BootVerb, name: Seq<char>, output: Seq<char>)
    requires
        !classify::names_image_cache_corruption(output),
        !classify::names_state_db_error(output),
        !classify::names_install_lock_active(output),
        verb == BootVerb::Restore ==> !classify::names_restore_access_denied(output),
    ensures
        ({
            let lowered = text::lowercased(output);
            let port = text::contains_text(lowered, "address already in use"@)
                || text::contains_text(lowered, "port is already allocated"@) || (
            text::contains_text(lowered, "already in use"@) && text::contains_text(
                lowered,
                "port"@,
            ));
            let taken = text::contains_text(lowered, "already exists"@);
            let command = if verb == BootVerb::Run {
                "msb "@ + "run"@ + " for sandbox "@
            } else {
                "msb "@ + "restore"@ + " for sandbox "@
            };
            match signature_of(verb, name, output) {
                Some(FailureView::Other(ErrorView::PortBindConflict(message))) => {
                    &&& port
                    &&& text::contains_text(message, name)
                    &&& text::contains_text(message, command)
                    &&& text::contains_text(message, " could not bind a host port: "@ + output)
                },
                Some(FailureView::Other(ErrorView::NameConflict(message))) => {
                    &&& !port && taken
                    &&& text::contains_text(message, name)
                    &&& text::contains_text(message, command)
                    &&& text::contains_text(message, "with this name already exists: "@ + output)
                },
                Some(_) => false,
                None => !port && !taken,
            }
        }),
{
    message_laws::law_port_taken_tells_all(verb_name(verb), name, output);
    message_laws::law_name_taken_tells_all(verb_name(verb), name, output);
}

/// While `msb run` is there, the sandbox is up as soon as it is listed as running, however long
/// that took; until then it is waited for, and killed once ten minutes have passed and not
/// before.
pub proof fn law_a_run_has_ten_minutes(name: Seq<char>, running: bool, elapsed_ms: u64)
    ensures
        ({
            let action = run_step_spec(name, (RunEvent::Polled { running, elapsed_ms }));
            &&& action is Booted <==> running
            &&& action is Kill <==> !running && elapsed_ms >= 600_000
            &&& action is Wait <==> !running && elapsed_ms < 600_000
        }),
{
}

/// A run that ended is judged by its output first: a failure that it names is the failure of
/// the attempt, even where the exit code is zero.
pub proof fn law_a_named_failure_counts_whatever_the_exit_code(
    name: Seq<char>,
    success: bool,
    code: Option<i32>,
    output: String,
)
    requires
        classify::names_image_cache_corruption(output@) || classify::names_state_db_error(output@)
            || classify::names_install_lock_active(output@),
    ensures
        run_step_spec(name, (RunEvent::Exited { success, code, output })) matches
            RunActionView::Fail(failure) && (failure == FailureView::CacheCorruption(output@)
            || failure == FailureView::StateDbError(output@) || failure
            == FailureView::InstallLockActive(output@)),
{
}

/// A run that ended well without naming a failure may have done its work: that is looked up,
/// and the sandbox counts as booted exactly where the workload ran to completion. One that ended
/// badly fails. The error keeps the sandbox, the exit code and the output.
pub proof fn law_a_run_that_ended_is_looked_into(
    name: Seq<char>,
    success: bool,
    completed: bool,
    code: Option<i32>,
    output: String,
)
    requires
        signature_of(BootVerb::Run, name, output@) is None,
    ensures
        ({
            let ended = run_step_spec(name, (RunEvent::Exited { success, code, output }));
            let checked = run_step_spec(
                name,
                (RunEvent::CompletionChecked { completed, code, output }),
            );
            let killed = run_step_spec(name, (RunEvent::Killed { output }));
            &&& success ==> ended is CheckCompletion
            &&& !success ==> fails_telling(ended, name, code, output@)
            &&& completed ==> checked is Booted
            &&& !completed ==> fails_telling(checked, name, code, output@)
            &&& killed matches RunActionView::Fail(FailureView::Other(ErrorView::Backend(message)))
                && text::contains_text(message, name) && text::contains_text(message, output@)
                && text::contains_text(
                message,
                " did not reach Running within "@ + text::decimal(600)
                    + "s — this can mean a slow"@,
            )
        }),
{
    let shown = exit_code_or_minus_one(code);
    message_laws::law_run_exited_tells_all(name, shown, output@);
    message_laws::law_run_timed_out_tells_all(name, FIRST_RUN_TIMEOUT_SECS as nat, output@);
}

/// Whether a run failed with an error of the backend that tells the sandbox, the exit code (or
/// `-1` where a signal ended it) and the output.
pub open spec fn fails_telling(
    action: RunActionView,
    name: Seq<char>,
    code: Option<i32>,
    output: Seq<char>,
) -> bool {
    action matches RunActionView::Fail(FailureView::Other(ErrorView::Backend(message)))
        && text::contains_text(message, "msb run for sandbox "@ + name + " exited (code "@)
        && text::contains_text(message, output) && (match code {
        Some(code) => text::contains_text(message, text::decimal_int(code as int)),
        None => text::contains_text(message, text::decimal_int(-1)),
    })
}

/// A workload ran to completion exactly where its sandbox is listed as stopped and its own log
/// says that it was started; a listing or a log that could not be had shows nothing.
pub proof fn law_completion_needs_listing_and_log(
    listing: Option<Vec<LsEntry>>,
    name: Seq<char>,
    log: Option<ExecResult>,
)
    ensures
        ran_to_completion(listing, name, log) <==> {
            &&& listing matches Some(entries) && exists|i: int|
                0 <= i < entries@.len() && model::text_option((#[trigger] entries@[i]).name) == Some(
                    name,
                ) && model::text_option(entries@[i].status) == Some("Stopped"@)
            &&& log matches Some(log) && (text::contains_text(
                log.stdout@,
                "--- sandbox started ---"@,
            ) || text::contains_text(log.stderr@, "--- sandbox started ---"@))
        },
{
    if ran_to_completion(listing, name, log) {
        let entries = listing->0;
        let i = choose|i: int|
            0 <= i < entries@.len() && ls_json::has_status(
                #[trigger] entries@[i],
                name,
                "Stopped"@,
            );
        assert(model::text_option(entries@[i].name) == Some(name));
    }
    if let Some(entries) = listing {
        assert forall|i: int|
            0 <= i < entries@.len() && model::text_option((#[trigger] entries@[i]).name) == Some(
                name,
            ) && model::text_option(entries@[i].status) == Some(
                "Stopped"@,
            ) implies ls_json::has_status(
            entries@[i],
            name,
            "Stopped"@,
        ) by {}
    }
}

/// A restore command that could not be run, that did not end or that failed without naming why
/// is an error of the backend that keeps what is known: the words of the command and the error,
/// the sandbox, the exit code and the output. One that failed and named a failure has it.
pub proof fn law_a_failed_restore_tells_why(
    name: Seq<char>,
    argv: Seq<Seq<char>>,
    error: String,
    code: Option<i32>,
    output: String,
)
    ensures
        launch_failure(name, argv, Err(error)) matches Some(
            FailureView::Other(ErrorView::Backend(message)),
        ) && text::contains_text(message, error@) && text::contains_text(
            message,
            "failed to launch msb "@ + text::join_spec(argv, " "@) + ": "@,
        ),
        launch_failure(name, argv, Ok(RestoreLaunch::TimedOut { output })) matches Some(
            FailureView::Other(ErrorView::Backend(message)),
        ) && text::contains_text(message, name) && text::contains_text(message, output@)
            && text::contains_text(
            message,
            " did not exit within "@ + text::decimal(600) + "s — a successful"@,
        ),
        ({
            let failure = launch_failure(
                name,
                argv,
                Ok(RestoreLaunch::Exited { success: false, code, output }),
            );
            match signature_of(BootVerb::Restore, name, output@) {
                Some(named) => failure == Some(named),
                None => failure matches Some(FailureView::Other(ErrorView::Backend(message)))
                    && text::contains_text(
                    message,
                    "msb restore for sandbox "@ + name + " exited (code "@,
                ) && text::contains_text(message, output@) && text::contains_text(
                    message,
                    text::decimal_int(if code is Some {
                        code->0 as int
                    } else {
                        -1
                    }),
                ),
            }
        }),
{
    message_laws::law_launch_failed_tells_all(text::join_spec(argv, " "@), error@);
    message_laws::law_restore_timed_out_tells_all(name, FIRST_RUN_TIMEOUT_SECS as nat, output@);
    message_laws::law_restore_exited_tells_all(name, exit_code_or_minus_one(code), output@);
}

/// A restored sandbox has its workload started as soon as it is listed as running, however long
/// that took. While its status is another than running or stopped, or the listing command could
/// not be run, it is waited for, up to ten minutes and no longer.
pub proof fn law_a_restored_sandbox_has_ten_minutes(
    ran: bool,
    listing: Option<Vec<LsEntry>>,
    name: Seq<char>,
    elapsed_ms: u64,
)
    ensures
        ({
            let status = ls_json::status_of_spec(listing, name);
            let poll = restore_poll_spec(ran, listing, name, elapsed_ms);
            let settled = ran && (status is None || status == Some("Running"@) || status == Some(
                "Stopped"@,
            ));
            &&& poll == RestorePoll::SpawnWorkload <==> ran && status == Some("Running"@)
            &&& poll == RestorePoll::ReachedStopped <==> ran && status == Some("Stopped"@)
            &&& poll == RestorePoll::DroppedOut <==> ran && status is None
            &&& poll == RestorePoll::TimedOut <==> !settled && elapsed_ms >= 600_000
            &&& poll == RestorePoll::Wait <==> !settled && elapsed_ms < 600_000
        }),
{
    reveal_strlit("Running");
    reveal_strlit("Stopped");
    assert("Running"@[0] != "Stopped"@[0]);
}

/// A restored sandbox that did not come up fails with an error of the backend that tells the
/// sandbox and what its own log says; one that is up or waited for does not fail.
pub proof fn law_a_sandbox_that_is_not_up_tells_its_log(
    poll: RestorePoll,
    name: Seq<char>,
    diagnostics: Seq<char>,
)
    ensures
        match poll_failure_spec(poll, name, diagnostics) {
            Some(failure) => (poll == RestorePoll::ReachedStopped || poll == RestorePoll::DroppedOut
                || poll == RestorePoll::TimedOut) && (failure matches FailureView::Other(
                ErrorView::Backend(message),
            ) && text::contains_text(message, name) && text::contains_text(message, diagnostics)
                && (poll == RestorePoll::ReachedStopped ==> text::contains_text(
                message,
                "a successful `msb restore` — it "@ + "reached Stopped"@ + " while this backend"@,
            )) && (poll == RestorePoll::DroppedOut ==> text::contains_text(
                message,
                "a successful `msb restore` — it "@ + "dropped out of `msb ls` entirely"@
                    + " while this backend"@,
            )) && (poll == RestorePoll::TimedOut ==> text::contains_text(
                message,
                " did not reach Running within "@ + text::decimal(600) + "s after a successful"@,
            ))),
            None => poll == RestorePoll::SpawnWorkload || poll == RestorePoll::Wait,
        },
{
    message_laws::law_restore_not_running_tells_all(name, "reached Stopped"@, diagnostics);
    message_laws::law_restore_not_running_tells_all(
        name,
        "dropped out of `msb ls` entirely"@,
        diagnostics,
    );
    message_laws::law_restore_poll_timed_out_tells_all(
        name,
        FIRST_RUN_TIMEOUT_SECS as nat,
        diagnostics,
    );
}

/// A log that says something is told in full, both streams of it; an error is told where it
/// could not be read.
pub proof fn law_a_log_is_told_in_full(name: Seq<char>, log: ExecResult, error: String)
    ensures
        !text::is_blank(log.stdout@) || !text::is_blank(log.stderr@) ==> {
            let said = diagnostics_spec(name, Ok(log));
            text::contains_text(said, log.stdout@) && text::contains_text(said, log.stderr@)
        },
        !text::is_blank(log.stdout@) || !text::is_blank(log.stderr@) ==> text::contains_text(
            diagnostics_spec(name, Ok(log)),
            " output:\n"@ + (log.stdout@ + log.stderr@),
        ),
        text::is_blank(log.stdout@) && text::is_blank(log.stderr@) ==> diagnostics_spec(
            name,
            Ok(log),
        ) == "`msb logs "@ + name + " --source system` returned no output"@,
        text::contains_text(
            diagnostics_spec(name, Ok(log)),
            "`msb logs "@ + name + " --source system`"@,
        ),
        text::contains_text(
            diagnostics_spec(name, Err(error)),
            "system` could not be read: "@ + error@,
        ),
{
    message_laws::law_system_log_tells_all(name, log.stdout@, log.stderr@);
    message_laws::law_both_streams_of_a_log_are_told(name, log.stdout@, log.stderr@);
    message_laws::law_system_log_empty_tells_all(name);
    message_laws::law_system_log_unreadable_tells_all(name, error@);
}

/// A workload that could not reach the agent of its guest is started again until thirty seconds
/// have passed since it was first started, and not after.
pub proof fn law_an_agent_has_thirty_seconds(
    name: Seq<char>,
    success: bool,
    code: Option<i32>,
    output: Seq<char>,
    elapsed_ms: u64,
)
    requires
        text::contains_text(output, "agent client error"@),
        text::contains_text(output, "connect"@),
    ensures
        workload_step_spec(name, success, code, output, elapsed_ms, None)
            == WorkloadActionView::Retry <==> elapsed_ms < 30_000,
{
}

/// A workload that ended for another reason than its agent is never started again: one that
/// ended well is looked into, and is done exactly where it ran to completion; any other is a
/// failure that tells the sandbox, the exit code and the output.
pub proof fn law_a_workload_that_ended_is_looked_into(
    name: Seq<char>,
    success: bool,
    code: Option<i32>,
    output: Seq<char>,
    elapsed_ms: u64,
    completed: bool,
)
    ensures
        ({
            let ended = workload_step_spec(name, success, code, output, elapsed_ms, None);
            let checked = workload_step_spec(
                name,
                success,
                code,
                output,
                elapsed_ms,
                Some(completed),
            );
            let agent = text::contains_text(output, "agent client error"@) && text::contains_text(
                output,
                "connect"@,
            );
            &&& !agent || elapsed_ms >= 30_000 ==> {
                &&& success ==> ended is CheckCompletion
                &&& !success ==> workload_fails_telling(ended, name, code, output)
            }
            &&& completed ==> checked is Booted
            &&& !completed ==> workload_fails_telling(checked, name, code, output)
        }),
{
    message_laws::law_workload_exited_tells_all(name, exit_code_or_minus_one(code), output);
}

/// Whether a workload failed with an error of the backend that tells the sandbox, the exit code
/// (or `-1` where a signal ended it) and the output.
pub open spec fn workload_fails_telling(
    action: WorkloadActionView,
    name: Seq<char>,
    code: Option<i32>,
    output: Seq<char>,
) -> bool {
    action matches WorkloadActionView::Fail(FailureView::Other(ErrorView::Backend(message)))
        && text::contains_text(
        message,
        "the workload exec for sandbox "@ + name + " exited (code "@,
    ) && text::contains_text(message, output) && (match code {
        Some(code) => text::contains_text(message, text::decimal_int(code as int)),
        None => text::contains_text(message, text::decimal_int(-1)),
    })
}

/// Without a command of its own a restored container runs the one that was captured with its
/// checkpoint; without either it has nothing to run.
pub proof fn law_captured_command_is_run(spec: ContainerSpec)
    requires
        spec.command is None,
    ensures
        spec.checkpoint_captured_cmdline matches Some(captured) ==> workload_of(spec) == Some(
            text::texts(captured@),
        ),
        spec.checkpoint_captured_cmdline is None ==> workload_of(spec) is None,
{
}

/// A container is started under one of several names exactly where it has a checkpoint and at
/// least one name to choose from.
pub proof fn law_names_to_choose_from(spec: ContainerSpec, reference: String, names: Vec<String>)
    ensures
        spec.checkpoint_ref == Some(reference) && spec.restore_name_candidates == Some(names)
            && names@.len() > 0 ==> start_kind_spec(spec) == BootKind::Candidate,
        spec.checkpoint_ref is None ==> start_kind_spec(spec) == BootKind::OneName,
        spec.restore_name_candidates is None ==> start_kind_spec(spec) == BootKind::OneName,
        spec.restore_name_candidates == Some(names) && names@.len() == 0 ==> start_kind_spec(spec)
            == BootKind::OneName,
{
}

/// A first attempt that lost a race for the state database is made once more after half a
/// second, whatever kind of boot it is.
pub proof fn law_a_state_database_failure_is_tried_again(
    kind: BootKind,
    name: Seq<char>,
    image: Seq<char>,
    output: Seq<char>,
    lock_elapsed_ms: u64,
)
    ensures
        boot_step_spec(
            kind,
            name,
            image,
            PhaseView::First,
            Some(FailureView::StateDbError(output)),
            lock_elapsed_ms,
        ) == BootStepView::RetryAfter(500, PhaseView::AfterStateDb(output)),
{
}

/// A first attempt that met a broken image cache is made once more after the image was removed
/// from the cache, whatever kind of boot it is.
pub proof fn law_a_broken_cache_is_healed(
    kind: BootKind,
    name: Seq<char>,
    image: Seq<char>,
    output: Seq<char>,
    lock_elapsed_ms: u64,
)
    ensures
        boot_step_spec(
            kind,
            name,
            image,
            PhaseView::First,
            Some(FailureView::CacheCorruption(output)),
            lock_elapsed_ms,
        ) == BootStepView::Heal(output),
{
}

/// A first restore under the only name there is that was denied access is made once more after
/// half a second.
pub proof fn law_a_denied_access_is_tried_again_under_the_only_name(
    name: Seq<char>,
    image: Seq<char>,
    output: Seq<char>,
    lock_elapsed_ms: u64,
)
    ensures
        boot_step_spec(
            BootKind::OneName,
            name,
            image,
            PhaseView::First,
            Some(FailureView::RestoreAccessDenied(output)),
            lock_elapsed_ms,
        ) == BootStepView::RetryAfter(500, PhaseView::AfterAccessDenied(output)),
{
}

/// Every refusal by the install lock, the first and those after it, is followed by another
/// attempt two seconds later, until thirty seconds have passed since the first one; then the
/// boot fails and tells the sandbox and the refusal.
pub proof fn law_an_install_lock_has_thirty_seconds(
    kind: BootKind,
    name: Seq<char>,
    image: Seq<char>,
    phase: PhaseView,
    output: Seq<char>,
    lock_elapsed_ms: u64,
)
    requires
        phase == PhaseView::First || phase == PhaseView::LockWait,
    ensures
        ({
            let step = boot_step_spec(
                kind,
                name,
                image,
                phase,
                Some(FailureView::InstallLockActive(output)),
                lock_elapsed_ms,
            );
            &&& lock_elapsed_ms < 30_000 ==> step == BootStepView::RetryAfter(
                2_000,
                PhaseView::LockWait,
            )
            &&& lock_elapsed_ms >= 30_000 ==> (step matches BootStepView::Fail(
                ErrorView::Backend(message),
            ) && text::contains_text(message, name) && text::contains_text(message, output)
                && text::contains_text(
                message,
                " was refused for "@ + text::decimal(30) + "s by msb's"@,
            ))
        }),
{
    message_laws::law_lock_held_tells_all(
        verb_name(kind_verb(kind)),
        name,
        INSTALL_LOCK_RETRY_BUDGET_SECS as nat,
        output,
    );
}

/// An attempt that brought the sandbox up ends the boot well, whatever led to it; an error that
/// is ready for the caller ends the boot, and the caller gets it as it is.
pub proof fn law_a_boot_ends_with_what_it_met(
    kind: BootKind,
    name: Seq<char>,
    image: Seq<char>,
    phase: PhaseView,
    error: ErrorView,
    lock_elapsed_ms: u64,
)
    ensures
        boot_step_spec(kind, name, image, phase, None, lock_elapsed_ms) == BootStepView::Booted,
        boot_step_spec(
            kind,
            name,
            image,
            phase,
            Some(FailureView::Other(error)),
            lock_elapsed_ms,
        ) == BootStepView::Fail(error),
{
}

/// What the output of a failed attempt was.
pub open spec fn failure_output(failure: FailureView) -> Option<Seq<char>> {
    match failure {
        FailureView::CacheCorruption(output) => Some(output),
        FailureView::StateDbError(output) => Some(output),
        FailureView::InstallLockActive(output) => Some(output),
        FailureView::RestoreAccessDenied(output) => Some(output),
        FailureView::Other(_) => None,
    }
}

/// Whatever failure a boot ends in, its error tells the sandbox and the output of the last
/// attempt.
pub proof fn law_a_failed_boot_tells_its_last_output(
    kind: BootKind,
    name: Seq<char>,
    image: Seq<char>,
    phase: PhaseView,
    failure: FailureView,
    lock_elapsed_ms: u64,
)
    ensures
        boot_step_spec(kind, name, image, phase, Some(failure), lock_elapsed_ms) matches
            BootStepView::Fail(error) ==> (failure_output(failure) matches Some(output) ==> (
        error matches ErrorView::Backend(message) && text::contains_text(message, name)
            && text::contains_text(message, output) && (!(failure is RestoreAccessDenied)
            ==> text::contains_text(
            message,
            "msb "@ + (if kind == BootKind::OneName {
                "run"@
            } else {
                "restore"@
            }) + " for sandbox "@,
        )))),
{
    let verb = verb_name(kind_verb(kind));
    if let Some(output) = failure_output(failure) {
        message_laws::law_exited_early_tells_all(verb, name, output);
        message_laws::law_denied_candidate_tells_all(name, output);
        message_laws::law_denied_on_retry_tells_all(name, output);
        message_laws::law_lock_held_tells_all(
            verb,
            name,
            INSTALL_LOCK_RETRY_BUDGET_SECS as nat,
            output,
        );
        match phase {
            PhaseView::AfterStateDb(first) => {
                message_laws::law_state_db_twice_tells_all(verb, name, first, output);
            },
            PhaseView::AfterAccessDenied(first) => {
                message_laws::law_denied_twice_tells_all(name, first, output);
            },
            PhaseView::AfterHeal(first, heal) => {
                message_laws::law_cache_twice_tells_all(verb, name, image, heal, first, output);
            },
            _ => {},
        }
    }
}

/// A boot that failed twice in the same way tells both outputs, and for a broken cache the image
/// and what became of removing it too.
pub proof fn law_the_same_failure_twice_tells_both(
    kind: BootKind,
    name: Seq<char>,
    image: Seq<char>,
    first: Seq<char>,
    heal: Seq<char>,
    output: Seq<char>,
    lock_elapsed_ms: u64,
)
    ensures
        boot_step_spec(
            kind,
            name,
            image,
            PhaseView::AfterStateDb(first),
            Some(FailureView::StateDbError(output)),
            lock_elapsed_ms,
        ) matches BootStepView::Fail(ErrorView::Backend(message)) && text::contains_text(
            message,
            "on this host.\nfirst attempt:\n"@ + first + "\nafter retry:\n"@,
        ) && text::contains_text(message, "\nafter retry:\n"@ + output),
        boot_step_spec(
            kind,
            name,
            image,
            PhaseView::AfterAccessDenied(first),
            Some(FailureView::RestoreAccessDenied(output)),
            lock_elapsed_ms,
        ) matches BootStepView::Fail(ErrorView::Backend(message)) && text::contains_text(
            message,
            "on this host.\nfirst attempt:\n"@ + first + "\nafter retry:\n"@,
        ) && text::contains_text(message, "\nafter retry:\n"@ + output),
        boot_step_spec(
            kind,
            name,
            image,
            PhaseView::AfterHeal(first, heal),
            Some(FailureView::CacheCorruption(output)),
            lock_elapsed_ms,
        ) matches BootStepView::Fail(ErrorView::Backend(message)) && text::contains_text(
            message,
            "under MSB_HOME).\nfirst attempt:\n"@ + first + "\nafter heal + retry:\n"@,
        ) && text::contains_text(message, "\nafter heal + retry:\n"@ + output)
            && text::contains_text(
            message,
            "that image's cache entry ("@ + heal + ") and retrying — this is"@,
        ) && text::contains_text(
            message,
            "error twice in a row for image '"@ + image + "', even after removing"@,
        ),
{
    let verb = verb_name(kind_verb(kind));
    message_laws::law_state_db_twice_tells_all(verb, name, first, output);
    message_laws::law_denied_twice_tells_all(name, first, output);
    message_laws::law_cache_twice_tells_all(verb, name, image, heal, first, output);
}

/// What became of removing an image is told: that it was removed exactly where the command
/// succeeded, else the exit code and the trimmed error output, else the error.
pub proof fn law_a_heal_is_told(result: ExecResult, error: String)
    ensures
        result.exit_code == 0 ==> heal_description(Ok(result)) == "removed"@,
        result.exit_code != 0 ==> {
            let said = heal_description(Ok(result));
            &&& text::contains_text(
                said,
                "`msb image remove` exited "@ + text::decimal_int(result.exit_code as int) + ": "@,
            )
            &&& text::contains_text(said, text::trim_spec(result.stderr@))
        },
        text::contains_text(
            heal_description(Err(error)),
            "remove` itself failed to run: "@ + error@,
        ),
{
    message_laws::law_heal_exited_tells_all(
        result.exit_code as int,
        text::trim_spec(result.stderr@),
    );
    message_laws::law_heal_not_run_tells_all(error@);
}

/// A second attempt that failed in another way than the first ends the boot with what it said,
/// as a command that ended early.
pub proof fn law_another_failure_is_told_as_it_is(
    kind: BootKind,
    name: Seq<char>,
    image: Seq<char>,
    phase: PhaseView,
    failure: FailureView,
    output: Seq<char>,
    lock_elapsed_ms: u64,
)
    requires
        (failure == FailureView::StateDbError(output) && (phase is AfterAccessDenied || phase
            is AfterHeal || phase is LockWait)) || (failure == FailureView::CacheCorruption(output)
            && (phase is AfterStateDb || phase is AfterAccessDenied || phase is LockWait)) || (
        failure == FailureView::InstallLockActive(output) && (phase is AfterStateDb || phase
            is AfterAccessDenied || phase is AfterHeal)) || (failure
            == FailureView::RestoreAccessDenied(output) && kind == BootKind::OneName && (phase
            is AfterStateDb || phase is AfterHeal || phase is LockWait)),
    ensures
        boot_step_spec(kind, name, image, phase, Some(failure), lock_elapsed_ms) matches
            BootStepView::Fail(ErrorView::Backend(message)) && text::contains_text(
            message,
            "msb "@ + (if kind == BootKind::OneName {
                "run"@
            } else {
                "restore"@
            }) + " for sandbox "@,
        ) && text::contains_text(message, " for sandbox "@ + name + " exited before reaching"@)
            && text::contains_text(message, " exited before reaching Running:\n"@ + output),
{
    let verb = verb_name(kind_verb(kind));
    message_laws::law_exited_early_tells_all(verb, name, output);
}

/// A restore under one of several names that was denied access is not tried again under that
/// name: its error tells the sandbox and the output, and is one that the next name may get past
/// wherever the output is.
pub proof fn law_a_denied_candidate_is_told(
    name: Seq<char>,
    image: Seq<char>,
    phase: PhaseView,
    output: Seq<char>,
    lock_elapsed_ms: u64,
)
    requires
        !(phase is AfterAccessDenied),
        classify::names_restore_access_denied(output),
    ensures
        boot_step_spec(
            BootKind::Candidate,
            name,
            image,
            phase,
            Some(FailureView::RestoreAccessDenied(output)),
            lock_elapsed_ms,
        ) matches BootStepView::Fail(ErrorView::Backend(message)) && text::contains_text(
            message,
            "msb restore for sandbox "@ + name + " hit the Windows"@,
        ) && text::contains_text(
            message,
            if phase is First {
                "for the underlying cause): "@ + output
            } else {
                "access-denied transient: "@ + output
            },
        ) && classify::names_restore_access_denied(message),
{
    message_laws::law_denied_candidate_tells_all(name, output);
    message_laws::law_denied_on_retry_tells_all(name, output);
    let step = boot_step_spec(
        BootKind::Candidate,
        name,
        image,
        phase,
        Some(FailureView::RestoreAccessDenied(output)),
        lock_elapsed_ms,
    );
    let message = step->Fail_0->Backend_0;
    assert(text::contains_text(message, output));
    text::law_what_a_part_contains_the_whole_contains(message, output, "Access is denied"@);
    if text::contains_text(output, "io error"@) {
        text::law_what_a_part_contains_the_whole_contains(message, output, "io error"@);
    } else {
        text::law_what_a_part_contains_the_whole_contains(message, output, "os error 5"@);
    }
}

} // verus!
