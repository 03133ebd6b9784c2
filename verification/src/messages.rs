//! The texts of the backend's errors: for each its contents, and the function that
//! writes it.

use vstd::prelude::*;
use vstd::string::*;

use crate::text;

verus! {

/// A boot ended before the sandbox was running.
pub open spec fn exited_early(verb: Seq<char>, name: Seq<char>, output: Seq<char>) -> Seq<char> {
    "msb "@ + verb + " for sandbox "@ + name + " exited before reaching Running:\n"@ + output
}

/// A boot ended before the sandbox was running.
pub fn exited_early_text(verb: &str, name: &str, output: &str) -> (message: String)
    ensures
        message@ == exited_early(verb@, name@, output@),
{
    let mut message = "msb ".to_owned();
    message.append(verb);
    message.append(" for sandbox ");
    message.append(name);
    message.append(" exited before reaching Running:\n");
    message.append(output);
    message
}

/// The install lock of `msb` was held for the whole time allowed.
pub open spec fn lock_held(
    verb: Seq<char>,
    name: Seq<char>,
    secs: nat,
    last: Seq<char>,
) -> Seq<char> {
    "msb "@ + verb + " for sandbox "@ + name + " was refused for "@ + text::decimal(secs)
        + "s by msb's install-operation lock — both observed occurrences cleared within seconds, so a lock held this long looks like a genuinely stuck msb install on this host.\n"@
        + last
}

/// The install lock of `msb` was held for the whole time allowed.
pub fn lock_held_text(verb: &str, name: &str, secs: u64, last: &str) -> (message: String)
    ensures
        message@ == lock_held(verb@, name@, secs as nat, last@),
{
    let mut message = "msb ".to_owned();
    message.append(verb);
    message.append(" for sandbox ");
    message.append(name);
    message.append(" was refused for ");
    message.append(text::decimal_text(secs).as_str());
    message.append("s by msb's install-operation lock — both observed occurrences cleared within seconds, so a lock held this long looks like a genuinely stuck msb install on this host.\n");
    message.append(last);
    message
}

/// A restore was denied access in two attempts.
pub open spec fn denied_twice(name: Seq<char>, first: Seq<char>, retry: Seq<char>) -> Seq<char> {
    "msb restore for sandbox "@ + name
        + " hit the Windows post-teardown access-denied transient twice in a row — the usual cause (the OS still releasing the snapshot artifact's file handle) clears well within one retry, so this looks like a real access problem on this host.\nfirst attempt:\n"@
        + first + "\nafter retry:\n"@ + retry
}

/// A restore was denied access in two attempts.
pub fn denied_twice_text(name: &str, first: &str, retry: &str) -> (message: String)
    ensures
        message@ == denied_twice(name@, first@, retry@),
{
    let mut message = "msb restore for sandbox ".to_owned();
    message.append(name);
    message.append(" hit the Windows post-teardown access-denied transient twice in a row — the usual cause (the OS still releasing the snapshot artifact's file handle) clears well within one retry, so this looks like a real access problem on this host.\nfirst attempt:\n");
    message.append(first);
    message.append("\nafter retry:\n");
    message.append(retry);
    message
}

/// The state database failed in two attempts.
pub open spec fn state_db_twice(
    verb: Seq<char>,
    name: Seq<char>,
    first: Seq<char>,
    retry: Seq<char>,
) -> Seq<char> {
    "msb "@ + verb + " for sandbox "@ + name
        + " hit msb's state-database error twice in a row — the usual cause (concurrent msb invocations racing startup migrations) is transient and one retry covers it, so this looks like real state-database trouble on this host.\nfirst attempt:\n"@
        + first + "\nafter retry:\n"@ + retry
}

/// The state database failed in two attempts.
pub fn state_db_twice_text(verb: &str, name: &str, first: &str, retry: &str) -> (message: String)
    ensures
        message@ == state_db_twice(verb@, name@, first@, retry@),
{
    let mut message = "msb ".to_owned();
    message.append(verb);
    message.append(" for sandbox ");
    message.append(name);
    message.append(" hit msb's state-database error twice in a row — the usual cause (concurrent msb invocations racing startup migrations) is transient and one retry covers it, so this looks like real state-database trouble on this host.\nfirst attempt:\n");
    message.append(first);
    message.append("\nafter retry:\n");
    message.append(retry);
    message
}

/// The image cache was corrupt before and after the image was removed from it.
pub open spec fn cache_twice(
    verb: Seq<char>,
    name: Seq<char>,
    image: Seq<char>,
    heal: Seq<char>,
    first: Seq<char>,
    retry: Seq<char>,
) -> Seq<char> {
    "msb "@ + verb + " for sandbox "@ + name
        + " hit its image cache error twice in a row for image '"@ + image
        + "', even after removing that image's cache entry ("@ + heal
        + ") and retrying — this is likely a deeper cache corruption than this backend's one-shot heal covers; try clearing the msb image cache by hand (`msb image prune` or removing the cache directory under MSB_HOME).\nfirst attempt:\n"@
        + first + "\nafter heal + retry:\n"@ + retry
}

/// The image cache was corrupt before and after the image was removed from it.
pub fn cache_twice_text(
    verb: &str,
    name: &str,
    image: &str,
    heal: &str,
    first: &str,
    retry: &str,
) -> (message: String)
    ensures
        message@ == cache_twice(verb@, name@, image@, heal@, first@, retry@),
{
    let mut message = "msb ".to_owned();
    message.append(verb);
    message.append(" for sandbox ");
    message.append(name);
    message.append(" hit its image cache error twice in a row for image '");
    message.append(image);
    message.append("', even after removing that image's cache entry (");
    message.append(heal);
    message.append(") and retrying — this is likely a deeper cache corruption than this backend's one-shot heal covers; try clearing the msb image cache by hand (`msb image prune` or removing the cache directory under MSB_HOME).\nfirst attempt:\n");
    message.append(first);
    message.append("\nafter heal + retry:\n");
    message.append(retry);
    message
}

/// A restore under one of several names was denied access.
pub open spec fn denied_candidate(name: Seq<char>, output: Seq<char>) -> Seq<char> {
    "msb restore for sandbox "@ + name
        + " hit the Windows job-object access-denied transient — this attempt's own candidate is left for the walk's best-effort cleanup; the next candidate is tried immediately, escalated to the job-free broker on Windows (see the CHANGELOG for the underlying cause): "@
        + output
}

/// A restore under one of several names was denied access.
pub fn denied_candidate_text(name: &str, output: &str) -> (message: String)
    ensures
        message@ == denied_candidate(name@, output@),
{
    let mut message = "msb restore for sandbox ".to_owned();
    message.append(name);
    message.append(" hit the Windows job-object access-denied transient — this attempt's own candidate is left for the walk's best-effort cleanup; the next candidate is tried immediately, escalated to the job-free broker on Windows (see the CHANGELOG for the underlying cause): ");
    message.append(output);
    message
}

/// A restore under one of several names was denied access when it was tried again.
pub open spec fn denied_on_retry(name: Seq<char>, output: Seq<char>) -> Seq<char> {
    "msb restore for sandbox "@ + name + " hit the Windows job-object access-denied transient: "@
        + output
}

/// A restore under one of several names was denied access when it was tried again.
pub fn denied_on_retry_text(name: &str, output: &str) -> (message: String)
    ensures
        message@ == denied_on_retry(name@, output@),
{
    let mut message = "msb restore for sandbox ".to_owned();
    message.append(name);
    message.append(" hit the Windows job-object access-denied transient: ");
    message.append(output);
    message
}

/// A host port was taken.
pub open spec fn port_taken(verb: Seq<char>, name: Seq<char>, output: Seq<char>) -> Seq<char> {
    "msb "@ + verb + " for sandbox "@ + name + " could not bind a host port: "@ + output
}

/// A host port was taken.
pub fn port_taken_text(verb: &str, name: &str, output: &str) -> (message: String)
    ensures
        message@ == port_taken(verb@, name@, output@),
{
    let mut message = "msb ".to_owned();
    message.append(verb);
    message.append(" for sandbox ");
    message.append(name);
    message.append(" could not bind a host port: ");
    message.append(output);
    message
}

/// A sandbox of that name was there already.
pub open spec fn name_taken(verb: Seq<char>, name: Seq<char>, output: Seq<char>) -> Seq<char> {
    "msb "@ + verb + " for sandbox "@ + name
        + " could not start — a sandbox with this name already exists: "@ + output
}

/// A sandbox of that name was there already.
pub fn name_taken_text(verb: &str, name: &str, output: &str) -> (message: String)
    ensures
        message@ == name_taken(verb@, name@, output@),
{
    let mut message = "msb ".to_owned();
    message.append(verb);
    message.append(" for sandbox ");
    message.append(name);
    message.append(" could not start — a sandbox with this name already exists: ");
    message.append(output);
    message
}

/// An attached sandbox ended before it was running.
pub open spec fn run_exited(name: Seq<char>, code: int, output: Seq<char>) -> Seq<char> {
    "msb run for sandbox "@ + name + " exited (code "@ + text::decimal_int(code)
        + ") before reaching Running — check the image entrypoint and `msb run` output below:\n"@
        + output
}

/// An attached sandbox ended before it was running.
pub fn run_exited_text(name: &str, code: i32, output: &str) -> (message: String)
    ensures
        message@ == run_exited(name@, code as int, output@),
{
    let mut message = "msb run for sandbox ".to_owned();
    message.append(name);
    message.append(" exited (code ");
    message.append(text::decimal_int_text(code).as_str());
    message.append(") before reaching Running — check the image entrypoint and `msb run` output below:\n");
    message.append(output);
    message
}

/// An attached sandbox was not running in time.
pub open spec fn run_timed_out(name: Seq<char>, secs: nat, output: Seq<char>) -> Seq<char> {
    "Sandbox "@ + name + " did not reach Running within "@ + text::decimal(secs)
        + "s — this can mean a slow image pull, a crash-looping entrypoint, or msb itself being unresponsive; last output:\n"@
        + output
}

/// An attached sandbox was not running in time.
pub fn run_timed_out_text(name: &str, secs: u64, output: &str) -> (message: String)
    ensures
        message@ == run_timed_out(name@, secs as nat, output@),
{
    let mut message = "Sandbox ".to_owned();
    message.append(name);
    message.append(" did not reach Running within ");
    message.append(text::decimal_text(secs).as_str());
    message.append("s — this can mean a slow image pull, a crash-looping entrypoint, or msb itself being unresponsive; last output:\n");
    message.append(output);
    message
}

/// A process could not be started.
pub open spec fn spawn_failed(args: Seq<char>, error: Seq<char>) -> Seq<char> {
    "failed to spawn msb "@ + args + ": "@ + error
}

/// A process could not be started.
pub fn spawn_failed_text(args: &str, error: &str) -> (message: String)
    ensures
        message@ == spawn_failed(args@, error@),
{
    let mut message = "failed to spawn msb ".to_owned();
    message.append(args);
    message.append(": ");
    message.append(error);
    message
}

/// A restore could not be launched.
pub open spec fn launch_failed(args: Seq<char>, error: Seq<char>) -> Seq<char> {
    "failed to launch msb "@ + args + ": "@ + error
}

/// A restore could not be launched.
pub fn launch_failed_text(args: &str, error: &str) -> (message: String)
    ensures
        message@ == launch_failed(args@, error@),
{
    let mut message = "failed to launch msb ".to_owned();
    message.append(args);
    message.append(": ");
    message.append(error);
    message
}

/// A restore did not end in time.
pub open spec fn restore_timed_out(name: Seq<char>, secs: nat, output: Seq<char>) -> Seq<char> {
    "msb restore for sandbox "@ + name + " did not exit within "@ + text::decimal(secs)
        + "s — a successful detached restore activates and exits within seconds, so msb itself may be overloaded or unresponsive; last output:\n"@
        + output
}

/// A restore did not end in time.
pub fn restore_timed_out_text(name: &str, secs: u64, output: &str) -> (message: String)
    ensures
        message@ == restore_timed_out(name@, secs as nat, output@),
{
    let mut message = "msb restore for sandbox ".to_owned();
    message.append(name);
    message.append(" did not exit within ");
    message.append(text::decimal_text(secs).as_str());
    message.append("s — a successful detached restore activates and exits within seconds, so msb itself may be overloaded or unresponsive; last output:\n");
    message.append(output);
    message
}

/// A restore failed.
pub open spec fn restore_exited(name: Seq<char>, code: int, output: Seq<char>) -> Seq<char> {
    "msb restore for sandbox "@ + name + " exited (code "@ + text::decimal_int(code)
        + ") — the restore itself failed, so the sandbox never activated; check the snapshot and `msb restore` output below:\n"@
        + output
}

/// A restore failed.
pub fn restore_exited_text(name: &str, code: i32, output: &str) -> (message: String)
    ensures
        message@ == restore_exited(name@, code as int, output@),
{
    let mut message = "msb restore for sandbox ".to_owned();
    message.append(name);
    message.append(" exited (code ");
    message.append(text::decimal_int_text(code).as_str());
    message.append(") — the restore itself failed, so the sandbox never activated; check the snapshot and `msb restore` output below:\n");
    message.append(output);
    message
}

/// A restored sandbox did not come up.
pub open spec fn restore_not_running(
    name: Seq<char>,
    reason: Seq<char>,
    diagnostics: Seq<char>,
) -> Seq<char> {
    "sandbox "@ + name + " never reached Running after a successful `msb restore` — it "@ + reason
        + " while this backend polled `msb ls`. "@ + diagnostics
}

/// A restored sandbox did not come up.
pub fn restore_not_running_text(name: &str, reason: &str, diagnostics: &str) -> (message: String)
    ensures
        message@ == restore_not_running(name@, reason@, diagnostics@),
{
    let mut message = "sandbox ".to_owned();
    message.append(name);
    message.append(" never reached Running after a successful `msb restore` — it ");
    message.append(reason);
    message.append(" while this backend polled `msb ls`. ");
    message.append(diagnostics);
    message
}

/// A restored sandbox was not running in time.
pub open spec fn restore_poll_timed_out(
    name: Seq<char>,
    secs: nat,
    diagnostics: Seq<char>,
) -> Seq<char> {
    "sandbox "@ + name + " did not reach Running within "@ + text::decimal(secs)
        + "s after a successful `msb restore` — this can mean a slow disk restore or msb itself being unresponsive. "@
        + diagnostics
}

/// A restored sandbox was not running in time.
pub fn restore_poll_timed_out_text(name: &str, secs: u64, diagnostics: &str) -> (message: String)
    ensures
        message@ == restore_poll_timed_out(name@, secs as nat, diagnostics@),
{
    let mut message = "sandbox ".to_owned();
    message.append(name);
    message.append(" did not reach Running within ");
    message.append(text::decimal_text(secs).as_str());
    message.append("s after a successful `msb restore` — this can mean a slow disk restore or msb itself being unresponsive. ");
    message.append(diagnostics);
    message
}

/// What a sandbox wrote to its own log.
pub open spec fn system_log(name: Seq<char>, stdout: Seq<char>, stderr: Seq<char>) -> Seq<char> {
    "`msb logs "@ + name + " --source system` output:\n"@ + stdout + stderr
}

/// What a sandbox wrote to its own log.
pub fn system_log_text(name: &str, stdout: &str, stderr: &str) -> (message: String)
    ensures
        message@ == system_log(name@, stdout@, stderr@),
{
    let mut message = "`msb logs ".to_owned();
    message.append(name);
    message.append(" --source system` output:\n");
    message.append(stdout);
    message.append(stderr);
    message
}

/// A sandbox wrote nothing to its own log.
pub open spec fn system_log_empty(name: Seq<char>) -> Seq<char> {
    "`msb logs "@ + name + " --source system` returned no output"@
}

/// A sandbox wrote nothing to its own log.
pub fn system_log_empty_text(name: &str) -> (message: String)
    ensures
        message@ == system_log_empty(name@),
{
    let mut message = "`msb logs ".to_owned();
    message.append(name);
    message.append(" --source system` returned no output");
    message
}

/// A sandbox's own log could not be read.
pub open spec fn system_log_unreadable(name: Seq<char>, error: Seq<char>) -> Seq<char> {
    "`msb logs "@ + name + " --source system` could not be read: "@ + error
}

/// A sandbox's own log could not be read.
pub fn system_log_unreadable_text(name: &str, error: &str) -> (message: String)
    ensures
        message@ == system_log_unreadable(name@, error@),
{
    let mut message = "`msb logs ".to_owned();
    message.append(name);
    message.append(" --source system` could not be read: ");
    message.append(error);
    message
}

/// A restored sandbox has no known workload.
pub open spec fn nothing_to_run(name: Seq<char>) -> Seq<char> {
    "sandbox "@ + name
        + " was restored from a checkpoint that predates workload capture — it has neither an explicit command nor a captured guest cmdline, so there is nothing to run; re-checkpoint the source container with this version of rightsize to record its command, or restore under a backend whose checkpoint mechanism doesn't restart the workload (docker) instead"@
}

/// A restored sandbox has no known workload.
pub fn nothing_to_run_text(name: &str) -> (message: String)
    ensures
        message@ == nothing_to_run(name@),
{
    let mut message = "sandbox ".to_owned();
    message.append(name);
    message.append(" was restored from a checkpoint that predates workload capture — it has neither an explicit command nor a captured guest cmdline, so there is nothing to run; re-checkpoint the source container with this version of rightsize to record its command, or restore under a backend whose checkpoint mechanism doesn't restart the workload (docker) instead");
    message
}

/// A revived workload ended at once.
pub open spec fn workload_exited(name: Seq<char>, code: int, output: Seq<char>) -> Seq<char> {
    "the workload exec for sandbox "@ + name + " exited (code "@ + text::decimal_int(code)
        + ") right after its checkpoint restore reached Running — check the command and its output below:\n"@
        + output
}

/// A revived workload ended at once.
pub fn workload_exited_text(name: &str, code: i32, output: &str) -> (message: String)
    ensures
        message@ == workload_exited(name@, code as int, output@),
{
    let mut message = "the workload exec for sandbox ".to_owned();
    message.append(name);
    message.append(" exited (code ");
    message.append(text::decimal_int_text(code).as_str());
    message.append(") right after its checkpoint restore reached Running — check the command and its output below:\n");
    message.append(output);
    message
}

/// An image could not be removed from the cache.
pub open spec fn heal_exited(code: int, stderr: Seq<char>) -> Seq<char> {
    "`msb image remove` exited "@ + text::decimal_int(code) + ": "@ + stderr
}

/// An image could not be removed from the cache.
pub fn heal_exited_text(code: i32, stderr: &str) -> (message: String)
    ensures
        message@ == heal_exited(code as int, stderr@),
{
    let mut message = "`msb image remove` exited ".to_owned();
    message.append(text::decimal_int_text(code).as_str());
    message.append(": ");
    message.append(stderr);
    message
}

/// The command that removes an image did not run.
pub open spec fn heal_not_run(error: Seq<char>) -> Seq<char> {
    "`msb image remove` itself failed to run: "@ + error
}

/// The command that removes an image did not run.
pub fn heal_not_run_text(error: &str) -> (message: String)
    ensures
        message@ == heal_not_run(error@),
{
    let mut message = "`msb image remove` itself failed to run: ".to_owned();
    message.append(error);
    message
}

/// Every name for a restore was refused.
pub open spec fn restore_names_exhausted(count: nat) -> Seq<char> {
    "every restore name candidate was tried and refused ("@ + text::decimal(count)
        + " candidates) — by msb's own \"already exists\" check, the Windows job-object access-denied transient, or both"@
}

/// Every name for a restore was refused.
pub fn restore_names_exhausted_text(count: u64) -> (message: String)
    ensures
        message@ == restore_names_exhausted(count as nat),
{
    let mut message = "every restore name candidate was tried and refused (".to_owned();
    message.append(text::decimal_text(count).as_str());
    message.append(" candidates) — by msb's own \"already exists\" check, the Windows job-object access-denied transient, or both");
    message
}

/// Every name for the sandbox of a checkpoint was refused.
pub open spec fn reboot_names_exhausted(count: nat) -> Seq<char> {
    "every candidate sandbox name was tried and refused ("@ + text::decimal(count)
        + " candidates) — by msb's own \"already exists\" check, the Windows job-object access-denied transient, or both"@
}

/// Every name for the sandbox of a checkpoint was refused.
pub fn reboot_names_exhausted_text(count: u64) -> (message: String)
    ensures
        message@ == reboot_names_exhausted(count as nat),
{
    let mut message = "every candidate sandbox name was tried and refused (".to_owned();
    message.append(text::decimal_text(count).as_str());
    message.append(" candidates) — by msb's own \"already exists\" check, the Windows job-object access-denied transient, or both");
    message
}

/// A boot from a checkpoint failed.
pub open spec fn reboot_failed(
    name: Seq<char>,
    reference: Seq<char>,
    error: Seq<char>,
) -> Seq<char> {
    "re-booting sandbox "@ + name + " from checkpoint "@ + reference + " failed ("@ + error
        + ") — the sandbox was removed but its state is preserved in checkpoint "@ + reference
        + ", restorable via Container::from_checkpoint(...)"@
}

/// A boot from a checkpoint failed.
pub fn reboot_failed_text(name: &str, reference: &str, error: &str) -> (message: String)
    ensures
        message@ == reboot_failed(name@, reference@, error@),
{
    let mut message = "re-booting sandbox ".to_owned();
    message.append(name);
    message.append(" from checkpoint ");
    message.append(reference);
    message.append(" failed (");
    message.append(error);
    message.append(") — the sandbox was removed but its state is preserved in checkpoint ");
    message.append(reference);
    message.append(", restorable via Container::from_checkpoint(...)");
    message
}

/// A boot from a checkpoint failed after it had been refused.
pub open spec fn reboot_failed_after_refusal(
    name: Seq<char>,
    reference: Seq<char>,
    error: Seq<char>,
    last: Seq<char>,
) -> Seq<char> {
    "re-booting sandbox "@ + name + " from checkpoint "@ + reference + " failed ("@ + error
        + ") after previously hitting a refusal ("@ + last
        + ") — the sandbox was removed but its state is preserved in checkpoint "@ + reference
        + ", restorable via Container::from_checkpoint(...)"@
}

/// A boot from a checkpoint failed after it had been refused.
pub fn reboot_failed_after_refusal_text(
    name: &str,
    reference: &str,
    error: &str,
    last: &str,
) -> (message: String)
    ensures
        message@ == reboot_failed_after_refusal(name@, reference@, error@, last@),
{
    let mut message = "re-booting sandbox ".to_owned();
    message.append(name);
    message.append(" from checkpoint ");
    message.append(reference);
    message.append(" failed (");
    message.append(error);
    message.append(") after previously hitting a refusal (");
    message.append(last);
    message.append(") — the sandbox was removed but its state is preserved in checkpoint ");
    message.append(reference);
    message.append(", restorable via Container::from_checkpoint(...)");
    message
}

/// A boot from a checkpoint was refused for the whole time allowed.
pub open spec fn reboot_kept_refused(
    name: Seq<char>,
    reference: Seq<char>,
    refusal: Seq<char>,
    secs: nat,
    last: Seq<char>,
) -> Seq<char> {
    "re-booting sandbox "@ + name + " from checkpoint "@ + reference + " kept hitting "@ + refusal
        + " for "@ + text::decimal(secs)
        + "s after `msb ls` had already confirmed the name clear ("@ + last
        + ") — msb's own on-disk directory release can lag its DB record's own release on a loaded Windows host well past a short wait, but a refusal that never clears this long looks like a genuinely stuck sandbox rather than a release race; the sandbox was removed but its state is preserved in checkpoint "@
        + reference + ", restorable via Container::from_checkpoint(...)"@
}

/// A boot from a checkpoint was refused for the whole time allowed.
pub fn reboot_kept_refused_text(
    name: &str,
    reference: &str,
    refusal: &str,
    secs: u64,
    last: &str,
) -> (message: String)
    ensures
        message@ == reboot_kept_refused(name@, reference@, refusal@, secs as nat, last@),
{
    let mut message = "re-booting sandbox ".to_owned();
    message.append(name);
    message.append(" from checkpoint ");
    message.append(reference);
    message.append(" kept hitting ");
    message.append(refusal);
    message.append(" for ");
    message.append(text::decimal_text(secs).as_str());
    message.append("s after `msb ls` had already confirmed the name clear (");
    message.append(last);
    message.append(") — msb's own on-disk directory release can lag its DB record's own release on a loaded Windows host well past a short wait, but a refusal that never clears this long looks like a genuinely stuck sandbox rather than a release race; the sandbox was removed but its state is preserved in checkpoint ");
    message.append(reference);
    message.append(", restorable via Container::from_checkpoint(...)");
    message
}

/// A sandbox could not be stopped for a checkpoint.
pub open spec fn stop_failed(name: Seq<char>, code: int, stderr: Seq<char>) -> Seq<char> {
    "msb stop "@ + name + " failed before taking a checkpoint (exit "@ + text::decimal_int(code)
        + "): "@ + stderr
}

/// A sandbox could not be stopped for a checkpoint.
pub fn stop_failed_text(name: &str, code: i32, stderr: &str) -> (message: String)
    ensures
        message@ == stop_failed(name@, code as int, stderr@),
{
    let mut message = "msb stop ".to_owned();
    message.append(name);
    message.append(" failed before taking a checkpoint (exit ");
    message.append(text::decimal_int_text(code).as_str());
    message.append("): ");
    message.append(stderr);
    message
}

/// A snapshot was refused.
pub open spec fn snapshot_exited(
    name: Seq<char>,
    basename: Seq<char>,
    dest_dir: Seq<char>,
    code: int,
    stderr: Seq<char>,
) -> Seq<char> {
    "msb snapshot create --from-sandbox "@ + name + " "@ + basename + " --dest-dir "@ + dest_dir
        + " failed (exit "@ + text::decimal_int(code) + "): "@ + stderr
        + " — the sandbox is left stopped; run `msb start "@ + name
        + "` by hand to bring it back up"@
}

/// A snapshot was refused.
pub fn snapshot_exited_text(
    name: &str,
    basename: &str,
    dest_dir: &str,
    code: i32,
    stderr: &str,
) -> (message: String)
    ensures
        message@ == snapshot_exited(name@, basename@, dest_dir@, code as int, stderr@),
{
    let mut message = "msb snapshot create --from-sandbox ".to_owned();
    message.append(name);
    message.append(" ");
    message.append(basename);
    message.append(" --dest-dir ");
    message.append(dest_dir);
    message.append(" failed (exit ");
    message.append(text::decimal_int_text(code).as_str());
    message.append("): ");
    message.append(stderr);
    message.append(" — the sandbox is left stopped; run `msb start ");
    message.append(name);
    message.append("` by hand to bring it back up");
    message
}

/// The command that takes a snapshot did not run.
pub open spec fn snapshot_not_run(
    name: Seq<char>,
    basename: Seq<char>,
    dest_dir: Seq<char>,
    error: Seq<char>,
) -> Seq<char> {
    "msb snapshot create --from-sandbox "@ + name + " "@ + basename + " --dest-dir "@ + dest_dir
        + " failed: "@ + error + " — the sandbox is left stopped; run `msb start "@ + name
        + "` by hand to bring it back up"@
}

/// The command that takes a snapshot did not run.
pub fn snapshot_not_run_text(
    name: &str,
    basename: &str,
    dest_dir: &str,
    error: &str,
) -> (message: String)
    ensures
        message@ == snapshot_not_run(name@, basename@, dest_dir@, error@),
{
    let mut message = "msb snapshot create --from-sandbox ".to_owned();
    message.append(name);
    message.append(" ");
    message.append(basename);
    message.append(" --dest-dir ");
    message.append(dest_dir);
    message.append(" failed: ");
    message.append(error);
    message.append(" — the sandbox is left stopped; run `msb start ");
    message.append(name);
    message.append("` by hand to bring it back up");
    message
}

/// A snapshot was taken, but where it lies was not said.
pub open spec fn snapshot_unreadable(
    name: Seq<char>,
    basename: Seq<char>,
    dest_dir: Seq<char>,
    stdout: Seq<char>,
) -> Seq<char> {
    "msb snapshot create --from-sandbox "@ + name + " "@ + basename + " --dest-dir "@ + dest_dir
        + " succeeded but its stdout did not end with a recognizable absolute artifact path — the sandbox is left stopped; run `msb start "@
        + name + "` by hand to bring it back up\nraw stdout:\n"@ + stdout
}

/// A snapshot was taken, but where it lies was not said.
pub fn snapshot_unreadable_text(
    name: &str,
    basename: &str,
    dest_dir: &str,
    stdout: &str,
) -> (message: String)
    ensures
        message@ == snapshot_unreadable(name@, basename@, dest_dir@, stdout@),
{
    let mut message = "msb snapshot create --from-sandbox ".to_owned();
    message.append(name);
    message.append(" ");
    message.append(basename);
    message.append(" --dest-dir ");
    message.append(dest_dir);
    message.append(" succeeded but its stdout did not end with a recognizable absolute artifact path — the sandbox is left stopped; run `msb start ");
    message.append(name);
    message.append("` by hand to bring it back up\nraw stdout:\n");
    message.append(stdout);
    message
}

/// The name of a removed sandbox stayed taken.
pub open spec fn name_not_released(name: Seq<char>, secs: nat) -> Seq<char> {
    "sandbox "@ + name
        + " still shows up in `msb ls` (or `msb ls` itself never confirmed it absent) "@
        + text::decimal(secs) + "s after `msb rm "@ + name
        + "` — msb's own teardown normally frees a removed sandbox's name well within that, so this looks stuck rather than merely slow; check `msb ls` and `msb rm "@
        + name + "` by hand"@
}

/// The name of a removed sandbox stayed taken.
pub fn name_not_released_text(name: &str, secs: u64) -> (message: String)
    ensures
        message@ == name_not_released(name@, secs as nat),
{
    let mut message = "sandbox ".to_owned();
    message.append(name);
    message.append(" still shows up in `msb ls` (or `msb ls` itself never confirmed it absent) ");
    message.append(text::decimal_text(secs).as_str());
    message.append("s after `msb rm ");
    message.append(name);
    message.append("` — msb's own teardown normally frees a removed sandbox's name well within that, so this looks stuck rather than merely slow; check `msb ls` and `msb rm ");
    message.append(name);
    message.append("` by hand");
    message
}

/// What is left of a sandbox after its name stayed taken.
pub open spec fn state_preserved(error: Seq<char>, reference: Seq<char>) -> Seq<char> {
    error + " — the sandbox's disk state is preserved in checkpoint "@ + reference
        + ", restorable via Container::from_checkpoint(...)"@
}

/// What is left of a sandbox after its name stayed taken.
pub fn state_preserved_text(error: &str, reference: &str) -> (message: String)
    ensures
        message@ == state_preserved(error@, reference@),
{
    let mut message = error.to_owned();
    message.append(" — the sandbox's disk state is preserved in checkpoint ");
    message.append(reference);
    message.append(", restorable via Container::from_checkpoint(...)");
    message
}

/// An archive could not be written.
pub open spec fn export_failed(
    reference: Seq<char>,
    dest: Seq<char>,
    code: int,
    stderr: Seq<char>,
) -> Seq<char> {
    "msb snapshot save "@ + reference + " "@ + dest + " failed (exit "@ + text::decimal_int(code)
        + "): "@ + stderr
}

/// An archive could not be written.
pub fn export_failed_text(reference: &str, dest: &str, code: i32, stderr: &str) -> (message: String)
    ensures
        message@ == export_failed(reference@, dest@, code as int, stderr@),
{
    let mut message = "msb snapshot save ".to_owned();
    message.append(reference);
    message.append(" ");
    message.append(dest);
    message.append(" failed (exit ");
    message.append(text::decimal_int_text(code).as_str());
    message.append("): ");
    message.append(stderr);
    message
}

/// An archive could not be read.
pub open spec fn import_failed(code: int, stderr: Seq<char>) -> Seq<char> {
    "msb snapshot load failed (exit "@ + text::decimal_int(code) + "): "@ + stderr
}

/// An archive could not be read.
pub fn import_failed_text(code: i32, stderr: &str) -> (message: String)
    ensures
        message@ == import_failed(code as int, stderr@),
{
    let mut message = "msb snapshot load failed (exit ".to_owned();
    message.append(text::decimal_int_text(code).as_str());
    message.append("): ");
    message.append(stderr);
    message
}

/// An archive was read, but where it lies was not said.
pub open spec fn import_unreadable(stdout: Seq<char>, stderr: Seq<char>) -> Seq<char> {
    "msb snapshot load succeeded but its stdout did not end with a recognizable absolute artifact path, and no fallback path was found in stderr either\nraw stdout:\n"@
        + stdout + "\nraw stderr:\n"@ + stderr
}

/// An archive was read, but where it lies was not said.
pub fn import_unreadable_text(stdout: &str, stderr: &str) -> (message: String)
    ensures
        message@ == import_unreadable(stdout@, stderr@),
{
    let mut message = "msb snapshot load succeeded but its stdout did not end with a recognizable absolute artifact path, and no fallback path was found in stderr either\nraw stdout:\n".to_owned();
    message.append(stdout);
    message.append("\nraw stderr:\n");
    message.append(stderr);
    message
}

/// A checkpoint could not be removed.
pub open spec fn checkpoint_not_removed(
    reference: Seq<char>,
    code: int,
    stderr: Seq<char>,
) -> Seq<char> {
    "msb could not remove checkpoint '"@ + reference + "' (exit "@ + text::decimal_int(code)
        + "): "@ + stderr
}

/// A checkpoint could not be removed.
pub fn checkpoint_not_removed_text(reference: &str, code: i32, stderr: &str) -> (message: String)
    ensures
        message@ == checkpoint_not_removed(reference@, code as int, stderr@),
{
    let mut message = "msb could not remove checkpoint '".to_owned();
    message.append(reference);
    message.append("' (exit ");
    message.append(text::decimal_int_text(code).as_str());
    message.append("): ");
    message.append(stderr);
    message
}

/// Whether a checkpoint is there could not be found out.
pub open spec fn checkpoint_not_inspected(
    reference: Seq<char>,
    code: int,
    stderr: Seq<char>,
) -> Seq<char> {
    "msb could not inspect checkpoint '"@ + reference + "' (exit "@ + text::decimal_int(code)
        + "): "@ + stderr
}

/// Whether a checkpoint is there could not be found out.
pub fn checkpoint_not_inspected_text(reference: &str, code: i32, stderr: &str) -> (message: String)
    ensures
        message@ == checkpoint_not_inspected(reference@, code as int, stderr@),
{
    let mut message = "msb could not inspect checkpoint '".to_owned();
    message.append(reference);
    message.append("' (exit ");
    message.append(text::decimal_int_text(code).as_str());
    message.append("): ");
    message.append(stderr);
    message
}

/// A file could not be copied into a sandbox.
pub open spec fn copy_in_failed(name: Seq<char>, code: int, stderr: Seq<char>) -> Seq<char> {
    "msb copy into sandbox "@ + name + " failed (exit "@ + text::decimal_int(code) + "): "@ + stderr
}

/// A file could not be copied into a sandbox.
pub fn copy_in_failed_text(name: &str, code: i32, stderr: &str) -> (message: String)
    ensures
        message@ == copy_in_failed(name@, code as int, stderr@),
{
    let mut message = "msb copy into sandbox ".to_owned();
    message.append(name);
    message.append(" failed (exit ");
    message.append(text::decimal_int_text(code).as_str());
    message.append("): ");
    message.append(stderr);
    message
}

/// A file could not be copied out of a sandbox.
pub open spec fn copy_out_failed(name: Seq<char>, code: int, stderr: Seq<char>) -> Seq<char> {
    "msb copy out of sandbox "@ + name + " failed (exit "@ + text::decimal_int(code) + "): "@
        + stderr
}

/// A file could not be copied out of a sandbox.
pub fn copy_out_failed_text(name: &str, code: i32, stderr: &str) -> (message: String)
    ensures
        message@ == copy_out_failed(name@, code as int, stderr@),
{
    let mut message = "msb copy out of sandbox ".to_owned();
    message.append(name);
    message.append(" failed (exit ");
    message.append(text::decimal_int_text(code).as_str());
    message.append("): ");
    message.append(stderr);
    message
}

/// A command did not end in time.
pub open spec fn command_timed_out(args: Seq<char>, secs: nat) -> Seq<char> {
    "msb "@ + args + " timed out after "@ + text::decimal(secs) + "s and was force-killed"@
}

/// A command did not end in time.
pub fn command_timed_out_text(args: &str, secs: u64) -> (message: String)
    ensures
        message@ == command_timed_out(args@, secs as nat),
{
    let mut message = "msb ".to_owned();
    message.append(args);
    message.append(" timed out after ");
    message.append(text::decimal_text(secs).as_str());
    message.append("s and was force-killed");
    message
}

/// A command of the backend itself did not end in time.
pub open spec fn daemon_timed_out(args: Seq<char>, secs: nat) -> Seq<char> {
    "msb "@ + args + " timed out after "@ + text::decimal(secs)
        + "s and was force-killed — the msb daemon may be overloaded or unresponsive; retry, or check `msb` directly"@
}

/// A command of the backend itself did not end in time.
pub fn daemon_timed_out_text(args: &str, secs: u64) -> (message: String)
    ensures
        message@ == daemon_timed_out(args@, secs as nat),
{
    let mut message = "msb ".to_owned();
    message.append(args);
    message.append(" timed out after ");
    message.append(text::decimal_text(secs).as_str());
    message.append("s and was force-killed — the msb daemon may be overloaded or unresponsive; retry, or check `msb` directly");
    message
}

/// A log could not be read.
pub open spec fn logs_failed(name: Seq<char>, code: int, stderr: Seq<char>) -> Seq<char> {
    "msb logs "@ + name + " --tail 1000 exited "@ + text::decimal_int(code) + ": "@ + stderr
}

/// A log could not be read.
pub fn logs_failed_text(name: &str, code: i32, stderr: &str) -> (message: String)
    ensures
        message@ == logs_failed(name@, code as int, stderr@),
{
    let mut message = "msb logs ".to_owned();
    message.append(name);
    message.append(" --tail 1000 exited ");
    message.append(text::decimal_int_text(code).as_str());
    message.append(": ");
    message.append(stderr);
    message
}

/// The sandboxes could not be listed.
pub open spec fn ls_failed(code: int, stderr: Seq<char>) -> Seq<char> {
    "msb ls --format json exited "@ + text::decimal_int(code) + ": "@ + stderr
}

/// The sandboxes could not be listed.
pub fn ls_failed_text(code: i32, stderr: &str) -> (message: String)
    ensures
        message@ == ls_failed(code as int, stderr@),
{
    let mut message = "msb ls --format json exited ".to_owned();
    message.append(text::decimal_int_text(code).as_str());
    message.append(": ");
    message.append(stderr);
    message
}

/// Two links that take the same port of a guest.
pub open spec fn duplicate_port(port: nat) -> Seq<char> {
    "two siblings exposing the same guest port "@ + text::decimal(port) + " on one network"@
}

/// Two links that take the same port of a guest.
pub fn duplicate_port_text(port: u64) -> (message: String)
    ensures
        message@ == duplicate_port(port as nat),
{
    let mut message = "two siblings exposing the same guest port ".to_owned();
    message.append(text::decimal_text(port).as_str());
    message.append(" on one network");
    message
}

/// An alias that no host name may have.
pub open spec fn bad_alias(alias: Seq<char>) -> Seq<char> {
    "network alias '"@ + alias + "'"@
}

/// An alias that no host name may have.
pub fn bad_alias_text(alias: &str) -> (message: String)
    ensures
        message@ == bad_alias(alias@),
{
    let mut message = "network alias '".to_owned();
    message.append(alias);
    message.append("'");
    message
}

/// Links that an image has no tool for.
pub open spec fn links_need_nc(image: Seq<char>) -> Seq<char> {
    "network links (no nc/busybox in consumer image '"@ + image + "')"@
}

/// Links that an image has no tool for.
pub fn links_need_nc_text(image: &str) -> (message: String)
    ensures
        message@ == links_need_nc(image@),
{
    let mut message = "network links (no nc/busybox in consumer image '".to_owned();
    message.append(image);
    message.append("')");
    message
}

/// UDP links that an image has no tool for.
pub open spec fn udp_links_need_nc(image: Seq<char>) -> Seq<char> {
    "UDP network links (consumer image '"@ + image
        + "' has no busybox-style nc with -u/-e, or no timeout)"@
}

/// UDP links that an image has no tool for.
pub fn udp_links_need_nc_text(image: &str) -> (message: String)
    ensures
        message@ == udp_links_need_nc(image@),
{
    let mut message = "UDP network links (consumer image '".to_owned();
    message.append(image);
    message.append("' has no busybox-style nc with -u/-e, or no timeout)");
    message
}

/// The aliases could not be written.
pub open spec fn aliases_not_installed(name: Seq<char>, stderr: Seq<char>) -> Seq<char> {
    "failed to install /etc/hosts aliases in "@ + name + ": "@ + stderr
}

/// The aliases could not be written.
pub fn aliases_not_installed_text(name: &str, stderr: &str) -> (message: String)
    ensures
        message@ == aliases_not_installed(name@, stderr@),
{
    let mut message = "failed to install /etc/hosts aliases in ".to_owned();
    message.append(name);
    message.append(": ");
    message.append(stderr);
    message
}

/// A forwarder could not be installed.
pub open spec fn forwarder_not_installed(
    port: nat,
    name: Seq<char>,
    stderr: Seq<char>,
) -> Seq<char> {
    "failed to install the UDP link forwarder for guest port "@ + text::decimal(port) + " in "@
        + name + ": "@ + stderr
}

/// A forwarder could not be installed.
pub fn forwarder_not_installed_text(port: u64, name: &str, stderr: &str) -> (message: String)
    ensures
        message@ == forwarder_not_installed(port as nat, name@, stderr@),
{
    let mut message = "failed to install the UDP link forwarder for guest port ".to_owned();
    message.append(text::decimal_text(port).as_str());
    message.append(" in ");
    message.append(name);
    message.append(": ");
    message.append(stderr);
    message
}

/// A forwarder did not come up in time.
pub open spec fn forwarder_not_bound(
    port: nat,
    name: Seq<char>,
    timeout: Seq<char>,
    tail: Seq<char>,
) -> Seq<char> {
    "UDP link forwarder for guest port "@ + text::decimal(port) + " in "@ + name
        + " never bound within "@ + timeout + " — forwarder log tail: "@ + tail
}

/// A forwarder did not come up in time.
pub fn forwarder_not_bound_text(
    port: u64,
    name: &str,
    timeout: &str,
    tail: &str,
) -> (message: String)
    ensures
        message@ == forwarder_not_bound(port as nat, name@, timeout@, tail@),
{
    let mut message = "UDP link forwarder for guest port ".to_owned();
    message.append(text::decimal_text(port).as_str());
    message.append(" in ");
    message.append(name);
    message.append(" never bound within ");
    message.append(timeout);
    message.append(" — forwarder log tail: ");
    message.append(tail);
    message
}

/// The binary that the environment names cannot be run.
pub open spec fn msb_path_not_executable(path: Seq<char>) -> Seq<char> {
    "MSB_PATH='"@ + path
        + "' is not an executable file — point it at a real msb binary, or unset it to use the provisioned toolchain instead"@
}

/// The binary that the environment names cannot be run.
pub fn msb_path_not_executable_text(path: &str) -> (message: String)
    ensures
        message@ == msb_path_not_executable(path@),
{
    let mut message = "MSB_PATH='".to_owned();
    message.append(path);
    message.append("' is not an executable file — point it at a real msb binary, or unset it to use the provisioned toolchain instead");
    message
}

/// There is no build for a host.
pub open spec fn no_build(os: Seq<char>, arch: Seq<char>) -> Seq<char> {
    "microsandbox has no build for "@ + os + "/"@ + arch
        + " — use the docker backend (RIGHTSIZE_BACKEND=docker) or set MSB_PATH to a binary you provide"@
}

/// There is no build for a host.
pub fn no_build_text(os: &str, arch: &str) -> (message: String)
    ensures
        message@ == no_build(os@, arch@),
{
    let mut message = "microsandbox has no build for ".to_owned();
    message.append(os);
    message.append("/");
    message.append(arch);
    message.append(" — use the docker backend (RIGHTSIZE_BACKEND=docker) or set MSB_PATH to a binary you provide");
    message
}

/// The toolchain is missing and may not be downloaded.
pub open spec fn download_skipped(version: Seq<char>, path: Seq<char>) -> Seq<char> {
    "msb "@ + version + " not found at "@ + path
        + " and RIGHTSIZE_MSB_SKIP_DOWNLOAD=true — pre-install it there or point MSB_PATH at an msb binary"@
}

/// The toolchain is missing and may not be downloaded.
pub fn download_skipped_text(version: &str, path: &str) -> (message: String)
    ensures
        message@ == download_skipped(version@, path@),
{
    let mut message = "msb ".to_owned();
    message.append(version);
    message.append(" not found at ");
    message.append(path);
    message.append(" and RIGHTSIZE_MSB_SKIP_DOWNLOAD=true — pre-install it there or point MSB_PATH at an msb binary");
    message
}

/// The install lock was held for the whole time allowed.
pub open spec fn lock_timed_out(path: Seq<char>) -> Seq<char> {
    "timed out waiting for the provisioner lock at "@ + path
        + " — another process may have crashed while holding it; delete that directory and retry"@
}

/// The install lock was held for the whole time allowed.
pub fn lock_timed_out_text(path: &str) -> (message: String)
    ensures
        message@ == lock_timed_out(path@),
{
    let mut message = "timed out waiting for the provisioner lock at ".to_owned();
    message.append(path);
    message.append(" — another process may have crashed while holding it; delete that directory and retry");
    message
}

/// A line of the list of checksums is not one.
pub open spec fn malformed_line(line: Seq<char>) -> Seq<char> {
    "malformed line in checksums.sha256: '"@ + line + "'"@
}

/// A line of the list of checksums is not one.
pub fn malformed_line_text(line: &str) -> (message: String)
    ensures
        message@ == malformed_line(line@),
{
    let mut message = "malformed line in checksums.sha256: '".to_owned();
    message.append(line);
    message.append("'");
    message
}

/// The list of checksums leaves an asset out.
pub open spec fn no_checksum(asset: Seq<char>, base_url: Seq<char>) -> Seq<char> {
    "No SHA-256 for '"@ + asset + "' in "@ + base_url + "/checksums.sha256"@
}

/// The list of checksums leaves an asset out.
pub fn no_checksum_text(asset: &str, base_url: &str) -> (message: String)
    ensures
        message@ == no_checksum(asset@, base_url@),
{
    let mut message = "No SHA-256 for '".to_owned();
    message.append(asset);
    message.append("' in ");
    message.append(base_url);
    message.append("/checksums.sha256");
    message
}

/// A download is not what the list of checksums says.
pub open spec fn checksum_mismatch(
    asset: Seq<char>,
    base_url: Seq<char>,
    expected: Seq<char>,
    actual: Seq<char>,
    dir: Seq<char>,
) -> Seq<char> {
    "SHA-256 mismatch for "@ + asset + " from "@ + base_url + " (expected "@ + expected + ", got "@
        + actual + ") — delete "@ + dir + " and retry, or set MSB_PATH to a trusted msb binary"@
}

/// A download is not what the list of checksums says.
pub fn checksum_mismatch_text(
    asset: &str,
    base_url: &str,
    expected: &str,
    actual: &str,
    dir: &str,
) -> (message: String)
    ensures
        message@ == checksum_mismatch(asset@, base_url@, expected@, actual@, dir@),
{
    let mut message = "SHA-256 mismatch for ".to_owned();
    message.append(asset);
    message.append(" from ");
    message.append(base_url);
    message.append(" (expected ");
    message.append(expected);
    message.append(", got ");
    message.append(actual);
    message.append(") — delete ");
    message.append(dir);
    message.append(" and retry, or set MSB_PATH to a trusted msb binary");
    message
}

/// A request got no answer.
pub open spec fn http_failed(url: Seq<char>, error: Seq<char>) -> Seq<char> {
    "fetching "@ + url + ": "@ + error
}

/// A request got no answer.
pub fn http_failed_text(url: &str, error: &str) -> (message: String)
    ensures
        message@ == http_failed(url@, error@),
{
    let mut message = "fetching ".to_owned();
    message.append(url);
    message.append(": ");
    message.append(error);
    message
}

/// A request was answered with another status than success.
pub open spec fn http_status(status: Seq<char>, url: Seq<char>) -> Seq<char> {
    "HTTP "@ + status + " fetching "@ + url
}

/// A request was answered with another status than success.
pub fn http_status_text(status: &str, url: &str) -> (message: String)
    ensures
        message@ == http_status(status@, url@),
{
    let mut message = "HTTP ".to_owned();
    message.append(status);
    message.append(" fetching ");
    message.append(url);
    message
}

/// The body of an answer could not be read.
pub open spec fn body_unreadable(url: Seq<char>, error: Seq<char>) -> Seq<char> {
    "reading response body from "@ + url + ": "@ + error
}

/// The body of an answer could not be read.
pub fn body_unreadable_text(url: &str, error: &str) -> (message: String)
    ensures
        message@ == body_unreadable(url@, error@),
{
    let mut message = "reading response body from ".to_owned();
    message.append(url);
    message.append(": ");
    message.append(error);
    message
}

/// A text file is not text.
pub open spec fn not_utf8(url: Seq<char>, error: Seq<char>) -> Seq<char> {
    url + " did not return valid UTF-8 text: "@ + error
}

/// A text file is not text.
pub fn not_utf8_text(url: &str, error: &str) -> (message: String)
    ensures
        message@ == not_utf8(url@, error@),
{
    let mut message = url.to_owned();
    message.append(" did not return valid UTF-8 text: ");
    message.append(error);
    message
}

/// The process that was to broker a restore did not complete.
pub open spec fn broker_not_run(status: Seq<char>, stdout: Seq<char>) -> Seq<char> {
    "broker script's outer powershell process exited "@ + status
        + " without completing (its own CIM diagnostics never appeared in stdout/stderr: "@ + stdout
        + ") — treating this as a broker infrastructure failure so the caller falls back to a direct restore attempt, per POLICY v2 item 5"@
}

/// The process that was to broker a restore did not complete.
pub fn broker_not_run_text(status: &str, stdout: &str) -> (message: String)
    ensures
        message@ == broker_not_run(status@, stdout@),
{
    let mut message = "broker script's outer powershell process exited ".to_owned();
    message.append(status);
    message.append(" without completing (its own CIM diagnostics never appeared in stdout/stderr: ");
    message.append(stdout);
    message.append(") — treating this as a broker infrastructure failure so the caller falls back to a direct restore attempt, per POLICY v2 item 5");
    message
}

} // verus!
