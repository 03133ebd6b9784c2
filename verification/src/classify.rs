//! What the output of `msb` says went wrong. Each test looks for the part of a message
//! that stays the same from one occurrence to the next.

use vstd::prelude::*;
use vstd::string::*;

use crate::model::{ErrorView, RightsizeError};
use crate::text;

verus! {

/// Two outputs with a line feed between them.
pub open spec fn both_outputs(stdout: Seq<char>, stderr: Seq<char>) -> Seq<char> {
    stdout + "\n"@ + stderr
}

/// Puts two outputs together, a line feed between them.
pub fn combine_outputs(stdout: &str, stderr: &str) -> (both: String)
    ensures
        both@ == both_outputs(stdout@, stderr@),
{
    let mut both = stdout.to_owned();
    both.append("\n");
    both.append(stderr);
    both
}

/// A text of ASCII characters in lower case.
pub open spec fn ascii_lowercased(output: Seq<char>) -> Seq<char> {
    output.map_values(|c: char| text::ascii_lower(c))
}

/// Whether `msb` could not bind a host port, in a text in lower case.
pub open spec fn names_port_bind_conflict(lowered: Seq<char>) -> bool {
    ||| text::contains_text(lowered, "address already in use"@)
    ||| text::contains_text(lowered, "port is already allocated"@)
    ||| text::contains_text(lowered, "already in use"@) && text::contains_text(lowered, "port"@)
}

/// Whether `msb` could not bind a host port, in a text in lower case.
pub fn port_bind_conflict_in(lowered: &str) -> (yes: bool)
    ensures
        yes == names_port_bind_conflict(lowered@),
{
    text::contains(lowered, "address already in use") || text::contains(
        lowered,
        "port is already allocated",
    ) || (text::contains(lowered, "already in use") && text::contains(lowered, "port"))
}

/// Whether `msb` could not bind a host port, in whatever case.
pub fn is_port_bind_conflict(output: &str) -> (yes: bool)
    ensures
        yes == names_port_bind_conflict(text::lowercased(output@)),
        is_ascii(output) ==> yes == names_port_bind_conflict(ascii_lowercased(output@)),
{
    port_bind_conflict_in(text::to_lowercase(output).as_str())
}

/// Whether a sandbox of that name was there already, in a text in lower case.
pub open spec fn names_name_conflict(lowered: Seq<char>) -> bool {
    text::contains_text(lowered, "already exists"@)
}

/// Whether a sandbox of that name was there already, in a text in lower case.
pub fn name_conflict_in(lowered: &str) -> (yes: bool)
    ensures
        yes == names_name_conflict(lowered@),
{
    text::contains(lowered, "already exists")
}

/// Whether a sandbox of that name was there already, in whatever case.
pub fn is_name_conflict(output: &str) -> (yes: bool)
    ensures
        yes == names_name_conflict(text::lowercased(output@)),
        is_ascii(output) ==> yes == names_name_conflict(ascii_lowercased(output@)),
{
    name_conflict_in(text::to_lowercase(output).as_str())
}

/// Whether `msb` knows no such snapshot, in a text in lower case.
pub open spec fn names_snapshot_not_found(lowered: Seq<char>) -> bool {
    text::contains_text(lowered, "snapshot not found"@)
}

/// Whether `msb` knows no such snapshot, in a text in lower case.
pub fn snapshot_not_found_in(lowered: &str) -> (yes: bool)
    ensures
        yes == names_snapshot_not_found(lowered@),
{
    text::contains(lowered, "snapshot not found")
}

/// Whether `msb` knows no such snapshot, in whatever case.
pub fn is_snapshot_not_found(output: &str) -> (yes: bool)
    ensures
        yes == names_snapshot_not_found(text::lowercased(output@)),
        is_ascii(output) ==> yes == names_snapshot_not_found(ascii_lowercased(output@)),
{
    snapshot_not_found_in(text::to_lowercase(output).as_str())
}

/// Whether the snapshot to load was there already, in a text in lower case.
pub open spec fn names_snapshot_already_exists(lowered: Seq<char>) -> bool {
    text::contains_text(lowered, "snapshot already exists"@)
}

/// Whether the snapshot to load was there already, in a text in lower case.
pub fn snapshot_already_exists_in(lowered: &str) -> (yes: bool)
    ensures
        yes == names_snapshot_already_exists(lowered@),
{
    text::contains(lowered, "snapshot already exists")
}

/// Whether the snapshot to load was there already, in whatever case.
pub fn is_snapshot_already_exists(output: &str) -> (yes: bool)
    ensures
        yes == names_snapshot_already_exists(text::lowercased(output@)),
        is_ascii(output) ==> yes == names_snapshot_already_exists(ascii_lowercased(output@)),
{
    snapshot_already_exists_in(text::to_lowercase(output).as_str())
}

/// Whether a layer of an image is missing from the cache.
pub open spec fn names_image_cache_corruption(output: Seq<char>) -> bool {
    text::contains_text(output, "cache error at"@) && text::contains_text(output, "No such file"@)
}

/// Whether a layer of an image is missing from the cache.
pub fn is_image_cache_corruption(output: &str) -> (yes: bool)
    ensures
        yes == names_image_cache_corruption(output@),
{
    text::contains(output, "cache error at") && text::contains(output, "No such file")
}

/// Whether the state database of `msb` failed.
pub open spec fn names_state_db_error(output: Seq<char>) -> bool {
    text::contains_text(output, "error: database error:"@)
}

/// Whether the state database of `msb` failed.
pub fn is_msb_state_db_error(output: &str) -> (yes: bool)
    ensures
        yes == names_state_db_error(output@),
{
    text::contains(output, "error: database error:")
}

/// Whether a restore was denied access to a file.
pub open spec fn names_restore_access_denied(output: Seq<char>) -> bool {
    text::contains_text(output, "Access is denied"@) && (text::contains_text(output, "io error"@)
        || text::contains_text(output, "os error 5"@))
}

/// Whether a restore was denied access to a file.
pub fn is_restore_access_denied(output: &str) -> (yes: bool)
    ensures
        yes == names_restore_access_denied(output@),
{
    text::contains(output, "Access is denied") && (text::contains(output, "io error")
        || text::contains(output, "os error 5"))
}

/// Whether the agent of a guest could not be connected to at all.
pub open spec fn names_agent_endpoint_not_ready(stderr: Seq<char>) -> bool {
    text::contains_text(stderr, "agent client error"@) && text::contains_text(stderr, "connect"@)
}

/// Whether the agent of a guest could not be connected to at all.
pub fn is_agent_endpoint_not_ready(stderr: &str) -> (yes: bool)
    ensures
        yes == names_agent_endpoint_not_ready(stderr@),
{
    text::contains(stderr, "agent client error") && text::contains(stderr, "connect")
}

/// Whether writing an archive ended in error 5 of the operating system.
pub open spec fn names_archive_fsync_access_denied(stderr: Seq<char>) -> bool {
    text::contains_text(stderr, "(os error 5)"@)
}

/// Whether writing an archive ended in error 5 of the operating system.
pub fn is_archive_fsync_access_denied(stderr: &str) -> (yes: bool)
    ensures
        yes == names_archive_fsync_access_denied(stderr@),
{
    text::contains(stderr, "(os error 5)")
}

/// Whether `msb` refuses because an install operation is under way.
pub open spec fn names_install_lock_active(output: Seq<char>) -> bool {
    ||| text::contains_text(output, "install operation in progress"@)
    ||| text::contains_text(output, "install operation is in progress"@)
}

/// Whether `msb` refuses because an install operation is under way.
pub fn is_msb_install_lock_active(output: &str) -> (yes: bool)
    ensures
        yes == names_install_lock_active(output@),
{
    text::contains(output, "install operation in progress") || text::contains(
        output,
        "install operation is in progress",
    )
}

/// Whether an error is a backend error that a denied access stands behind.
pub open spec fn is_access_denied_error_spec(error: ErrorView) -> bool {
    match error {
        ErrorView::Backend(message) => names_restore_access_denied(message),
        _ => false,
    }
}

/// Whether an error is a backend error that a denied access stands behind.
pub fn is_restore_access_denied_error(error: &RightsizeError) -> (yes: bool)
    ensures
        yes == is_access_denied_error_spec(error@),
{
    match error {
        RightsizeError::Backend(message) => is_restore_access_denied(message.as_str()),
        _ => false,
    }
}

/// [`is_image_cache_corruption`], for integration tests against a real `msb`.
pub fn is_image_cache_corruption_for_test(output: &str) -> (yes: bool)
    ensures
        yes == names_image_cache_corruption(output@),
{
    is_image_cache_corruption(output)
}

/// The line in a sandbox's own log that says its workload was started.
pub const SANDBOX_STARTED_MARKER: &'static str = "--- sandbox started ---";

/// Whether a sandbox's own log, on either stream, says that its workload was started.
pub open spec fn log_shows_started_spec(stdout: Seq<char>, stderr: Seq<char>) -> bool {
    text::contains_text(stdout, SANDBOX_STARTED_MARKER@) || text::contains_text(
        stderr,
        SANDBOX_STARTED_MARKER@,
    )
}

/// Whether a sandbox's own log, on either stream, says that its workload was started.
pub fn log_shows_started(stdout: &str, stderr: &str) -> (yes: bool)
    ensures
        yes == log_shows_started_spec(stdout@, stderr@),
{
    text::contains(stdout, SANDBOX_STARTED_MARKER) || text::contains(
        stderr,
        SANDBOX_STARTED_MARKER,
    )
}

/// What denies access in a message denies access in a longer message around it.
pub proof fn law_access_denied_survives_wrapping(
    before: Seq<char>,
    output: Seq<char>,
    after: Seq<char>,
)
    requires
        names_restore_access_denied(output),
    ensures
        names_restore_access_denied(before + output + after),
{
    text::lemma_contains_in_larger(before, output, after, "Access is denied"@);
    if text::contains_text(output, "io error"@) {
        text::lemma_contains_in_larger(before, output, after, "io error"@);
    } else {
        text::lemma_contains_in_larger(before, output, after, "os error 5"@);
    }
}

/// A restore that was denied access by error 5 of the operating system, spelled as the
/// standard library spells it, is both a denied restore and a denied archive write.
pub proof fn law_os_error_five_is_denied(output: Seq<char>)
    requires
        text::contains_text(output, "Access is denied. (os error 5)"@),
    ensures
        names_restore_access_denied(output),
        names_archive_fsync_access_denied(output),
{
    let phrase = "Access is denied. (os error 5)"@;
    reveal_strlit("Access is denied. (os error 5)");
    reveal_strlit("Access is denied");
    reveal_strlit("os error 5");
    reveal_strlit("(os error 5)");
    let at = choose|at: int| text::occurs_at(output, phrase, at);
    assert(phrase.subrange(0, 16) =~= "Access is denied"@);
    assert(phrase.subrange(19, 29) =~= "os error 5"@);
    assert(phrase.subrange(18, 30) =~= "(os error 5)"@);
    assert(output.subrange(at, at + 16) =~= phrase.subrange(0, 16));
    assert(output.subrange(at + 19, at + 29) =~= phrase.subrange(19, 29));
    assert(output.subrange(at + 18, at + 30) =~= phrase.subrange(18, 30));
    assert(text::occurs_at(output, "Access is denied"@, at));
    assert(text::occurs_at(output, "os error 5"@, at + 19));
    assert(text::occurs_at(output, "(os error 5)"@, at + 18));
}

/// An output names a failure exactly where it holds the words that `msb` reports it with,
/// whatever stands around them; where two pairs of words are asked for, one alone is not
/// enough.
pub proof fn law_failures_are_named_by_their_words(before: Seq<char>, after: Seq<char>)
    ensures
        names_state_db_error(before + "error: database error:"@ + after),
        names_install_lock_active(before + "install operation in progress"@ + after),
        names_install_lock_active(before + "install operation is in progress"@ + after),
        names_archive_fsync_access_denied(before + "(os error 5)"@ + after),
        names_name_conflict(before + "already exists"@ + after),
        names_snapshot_not_found(before + "snapshot not found"@ + after),
        names_snapshot_already_exists(before + "snapshot already exists"@ + after),
        names_port_bind_conflict(before + "address already in use"@ + after),
        names_port_bind_conflict(before + "port is already allocated"@ + after),
{
    text::law_a_text_is_contained_in_what_surrounds_it(before, "error: database error:"@, after);
    text::law_a_text_is_contained_in_what_surrounds_it(
        before,
        "install operation in progress"@,
        after,
    );
    text::law_a_text_is_contained_in_what_surrounds_it(
        before,
        "install operation is in progress"@,
        after,
    );
    text::law_a_text_is_contained_in_what_surrounds_it(before, "(os error 5)"@, after);
    text::law_a_text_is_contained_in_what_surrounds_it(before, "already exists"@, after);
    text::law_a_text_is_contained_in_what_surrounds_it(before, "snapshot not found"@, after);
    text::law_a_text_is_contained_in_what_surrounds_it(before, "snapshot already exists"@, after);
    text::law_a_text_is_contained_in_what_surrounds_it(before, "address already in use"@, after);
    text::law_a_text_is_contained_in_what_surrounds_it(before, "port is already allocated"@, after);
}

/// A broken image cache, an agent that does not listen, a denied restore and a taken port are
/// told by two parts of the output each, in whatever order and however far apart.
pub proof fn law_failures_told_by_two_parts(output: Seq<char>)
    ensures
        text::contains_text(output, "cache error at"@) && text::contains_text(
            output,
            "No such file"@,
        ) ==> names_image_cache_corruption(output),
        text::contains_text(output, "agent client error"@) && text::contains_text(
            output,
            "connect"@,
        ) ==> names_agent_endpoint_not_ready(output),
        text::contains_text(output, "Access is denied"@) && text::contains_text(output, "io error"@)
            ==> names_restore_access_denied(output),
        text::contains_text(output, "Access is denied"@) && text::contains_text(
            output,
            "os error 5"@,
        ) ==> names_restore_access_denied(output),
        text::contains_text(output, "already in use"@) && text::contains_text(output, "port"@)
            ==> names_port_bind_conflict(output),
{
}

/// An output that lacks the words of a failure does not name it.
pub proof fn law_no_failure_without_its_words(output: Seq<char>)
    ensures
        !text::contains_text(output, "error: database error:"@) ==> !names_state_db_error(output),
        !text::contains_text(output, "install operation in progress"@) && !text::contains_text(
            output,
            "install operation is in progress"@,
        ) ==> !names_install_lock_active(output),
        !text::contains_text(output, "(os error 5)"@) ==> !names_archive_fsync_access_denied(
            output,
        ),
        !text::contains_text(output, "already exists"@) ==> !names_name_conflict(output),
        !text::contains_text(output, "snapshot not found"@) ==> !names_snapshot_not_found(output),
        !text::contains_text(output, "snapshot already exists"@) ==> !names_snapshot_already_exists(
            output,
        ),
        !text::contains_text(output, "cache error at"@) || !text::contains_text(
            output,
            "No such file"@,
        ) ==> !names_image_cache_corruption(output),
        !text::contains_text(output, "agent client error"@) || !text::contains_text(
            output,
            "connect"@,
        ) ==> !names_agent_endpoint_not_ready(output),
        !text::contains_text(output, "Access is denied"@) ==> !names_restore_access_denied(output),
        !text::contains_text(output, "io error"@) && !text::contains_text(output, "os error 5"@)
            ==> !names_restore_access_denied(output),
        !text::contains_text(output, "port is already allocated"@) && !text::contains_text(
            output,
            "already in use"@,
        ) ==> !names_port_bind_conflict(output),
        !text::contains_text(output, "port"@) && !text::contains_text(
            output,
            "address already in use"@,
        ) ==> !names_port_bind_conflict(output),
{
    reveal_strlit("address already in use");
    reveal_strlit("already in use");
    reveal_strlit("port is already allocated");
    reveal_strlit("port");
    let long = "address already in use"@;
    if text::contains_text(output, long) {
        let at = choose|at: int| text::occurs_at(output, long, at);
        assert(long.subrange(8, 22) =~= "already in use"@);
        assert(output.subrange(at + 8, at + 22) =~= long.subrange(8, 22));
        assert(text::occurs_at(output, "already in use"@, at + 8));
    }
    let port = "port is already allocated"@;
    if text::contains_text(output, port) {
        let at = choose|at: int| text::occurs_at(output, port, at);
        assert(port.subrange(0, 4) =~= "port"@);
        assert(output.subrange(at, at + 4) =~= port.subrange(0, 4));
        assert(text::occurs_at(output, "port"@, at));
    }
}

/// Two outputs are looked at as one: what either of them holds, both together hold.
pub proof fn law_both_outputs_are_looked_at(stdout: Seq<char>, stderr: Seq<char>, part: Seq<char>)
    ensures
        text::contains_text(stdout, part) || text::contains_text(stderr, part)
            ==> text::contains_text(both_outputs(stdout, stderr), part),
        both_outputs(stdout, stderr).take(stdout.len() as int) == stdout,
        both_outputs(stdout, stderr)[stdout.len() as int] == '\n',
        both_outputs(stdout, stderr).skip(stdout.len() as int + 1) == stderr,
{
    reveal_strlit("\n");
    let both = both_outputs(stdout, stderr);
    assert(both =~= Seq::empty() + stdout + ("\n"@ + stderr));
    assert(both =~= (stdout + "\n"@) + stderr + Seq::empty());
    if text::contains_text(stdout, part) {
        text::lemma_contains_in_larger(Seq::empty(), stdout, "\n"@ + stderr, part);
    }
    if text::contains_text(stderr, part) {
        text::lemma_contains_in_larger(stdout + "\n"@, stderr, Seq::empty(), part);
    }
    assert(both.take(stdout.len() as int) =~= stdout);
    assert(both.skip(stdout.len() as int + 1) =~= stderr);
}

/// A workload was started exactly where the sandbox's own log says so, on either stream.
pub proof fn law_started_is_told_on_either_stream(stdout: Seq<char>, stderr: Seq<char>)
    ensures
        log_shows_started_spec(stdout, stderr) <==> text::contains_text(
            stdout,
            "--- sandbox started ---"@,
        ) || text::contains_text(stderr, "--- sandbox started ---"@),
{
}

/// Only an error of the backend can tell of a denied access, and it does exactly where its
/// text holds the words of one.
pub proof fn law_denied_access_is_a_backend_error(error: ErrorView)
    ensures
        is_access_denied_error_spec(error) <==> (error matches ErrorView::Backend(message)
            && text::contains_text(message, "Access is denied"@) && (text::contains_text(
            message,
            "io error"@,
        ) || text::contains_text(message, "os error 5"@))),
{
}

/// Lowering the case of a text changes its capitals from `A` to `Z` alone, one for one, so that
/// its length and every other ASCII character stay.
pub proof fn law_lowering_changes_capitals_alone(output: Seq<char>, i: int)
    requires
        0 <= i < output.len(),
        output[i] <= '\u{7F}',
    ensures
        ascii_lowercased(output).len() == output.len(),
        'A' <= output[i] <= 'Z' ==> ascii_lowercased(output)[i] as int == output[i] as int + 32,
        !('A' <= output[i] <= 'Z') ==> ascii_lowercased(output)[i] == output[i],
{
}

} // verus!
