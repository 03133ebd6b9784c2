//! What the output of `msb` says went wrong.

use rightsize_msb::classify::{
    is_agent_endpoint_not_ready, is_archive_fsync_access_denied, is_image_cache_corruption,
    is_image_cache_corruption_for_test, is_msb_install_lock_active, is_msb_state_db_error,
    is_name_conflict, is_port_bind_conflict, is_restore_access_denied,
    is_restore_access_denied_error, is_snapshot_already_exists, is_snapshot_not_found,
    log_shows_started, port_bind_conflict_in, combine_outputs, SANDBOX_STARTED_MARKER,
};
use rightsize_msb::model::RightsizeError;

const CAPTURED_WINDOWS_SAVE_FAILURE: &str = "msb snapshot save rz-ckpt-fccd7568-archive C:\\Users\\RUNNER~1\\AppData\\Local\\Temp\\rightsize-archive-export-8980-1-1785507050813959600\\artifact failed (exit 1): error: io error: Access is denied. (os error 5)";

#[test]
fn is_restore_access_denied_error_matches_a_backend_error_carrying_the_windows_wording() {
    assert!(is_restore_access_denied_error(&RightsizeError::Backend(
        "prefix: error: io error: Access is denied. (os error 5)".to_string()
    )));
}

#[test]
fn is_restore_access_denied_error_ignores_other_error_shapes() {
    assert!(!is_restore_access_denied_error(&RightsizeError::Backend(
        "some other failure".to_string()
    )));
    assert!(!is_restore_access_denied_error(
        &RightsizeError::NameConflict {
            message: "error: io error: Access is denied. (os error 5)".to_string(),
        }
    ));
}

#[test]
fn is_snapshot_already_exists_matches_the_verified_wording() {
    assert!(is_snapshot_already_exists(
        "error: snapshot already exists: /home/u/.microsandbox/snapshots/sha256-b9c0448ee9d54e33"
    ));
    assert!(is_snapshot_already_exists(
        "ERROR: Snapshot Already Exists: /path"
    ));
}

#[test]
fn is_snapshot_already_exists_negative_cases_do_not_match() {
    assert!(!is_snapshot_already_exists(""));
    assert!(!is_snapshot_already_exists("error: snapshot not found: x"));
    assert!(!is_snapshot_already_exists("imported successfully"));
}

#[test]
fn is_port_bind_conflict_matches_known_phrasings() {
    assert!(is_port_bind_conflict(
        "Error: address already in use (os error 48)"
    ));
    assert!(is_port_bind_conflict("port is already allocated"));
    assert!(is_port_bind_conflict("bind: address already in use"));
    assert!(is_port_bind_conflict(
        "Bind for 0.0.0.0:32770 failed: something something PORT already in use"
    ));
}

#[test]
fn is_port_bind_conflict_negative_cases_do_not_match() {
    assert!(!is_port_bind_conflict("panic: index out of bounds"));
    assert!(!is_port_bind_conflict(""));
    assert!(!is_port_bind_conflict("connection refused"));
}

#[test]
fn is_image_cache_corruption_matches_the_captured_msb_error_verbatim() {
    let output = "   ✗ Pulling      floci/floci-gcp:0.4.0\nerror: image error: cache error at /home/runner/.microsandbox/cache/layers/sha256_2a9a84f53fe64d76a54296ab37a4664aacef9f848d4aa6ad7efd84b135a351c6.tar.gz: No such file or directory (os error 2)\n";
    assert!(is_image_cache_corruption(output));
}

#[test]
fn is_image_cache_corruption_matches_regardless_of_which_image_or_digest() {
    assert!(is_image_cache_corruption(
        "error: image error: cache error at /tmp/msb-repro/cache/layers/sha256_c01d7b7a3f78972c12a4244ffb10257694b9d989c40172ab6184de42b967ab85.tar.gz: No such file or directory (os error 2)"
    ));
    assert!(is_image_cache_corruption(
        "error: cache error at C:\\Users\\runner\\.microsandbox\\cache\\layers\\sha256_deadbeef.tar.gz: No such file or directory (os error 2)"
    ));
}

#[test]
fn is_agent_endpoint_not_ready_matches_the_captured_windows_pipe_failure() {
    assert!(is_agent_endpoint_not_ready(
        "error: agent client error: connect \\\\.\\pipe\\msb-agent-e7779577a75cc1f89f66c534458bf8fd: The system cannot find the file specified. (os error 2)"
    ));
}

#[test]
fn is_agent_endpoint_not_ready_matches_the_unix_socket_shape() {
    assert!(is_agent_endpoint_not_ready(
        "error: agent client error: connect /run/user/1001/msb-agent-abc123.sock: No such file or directory (os error 2)"
    ));
}

#[test]
fn is_agent_endpoint_not_ready_ignores_a_guest_commands_own_failure() {
    assert!(!is_agent_endpoint_not_ready(
        "cat: /srv/missing.txt: No such file or directory"
    ));
    assert!(!is_agent_endpoint_not_ready(""));
}

#[test]
fn is_agent_endpoint_not_ready_ignores_a_post_connect_agent_error() {
    assert!(!is_agent_endpoint_not_ready(
        "error: agent client error: request failed: guest process exited before responding"
    ));
}

#[test]
fn is_archive_fsync_access_denied_matches_the_captured_windows_save_failure() {
    assert!(is_archive_fsync_access_denied(
        CAPTURED_WINDOWS_SAVE_FAILURE
    ));
    assert!(is_archive_fsync_access_denied(
        "error: io error: Zugriff verweigert. (os error 5)"
    ));
}

#[test]
fn is_archive_fsync_access_denied_ignores_other_snapshot_save_failures() {
    assert!(!is_archive_fsync_access_denied(
        "error: snapshot not found: rz-ckpt-fccd7568-archive"
    ));
    assert!(!is_archive_fsync_access_denied(
        "error: io error: The system cannot find the path specified. (os error 3)"
    ));
    assert!(!is_archive_fsync_access_denied(
        "error: io error: The network path was not found. (os error 53)"
    ));
    assert!(!is_archive_fsync_access_denied(""));
}

#[test]
fn is_msb_install_lock_active_matches_the_captured_refusal_verbatim() {
    assert!(is_msb_install_lock_active(
        "error: runtime error: microsandbox install operation in progress until 2026-07-31 20:35:23.760135600; retry after it completes"
    ));
    assert!(is_msb_install_lock_active(
        "error: runtime error: microsandbox install operation in progress until 2027-01-01 00:00:00.000000000; retry after it completes"
    ));
    assert!(is_msb_install_lock_active(
        "error: runtime error: another microsandbox install operation is in progress until 2026-08-01 19:26:19.025098100"
    ));
}

#[test]
fn is_msb_install_lock_active_ignores_other_runtime_errors() {
    assert!(!is_msb_install_lock_active(
        "error: runtime error: something else entirely"
    ));
    assert!(!is_msb_install_lock_active(
        "error: failed to start \"rz-abc-1\""
    ));
    assert!(!is_msb_install_lock_active(""));
}

#[test]
fn is_msb_state_db_error_matches_the_captured_race_shapes_verbatim() {
    assert!(is_msb_state_db_error(
        "error: database error: Execution Error: error returned from database: (code: 1) index idx_manifest_layers_unique already exists"
    ));
    assert!(is_msb_state_db_error(
        "error: database error: Execution Error: error returned from database: (code: 1) duplicate column name: kind"
    ));
}

#[test]
fn is_msb_state_db_error_matches_the_unique_constraint_shape() {
    assert!(is_msb_state_db_error(
        "error: database error: Execution Error: error returned from database: UNIQUE constraint failed: seaql_migrations.version"
    ));
}

#[test]
fn is_msb_state_db_error_matches_any_state_db_failure_not_just_known_wordings() {
    assert!(is_msb_state_db_error(
        "error: database error: disk I/O error"
    ));
}

#[test]
fn is_msb_state_db_error_negative_cases_do_not_match() {
    assert!(!is_msb_state_db_error(""));
    assert!(!is_msb_state_db_error(
        "app: database error: connection refused"
    ));
    assert!(!is_msb_state_db_error(
        "error: sandbox 'rz-abc-1' already exists"
    ));
    assert!(!is_msb_state_db_error(
        "error: image error: cache error at /tmp/cache/layers/sha256_dead.tar.gz: No such file or directory (os error 2)"
    ));
}

#[test]
fn is_name_conflict_matches_a_sandbox_already_exists_message() {
    assert!(is_name_conflict(
        "error: sandbox 'rz-reuse-abc123def456' already exists"
    ));
    assert!(is_name_conflict("Sandbox already exists"));
}

#[test]
fn is_name_conflict_negative_cases_do_not_match() {
    assert!(!is_name_conflict(""));
    assert!(!is_name_conflict("connection refused"));
    assert!(!is_name_conflict(
        "error: database error: Execution Error: disk I/O error"
    ));
}

#[test]
fn is_snapshot_not_found_matches_msbs_not_found_wording() {
    assert!(is_snapshot_not_found(
        "error: snapshot not found: rz-ckpt-deadbeefcafe"
    ));
    assert!(is_snapshot_not_found("Snapshot Not Found"));
}

#[test]
fn is_snapshot_not_found_negative_cases_do_not_match() {
    assert!(!is_snapshot_not_found(""));
    assert!(!is_snapshot_not_found("connection refused"));
    assert!(!is_snapshot_not_found(
        "error: image not found: floci/floci-az:0.8.0"
    ));
    assert!(!is_snapshot_not_found(
        "error: database error: Execution Error: disk I/O error"
    ));
}

#[test]
fn is_image_cache_corruption_negative_cases_do_not_match() {
    assert!(!is_image_cache_corruption("panic: index out of bounds"));
    assert!(!is_image_cache_corruption(""));
    assert!(!is_image_cache_corruption(
        "error: image not found: floci/floci-az:0.8.0"
    ));
    assert!(!is_image_cache_corruption(
        "sh: /app/config.yaml: No such file or directory"
    ));
    assert!(!is_image_cache_corruption(
        "error: cache error at /tmp/x/layers/sha256_abc.tar.gz: Permission denied (os error 13)"
    ));
}

#[test]
fn is_restore_access_denied_matches_the_captured_windows_wording() {
    assert!(is_restore_access_denied(
        "error: io error: Access is denied. (os error 5)"
    ));
    assert!(is_restore_access_denied("Access is denied. (os error 5)"));
}

#[test]
fn is_restore_access_denied_negative_cases_do_not_match() {
    assert!(!is_restore_access_denied(
        "error: snapshot corrupt: bad magic bytes"
    ));
    assert!(
        !is_restore_access_denied("Access is denied."),
        "no io-error/os-error-5 co-signal"
    );
    assert!(!is_restore_access_denied(
        "io error: something else (os error 13)"
    ));
}

#[test]
fn the_test_hook_is_the_classifier() {
    assert!(is_image_cache_corruption_for_test(
        "error: cache error at /x: No such file or directory"
    ));
    assert!(!is_image_cache_corruption_for_test("No such file or directory"));
}

#[test]
fn case_does_not_matter_to_the_conflict_classifiers() {
    assert!(is_port_bind_conflict("ADDRESS ALREADY IN USE"));
    assert!(is_name_conflict("ALREADY EXISTS"));
    assert!(!port_bind_conflict_in("ADDRESS ALREADY IN USE"));
    assert!(port_bind_conflict_in("address already in use"));
}

#[test]
fn a_denied_access_survives_wrapping() {
    let inner = "Access is denied. (os error 5)";
    assert!(is_restore_access_denied(&format!("before {inner} after")));
    assert!(is_archive_fsync_access_denied(&format!("before {inner} after")));
}

#[test]
fn the_started_marker_counts_on_either_stream() {
    assert!(log_shows_started(SANDBOX_STARTED_MARKER, ""));
    assert!(log_shows_started("", &format!("x\n{SANDBOX_STARTED_MARKER}\n")));
    assert!(!log_shows_started("--- some unrelated system log line ---", ""));
    assert_eq!(combine_outputs("a", "b"), "a\nb");
}
