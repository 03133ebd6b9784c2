//! Putting the toolchain in place.

use rightsize_msb::platform::Platform;
use rightsize_msb::provisioner::{
    begin_provision, cache_dir, check_download, default_cache_dir, expected_checksum, hex_sha256, install_moves, is_installed,
    judge_checksum, judge_override, judge_status, leftover_downloads, lock_step, msb_install_basename, parse_checksums, part_file_name, plan_layout,
    provision_step, style_of, LockAttempt, LockStep, ProvisionBegin, ProvisionStage, ProvisionStep, MSB_VERSION,
};
use rightsize_msb::model::RightsizeError;
use rightsize_msb::refs::PathStyle;

#[test]
fn the_layout_of_an_install() {
    let (platform, layout) = plan_layout("linux", "x86_64", "/cache").expect("supported");
    assert_eq!(platform, Platform::LinuxX64);
    assert_eq!(layout.install_dir, format!("/cache/msb/{MSB_VERSION}"));
    assert_eq!(layout.msb, "/cache/msb/0.6.6/bin/msb");
    assert_eq!(layout.krun, "/cache/msb/0.6.6/lib/libkrunfw.so.5.6.1");
    assert_eq!(layout.lock_dir, "/cache/msb/0.6.6/.lock");
    let (_, windows) = plan_layout("windows", "x86_64", "C:\\c").expect("supported");
    assert_eq!(windows.msb, "C:\\c\\msb\\0.6.6\\bin\\msb.exe");
    assert_eq!(windows.krun, "C:\\c\\msb\\0.6.6\\lib\\libkrunfw.dll");
    let err = plan_layout("linux", "riscv64", "/cache").unwrap_err();
    assert!(matches!(err, RightsizeError::Provision(_)));
    assert!(err.message().contains("linux/riscv64"), "{err:?}");
}

#[test]
fn msb_path_short_circuits_everything() {
    let path = Some("/opt/my-msb".to_string());
    assert_eq!(begin_provision(&path), ProvisionBegin::Override("/opt/my-msb".to_string()));
    assert_eq!(judge_override("/opt/my-msb", true).unwrap(), "/opt/my-msb");
}

#[test]
fn without_msb_path_the_release_is_used() {
    assert_eq!(begin_provision(&None), ProvisionBegin::Release);
    let empty = Some(String::new());
    assert_eq!(begin_provision(&empty), ProvisionBegin::Override(String::new()));
}

#[test]
fn msb_path_pointing_at_a_non_executable_file_is_rejected() {
    let err = judge_override("/opt/not-executable", false).unwrap_err();
    assert_eq!(
        err.message(),
        "MSB_PATH='/opt/not-executable' is not an executable file — point it at a real msb binary, or unset it to use the provisioned toolchain instead"
    );
}

#[test]
fn skip_download_without_a_cached_binary_fails_with_the_escape_hatch_hint() {
    let (_, layout) = plan_layout("linux", "x86_64", "/cache").unwrap();
    let step = provision_step(
        ProvisionStage::Unlocked,
        &layout,
        false,
        &Some("true".to_string()),
    );
    match step {
        ProvisionStep::Fail(err) => assert!(err.message().contains("MSB_PATH"), "{err:?}"),
        other => panic!("unexpected {other:?}"),
    }
}

#[test]
fn the_toolchain_is_downloaded_under_the_lock_and_only_where_it_is_missing() {
    let (_, layout) = plan_layout("linux", "x86_64", "/cache").unwrap();
    assert!(!is_installed(true, false));
    assert!(!is_installed(false, true));
    assert!(is_installed(true, true));
    for stage in [ProvisionStage::Unlocked, ProvisionStage::Locked] {
        match provision_step(stage, &layout, true, &Some("true".to_string())) {
            ProvisionStep::Ready(path) => assert_eq!(path, layout.msb),
            other => panic!("unexpected {other:?}"),
        }
    }
    for skip in [None, Some("false".to_string())] {
        assert!(matches!(
            provision_step(ProvisionStage::Unlocked, &layout, false, &skip),
            ProvisionStep::TakeLock
        ));
    }
    assert!(matches!(
        provision_step(ProvisionStage::Locked, &layout, false, &None),
        ProvisionStep::Download
    ));
}

#[test]
fn the_binary_is_put_in_place_last() {
    let (_, layout) = plan_layout("linux", "x86_64", "/cache").unwrap();
    let moves = install_moves(&layout, "/t/msb.part", "/t/krun.part");
    assert_eq!(
        moves,
        vec![
            ("/t/krun.part".to_string(), layout.krun.clone()),
            ("/t/msb.part".to_string(), layout.msb.clone()),
        ]
    );
}

#[test]
fn a_download_is_removed_where_a_later_one_fails() {
    let msb = Some("/b/.dl-1-0.part".to_string());
    let krun = Some("/l/.dl-1-1.part".to_string());
    assert!(leftover_downloads(&None, &None).is_empty());
    assert_eq!(leftover_downloads(&msb, &None), vec!["/b/.dl-1-0.part"]);
    assert_eq!(
        leftover_downloads(&msb, &krun),
        vec!["/b/.dl-1-0.part", "/l/.dl-1-1.part"]
    );
}

#[test]
fn acquire_takes_over_a_stale_lock_dir_left_behind_by_a_crashed_holder() {
    let held = || LockAttempt::AlreadyExists;
    assert!(matches!(
        lock_step("/l", held(), Some(720), false, 0),
        LockStep::TakeOver
    ));
    assert!(matches!(
        lock_step("/l", LockAttempt::Created, None, true, 0),
        LockStep::Acquired
    ));
    assert!(matches!(
        lock_step("/l", held(), Some(599), false, 0),
        LockStep::Wait
    ));
    assert!(matches!(lock_step("/l", held(), None, false, 0), LockStep::Wait));
    assert!(matches!(
        lock_step("/l", held(), Some(720), true, 0),
        LockStep::Wait
    ));
}

#[test]
fn a_lock_that_is_held_too_long_is_an_error() {
    match lock_step("/l", LockAttempt::AlreadyExists, Some(1), false, 300_000) {
        LockStep::Fail(err) => assert_eq!(
            err.message(),
            "timed out waiting for the provisioner lock at /l — another process may have crashed while holding it; delete that directory and retry"
        ),
        other => panic!("unexpected {other:?}"),
    }
    let failed = LockAttempt::Failed {
        error: "denied".to_string(),
    };
    match lock_step("/l", failed, None, false, 0) {
        LockStep::Fail(RightsizeError::Io(message)) => assert_eq!(message, "denied"),
        other => panic!("unexpected {other:?}"),
    }
}

#[test]
fn checksums_sha256_line_parsing_is_tolerant_of_whitespace_and_ordering() {
    let text = "abc123  msb-darwin-aarch64\n\ndef456  libkrunfw-darwin-aarch64.dylib\n";
    let sums = parse_checksums(text).expect("fetch_checksums must succeed");
    assert_eq!(sums.get("msb-darwin-aarch64"), Some(&"abc123".to_string()));
    assert_eq!(
        sums.get("libkrunfw-darwin-aarch64.dylib"),
        Some(&"def456".to_string())
    );
}

#[test]
fn a_malformed_line_is_an_error_and_the_last_entry_counts() {
    let err = parse_checksums("abc  a\r\nlonely\r\nxyz  b\n").unwrap_err();
    assert_eq!(err.message(), "malformed line in checksums.sha256: 'lonely'");
    let sums = parse_checksums("1 a\n2\ta\n 3   with space \n").unwrap();
    assert_eq!(sums.get("a"), Some(&"2".to_string()));
    assert_eq!(sums.get("with space"), Some(&"3".to_string()));
    assert_eq!(
        expected_checksum("http://x", "a", &sums).unwrap(),
        "2".to_string()
    );
    assert_eq!(
        expected_checksum("http://x", "b", &sums).unwrap_err().message(),
        "No SHA-256 for 'b' in http://x/checksums.sha256"
    );
}

#[test]
fn checksum_mismatch_aborts_and_cleans_up_with_an_actionable_message() {
    let good = hex_sha256(b"good");
    assert!(check_download("http://x", "msb-linux-x86_64", "/d", &good, b"good").is_ok());
    let msg = check_download("http://x", "msb-linux-x86_64", "/d", &good, b"evil")
        .unwrap_err()
        .message();
    assert!(msg.contains("SHA-256"), "{msg}");
    assert!(msg.contains("msb-linux-x86_64"), "{msg}");
    assert_eq!(
        judge_checksum("http://x", "a", "/d", "1", "2").unwrap_err().message(),
        "SHA-256 mismatch for a from http://x (expected 1, got 2) — delete /d and retry, or set MSB_PATH to a trusted msb binary"
    );
}

#[test]
fn digests_are_those_of_sha_256() {
    assert_eq!(
        hex_sha256(b""),
        "e3b0c44298fc1c149afbf4c8996fb92427ae41e4649b934ca495991b7852b855"
    );
    assert_eq!(
        hex_sha256(b"abc"),
        "ba7816bf8f01cfea414140de5dae2223b00361a396177a9cb410ff61f20015ad"
    );
}

#[test]
fn msb_install_basename_matches_this_test_runners_platform() {
    assert_eq!(msb_install_basename("windows"), "msb.exe");
    assert_eq!(msb_install_basename("linux"), "msb");
    assert_eq!(style_of("windows"), PathStyle::Windows);
    assert_eq!(style_of("macos"), PathStyle::Unix);
}

#[test]
fn default_cache_dir_on_this_runners_platform_uses_the_expected_root() {
    let home = Some("/home/testuser".to_string());
    assert_eq!(
        default_cache_dir("linux", &None, &None, &home),
        "/home/testuser/.cache/rightsize"
    );
    assert_eq!(
        default_cache_dir("linux", &None, &None, &None),
        "./.cache/rightsize"
    );
}

#[test]
fn default_cache_dir_windows_branch_prefers_localappdata() {
    let local = Some("C:\\Users\\testuser\\AppData\\Local".to_string());
    let profile = Some("C:\\Users\\other".to_string());
    assert_eq!(
        default_cache_dir("windows", &local, &profile, &None),
        "C:\\Users\\testuser\\AppData\\Local\\rightsize"
    );
}

#[test]
fn default_cache_dir_windows_branch_falls_back_to_userprofile_when_localappdata_unset() {
    let profile = Some("C:\\Users\\testuser".to_string());
    assert_eq!(
        default_cache_dir("windows", &None, &profile, &None),
        "C:\\Users\\testuser\\AppData\\Local\\rightsize"
    );
    assert_eq!(
        default_cache_dir("windows", &None, &None, &None),
        ".\\AppData\\Local\\rightsize"
    );
}

#[test]
fn a_cache_directory_that_was_asked_for_is_taken() {
    let home = Some("/home/testuser".to_string());
    let chosen = Some("/elsewhere".to_string());
    assert_eq!(cache_dir(&chosen, "linux", &None, &None, &home), "/elsewhere");
    assert_eq!(
        cache_dir(&None, "linux", &None, &None, &home),
        "/home/testuser/.cache/rightsize"
    );
}

#[test]
fn downloads_are_kept_under_names_of_their_own() {
    assert_eq!(part_file_name(12, 3), ".dl-12-3.part");
    assert_ne!(part_file_name(1, 23), part_file_name(12, 3));
}

#[test]
fn only_a_status_of_success_is_taken() {
    assert!(judge_status("http://x", 200, "200 OK").is_ok());
    assert!(judge_status("http://x", 299, "299").is_ok());
    assert!(judge_status("http://x", 199, "199").is_err());
    assert_eq!(
        judge_status("http://x", 300, "300 Multiple Choices").unwrap_err().message(),
        "HTTP 300 Multiple Choices fetching http://x"
    );
}
