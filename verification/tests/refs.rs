//! Paths and checkpoint references.

use rightsize_msb::refs::{
    checkpoint_hint, checkpoints_dir, is_absolute, join_path, mint_checkpoint_ref,
    parse_already_exists_stderr_ref, parse_snapshot_create_ref, parse_snapshot_load_ref,
    path_ref_artifact_exists, path_ref_dir, ref_parts, PathStyle,
};

const UNIX: PathStyle = PathStyle::Unix;
const WINDOWS: PathStyle = PathStyle::Windows;

#[test]
fn mint_checkpoint_ref_is_an_absolute_path_under_cache_dir_checkpoints() {
    let cache_dir = "/tmp/rz-msb-mint-checkpoint-ref-cache";
    let ref_path = mint_checkpoint_ref(UNIX, "deadbeefcafe", cache_dir);
    assert_eq!(
        ref_path,
        "/tmp/rz-msb-mint-checkpoint-ref-cache/checkpoints/rz-ckpt-deadbeefcafe"
    );
    assert!(is_absolute(UNIX, &ref_path));
}

#[test]
fn mint_checkpoint_ref_carries_a_caller_chosen_name_through_unchanged() {
    let ref_path = mint_checkpoint_ref(UNIX, "seeded-db", "/cache");
    assert_eq!(ref_path, "/cache/checkpoints/rz-ckpt-seeded-db");
}

#[test]
fn path_ref_dir_recognizes_an_absolute_path_and_rejects_a_bare_name() {
    let abs = "/tmp/checkpoints/rz-ckpt-deadbeefcafe";
    assert_eq!(path_ref_dir(UNIX, abs), Some(abs.to_string()));
    assert_eq!(path_ref_dir(UNIX, "rz-ckpt-deadbeefcafe"), None);
    assert_eq!(path_ref_dir(WINDOWS, "rz-ckpt-deadbeefcafe"), None);
}

#[test]
fn path_ref_artifact_exists_requires_both_the_directory_and_snapshot_json() {
    assert!(!path_ref_artifact_exists(false, false));
    assert!(!path_ref_artifact_exists(true, false));
    assert!(!path_ref_artifact_exists(false, true));
    assert!(path_ref_artifact_exists(true, true));
}

#[test]
fn parse_snapshot_load_ref_takes_the_last_line_when_it_is_an_absolute_path() {
    let artifact = "/tmp/checkpoints/msb-deadbeef/snap_b9c0448ee9d54e33b9c0448ee9d54e33";
    assert_eq!(
        parse_snapshot_load_ref(
            UNIX,
            &format!(
                "group msb-deadbeef: head snap_b9c0448ee9d54e33b9c0448ee9d54e33 (Initialized)\n\
                 digest: sha256:fulldigesthere\n{artifact}\n"
            )
        ),
        Some(artifact.to_string())
    );
}

#[test]
fn parse_snapshot_load_ref_skips_trailing_blank_lines() {
    let artifact = "/tmp/checkpoints/msb-deadbeef/snap_abcdef";
    assert_eq!(
        parse_snapshot_load_ref(UNIX, &format!("{artifact}\n\n\n")),
        Some(artifact.to_string())
    );
}

#[test]
fn parse_snapshot_load_ref_none_when_the_last_line_is_not_an_absolute_path() {
    for style in [UNIX, WINDOWS] {
        assert_eq!(
            parse_snapshot_load_ref(
                style,
                "Importing snapshot...\nImported to relative/looking/path\n"
            ),
            None
        );
        assert_eq!(
            parse_snapshot_load_ref(style, "just some prose, no path"),
            None
        );
    }
}

#[test]
fn parse_snapshot_load_ref_none_on_entirely_blank_output() {
    for style in [UNIX, WINDOWS] {
        assert_eq!(parse_snapshot_load_ref(style, "\n\n"), None);
        assert_eq!(parse_snapshot_load_ref(style, ""), None);
    }
}

#[test]
fn parse_already_exists_stderr_ref_takes_the_trailing_path_on_the_error_line() {
    let artifact = "/tmp/checkpoints/msb-deadbeef/snap_b9c0448ee9d54e33b9c0448ee9d54e33";
    assert_eq!(
        parse_already_exists_stderr_ref(
            UNIX,
            &format!("error: snapshot already exists: {artifact}")
        ),
        Some(artifact.to_string())
    );
}

#[test]
fn parse_already_exists_stderr_ref_none_when_the_trailing_token_is_not_absolute() {
    for style in [UNIX, WINDOWS] {
        assert_eq!(
            parse_already_exists_stderr_ref(
                style,
                "error: snapshot already exists: relative/path"
            ),
            None
        );
        assert_eq!(
            parse_already_exists_stderr_ref(style, "just some prose, no path"),
            None
        );
    }
}

#[test]
fn parse_already_exists_stderr_ref_none_on_entirely_blank_output() {
    for style in [UNIX, WINDOWS] {
        assert_eq!(parse_already_exists_stderr_ref(style, ""), None);
        assert_eq!(parse_already_exists_stderr_ref(style, "\n\n"), None);
    }
}

#[test]
fn parse_snapshot_create_ref_takes_the_last_line_when_it_is_an_absolute_path() {
    let artifact = "/tmp/checkpoints/rz-abc-1/snap_deadbeefcafedeadbeefcafedeadbeef";
    assert_eq!(
        parse_snapshot_create_ref(
            UNIX,
            &format!("Snapshot ID: deadbeefcafedeadbeefcafedeadbeef\n{artifact}\n")
        ),
        Some(artifact.to_string())
    );
}

#[test]
fn parse_snapshot_create_ref_trims_whitespace_and_skips_trailing_blank_lines() {
    let artifact = "/tmp/checkpoints/rz-abc-1/snap_deadbeef";
    assert_eq!(
        parse_snapshot_create_ref(UNIX, &format!("  {artifact}  \n\n\n")),
        Some(artifact.to_string())
    );
}

#[test]
fn parse_snapshot_create_ref_none_when_the_last_line_is_not_an_absolute_path() {
    for style in [UNIX, WINDOWS] {
        assert_eq!(
            parse_snapshot_create_ref(style, "Snapshot ID: deadbeef\nrelative/looking/path\n"),
            None
        );
        assert_eq!(
            parse_snapshot_create_ref(style, "just some prose, no path"),
            None
        );
    }
}

#[test]
fn parse_snapshot_create_ref_none_on_entirely_blank_output() {
    for style in [UNIX, WINDOWS] {
        assert_eq!(parse_snapshot_create_ref(style, ""), None);
        assert_eq!(parse_snapshot_create_ref(style, "\n\n"), None);
    }
}

#[test]
fn windows_line_endings_and_drives_are_understood() {
    assert_eq!(
        parse_snapshot_create_ref(WINDOWS, "Snapshot ID: x\r\nC:\\cache\\snap_x\r\n\r\n"),
        Some("C:\\cache\\snap_x".to_string())
    );
    assert_eq!(
        parse_already_exists_stderr_ref(WINDOWS, "error: snapshot already exists: C:\\c\\snap\r\n"),
        Some("C:\\c\\snap".to_string())
    );
    assert_eq!(parse_snapshot_create_ref(WINDOWS, "/cache/snap"), None);
    assert_eq!(parse_snapshot_create_ref(UNIX, "C:\\cache\\snap"), None);
}

#[test]
fn absolute_paths_of_either_style() {
    assert!(is_absolute(UNIX, "/"));
    assert!(!is_absolute(UNIX, ""));
    assert!(!is_absolute(UNIX, "a/b"));
    assert!(is_absolute(WINDOWS, "c:\\windows"));
    assert!(is_absolute(WINDOWS, "C:/windows"));
    assert!(!is_absolute(WINDOWS, "c:temp"));
    assert!(!is_absolute(WINDOWS, "\\temp"));
    assert!(is_absolute(WINDOWS, "\\\\server\\share"));
    assert!(is_absolute(WINDOWS, "\\\\?\\C:\\x"));
    assert!(!is_absolute(WINDOWS, "\\\\server"));
    assert!(!is_absolute(WINDOWS, "\\\\server\\"));
    assert!(!is_absolute(WINDOWS, "\\\\server\\\\share"));
    assert!(is_absolute(WINDOWS, "\\\\?\\"));
    assert!(!is_absolute(WINDOWS, "//?/"));
    assert!(is_absolute(WINDOWS, "//?/x"));
    assert!(is_absolute(WINDOWS, "//./"));
    assert!(is_absolute(WINDOWS, "\\\\.\\COM42"));
    assert!(!is_absolute(WINDOWS, ""));
}

#[test]
fn joining_puts_one_separator() {
    assert_eq!(join_path(UNIX, "/a", "b"), "/a/b");
    assert_eq!(join_path(UNIX, "/a/", "b"), "/a/b");
    assert_eq!(join_path(UNIX, "", "b"), "b");
    assert_eq!(join_path(WINDOWS, "C:\\a", "b"), "C:\\a\\b");
    assert_eq!(join_path(WINDOWS, "C:/a/", "b"), "C:/a/b");
    assert_eq!(join_path(WINDOWS, "C:", "b"), "C:b");
    assert_eq!(checkpoints_dir(UNIX, "/cache"), "/cache/checkpoints");
    assert!(is_absolute(WINDOWS, &join_path(WINDOWS, "\\\\s\\h", "b")));
}

#[test]
fn a_checkpoint_gets_the_path_asked_for_or_a_minted_one() {
    assert_eq!(checkpoint_hint(UNIX, "/x/y", "/cache"), "/x/y");
    assert_eq!(
        checkpoint_hint(UNIX, "seed", "/cache"),
        "/cache/checkpoints/rz-ckpt-seed"
    );
}

#[test]
fn joining_writes_a_verbatim_path_anew() {
    let join = |base: &str, component: &str| join_path(WINDOWS, base, component);
    assert_eq!(join(r"\\?\C:\cache/", "checkpoints"), r"\\?\C:\cache/\checkpoints");
    assert_eq!(join(r"\\?\C:\cache", "checkpoints"), r"\\?\C:\cache\checkpoints");
    assert_eq!(join(r"\\?\C:\cache\", "checkpoints"), r"\\?\C:\cache\checkpoints");
    assert_eq!(join(r"\\?\C:\a\\b", "c"), r"\\?\C:\a\b\c");
    assert_eq!(join(r"\\?\C:/a", "b"), r"\\?\C:\a\b");
    assert_eq!(join(r"\\?\C:", "b"), r"\\?\C:\b");
    assert_eq!(join(r"\\?\C:\a", "b/./c"), r"\\?\C:\a\b\c");
    assert_eq!(join(r"\\?\C:\a", "b/../c"), r"\\?\C:\a\c");
    assert_eq!(join(r"\\?\C:\a\.", ".."), r"\\?\C:\a\.");
    assert_eq!(join(r"\\?\C:\a", ".."), r"\\?\C:\");
    assert_eq!(join(r"\\?\C:\a", ""), r"\\?\C:\a\");
    assert_eq!(join(r"\\?\UNC\server\share", "b"), r"\\?\UNC\server\share\b");
    assert_eq!(join(r"\\?\UNC\server\share\\a", "b"), r"\\?\UNC\server\share\a\b");
    assert_eq!(join(r"\\?\GLOBALROOT\a", "b"), r"\\?\GLOBALROOT\a\b");
    assert_eq!(join(r"//?/C:/a/", "b"), r"//?/C:/a/b");
}

fn both(dir: &str, name: &str) -> Option<(String, String)> {
    Some((dir.to_string(), name.to_string()))
}

#[test]
fn a_path_is_parted_into_its_directory_and_its_name() {
    assert_eq!(ref_parts(UNIX, "/cache/checkpoints/rz-ckpt-a"), both("/cache/checkpoints", "rz-ckpt-a"));
    assert_eq!(ref_parts(UNIX, "/a"), both("/", "a"));
    assert_eq!(ref_parts(UNIX, "a"), both("", "a"));
    assert_eq!(ref_parts(UNIX, "./a"), both(".", "a"));
    assert_eq!(ref_parts(UNIX, "/a//b/./"), both("/a", "b"));
    assert_eq!(ref_parts(UNIX, "/a/./b"), both("/a", "b"));
    assert_eq!(ref_parts(UNIX, "/"), None);
    assert_eq!(ref_parts(UNIX, ""), None);
    assert_eq!(ref_parts(UNIX, "."), None);
    assert_eq!(ref_parts(UNIX, "/a/.."), None);
    assert_eq!(ref_parts(UNIX, r"/a\b"), both("/", r"a\b"));
    assert_eq!(ref_parts(WINDOWS, r"C:\a\b"), both(r"C:\a", "b"));
    assert_eq!(ref_parts(WINDOWS, r"C:/a/b\"), both("C:/a", "b"));
    assert_eq!(ref_parts(WINDOWS, r"C:\a"), both(r"C:\", "a"));
    assert_eq!(ref_parts(WINDOWS, "C:a"), both("C:", "a"));
    assert_eq!(ref_parts(WINDOWS, r"C:\"), None);
    assert_eq!(ref_parts(WINDOWS, r"\\server\share\a"), both(r"\\server\share\", "a"));
    assert_eq!(ref_parts(WINDOWS, r"\\server\share"), None);
    assert_eq!(ref_parts(WINDOWS, r"\\.\COM42"), None);
    assert_eq!(ref_parts(WINDOWS, r"\\?\C:\a/b\c"), both(r"\\?\C:\a/b", "c"));
    assert_eq!(ref_parts(WINDOWS, r"\\?\C:\a\."), None);
    assert_eq!(ref_parts(WINDOWS, r"\\?\UNC\server\share\a"), both(r"\\?\UNC\server\share\", "a"));
}

#[test]
fn a_minted_reference_is_parted_again() {
    for (style, cache) in [(UNIX, "/cache"), (UNIX, "/"), (WINDOWS, r"C:\cache"), (WINDOWS, r"\\s\h")] {
        let minted = mint_checkpoint_ref(style, "seed", cache);
        let dir = checkpoints_dir(style, cache);
        assert_eq!(ref_parts(style, &minted), both(&dir, "rz-ckpt-seed"));
        assert_eq!(join_path(style, &dir, "rz-ckpt-seed"), minted);
    }
}

#[test]
fn unix_paths_are_joined_and_parted_as_std_does() {
    for path in ["/a/b", "/a", "a", "./a", "/a//b/./", "/", "", ".", "/a/..", "../a", "a/b//", "././a"] {
        let std_path = std::path::Path::new(path);
        let expected = match (std_path.parent(), std_path.file_name()) {
            (Some(dir), Some(name)) => both(dir.to_str().unwrap(), name.to_str().unwrap()),
            _ => None,
        };
        assert_eq!(ref_parts(UNIX, path), expected, "{path}");
        let joined = std_path.join("x");
        assert_eq!(join_path(UNIX, path, "x"), joined.to_str().unwrap(), "{path}");
    }
}
