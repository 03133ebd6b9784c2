//! Reading the listing of the sandboxes.

use rightsize_msb::ls_json::{
    running_names, status_is, status_of, try_is_listed, LsEntry,
};
use serde_json::Value;

/// Reads one optional text of an entry; the entry is malformed where it is anything else.
fn field(entry: &Value, key: &str) -> Option<Option<String>> {
    match entry.get(key) {
        None | Some(Value::Null) => Some(None),
        Some(Value::String(text)) => Some(Some(text.clone())),
        Some(_) => None,
    }
}

/// Reads a listing.
fn listing(json: &str) -> Option<Vec<LsEntry>> {
    let value: Value = serde_json::from_str(json).ok()?;
    let mut entries = Vec::new();
    for entry in value.as_array()? {
        entry.as_object()?;
        entries.push(LsEntry {
            name: field(entry, "name")?,
            status: field(entry, "status")?,
        });
    }
    Some(entries)
}

fn names(json: &str) -> Vec<String> {
    let mut names = running_names(&listing(json));
    names.sort();
    names
}

#[test]
fn parses_the_documented_flat_shape_keys_in_spec_order() {
    let json = r#"[
              {"created_at":"2024-01-01T00:00:00Z","image":"alpine:3.19","name":"rz-abc-1","status":"Running"},
              {"created_at":"2024-01-01T00:00:01Z","image":"alpine:3.19","name":"rz-abc-2","status":"Stopped"}
            ]"#;
    assert_eq!(names(json), vec!["rz-abc-1".to_string()]);
}

#[test]
fn key_order_within_an_object_does_not_matter() {
    let json = r#"[{"status":"Running","name":"rz-xyz-1","image":"x","created_at":"t"}]"#;
    assert_eq!(names(json), vec!["rz-xyz-1".to_string()]);
}

#[test]
fn extra_unknown_fields_are_ignored() {
    let json = r#"[{"name":"rz-1","status":"Running","cpu_percent":12.5,"labels":{"a":"b"}}]"#;
    assert_eq!(names(json), vec!["rz-1".to_string()]);
}

#[test]
fn object_missing_status_or_name_is_skipped_not_thrown() {
    let json = r#"[
              {"name":"rz-no-status"},
              {"status":"Running"},
              {"name":"rz-both","status":"Running"}
            ]"#;
    assert_eq!(names(json), vec!["rz-both".to_string()]);
}

#[test]
fn non_running_statuses_are_excluded() {
    let json = r#"[{"name":"a","status":"Stopped"},{"name":"b","status":"running"},{"name":"c","status":"Running"}]"#;
    assert_eq!(names(json), vec!["c".to_string()]);
}

#[test]
fn empty_array_yields_empty_set() {
    assert_eq!(names("[]"), Vec::<String>::new());
}

#[test]
fn malformed_json_yields_empty_set_rather_than_panicking() {
    assert_eq!(names("not json at all"), Vec::<String>::new());
}

#[test]
fn braces_and_colons_inside_string_values_do_not_confuse_parsing() {
    let json = r#"[{"name":"rz-brace","status":"Running","image":"repo/{tag}:v1"},{"name":"rz-2","status":"Running"}]"#;
    assert_eq!(
        names(json),
        vec!["rz-2".to_string(), "rz-brace".to_string()]
    );
}

#[test]
fn escaped_quote_inside_a_string_value_does_not_break_parsing() {
    let json = r#"[{"name":"rz-esc","status":"Running","image":"a\"b"},{"name":"rz-after","status":"Running"}]"#;
    assert_eq!(
        names(json),
        vec!["rz-after".to_string(), "rz-esc".to_string()]
    );
}

#[test]
fn nested_object_values_do_not_throw_off_name_status_extraction() {
    let json = r#"[{"name":"rz-nested","status":"Running","meta":{"nested":"{not a name}"}}]"#;
    assert_eq!(names(json), vec!["rz-nested".to_string()]);
}

#[test]
fn no_running_sandboxes_at_all_yields_empty_set() {
    let json = r#"[{"name":"a","status":"Stopped"}]"#;
    assert!(names(json).is_empty());
}

#[test]
fn status_is_matches_the_named_entrys_exact_status() {
    let json = listing(
        r#"[
              {"name":"rz-a","status":"Stopped"},
              {"name":"rz-b","status":"Running"}
            ]"#,
    );
    assert!(status_is(&json, "rz-a", "Stopped"));
    assert!(!status_is(&json, "rz-a", "Running"));
    assert!(status_is(&json, "rz-b", "Running"));
}

#[test]
fn status_is_false_when_the_name_is_not_present_at_all() {
    let json = listing(r#"[{"name":"rz-a","status":"Stopped"}]"#);
    assert!(!status_is(&json, "rz-does-not-exist", "Stopped"));
}

#[test]
fn status_is_false_when_the_entry_is_missing_name_or_status() {
    let json = listing(r#"[{"name":"rz-a"},{"status":"Stopped"}]"#);
    assert!(!status_is(&json, "rz-a", "Stopped"));
}

#[test]
fn status_is_false_on_malformed_json_rather_than_panicking() {
    assert!(!status_is(&listing("not json at all"), "rz-a", "Stopped"));
}

#[test]
fn a_name_that_runs_twice_is_given_once() {
    let json = r#"[{"name":"a","status":"Running"},{"name":"a","status":"Running"}]"#;
    assert_eq!(names(json), vec!["a".to_string()]);
}

#[test]
fn status_of_tells_the_status_or_nothing() {
    let json = listing(r#"[{"name":"a"},{"name":"a","status":"Starting"},{"name":"a","status":"Running"}]"#);
    assert_eq!(status_of(&json, "a"), Some("Starting".to_string()));
    assert_eq!(status_of(&json, "b"), None);
    assert_eq!(status_of(&listing("warming up"), "a"), None);
}

#[test]
fn an_unreadable_listing_is_told_apart_from_one_without_the_name() {
    assert_eq!(try_is_listed(&listing("[]"), "a"), Some(false));
    assert_eq!(try_is_listed(&listing(r#"[{"name":"a"}]"#), "a"), Some(true));
    assert_eq!(try_is_listed(&listing("warming up"), "a"), None);
    assert_eq!(try_is_listed(&listing(r#"{"name":"rz-a"#), "rz-a"), None);
}

#[test]
fn a_running_sandbox_is_listed_and_an_unlisted_one_has_no_status() {
    let json = listing(r#"[{"name":"a","status":"Running"}]"#);
    assert_eq!(running_names(&json), vec!["a".to_string()]);
    assert_eq!(try_is_listed(&json, "a"), Some(true));
    assert_eq!(try_is_listed(&json, "b"), Some(false));
    assert_eq!(status_of(&json, "b"), None);
}
