//! What a backend knows of its sandboxes.

use rightsize_msb::registry::{Registry, TextMap};

fn sorted(mut names: Vec<String>) -> Vec<String> {
    names.sort();
    names
}

#[test]
fn a_map_from_texts_behaves_like_one() {
    let mut map: TextMap<u32> = TextMap::new();
    map.insert("a", 1);
    map.insert("b", 2);
    map.insert("a", 3);
    assert_eq!(map.get("a"), Some(&3));
    assert!(map.contains("b"));
    assert_eq!(map.remove("a"), Some(3));
    assert_eq!(map.remove("a"), None);
    assert_eq!(map.get("b"), Some(&2));
    assert_eq!(map.keys(), vec!["b".to_string()]);
}

#[test]
fn a_start_under_the_first_name_re_keys_nothing() {
    let mut registry: Registry<&str, u8> = Registry::new();
    registry.create("a");
    registry.start("a", "a", Some("child"), false);
    assert_eq!(registry.winning_start("a"), None);
    assert_eq!(registry.close_names(), vec!["a".to_string()]);
    let (resources, attached) = registry.stop("a");
    assert!(resources.is_empty());
    assert_eq!(attached, Some("child"));
    assert_eq!(registry.stop("a").1, None);
}

#[test]
fn a_start_under_another_name_is_told_once_and_cleaned_up_there() {
    let mut registry: Registry<&str, u8> = Registry::new();
    registry.create("a");
    registry.start("a", "b", Some("child"), false);
    assert_eq!(registry.winning_start("a"), Some("b".to_string()));
    assert_eq!(registry.winning_start("a"), None);
    assert_eq!(registry.close_names(), vec!["b".to_string()]);
    assert_eq!(registry.stop("a").1, None);
    assert_eq!(registry.stop("b").1, Some("child"));
}

#[test]
fn a_sandbox_that_outlives_its_run_is_not_cleaned_up() {
    let mut registry: Registry<&str, u8> = Registry::new();
    registry.create("a");
    registry.start("a", "a", None, true);
    assert!(registry.close_names().is_empty());
    registry.checkpoint("a", "b", None, None, true);
    assert!(registry.close_names().is_empty());
}

#[test]
fn a_checkpoint_moves_a_container_to_its_fresh_name() {
    let mut registry: Registry<&str, u8> = Registry::new();
    registry.create("old");
    registry.start("old", "old", Some("first"), false);
    assert_eq!(registry.detach("old"), Some("first"));
    registry.checkpoint(
        "old",
        "fresh",
        Some("second"),
        Some(vec!["redis-server".to_string()]),
        false,
    );
    assert_eq!(registry.close_names(), vec!["fresh".to_string()]);
    assert_eq!(
        registry.last_checkpoint_captured_cmdline("fresh"),
        Some(vec!["redis-server".to_string()])
    );
    assert_eq!(registry.last_checkpoint_captured_cmdline("old"), None);
    assert_eq!(registry.stop("fresh").1, Some("second"));
    assert_eq!(
        registry.last_checkpoint_captured_cmdline("fresh"),
        Some(vec!["redis-server".to_string()])
    );
}

#[test]
fn removing_forgets_and_adopting_keeps_what_is_known() {
    let mut registry: Registry<&str, u8> = Registry::new();
    registry.create("a");
    registry.start("a", "a", Some("child"), false);
    registry.create("b");
    registry.start("b", "b", None, false);
    registry.adopt("a");
    assert_eq!(
        sorted(registry.close_names()),
        vec!["a".to_string(), "b".to_string()]
    );
    assert!(registry.remove("a").is_some());
    assert_eq!(registry.close_names(), vec!["b".to_string()]);
    assert!(registry.remove("a").is_none());
    registry.adopt("c");
    assert!(registry.remove("c").is_some());
}

#[test]
fn resources_go_to_known_containers_only() {
    let mut registry: Registry<&str, u8> = Registry::new();
    registry.create("a");
    assert!(registry.add_resources("a", vec![1, 2]).is_empty());
    assert!(registry.add_resources("a", vec![3]).is_empty());
    assert_eq!(registry.add_resources("b", vec![4]), vec![4]);
    assert_eq!(registry.stop("a").0, vec![1, 2, 3]);
}
