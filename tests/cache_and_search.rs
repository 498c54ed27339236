use diary_cli::cache::Lazy;
use diary_cli::search::{self, contains_tag, search, search_strict};

fn strings(values: &[&str]) -> Vec<String> {
    values.iter().map(|s| s.to_string()).collect()
}

#[test]
fn second_access_needs_no_read_and_keeps_value() {
    let mut title: Lazy<String> = Lazy::unloaded();
    assert!(title.needs_read());
    title.load("first".to_string());
    assert!(!title.needs_read());
    title.load("second".to_string());
    assert_eq!(title.get(), Some(&"first".to_string()));
}

#[test]
fn clear_cache_forces_a_new_read() {
    let mut tags: Lazy<Vec<String>> = Lazy::cached(strings(&["x"]));
    assert!(!tags.needs_read());
    tags.clear();
    assert!(tags.needs_read());
    assert_eq!(tags.get(), None);
    tags.load(strings(&["y"]));
    assert_eq!(tags.get(), Some(&strings(&["y"])));
}

fn items() -> Vec<(String, Vec<String>)> {
    vec![
        ("both".to_string(), strings(&["a", "b", "c"])),
        ("only_a".to_string(), strings(&["a"])),
        ("only_b".to_string(), strings(&["b", "z"])),
        ("none".to_string(), strings(&["z"])),
        ("empty".to_string(), Vec::new()),
    ]
}

#[test]
fn strict_search_needs_every_tag() {
    assert_eq!(search_strict(&strings(&["a", "b"]), &items()), strings(&["both"]));
}

#[test]
fn loose_search_needs_one_tag() {
    assert_eq!(search(&strings(&["a", "b"]), &items()), strings(&["both", "only_a", "only_b"]));
}

#[test]
fn empty_query_matches_all_strictly_and_none_loosely() {
    let query: Vec<String> = Vec::new();
    assert_eq!(search_strict(&query, &items()).len(), 5);
    assert!(search(&query, &items()).is_empty());
}

#[test]
fn tag_membership() {
    assert!(contains_tag(&strings(&["a", "b"]), &"b".to_string()));
    assert!(!contains_tag(&strings(&["a", "b"]), &"c".to_string()));
    assert!(search::matches(&strings(&["a"]), &strings(&["b", "a"]), true));
    assert!(!search::matches(&strings(&["a", "q"]), &strings(&["b", "a"]), true));
    assert!(search::matches(&strings(&["a", "q"]), &strings(&["b", "a"]), false));
}
