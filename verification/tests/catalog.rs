use cosmic_app_library::board::AppEntry;
use cosmic_app_library::catalog::{duplicate_marks, name_order, startable_order};

fn entry(id: &str, name: &str) -> AppEntry {
    AppEntry { id: id.into(), name: name.into(), categories: Vec::new() }
}

#[test]
fn duplicates_are_found_by_name_or_id() {
    let entries = vec![
        entry("a", "Files"),
        entry("b", " files "),
        entry("c", "FILES"),
        entry("d", "Terminal"),
        entry("d", "Other Terminal"),
        entry("e", "Zed"),
    ];
    assert_eq!(
        duplicate_marks(&entries),
        vec![true, true, true, true, true, false]
    );
}

#[test]
fn entries_are_ordered_by_name_stably() {
    let entries = vec![entry("1", "b"), entry("2", "a"), entry("3", "b"), entry("4", "B")];
    assert_eq!(name_order(&entries), vec![3, 1, 0, 2]);
}

#[test]
fn only_startable_entries_are_listed_in_name_order() {
    let entries = vec![entry("1", "b"), entry("2", "a"), entry("3", "c"), entry("4", "a")];
    assert_eq!(startable_order(&entries, &[true, true, false, true]), vec![1, 3, 0]);
    assert!(startable_order(&entries, &[false; 4]).is_empty());
}
