use cosmic_app_library::app_group::AppLibraryConfig;

#[test]
fn spatial_slot_is_preserved_and_moves_cleanly() {
    let mut config = AppLibraryConfig::default();
    config.place_entry(None, 5, "test.app");
    assert_eq!(config.home_layout.len(), 6);
    assert_eq!(config.home_layout[5].as_deref(), Some("test.app"));

    config.place_entry(None, 2, "test.app");
    assert_eq!(config.home_layout[2].as_deref(), Some("test.app"));
    assert!(config.home_layout.get(5).is_none());
}

#[test]
fn moving_between_groups_clears_the_old_slot() {
    let mut config = AppLibraryConfig::default();
    config.place_entry(Some(0), 4, "test.app");
    config.place_entry(Some(1), 7, "test.app");

    assert!(config.groups[0].layout[4].is_none());
    assert_eq!(config.groups[1].layout[7].as_deref(), Some("test.app"));
}

#[test]
fn moving_one_tile_does_not_reflow_the_others() {
    let mut config = AppLibraryConfig::default();
    config.set_layout(
        None,
        vec![Some("one".into()), Some("two".into()), Some("three".into())],
    );

    config.place_entry(None, 5, "one");
    assert_eq!(config.home_layout[1].as_deref(), Some("two"));
    assert_eq!(config.home_layout[2].as_deref(), Some("three"));
    assert_eq!(config.home_layout[5].as_deref(), Some("one"));
}

#[test]
fn dropping_on_an_occupied_slot_swaps_tiles() {
    let mut config = AppLibraryConfig::default();
    config.set_layout(
        None,
        vec![Some("one".into()), Some("two".into()), Some("three".into())],
    );

    config.place_entry(None, 2, "one");
    assert_eq!(config.home_layout[0].as_deref(), Some("three"));
    assert_eq!(config.home_layout[1].as_deref(), Some("two"));
    assert_eq!(config.home_layout[2].as_deref(), Some("one"));
}

#[test]
fn favorite_can_be_added_and_removed() {
    let mut config = AppLibraryConfig::default();
    config.place_entry(None, 0, "favorite.app");
    assert_eq!(config.home_layout[0].as_deref(), Some("favorite.app"));

    config.clear_layout_entry("favorite.app");
    assert!(config.home_layout.is_empty());
}

#[test]
fn apps_move_between_launchpad_pages_without_duplicates() {
    let mut config = AppLibraryConfig::default();
    config.place_entry_on_page(0, 3, "favorite.app");
    let second_page = config.add_page();
    config.place_entry_on_page(second_page, 1, "favorite.app");

    assert!(!config.page_layout(0).iter().any(Option::is_some));
    assert_eq!(
        config.page_layout(second_page)[1].as_deref(),
        Some("favorite.app")
    );
    assert_eq!(config.pinned_ids().len(), 1);
}

#[test]
fn only_empty_extra_pages_can_be_removed() {
    let mut config = AppLibraryConfig::default();
    let page = config.add_page();
    config.place_entry_on_page(page, 0, "favorite.app");
    assert!(!config.remove_empty_page(page));

    config.remove_entry_from_page(page, "favorite.app");
    assert!(config.remove_empty_page(page));
    assert_eq!(config.page_count(), 1);
}

#[test]
fn hidden_apps_can_be_restored() {
    let mut config = AppLibraryConfig::default();
    config.set_hidden("utility.app", true);
    assert!(config.is_hidden("utility.app"));

    config.set_hidden("utility.app", false);
    assert!(!config.is_hidden("utility.app"));
}
