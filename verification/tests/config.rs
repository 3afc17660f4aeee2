use cosmic_app_library::app_group::{AppGroup, AppLibraryConfig, FilterType, GroupName, LaunchpadPage};

fn ids(filter: &FilterType) -> (Vec<String>, Vec<String>) {
    match filter {
        FilterType::Categories { exclude, included, .. } => (exclude.clone(), included.clone()),
        FilterType::AppIds(ids) => (ids.clone(), Vec::new()),
        FilterType::NoFilter => (Vec::new(), Vec::new()),
    }
}

#[test]
fn default_configuration_values() {
    let config = AppLibraryConfig::default();
    assert_eq!(config.icon_size, 72);
    assert_eq!(config.board_width, 1200);
    assert_eq!(config.board_height, 690);
    assert_eq!(config.tile_gap, 8);
    assert_eq!(config.momentum_strength, 300);
    assert_eq!(config.scroll_glide, 260);
    assert_eq!(config.release_delay_ms, 4);
    assert_eq!(config.home_page_name, "Launchpad");
    assert_eq!(config.page_count(), 1);
    assert_eq!(config.groups.len(), 3);
    assert_eq!(config.groups[2].name, "cosmic-utilities");
    assert_eq!(
        ids(&config.groups[1].filter),
        (
            vec!["com.system76.CosmicStore".to_string(), "com.system76.CosmicTerm".to_string()],
            vec![
                "gnome-language-selector".to_string(),
                "im-config".to_string(),
                "org.freedesktop.IBus.Setup".to_string(),
                "system76-driver".to_string(),
            ]
        )
    );
    assert_eq!(AppLibraryConfig::version(), 1);
}

#[test]
fn page_names_and_missing_pages() {
    let mut config = AppLibraryConfig::default();
    assert_eq!(config.page_name(0), "Launchpad");
    assert_eq!(config.page_name(4), "Launchpad");
    assert_eq!(config.add_page(), 1);
    assert_eq!(config.page_name(1), "Page 2");
    assert_eq!(config.add_page(), 2);
    assert_eq!(config.page_name(2), "Page 3");
    config.set_page_name(1, "Games".into());
    config.set_page_name(9, "Nothing".into());
    assert_eq!(config.page_name(1), "Games");
    assert!(config.page_layout(7).is_empty());
    config.place_entry_on_page(7, 0, "x");
    assert!(config.pinned_ids().is_empty());
    assert!(!config.remove_empty_page(0));
    assert!(!config.remove_empty_page(7));
}

#[test]
fn dropping_on_a_slot_fills_the_first_gap_with_the_displaced_tile() {
    let mut config = AppLibraryConfig::default();
    config.set_layout(None, vec![Some("a".into()), None, Some("b".into()), None, None]);
    assert_eq!(config.home_layout.len(), 3);
    config.place_entry(None, 2, "new");
    assert_eq!(
        config.home_layout,
        vec![Some("a".to_string()), Some("b".to_string()), Some("new".to_string())]
    );
    config.place_entry(None, 0, "b");
    assert_eq!(
        config.home_layout,
        vec![Some("b".to_string()), Some("a".to_string()), Some("new".to_string())]
    );
}

#[test]
fn group_filters_gain_and_lose_entries() {
    let mut config = AppLibraryConfig::default();
    config.add("Mine".into());
    config.add_entry(Some(3), "x.app");
    config.add_entry(Some(3), "x.app");
    assert_eq!(ids(&config.groups[3].filter).0, vec!["x.app".to_string()]);
    config.add_entry(Some(0), "x.app");
    assert_eq!(ids(&config.groups[0].filter).0, vec!["x.app".to_string()]);
    assert!(!ids(&config.groups[0].filter).1.contains(&"x.app".to_string()));
    config.remove_entry(Some(0), "x.app");
    assert!(ids(&config.groups[0].filter).0.is_empty());
    assert_eq!(ids(&config.groups[0].filter).1.last().map(String::as_str), Some("x.app"));
    config.add_entry(Some(0), "x.app");
    config.add_entry(None, "x.app");
    assert!(ids(&config.groups[3].filter).0.is_empty());
    assert!(ids(&config.groups[0].filter).0.is_empty());
    assert_eq!(ids(&config.groups[0].filter).1.last().map(String::as_str), Some("x.app"));
    assert_eq!(
        ids(&config.groups[0].filter).1.iter().filter(|e| e.as_str() == "x.app").count(),
        1
    );
    config.remove_entry(Some(3), "x.app");
    config.remove_entry(None, "x.app");
    config.set_name(3, "Renamed".into());
    assert_eq!(config.groups[3].name, "Renamed");
    config.remove(7);
    config.remove(3);
    assert_eq!(config.groups.len(), 3);
}

#[test]
fn group_names_and_order() {
    let home = AppLibraryConfig::home();
    assert!(matches!(home.name(), GroupName::Translated(ref k) if k == "cosmic-library-home"));
    let mine = AppGroup {
        name: "Mine".into(),
        icon: "folder-symbolic".into(),
        filter: FilterType::AppIds(Vec::new()),
        layout: Vec::new(),
    };
    assert!(matches!(mine.name(), GroupName::Verbatim(ref n) if n == "Mine"));
    let other = AppGroup { name: "apps".into(), ..mine.clone() };
    assert_eq!(mine.cmp(&other), std::cmp::Ordering::Greater);
    let config = AppLibraryConfig::default();
    // "office" against "mine": the category name decides.
    assert_eq!(config.groups[0].cmp(&mine), std::cmp::Ordering::Greater);
    assert_eq!(home.cmp(&config.groups[0]), std::cmp::Ordering::Less);
    assert_eq!(config.groups[1].filter.cmp(&mine.filter), std::cmp::Ordering::Less);
    assert_eq!(FilterType::default(), FilterType::AppIds(Vec::new()));
}

#[test]
fn settings_are_clamped() {
    let mut config = AppLibraryConfig::default();
    config.adjust_icon_size(-8);
    assert_eq!(config.icon_size, 64);
    config.adjust_icon_size(1000);
    assert_eq!(config.icon_size, 128);
    config.adjust_board_width(-2000);
    assert_eq!(config.board_width, 700);
    config.adjust_board_height(50);
    assert_eq!(config.board_height, 740);
    config.adjust_tile_gap(-20);
    assert_eq!(config.tile_gap, 0);
    config.adjust_momentum_strength(10);
    assert_eq!(config.momentum_strength, 300);
    config.adjust_scroll_glide(-300);
    assert_eq!(config.scroll_glide, 25);
    config.adjust_release_delay(2);
    assert_eq!(config.release_delay_ms, 6);
    config.toggle_labels();
    config.toggle_tooltips();
    config.toggle_kinetic_scrolling();
    assert!(!config.show_labels && !config.show_tooltips && !config.kinetic_scrolling);
    config.set_hidden("a", true);
    config.set_hidden("a", true);
    assert_eq!(config.hidden_apps, vec!["a".to_string()]);
    config.restore_hidden_apps();
    assert!(config.hidden_apps.is_empty());
}

#[test]
fn launchpad_page_literal() {
    let page = LaunchpadPage { name: "P".into(), layout: vec![None] };
    let mut config = AppLibraryConfig::default();
    config.launchpad_pages.push(page);
    assert!(config.remove_empty_page(1));
}

#[test]
fn a_set_layout_reads_back_without_trailing_gaps() {
    let mut config = AppLibraryConfig::default();
    let before_home = config.layout(None).to_vec();
    config.set_layout(Some(1), vec![None, Some("x".into()), None]);
    assert_eq!(config.layout(Some(1)).to_vec(), vec![None, Some("x".to_string())]);
    assert_eq!(config.layout(None).to_vec(), before_home);
    config.set_layout(Some(40), vec![Some("y".into())]);
    assert_eq!(config.layout(None).to_vec(), vec![Some("y".to_string())]);
    assert_eq!(config.layout(Some(1)).to_vec(), vec![None, Some("x".to_string())]);
}

#[test]
fn an_added_page_can_be_removed_again() {
    let mut config = AppLibraryConfig::default();
    config.place_entry_on_page(0, 0, "a");
    let before = config.launchpad_pages.clone();
    let page = config.add_page();
    assert_eq!(config.page_count(), 2);
    assert!(config.remove_empty_page(page));
    assert_eq!(config.launchpad_pages, before);
    assert_eq!(config.page_count(), 1);
}

#[test]
fn only_existing_empty_additional_pages_are_removable() {
    let mut config = AppLibraryConfig::default();
    assert!(!config.is_removable_page(0));
    assert!(!config.is_removable_page(1));
    let page = config.add_page();
    assert!(config.is_removable_page(page));
    config.place_entry_on_page(page, 3, "x");
    assert!(!config.is_removable_page(page));
    config.remove_entry_from_page(page, "x");
    assert!(config.is_removable_page(page));
}

#[test]
fn dropping_on_a_missing_page_only_unpins() {
    let mut config = AppLibraryConfig::default();
    config.place_entry_on_page(0, 2, "x");
    assert!(config.is_on_page(0, &"x".to_string()));
    config.place_entry_on_page(5, usize::MAX, "x");
    assert!(!config.is_on_page(0, &"x".to_string()));
    assert!(!config.is_on_page(5, &"x".to_string()));
    assert_eq!(config.home_layout, vec![None, None, None]);
}
