use cosmic_app_library::board::{AppEntry, Board};

fn entry(id: &str, name: &str, categories: &[&str]) -> AppEntry {
    AppEntry {
        id: id.to_string(),
        name: name.to_string(),
        categories: categories.iter().map(|c| c.to_string()).collect(),
    }
}

#[test]
fn wider_board_creates_more_columns() {
    let mut app = Board::default();
    let initial = app.effective_columns();
    app.config.board_width = 1800;
    assert!(app.effective_columns() > initial);
}

#[test]
fn larger_tiles_reduce_the_automatic_column_count() {
    let mut app = Board::default();
    let initial = app.effective_columns();
    app.config.icon_size = 128;
    assert!(app.effective_columns() < initial);
}

#[test]
fn taller_board_exposes_more_drop_rows() {
    let mut app = Board::default();
    let initial = app.responsive_extra_rows();
    app.config.board_height = 1000;
    assert!(app.responsive_extra_rows() > initial);
}

#[test]
fn automatic_grid_reserves_the_clipped_right_lane() {
    let app = Board::default();
    assert_eq!(app.effective_columns(), 7);
}

#[test]
fn search_is_case_insensitive_and_matches_categories() {
    let entries = vec![
        AppEntry {
            id: String::new(),
            name: "Firefox".into(),
            categories: vec!["Network".into()],
        },
        AppEntry {
            id: String::new(),
            name: "Calculator".into(),
            categories: vec!["Utility".into()],
        },
    ];

    let (name_matches, _) = Board::board_entries(&Default::default(), "FIRE", &entries);
    let (category_matches, _) = Board::board_entries(&Default::default(), "utility", &entries);

    assert_eq!(name_matches[0].name, "Firefox");
    assert_eq!(category_matches[0].name, "Calculator");
}

#[test]
fn search_results_do_not_include_empty_layout_slots() {
    let app = Board {
        search_value: "term".into(),
        ..Default::default()
    };

    assert_eq!(app.spatial_slots(None, &[2, 5]), vec![Some(2), Some(5)]);
}

#[test]
fn search_results_are_sorted_by_lowercase_name_and_stable() {
    let entries = vec![
        entry("b1", "beta", &[]),
        entry("a", "Alpha", &[]),
        entry("b2", "Beta", &["Tools"]),
        entry("c", "gamma", &["Beta Tools"]),
    ];
    let (matches, groups) = Board::board_entries(&Default::default(), "", &entries);
    let ids: Vec<&str> = matches.iter().map(|e| e.id.as_str()).collect();
    assert_eq!(ids, vec!["a", "b1", "b2", "c"]);
    assert_eq!(groups, vec![None, None, None, None]);

    let (matches, _) = Board::board_entries(&Default::default(), "BETA", &entries);
    let ids: Vec<&str> = matches.iter().map(|e| e.id.as_str()).collect();
    assert_eq!(ids, vec!["b1", "b2", "c"]);

    let (matches, _) = Board::board_entries(&Default::default(), "zzz", &entries);
    assert!(matches.is_empty());
}

#[test]
fn layout_keeps_positions_and_appends_unplaced_apps() {
    let mut app = Board::default();
    app.entries = vec![entry("one", "One", &[]), entry("two", "Two", &[]), entry("three", "Three", &[])];
    app.entry_groups = vec![None, None, None];
    app.config.home_layout = vec![None, Some("two".into()), Some("missing".into()), Some("one".into())];
    let slots = app.spatial_slots(None, &[0, 1, 2]);
    // 7 columns, one filled row, one extra row.
    assert_eq!(slots.len(), 14);
    assert_eq!(&slots[..5], &[None, Some(1), None, Some(0), Some(2)]);
    assert!(slots[5..].iter().all(Option::is_none));

    assert_eq!(app.pinned_indices(), vec![1, 0]);
    let snapshot = app.layout_snapshot(None);
    assert_eq!(
        snapshot,
        vec![None, Some("two".to_string()), None, Some("one".to_string())]
    );
}

#[test]
fn other_apps_skip_pinned_and_hidden_unless_searching() {
    let mut app = Board::default();
    app.entries = vec![entry("one", "One", &[]), entry("two", "Two", &[]), entry("three", "Three", &[])];
    app.entry_groups = vec![None, None, None];
    app.config.home_layout = vec![Some("one".into())];
    let page = app.config.add_page();
    app.config.place_entry_on_page(page, 0, "two");
    app.config.set_hidden("three", true);
    assert_eq!(app.other_app_indices(), Vec::<usize>::new());

    app.search_value = "   ".into();
    assert_eq!(app.other_app_indices(), Vec::<usize>::new());

    app.search_value = "t".into();
    assert_eq!(app.other_app_indices(), vec![1, 2]);
}

#[test]
fn search_positions_follow_the_lower_case_name_order() {
    let all = vec![
        AppEntry { id: "z".into(), name: "zeta".into(), categories: vec!["Office".into()] },
        AppEntry { id: "a".into(), name: "Alpha".into(), categories: Vec::new() },
        AppEntry { id: "b".into(), name: "beta".into(), categories: vec!["office".into()] },
    ];
    assert_eq!(Board::search_positions("", &all), vec![1, 2, 0]);
    assert_eq!(Board::search_positions("OFF", &all), vec![2, 0]);
    assert!(Board::search_positions("nothing", &all).is_empty());
}

#[test]
fn a_default_board_has_the_default_configuration() {
    let board = Board::default();
    assert_eq!(board.config.icon_size, 72);
    assert_eq!(board.config.board_width, 1200);
    assert_eq!(board.config.groups.len(), 3);
    assert_eq!(board.config.home_page_name, "Launchpad");
    assert_eq!(board.active_page, 0);
    assert!(board.entries.is_empty());
}
