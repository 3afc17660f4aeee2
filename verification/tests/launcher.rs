use cosmic_app_library::app_group::AppLibraryConfig;
use cosmic_app_library::board::{AppEntry, Board};
use cosmic_app_library::launcher::{
    activation_environment, next_row, preferred_gpu, prev_row, Activation, GroupRowKey, Hiding,
    Launcher, RowMove, SurfaceState, TilePress,
};
use cosmic_app_library::tasks::{ApplicationsTasks, Args, TaskResponse};

fn launcher() -> Launcher {
    let config = AppLibraryConfig::default();
    let keys = (0..config.groups.len() as u64).collect();
    Launcher {
        board: Board { config, ..Board::default() },
        surface_state: SurfaceState::Hidden,
        settings_open: false,
        menu: None,
        edit_name: None,
        new_group: None,
        group_to_delete: None,
        cur_group: None,
        dnd_icon: None,
        hand_over: String::new(),
        group_keys: keys,
        next_group_key: 3,
    }
}

fn entry(id: &str) -> AppEntry {
    AppEntry { id: id.into(), name: id.into(), categories: Vec::new() }
}

#[test]
fn activation_opens_resets_and_toggles() {
    let mut l = launcher();
    l.settings_open = true;
    l.board.search_value = "abc".into();
    assert_eq!(l.activate(Some(50)), Activation::Ignore);
    assert_eq!(l.surface_state, SurfaceState::Hidden);
    assert_eq!(l.activate(Some(100)), Activation::Show);
    assert_eq!(l.surface_state, SurfaceState::WaitingToBeShown);
    assert!(!l.settings_open);
    assert!(l.board.search_value.is_empty());
    assert_eq!(l.activate(None), Activation::Ignore);
    l.main_surface_opened();
    assert_eq!(l.surface_state, SurfaceState::Visible);
    l.settings_open = true;
    l.menu = Some(2);
    assert_eq!(l.activate(None), Activation::Hide(Hiding::Close));
    assert_eq!(l.surface_state, SurfaceState::Hidden);
    assert!(!l.settings_open);
    assert_eq!(l.menu, None);
}

#[test]
fn hiding_ends_a_drag_first() {
    let mut l = launcher();
    assert_eq!(l.hide_launcher(), Hiding::Ignore);
    l.surface_state = SurfaceState::Visible;
    l.dnd_icon = Some(1);
    assert_eq!(l.hide_launcher(), Hiding::EndDragFirst);
    assert_eq!(l.dnd_icon, None);
    assert_eq!(l.surface_state, SurfaceState::Visible);
    assert_eq!(l.hide_launcher(), Hiding::Close);
    assert_eq!(l.surface_state, SurfaceState::Hidden);
}

#[test]
fn focus_loss_hides_only_without_dialogs() {
    let mut l = launcher();
    l.surface_state = SurfaceState::Visible;
    assert!(l.hides_on_focus_loss());
    l.menu = Some(0);
    assert!(!l.hides_on_focus_loss());
}

#[test]
fn typing_starts_search_but_leading_spaces_are_ignored() {
    let mut l = launcher();
    l.settings_open = true;
    assert!(!l.type_to_search(""));
    assert!(!l.type_to_search("  "));
    assert!(l.settings_open);
    assert!(l.type_to_search("f"));
    assert!(!l.settings_open);
    assert!(l.type_to_search(" x"));
    assert_eq!(l.board.search_value, "f x");
}

#[test]
fn handed_over_input_opens_a_hidden_launcher() {
    let mut l = launcher();
    assert!(matches!(
        l.handle_task(ApplicationsTasks::Input { input: Some("term".into()) }),
        TaskResponse::Activate
    ));
    assert_eq!(l.take_hand_over(), "term");
    assert!(l.hand_over.is_empty());
    l.surface_state = SurfaceState::Visible;
    assert!(matches!(
        l.handle_task(ApplicationsTasks::Input { input: None }),
        TaskResponse::Ignore
    ));
    assert!(matches!(
        l.handle_task(ApplicationsTasks::Close),
        TaskResponse::Hidden(Hiding::Close)
    ));
    assert!(matches!(l.handle_task(ApplicationsTasks::Run), TaskResponse::Ignore));
}

#[test]
fn command_line_decides_how_the_launcher_starts() {
    let run = Args { subcommand: Some(ApplicationsTasks::Run) };
    assert!(run.runs_standalone());
    assert!(run.opens_on_start());
    assert!(matches!(run.action(), Some(ApplicationsTasks::Run)));
    let close = Args { subcommand: Some(ApplicationsTasks::Close) };
    assert!(!close.runs_standalone());
    assert!(!close.opens_on_start());
    let none = Args { subcommand: None };
    assert!(none.opens_on_start());
    assert!(none.action().is_none());
}

#[test]
fn pages_wrap_around_and_only_empty_pages_go() {
    let mut l = launcher();
    l.board.next_page();
    assert_eq!(l.board.active_page, 0);
    l.board.add_page();
    assert_eq!(l.board.active_page, 1);
    assert_eq!(l.board.config.page_name(1), "Page 2");
    l.board.next_page();
    assert_eq!(l.board.active_page, 0);
    l.board.previous_page();
    assert_eq!(l.board.active_page, 1);
    assert!(l.board.remove_empty_page());
    assert_eq!(l.board.active_page, 0);
    assert!(!l.board.remove_empty_page());
}

#[test]
fn pinning_uses_the_first_gap() {
    let mut l = launcher();
    l.board.config.home_layout = vec![Some("a".into()), None, Some("b".into())];
    assert_eq!(l.board.pin_slot(), 1);
    l.board.config.home_layout = vec![Some("a".into())];
    assert_eq!(l.board.pin_slot(), 1);
}

#[test]
fn dropping_the_dragged_tile_places_it() {
    let mut l = launcher();
    l.board.entries = vec![entry("one"), entry("two")];
    l.board.entry_groups = vec![None, None];
    l.dnd_icon = Some(1);
    assert!(l.drop_on_page_slot(2, Some("other".into())));
    assert_eq!(l.dnd_icon, None);
    assert_eq!(l.board.config.home_layout, vec![None, None, Some("two".to_string())]);
    assert!(l.drop_on_page_slot(0, Some("other".into())));
    assert_eq!(l.board.config.home_layout[0].as_deref(), Some("other"));
    assert!(!l.drop_on_page_slot(0, None));
}

#[test]
fn groups_are_created_reordered_and_deleted() {
    let mut l = launcher();
    assert!(!l.submit_new_group());
    assert!(l.start_new_group());
    assert!(!l.start_new_group());
    l.new_group = Some("Games".into());
    assert!(l.submit_new_group());
    assert_eq!(l.board.config.groups.len(), 4);
    assert_eq!(l.board.config.groups[3].name, "Games");
    assert_eq!(l.group_keys, vec![0, 1, 2, 3]);
    assert_eq!(l.next_group_key, 4);

    l.cur_group = Some(3);
    let order = [
        GroupRowKey::Home,
        GroupRowKey::Custom(3),
        GroupRowKey::Custom(0),
        GroupRowKey::Custom(1),
        GroupRowKey::Custom(2),
        GroupRowKey::NewGroup,
    ];
    assert!(l.reorder_groups(&order));
    assert_eq!(l.board.config.groups[0].name, "Games");
    assert_eq!(l.board.config.groups[1].name, "cosmic-office");
    assert_eq!(l.group_keys, vec![3, 0, 1, 2]);
    assert_eq!(l.cur_group, Some(0));
    assert!(!l.reorder_groups(&[GroupRowKey::Custom(3)]));
    assert!(!l.reorder_groups(&[
        GroupRowKey::Custom(9),
        GroupRowKey::Custom(0),
        GroupRowKey::Custom(1),
        GroupRowKey::Custom(2),
    ]));

    l.group_to_delete = Some(0);
    assert!(l.confirm_delete());
    assert_eq!(l.board.config.groups.len(), 3);
    assert_eq!(l.group_keys, vec![0, 1, 2]);
    assert_eq!(l.cur_group, None);
    assert!(!l.confirm_delete());
    assert_eq!(l.current_group().name, "cosmic-library-home");
    l.cur_group = Some(1);
    assert_eq!(l.current_group().name, "cosmic-system");
}

#[test]
fn rows_move_by_seven() {
    assert_eq!(prev_row(Some(0), 20), RowMove::Release);
    assert_eq!(prev_row(Some(10), 20), RowMove::Focus(3));
    assert_eq!(prev_row(Some(3), 20), RowMove::Focus(0));
    assert_eq!(prev_row(None, 20), RowMove::Focus(19));
    assert_eq!(prev_row(None, 0), RowMove::Stay);
    assert_eq!(next_row(None, 20), RowMove::Focus(0));
    assert_eq!(next_row(Some(10), 20), RowMove::Focus(17));
    assert_eq!(next_row(Some(15), 20), RowMove::Focus(19));
    assert_eq!(next_row(Some(19), 20), RowMove::Release);
    assert_eq!(next_row(None, 0), RowMove::Stay);
}

#[test]
fn gpu_choice_follows_preference() {
    assert_eq!(preferred_gpu(&[true, false], true), 1);
    assert_eq!(preferred_gpu(&[true, false], false), 0);
    assert_eq!(preferred_gpu(&[false, true], false), 1);
    assert_eq!(preferred_gpu(&[true], true), 0);
    assert_eq!(preferred_gpu(&[], false), 0);
}

#[test]
fn activation_token_is_announced_twice() {
    let env = activation_environment(Some("tok".into()));
    assert_eq!(
        env,
        vec![
            ("XDG_ACTIVATION_TOKEN".to_string(), "tok".to_string()),
            ("DESKTOP_STARTUP_ID".to_string(), "tok".to_string()),
        ]
    );
    assert!(activation_environment(None).is_empty());
}

#[test]
fn dropping_into_a_group_keeps_its_arrangement_and_moves_the_tile() {
    let mut l = launcher();
    l.board.entries = vec![entry("a"), entry("b")];
    l.board.entry_groups = vec![Some(0), None];
    l.dnd_icon = Some(1);
    assert!(l.drop_on_group_slot(0, 0, None));
    assert_eq!(l.dnd_icon, None);
    assert_eq!(
        l.board.config.groups[0].layout,
        vec![Some("b".to_string()), Some("a".to_string())]
    );
    assert!(l.board.config.home_layout.is_empty());
    assert!(!l.drop_on_group_slot(0, 1, None));
    assert!(l.drop_on_group_slot(1, 2, Some("c".into())));
    assert_eq!(l.board.config.groups[1].layout, vec![None, None, Some("c".to_string())]);
}

#[test]
fn selecting_and_renaming_groups() {
    let mut l = launcher();
    l.board.search_value = "x".into();
    l.edit_name = Some("draft".into());
    l.select_group(Some(1));
    assert_eq!(l.cur_group, Some(1));
    assert!(l.edit_name.is_none());
    assert!(l.board.search_value.is_empty());
    assert!(!l.submit_name());
    l.edit_name = Some("Tools".into());
    assert!(l.submit_name());
    assert_eq!(l.board.config.groups[1].name, "Tools");
    assert!(l.edit_name.is_none());
    l.select_group(None);
    l.edit_name = Some("Ignored".into());
    assert!(!l.submit_name());
    assert!(l.edit_name.is_none());
}

#[test]
fn the_context_menu_toggles() {
    let mut l = launcher();
    assert!(l.toggle_context_menu(4));
    assert_eq!(l.menu, Some(4));
    assert!(!l.toggle_context_menu(2));
    assert_eq!(l.menu, None);
}

#[test]
fn a_new_launcher_is_hidden_and_keys_its_groups_in_order() {
    let config = AppLibraryConfig::default();
    let l = Launcher::new(config);
    assert_eq!(l.surface_state, SurfaceState::Hidden);
    assert_eq!(l.group_keys, vec![0, 1, 2]);
    assert_eq!(l.next_group_key, 3);
    assert_eq!(l.board.active_page, 0);
    assert!(l.board.entries.is_empty());
    assert!(l.cur_group.is_none() && l.menu.is_none() && l.dnd_icon.is_none());
}

#[test]
fn reordering_into_the_current_order_changes_nothing() {
    let mut l = launcher();
    l.cur_group = Some(2);
    let before = l.board.config.groups.clone();
    let order = vec![
        GroupRowKey::Home,
        GroupRowKey::Custom(0),
        GroupRowKey::Custom(1),
        GroupRowKey::Custom(2),
        GroupRowKey::NewGroup,
    ];
    assert!(l.reorder_groups(&order));
    assert_eq!(l.board.config.groups, before);
    assert_eq!(l.group_keys, vec![0, 1, 2]);
    assert_eq!(l.cur_group, Some(2));
}

#[test]
fn the_first_press_with_settings_open_only_closes_them() {
    let mut l = launcher();
    assert_eq!(l.tile_press(0), TilePress::Launch);
    assert!(l.tiles_draggable());
    l.settings_open = true;
    assert_eq!(l.tile_press(0), TilePress::CloseSettings);
    assert_eq!(l.tile_menu_press(), TilePress::CloseSettings);
    assert!(!l.tiles_draggable());
    l.settings_open = false;
    assert_eq!(l.tile_menu_press(), TilePress::OpenMenu);
    l.menu = Some(2);
    assert_eq!(l.tile_press(2), TilePress::CloseMenu);
    assert_eq!(l.tile_press(1), TilePress::Ignore);
    assert!(!l.tiles_draggable());
}

#[test]
fn ending_a_drag_changes_nothing_else() {
    let mut l = launcher();
    l.dnd_icon = Some(3);
    l.menu = Some(1);
    l.end_drag();
    assert_eq!(l.dnd_icon, None);
    assert_eq!(l.menu, Some(1));
}

#[test]
fn visible_launcher_hides_on_activation() {
    let mut l = launcher();
    l.surface_state = SurfaceState::Visible;
    l.dnd_icon = Some(0);
    assert_eq!(l.activate(None), Activation::Hide(Hiding::EndDragFirst));
    assert_eq!(l.surface_state, SurfaceState::Visible);
    assert_eq!(l.activate(None), Activation::Hide(Hiding::Close));
    assert_eq!(l.surface_state, SurfaceState::Hidden);
}
