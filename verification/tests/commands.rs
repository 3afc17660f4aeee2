use cosmic_app_library::commands::{
    command_from_words, desktop_action_command, is_launchpad_command, names_board_executable,
    store_component_id, words_start_board,
};

#[test]
fn launchpad_shortcut_is_recognised_by_its_executable() {
    assert!(is_launchpad_command("/usr/bin/cosmic-application-board"));
    assert!(is_launchpad_command("'/opt/my apps/cosmic-application-board' --flag"));
    assert!(is_launchpad_command("cosmic-application-board"));
    assert!(!is_launchpad_command("cosmic-launcher"));
    assert!(!is_launchpad_command(""));
    assert!(!is_launchpad_command("\"unterminated"));
    assert!(names_board_executable(&Some("cosmic-application-board".to_string())));
    assert!(!names_board_executable(&None));
}

#[test]
fn desktop_actions_drop_field_codes_and_reject_assignments() {
    let (program, args) = desktop_action_command("firefox --new-window %u 'a b'").unwrap();
    assert_eq!(program, "firefox");
    assert_eq!(args, vec!["--new-window".to_string(), "a b".to_string()]);
    assert!(desktop_action_command("FOO=1 firefox").is_none());
    assert!(desktop_action_command("   ").is_none());
    let words = vec!["app".to_string(), "%F".to_string(), "".to_string()];
    let (program, args) = command_from_words(words).unwrap();
    assert_eq!(program, "app");
    assert_eq!(args, vec!["".to_string()]);
}

#[test]
fn store_ids_drop_the_desktop_suffix() {
    assert_eq!(store_component_id("org.gnome.Totem.desktop"), "org.gnome.Totem");
    assert_eq!(store_component_id("org.gnome.Totem"), "org.gnome.Totem");
    assert_eq!(store_component_id(".desktop"), "");
    assert_eq!(store_component_id("desktop"), "desktop");
}

#[test]
fn only_a_first_word_naming_the_board_starts_it() {
    assert!(words_start_board(&vec!["/usr/bin/cosmic-application-board".to_string()]));
    assert!(words_start_board(&vec!["cosmic-application-board".to_string(), "x".to_string()]));
    assert!(!words_start_board(&vec!["x".to_string(), "cosmic-application-board".to_string()]));
    assert!(!words_start_board(&Vec::new()));
}
