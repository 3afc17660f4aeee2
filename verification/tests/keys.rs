use cosmic_app_library::keys::{key_command, KeyCommand, KeyPress, NamedKey};

fn press(character: Option<&str>, named: NamedKey, text: Option<&str>) -> KeyPress {
    KeyPress {
        character: character.map(str::to_string),
        named,
        text: text.map(str::to_string),
        unhandled: true,
        control: false,
        alt: false,
        logo: false,
    }
}

#[test]
fn typing_goes_to_the_search() {
    let k = press(Some("a"), NamedKey::Other, Some("a"));
    assert_eq!(key_command(&k), KeyCommand::Type("a".to_string()));
    let mut handled = press(Some("a"), NamedKey::Other, Some("a"));
    handled.unhandled = false;
    assert_eq!(key_command(&handled), KeyCommand::Nothing);
    let control_char = press(None, NamedKey::Other, Some("\u{8}"));
    assert_eq!(key_command(&control_char), KeyCommand::Nothing);
}

#[test]
fn control_letters_and_arrows_move_focus() {
    let mut k = press(Some("k"), NamedKey::Other, Some("k"));
    k.control = true;
    assert_eq!(key_command(&k), KeyCommand::PrevRow);
    k.character = Some("j".into());
    assert_eq!(key_command(&k), KeyCommand::NextRow);
    k.character = Some("l".into());
    assert_eq!(key_command(&k), KeyCommand::FocusNext);
    k.character = Some("b".into());
    assert_eq!(key_command(&k), KeyCommand::FocusPrevious);
    k.character = Some("x".into());
    assert_eq!(key_command(&k), KeyCommand::Nothing);
    assert_eq!(key_command(&press(None, NamedKey::ArrowUp, None)), KeyCommand::PrevRow);
    assert_eq!(key_command(&press(None, NamedKey::ArrowDown, None)), KeyCommand::NextRow);
    assert_eq!(key_command(&press(None, NamedKey::ArrowLeft, None)), KeyCommand::FocusPrevious);
    assert_eq!(key_command(&press(None, NamedKey::ArrowRight, None)), KeyCommand::FocusNext);
    let mut handled_arrow = press(None, NamedKey::ArrowUp, None);
    handled_arrow.unhandled = false;
    assert_eq!(key_command(&handled_arrow), KeyCommand::Nothing);
}
