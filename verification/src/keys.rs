//! Which key presses the board reacts to, and how.
use vstd::prelude::*;

use crate::text::chars_of;

verus! {

/// The named keys the board tells apart; character keys and every other key
/// are `Other`.
#[derive(Clone, Copy, Debug, PartialEq, Eq, Structural)]
pub enum NamedKey {
    ArrowUp,
    ArrowDown,
    ArrowLeft,
    ArrowRight,
    Other,
}

/// A key press as the board sees it.
pub struct KeyPress {
    /// The character of a character key; `None` for other keys.
    pub character: Option<String>,
    /// The named key; `Other` for character keys.
    pub named: NamedKey,
    /// The text the key types, if any.
    pub text: Option<String>,
    /// No widget handled the press.
    pub unhandled: bool,
    pub control: bool,
    pub alt: bool,
    pub logo: bool,
}

/// What a key press leads to.
#[derive(Clone, Debug, PartialEq, Eq)]
pub enum KeyCommand {
    /// Type the text into the search.
    Type(String),
    /// Move focus up a row.
    PrevRow,
    /// Move focus down a row.
    NextRow,
    /// Move focus to the next widget.
    FocusNext,
    /// Move focus to the previous widget.
    FocusPrevious,
    /// Nothing.
    Nothing,
}

/// A control character: one of Unicode's general category Cc, U+0000 to
/// U+001F and U+007F to U+009F (`char::is_control`).
pub open spec fn is_control_char(c: char) -> bool {
    (c as u32) <= 0x1f || (0x7f <= (c as u32) && (c as u32) <= 0x9f)
}

/// The text holds a character that is not a control character.
pub open spec fn has_visible_char(s: Seq<char>) -> bool {
    exists|i: int| 0 <= i < s.len() && !is_control_char(#[trigger] s[i])
}

/// The press types text: no widget handled it, no Control, Alt or Super
/// modifier is held, and its text has a visible character.
pub open spec fn types_text(k: KeyPress) -> bool {
    &&& k.unhandled
    &&& !k.control
    &&& !k.alt
    &&& !k.logo
    &&& k.text matches Some(t) && has_visible_char(t@)
}

/// The press is the character key `a` or `b`.
pub open spec fn is_char_key(k: KeyPress, a: char, b: char) -> bool {
    k.character matches Some(c) && (c@ == seq![a] || c@ == seq![b])
}

/// What a press that types no text leads to: Control with P or K, N or J,
/// F or L, B or H moves up a row, down a row, to the next or the previous
/// widget; so do the arrow keys up, down, right and left when no widget
/// handled them.
pub open spec fn shortcut(k: KeyPress) -> KeyCommand {
    if k.control && is_char_key(k, 'p', 'k') {
        KeyCommand::PrevRow
    } else if k.control && is_char_key(k, 'n', 'j') {
        KeyCommand::NextRow
    } else if k.control && is_char_key(k, 'f', 'l') {
        KeyCommand::FocusNext
    } else if k.control && is_char_key(k, 'b', 'h') {
        KeyCommand::FocusPrevious
    } else if k.unhandled && k.named == NamedKey::ArrowUp {
        KeyCommand::PrevRow
    } else if k.unhandled && k.named == NamedKey::ArrowDown {
        KeyCommand::NextRow
    } else if k.unhandled && k.named == NamedKey::ArrowLeft {
        KeyCommand::FocusPrevious
    } else if k.unhandled && k.named == NamedKey::ArrowRight {
        KeyCommand::FocusNext
    } else {
        KeyCommand::Nothing
    }
}

fn is_control(c: char) -> (r: bool)
    ensures
        r == is_control_char(c),
{
    let u = c as u32;
    u <= 0x1f || (0x7f <= u && u <= 0x9f)
}

fn visible(s: &str) -> (r: bool)
    ensures
        r == has_visible_char(s@),
{
    let cs = chars_of(s);
    let n = cs.len();
    let mut i: usize = 0;
    while i < n
        invariant
            n == cs@.len(),
            cs@ == s@,
            i <= n,
            forall|j: int| 0 <= j < i ==> is_control_char(#[trigger] cs@[j]),
        decreases n - i,
    {
        if !is_control(cs[i]) {
            assert(!is_control_char(s@[i as int]));
            return true;
        }
        i = i + 1;
    }
    false
}

fn char_key(character: &Option<String>, a: char, b: char) -> (r: bool)
    ensures
        r == (character matches Some(c) && (c@ == seq![a] || c@ == seq![b])),
{
    match character {
        Some(c) => {
            let cs = chars_of(c.as_str());
            let r = cs.len() == 1 && (cs[0] == a || cs[0] == b);
            proof {
                if cs@.len() == 1 {
                    assert(cs@ =~= seq![cs@[0]]);
                }
                if c@ == seq![a] || c@ == seq![b] {
                    assert(cs@.len() == 1);
                }
            }
            r
        },
        None => false,
    }
}

/// What a key press leads to: text it types goes to the search (see
/// [`types_text`]); otherwise see [`shortcut`].
pub fn key_command(k: &KeyPress) -> (r: KeyCommand)
    ensures
        types_text(*k) ==> (r matches KeyCommand::Type(t) && t@ == k.text->0@),
        !types_text(*k) ==> r == shortcut(*k),
{
    let typed = k.unhandled && !k.control && !k.alt && !k.logo && match &k.text {
        Some(t) => visible(t.as_str()),
        None => false,
    };
    if typed {
        match &k.text {
            Some(t) => return KeyCommand::Type(t.clone()),
            None => {},
        }
    }
    if k.control && char_key(&k.character, 'p', 'k') {
        KeyCommand::PrevRow
    } else if k.control && char_key(&k.character, 'n', 'j') {
        KeyCommand::NextRow
    } else if k.control && char_key(&k.character, 'f', 'l') {
        KeyCommand::FocusNext
    } else if k.control && char_key(&k.character, 'b', 'h') {
        KeyCommand::FocusPrevious
    } else if k.unhandled && k.named == NamedKey::ArrowUp {
        KeyCommand::PrevRow
    } else if k.unhandled && k.named == NamedKey::ArrowDown {
        KeyCommand::NextRow
    } else if k.unhandled && k.named == NamedKey::ArrowLeft {
        KeyCommand::FocusPrevious
    } else if k.unhandled && k.named == NamedKey::ArrowRight {
        KeyCommand::FocusNext
    } else {
        KeyCommand::Nothing
    }
}

} // verus!
