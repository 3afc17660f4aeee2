//! Commands the launcher reads: shortcut commands and desktop actions, and
//! the IDs it hands to the software store.
use vstd::prelude::*;

use crate::ids::id_list;
use crate::text::chars_of;

verus! {

/// The words that `shlex::Shlex` yields for `input`, in order: the input
/// split as a POSIX shell splits it, up to a quoting error.
pub uninterp spec fn shell_words(input: Seq<char>) -> Seq<Seq<char>>;

/// Calls the `shlex::Shlex` iterator on `input` and collects its words; the
/// words are [`shell_words`] of `input`, which depend on `input` alone.
#[verifier::external_body]
fn split_words(input: &str) -> (r: Vec<String>)
    ensures
        id_list(r@) == shell_words(input@),
{
    shlex::Shlex::new(input).collect()
}

/// The last component of a file system path, as `std::path::Path::file_name`
/// gives it: none when the path ends in `..` or has no component.
pub uninterp spec fn path_file_name(path: Seq<char>) -> Option<Seq<char>>;

/// Calls `std::path::Path::file_name` on `path`; the result is
/// [`path_file_name`] of `path`, which depends on `path` alone.
#[verifier::external_body]
fn file_name(path: &str) -> (r: Option<String>)
    ensures
        match r {
            Some(name) => path_file_name(path@) == Some(name@),
            None => path_file_name(path@) is None,
        },
{
    match std::path::Path::new(path).file_name() {
        Some(name) => Some(name.to_string_lossy().into_owned()),
        None => None,
    }
}

/// The name of the board's executable.
pub open spec fn board_executable() -> Seq<char> {
    "cosmic-application-board"@
}

/// Whether a file name is that of the board's executable.
pub fn names_board_executable(name: &Option<String>) -> (r: bool)
    ensures
        r == (match name { Some(n) => n@ == board_executable(), None => false }),
{
    match name {
        Some(n) => *n == String::from_str("cosmic-application-board"),
        None => false,
    }
}

/// Whether the words of a shortcut command start the board: the first word
/// names the board's executable (see [`path_file_name`]).
pub fn words_start_board(words: &Vec<String>) -> (r: bool)
    ensures
        r == (words@.len() > 0 && path_file_name(words@[0]@) == Some(board_executable())),
{
    if words.len() == 0 {
        return false;
    }
    let name = file_name(words[0].as_str());
    names_board_executable(&name)
}

/// Whether a shortcut command starts the board: its first word names the
/// board's executable.
pub fn is_launchpad_command(command: &str) -> (r: bool)
    ensures
        r == (shell_words(command@).len() > 0
            && path_file_name(shell_words(command@)[0]) == Some(board_executable())),
{
    let words = split_words(command);
    proof {
        if words@.len() > 0 {
            assert(shell_words(command@)[0] == words@[0]@);
        }
    }
    words_start_board(&words)
}

/// `c` occurs in `s`.
pub open spec fn has_char(s: Seq<char>, c: char) -> bool {
    exists|i: int| 0 <= i < s.len() && s[i] == c
}

/// The program and arguments of a desktop action with the words `words`: the
/// first word is the program, unless there is none or it holds `=`; the other
/// words, except field codes (those that start with `%`), are the arguments.
pub open spec fn action_command(words: Seq<Seq<char>>) -> Option<(Seq<char>, Seq<Seq<char>>)> {
    if words.len() == 0 || has_char(words[0], '=') {
        None
    } else {
        Some((words[0], kept_arguments(words.drop_first())))
    }
}

/// The words that do not start with `%`, in order.
pub open spec fn kept_arguments(words: Seq<Seq<char>>) -> Seq<Seq<char>>
    decreases words.len(),
{
    if words.len() == 0 {
        Seq::empty()
    } else if words.last().len() > 0 && words.last()[0] == '%' {
        kept_arguments(words.drop_last())
    } else {
        kept_arguments(words.drop_last()).push(words.last())
    }
}

/// Whether `s` holds the character `c`.
fn contains_char(s: &str, c: char) -> (r: bool)
    ensures
        r == has_char(s@, c),
{
    let cs = chars_of(s);
    let n = cs.len();
    let mut i: usize = 0;
    while i < n
        invariant
            n == cs@.len(),
            cs@ == s@,
            i <= n,
            forall|j: int| 0 <= j < i ==> s@[j] != c,
        decreases n - i,
    {
        if cs[i] == c {
            assert(s@[i as int] == c);
            return true;
        }
        i = i + 1;
    }
    false
}

/// The program and arguments for the words of a desktop action (see
/// [`action_command`]).
pub fn command_from_words(words: Vec<String>) -> (r: Option<(String, Vec<String>)>)
    ensures
        match r {
            Some((program, args)) => action_command(id_list(words@)) == Some((program@, id_list(args@))),
            None => action_command(id_list(words@)) is None,
        },
{
    let ghost ws = id_list(words@);
    if words.len() == 0 {
        return None;
    }
    if contains_char(words[0].as_str(), '=') {
        return None;
    }
    let program = words[0].clone();
    let mut args: Vec<String> = Vec::new();
    let n = words.len();
    let mut i: usize = 1;
    while i < n
        invariant
            n == words@.len(),
            ws == id_list(words@),
            1 <= i <= n,
            id_list(args@) == kept_arguments(ws.drop_first().take(i - 1)),
        decreases n - i,
    {
        assert(ws.drop_first().take(i as int).drop_last() =~= ws.drop_first().take(i - 1));
        assert(ws.drop_first().take(i as int).last() == words@[i as int]@);
        let cs = chars_of(words[i].as_str());
        let field_code = cs.len() > 0 && cs[0] == '%';
        if !field_code {
            let ghost before = id_list(args@);
            args.push(words[i].clone());
            assert(id_list(args@) =~= before.push(words@[i as int]@));
        }
        i = i + 1;
    }
    assert(ws.drop_first().take(n - 1) =~= ws.drop_first());
    Some((program, args))
}

/// The program and arguments that a desktop action's command line `exec`
/// runs (see [`action_command`] and [`shell_words`]).
pub fn desktop_action_command(exec: &str) -> (r: Option<(String, Vec<String>)>)
    ensures
        match r {
            Some((program, args)) => action_command(shell_words(exec@)) == Some((program@, id_list(args@))),
            None => action_command(shell_words(exec@)) is None,
        },
{
    command_from_words(split_words(exec))
}

/// The software store's component ID for a desktop ID: the desktop ID without
/// a trailing ".desktop".
pub fn store_component_id(desktop_id: &str) -> (r: &str)
    ensures
        r@ == if desktop_id@.len() >= 8 && desktop_id@.subrange(desktop_id@.len() - 8, desktop_id@.len() as int)
            == ".desktop"@ {
            desktop_id@.subrange(0, desktop_id@.len() - 8)
        } else {
            desktop_id@
        },
{
    let n = desktop_id.unicode_len();
    if n < 8 {
        return desktop_id;
    }
    let suffix = desktop_id.substring_char(n - 8, n);
    let dot_desktop = ".desktop";
    proof {
        reveal_strlit(".desktop");
    }
    let sc = chars_of(suffix);
    let dc = chars_of(dot_desktop);
    let mut same = true;
    let mut i: usize = 0;
    while i < 8
        invariant
            sc@ == suffix@,
            dc@ == dot_desktop@,
            sc@.len() == 8,
            dc@.len() == 8,
            i <= 8,
            same == (forall|j: int| 0 <= j < i ==> sc@[j] == dc@[j]),
        decreases 8 - i,
    {
        if sc[i] != dc[i] {
            same = false;
        }
        i = i + 1;
    }
    if same {
        assert(suffix@ =~= ".desktop"@);
        desktop_id.substring_char(0, n - 8)
    } else {
        assert(suffix@ != ".desktop"@) by {
            if suffix@ == ".desktop"@ {
                assert(forall|j: int| 0 <= j < 8 ==> sc@[j] == dc@[j]);
            }
        }
        desktop_id
    }
}

} // verus!
