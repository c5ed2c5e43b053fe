//! What a key asks for.

use vstd::prelude::*;

use crate::text::{join2, owned};

verus! {

#[derive(Clone, Copy, Debug, PartialEq, Eq, Structural)]
pub enum Action {
    Insert(char),
    DeletePrev,
    DeleteNext,
    /// Empties the line under the cursor, but for its line break.
    ClearLine,
    MoveLeft,
    MoveRight,
    MoveUp,
    MoveDown,
    MoveWordLeft,
    MoveWordRight,
    MoveHome,
    MoveEnd,
    PageUp,
    PageDown,
    Save,
    Quit,
    GoToDefinition,
    GoToLine,
    GoBack,
    /// The next key picks where to go.
    CtrlGPrefix,
    ShowType,
    Rename,
    ToggleTree,
    ToggleGitDiff,
    ToggleHistory,
    ToggleKeysHelp,
    OpenFile,
    OpenTypeSearch,
    OpenTextSearch,
    NewFile,
    ToggleAutosave,
    ToggleMode,
    Escape,
}

/// One hexadecimal digit.
pub open spec fn hex_digit(n: int) -> char {
    if n < 10 {
        (n + 48) as char
    } else {
        (n + 55) as char
    }
}

/// A number in hexadecimal, in at least `width` digits.
pub open spec fn hex(n: nat, width: nat) -> Seq<char>
    decreases n, width,
{
    if n == 0 && width == 0 {
        Seq::empty()
    } else {
        hex(
            n / 16,
            if width > 0 {
                (width - 1) as nat
            } else {
                0
            },
        ).push(hex_digit(n as int % 16))
    }
}

/// A character by name, as it is, or by number.
pub open spec fn char_name(c: char) -> Seq<char> {
    if c == '\n' {
        "newline"@
    } else if c == '\t' {
        "tab"@
    } else if c == ' ' {
        "space"@
    } else if '!' <= c <= '~' {
        "'"@ + seq![c] + "'"@
    } else {
        "U+"@ + hex(c as nat, 4)
    }
}

/// What an edit by hand is called in the history.
pub open spec fn intent_of(a: Action) -> Option<Seq<char>> {
    match a {
        Action::Insert(c) => Some("insert "@ + char_name(c)),
        Action::DeletePrev => Some("delete backward"@),
        Action::DeleteNext => Some("delete forward"@),
        Action::ClearLine => Some("clear line"@),
        _ => None,
    }
}

fn make_hex_digit(n: u32) -> (r: char)
    requires
        n < 16,
    ensures
        r == hex_digit(n as int),
{
    match n {
        0 => '0',
        1 => '1',
        2 => '2',
        3 => '3',
        4 => '4',
        5 => '5',
        6 => '6',
        7 => '7',
        8 => '8',
        9 => '9',
        10 => 'A',
        11 => 'B',
        12 => 'C',
        13 => 'D',
        14 => 'E',
        _ => 'F',
    }
}

fn make_hex(n: u32, width: u32) -> (r: String)
    ensures
        r@ == hex(n as nat, width as nat),
    decreases n, width,
{
    if n == 0 && width == 0 {
        return String::new();
    }
    let mut r = make_hex(
        n / 16,
        if width > 0 {
            width - 1
        } else {
            0
        },
    );
    r.push(make_hex_digit(n % 16));
    r
}

/// A character by name, as it is, or by number.
pub fn describe_char(c: char) -> (r: String)
    ensures
        r@ == char_name(c),
{
    if c == '\n' {
        owned("newline")
    } else if c == '\t' {
        owned("tab")
    } else if c == ' ' {
        owned("space")
    } else if '!' <= c && c <= '~' {
        let mut r = owned("'");
        r.push(c);
        r.push('\'');
        proof {
            reveal_strlit("'");
        }
        assert(r@ =~= char_name(c));
        r
    } else {
        join2("U+", &make_hex(c as u32, 4))
    }
}

/// What an edit by hand is called in the history.
pub fn action_intent(a: Action) -> (r: Option<String>)
    ensures
        match r {
            Some(s) => intent_of(a) == Some(s@),
            None => intent_of(a) is None,
        },
{
    match a {
        Action::Insert(c) => Some(join2("insert ", &describe_char(c))),
        Action::DeletePrev => Some(owned("delete backward")),
        Action::DeleteNext => Some(owned("delete forward")),
        Action::ClearLine => Some(owned("clear line")),
        _ => None,
    }
}

} // verus!
