//! The bindings of the keys.

use vstd::prelude::*;

use crate::action::Action;
use crate::text;
use crate::text::to_ascii_lower;

pub mod laws;

verus! {

/// A key of the keyboard.
#[derive(Clone, Copy, Debug, PartialEq, Eq, Structural)]
pub enum KeyCode {
    Backspace,
    Enter,
    Left,
    Right,
    Up,
    Down,
    Home,
    End,
    PageUp,
    PageDown,
    Tab,
    Delete,
    Esc,
    F(u8),
    Char(char),
    /// A key that nothing is bound to.
    Other,
}

/// A key that was pressed, held or let go.
#[derive(Clone, Copy, Debug, PartialEq, Eq, Structural)]
pub struct KeyEvent {
    pub code: KeyCode,
    pub ctrl: bool,
    pub alt: bool,
    pub released: bool,
}

/// What a letter with the control key asks for. Only for `g` does the case count:
/// with shift it asks for a line, not for a definition.
pub open spec fn ctrl_binding(c: char) -> Option<Action> {
    match text::ascii_lower(c) {
        's' => Some(Action::Save),
        'q' => Some(Action::Quit),
        'g' => Some(
            if c == 'G' {
                Action::GoToLine
            } else {
                Action::GoToDefinition
            },
        ),
        ']' => Some(Action::GoToDefinition),
        'o' => Some(Action::GoBack),
        't' => Some(Action::ToggleTree),
        'u' => Some(Action::PageUp),
        'd' => Some(Action::PageDown),
        'b' => Some(Action::MoveWordLeft),
        'f' => Some(Action::MoveWordRight),
        'a' => Some(Action::MoveHome),
        'e' => Some(Action::MoveEnd),
        'r' => Some(Action::ToggleGitDiff),
        'n' => Some(Action::NewFile),
        'w' => Some(Action::ToggleAutosave),
        'l' => Some(Action::ToggleHistory),
        'k' => Some(Action::ShowType),
        'y' => Some(Action::Rename),
        'p' => Some(Action::ToggleKeysHelp),
        'x' => Some(Action::OpenFile),
        'v' => Some(Action::ToggleMode),
        _ => None,
    }
}

/// What a letter with the alt key asks for.
pub open spec fn alt_binding(c: char) -> Option<Action> {
    match text::ascii_lower(c) {
        'h' => Some(Action::MoveLeft),
        'l' => Some(Action::MoveRight),
        'k' => Some(Action::MoveUp),
        'j' => Some(Action::MoveDown),
        'b' => Some(Action::MoveWordLeft),
        'f' => Some(Action::MoveWordRight),
        't' => Some(Action::OpenTypeSearch),
        'g' => Some(Action::GoToLine),
        _ => None,
    }
}

/// What a key asks for; letting go of one asks for nothing.
pub open spec fn binding(ev: KeyEvent) -> Option<Action> {
    if ev.released {
        None
    } else {
        match ev.code {
            KeyCode::Left => Some(
                if ev.alt {
                    Action::MoveWordLeft
                } else {
                    Action::MoveLeft
                },
            ),
            KeyCode::Right => Some(
                if ev.alt {
                    Action::MoveWordRight
                } else {
                    Action::MoveRight
                },
            ),
            KeyCode::Up => Some(Action::MoveUp),
            KeyCode::Down => Some(Action::MoveDown),
            KeyCode::Home => Some(Action::MoveHome),
            KeyCode::End => Some(Action::MoveEnd),
            KeyCode::PageUp => Some(Action::PageUp),
            KeyCode::PageDown => Some(Action::PageDown),
            KeyCode::Backspace => Some(Action::DeletePrev),
            KeyCode::Delete => Some(Action::DeleteNext),
            KeyCode::Enter => Some(Action::Insert('\n')),
            KeyCode::Esc => Some(Action::Escape),
            KeyCode::Tab => if ev.ctrl || ev.alt {
                None
            } else {
                Some(Action::Insert('\t'))
            },
            KeyCode::F(n) => if n == 12 {
                Some(Action::GoToDefinition)
            } else {
                None
            },
            KeyCode::Char(c) => if ev.ctrl {
                ctrl_binding(c)
            } else if ev.alt {
                alt_binding(c)
            } else {
                Some(Action::Insert(c))
            },
            KeyCode::Other => None,
        }
    }
}

fn map_ctrl(c: char) -> (r: Option<Action>)
    ensures
        r == ctrl_binding(c),
{
    match to_ascii_lower(c) {
        's' => Some(Action::Save),
        'q' => Some(Action::Quit),
        'g' => Some(
            if c == 'G' {
                Action::GoToLine
            } else {
                Action::GoToDefinition
            },
        ),
        ']' => Some(Action::GoToDefinition),
        'o' => Some(Action::GoBack),
        't' => Some(Action::ToggleTree),
        'u' => Some(Action::PageUp),
        'd' => Some(Action::PageDown),
        'b' => Some(Action::MoveWordLeft),
        'f' => Some(Action::MoveWordRight),
        'a' => Some(Action::MoveHome),
        'e' => Some(Action::MoveEnd),
        'r' => Some(Action::ToggleGitDiff),
        'n' => Some(Action::NewFile),
        'w' => Some(Action::ToggleAutosave),
        'l' => Some(Action::ToggleHistory),
        'k' => Some(Action::ShowType),
        'y' => Some(Action::Rename),
        'p' => Some(Action::ToggleKeysHelp),
        'x' => Some(Action::OpenFile),
        'v' => Some(Action::ToggleMode),
        _ => None,
    }
}

fn map_alt(c: char) -> (r: Option<Action>)
    ensures
        r == alt_binding(c),
{
    match to_ascii_lower(c) {
        'h' => Some(Action::MoveLeft),
        'l' => Some(Action::MoveRight),
        'k' => Some(Action::MoveUp),
        'j' => Some(Action::MoveDown),
        'b' => Some(Action::MoveWordLeft),
        'f' => Some(Action::MoveWordRight),
        't' => Some(Action::OpenTypeSearch),
        'g' => Some(Action::GoToLine),
        _ => None,
    }
}

/// What a key asks for.
pub fn map(ev: KeyEvent) -> (r: Option<Action>)
    ensures
        r == binding(ev),
{
    if ev.released {
        return None;
    }
    match ev.code {
        KeyCode::Left => Some(
            if ev.alt {
                Action::MoveWordLeft
            } else {
                Action::MoveLeft
            },
        ),
        KeyCode::Right => Some(
            if ev.alt {
                Action::MoveWordRight
            } else {
                Action::MoveRight
            },
        ),
        KeyCode::Up => Some(Action::MoveUp),
        KeyCode::Down => Some(Action::MoveDown),
        KeyCode::Home => Some(Action::MoveHome),
        KeyCode::End => Some(Action::MoveEnd),
        KeyCode::PageUp => Some(Action::PageUp),
        KeyCode::PageDown => Some(Action::PageDown),
        KeyCode::Backspace => Some(Action::DeletePrev),
        KeyCode::Delete => Some(Action::DeleteNext),
        KeyCode::Enter => Some(Action::Insert('\n')),
        KeyCode::Esc => Some(Action::Escape),
        KeyCode::Tab => if ev.ctrl || ev.alt {
            None
        } else {
            Some(Action::Insert('\t'))
        },
        KeyCode::F(n) => if n == 12 {
            Some(Action::GoToDefinition)
        } else {
            None
        },
        KeyCode::Char(c) => if ev.ctrl {
            map_ctrl(c)
        } else if ev.alt {
            map_alt(c)
        } else {
            Some(Action::Insert(c))
        },
        KeyCode::Other => None,
    }
}

} // verus!
