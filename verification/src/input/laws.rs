//! What the keys are bound to.

use vstd::prelude::*;

use crate::action::Action;
use crate::input;
use crate::input::{KeyCode, KeyEvent};

verus! {

/// A key that is pressed.
pub open spec fn pressed(code: KeyCode, ctrl: bool, alt: bool) -> Option<Action> {
    input::binding(KeyEvent { code, ctrl, alt, released: false })
}

/// Letting a key go does nothing. A character without Control or Alt is typed. The keys
/// that move and delete do so whatever else is held.
pub proof fn law_plain_keys(code: KeyCode, c: char, ctrl: bool, alt: bool)
    ensures
        input::binding(KeyEvent { code, ctrl, alt, released: true }) is None,
        pressed(KeyCode::Char(c), false, false) == Some(Action::Insert(c)),
        pressed(KeyCode::Enter, ctrl, alt) == Some(Action::Insert('\n')),
        pressed(KeyCode::Tab, false, false) == Some(Action::Insert('\t')),
        pressed(KeyCode::Backspace, ctrl, alt) == Some(Action::DeletePrev),
        pressed(KeyCode::Delete, ctrl, alt) == Some(Action::DeleteNext),
        pressed(KeyCode::Up, ctrl, alt) == Some(Action::MoveUp),
        pressed(KeyCode::Down, ctrl, alt) == Some(Action::MoveDown),
        pressed(KeyCode::Home, ctrl, alt) == Some(Action::MoveHome),
        pressed(KeyCode::End, ctrl, alt) == Some(Action::MoveEnd),
        pressed(KeyCode::PageUp, ctrl, alt) == Some(Action::PageUp),
        pressed(KeyCode::PageDown, ctrl, alt) == Some(Action::PageDown),
        pressed(KeyCode::Esc, ctrl, alt) == Some(Action::Escape),
        pressed(KeyCode::Left, ctrl, false) == Some(Action::MoveLeft),
        pressed(KeyCode::Right, ctrl, false) == Some(Action::MoveRight),
        pressed(KeyCode::Left, ctrl, true) == Some(Action::MoveWordLeft),
        pressed(KeyCode::Right, ctrl, true) == Some(Action::MoveWordRight),
{
}

/// Control never types: no character with Control or Alt held is put into the text.
pub proof fn law_held_keys_type_nothing(c: char, ctrl: bool, alt: bool)
    requires
        ctrl || alt,
    ensures
        !(pressed(KeyCode::Char(c), ctrl, alt) matches Some(a) && a is Insert),
        !(pressed(KeyCode::Tab, ctrl, alt) matches Some(a) && a is Insert),
{
}

/// With Control or Alt held, a letter does the same whether Shift is held or not, but for
/// Control and G, which goes to a line with Shift and to a definition without.
pub proof fn law_shift_makes_no_difference(small: char, large: char, alt: bool)
    requires
        'a' <= small <= 'z',
        large as int == small as int - 32,
    ensures
        small != 'g' ==> pressed(KeyCode::Char(small), true, alt) == pressed(
            KeyCode::Char(large),
            true,
            alt,
        ),
        pressed(KeyCode::Char(small), false, true) == pressed(KeyCode::Char(large), false, true),
        pressed(KeyCode::Char('g'), true, alt) == Some(Action::GoToDefinition),
        pressed(KeyCode::Char('G'), true, alt) == Some(Action::GoToLine),
{
}

/// What Control and a letter do, whether Alt is held or not.
pub proof fn law_control_keys(alt: bool)
    ensures
        pressed(KeyCode::Char('s'), true, alt) == Some(Action::Save),
        pressed(KeyCode::Char('q'), true, alt) == Some(Action::Quit),
        pressed(KeyCode::Char(']'), true, alt) == Some(Action::GoToDefinition),
        pressed(KeyCode::Char('o'), true, alt) == Some(Action::GoBack),
        pressed(KeyCode::Char('t'), true, alt) == Some(Action::ToggleTree),
        pressed(KeyCode::Char('u'), true, alt) == Some(Action::PageUp),
        pressed(KeyCode::Char('d'), true, alt) == Some(Action::PageDown),
        pressed(KeyCode::Char('b'), true, alt) == Some(Action::MoveWordLeft),
        pressed(KeyCode::Char('f'), true, alt) == Some(Action::MoveWordRight),
        pressed(KeyCode::Char('a'), true, alt) == Some(Action::MoveHome),
        pressed(KeyCode::Char('e'), true, alt) == Some(Action::MoveEnd),
        pressed(KeyCode::Char('r'), true, alt) == Some(Action::ToggleGitDiff),
        pressed(KeyCode::Char('n'), true, alt) == Some(Action::NewFile),
        pressed(KeyCode::Char('w'), true, alt) == Some(Action::ToggleAutosave),
        pressed(KeyCode::Char('l'), true, alt) == Some(Action::ToggleHistory),
        pressed(KeyCode::Char('k'), true, alt) == Some(Action::ShowType),
        pressed(KeyCode::Char('y'), true, alt) == Some(Action::Rename),
        pressed(KeyCode::Char('p'), true, alt) == Some(Action::ToggleKeysHelp),
        pressed(KeyCode::Char('x'), true, alt) == Some(Action::OpenFile),
        pressed(KeyCode::Char('v'), true, alt) == Some(Action::ToggleMode),
        pressed(KeyCode::F(12), true, alt) == Some(Action::GoToDefinition),
        pressed(KeyCode::Char('h'), false, true) == Some(Action::MoveLeft),
        pressed(KeyCode::Char('l'), false, true) == Some(Action::MoveRight),
        pressed(KeyCode::Char('k'), false, true) == Some(Action::MoveUp),
        pressed(KeyCode::Char('j'), false, true) == Some(Action::MoveDown),
        pressed(KeyCode::Char('b'), false, true) == Some(Action::MoveWordLeft),
        pressed(KeyCode::Char('f'), false, true) == Some(Action::MoveWordRight),
        pressed(KeyCode::Char('t'), false, true) == Some(Action::OpenTypeSearch),
        pressed(KeyCode::Char('g'), false, true) == Some(Action::GoToLine),
{
}

} // verus!
