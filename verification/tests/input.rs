use dyad::action::Action;
use dyad::input::{self, KeyCode, KeyEvent};

fn key(code: KeyCode) -> KeyEvent {
    KeyEvent { code, ctrl: false, alt: false, released: false }
}

fn ctrl(c: char) -> KeyEvent {
    KeyEvent { code: KeyCode::Char(c), ctrl: true, alt: false, released: false }
}

fn alt(c: char) -> KeyEvent {
    KeyEvent { code: KeyCode::Char(c), ctrl: false, alt: true, released: false }
}

#[test]
fn release_events_are_ignored() {
    let mut ev = key(KeyCode::Char('a'));
    ev.released = true;
    assert!(input::map(ev).is_none());
}

#[test]
fn plain_letter_inserts_itself() {
    match input::map(key(KeyCode::Char('x'))).unwrap() {
        Action::Insert(c) => assert_eq!(c, 'x'),
        other => panic!("expected Insert('x'), got {other:?}"),
    }
}

#[test]
fn enter_inserts_newline() {
    match input::map(key(KeyCode::Enter)).unwrap() {
        Action::Insert(c) => assert_eq!(c, '\n'),
        other => panic!("expected Insert('\\n'), got {other:?}"),
    }
}

#[test]
fn tab_inserts_tab_char() {
    match input::map(key(KeyCode::Tab)).unwrap() {
        Action::Insert(c) => assert_eq!(c, '\t'),
        other => panic!("expected Insert('\\t'), got {other:?}"),
    }
}

#[test]
fn plain_arrows_move_one_char() {
    assert!(matches!(input::map(key(KeyCode::Left)).unwrap(), Action::MoveLeft));
    assert!(matches!(input::map(key(KeyCode::Right)).unwrap(), Action::MoveRight));
    assert!(matches!(input::map(key(KeyCode::Up)).unwrap(), Action::MoveUp));
    assert!(matches!(input::map(key(KeyCode::Down)).unwrap(), Action::MoveDown));
}

#[test]
fn alt_left_right_jumps_words() {
    let ev = KeyEvent { code: KeyCode::Left, ctrl: false, alt: true, released: false };
    assert!(matches!(input::map(ev).unwrap(), Action::MoveWordLeft));
    let ev = KeyEvent { code: KeyCode::Right, ctrl: false, alt: true, released: false };
    assert!(matches!(input::map(ev).unwrap(), Action::MoveWordRight));
}

#[test]
fn home_end_pageup_pagedown_map() {
    assert!(matches!(input::map(key(KeyCode::Home)).unwrap(), Action::MoveHome));
    assert!(matches!(input::map(key(KeyCode::End)).unwrap(), Action::MoveEnd));
    assert!(matches!(input::map(key(KeyCode::PageUp)).unwrap(), Action::PageUp));
    assert!(matches!(
        input::map(key(KeyCode::PageDown)).unwrap(),
        Action::PageDown
    ));
}

#[test]
fn backspace_and_delete_map_to_delete_prev_next() {
    assert!(matches!(
        input::map(key(KeyCode::Backspace)).unwrap(),
        Action::DeletePrev
    ));
    assert!(matches!(
        input::map(key(KeyCode::Delete)).unwrap(),
        Action::DeleteNext
    ));
}

#[test]
fn escape_maps_to_escape_action() {
    assert!(matches!(input::map(key(KeyCode::Esc)).unwrap(), Action::Escape));
}

#[test]
fn f12_maps_to_go_to_definition() {
    assert!(matches!(
        input::map(key(KeyCode::F(12))).unwrap(),
        Action::GoToDefinition
    ));
}

#[test]
fn ctrl_letter_bindings_route_to_their_actions() {
    let pairs: &[(char, Action)] = &[
        ('s', Action::Save),
        ('q', Action::Quit),
        ('g', Action::GoToDefinition),
        ('o', Action::GoBack),
        ('t', Action::ToggleTree),
        ('u', Action::PageUp),
        ('d', Action::PageDown),
        ('b', Action::MoveWordLeft),
        ('f', Action::MoveWordRight),
        ('a', Action::MoveHome),
        ('e', Action::MoveEnd),
        ('r', Action::ToggleGitDiff),
        ('n', Action::NewFile),
        ('w', Action::ToggleAutosave),
        ('l', Action::ToggleHistory),
        ('k', Action::ShowType),
        ('y', Action::Rename),
        ('p', Action::ToggleKeysHelp),
        ('x', Action::OpenFile),
    ];
    for (c, expected) in pairs {
        let got = input::map(ctrl(*c))
            .unwrap_or_else(|| panic!("Ctrl-{c} produced no action"));
        assert_eq!(
            format!("{got:?}"),
            format!("{expected:?}"),
            "Ctrl-{c} routed wrong"
        );
    }
}

#[test]
fn ctrl_close_bracket_also_goes_to_definition() {
    assert!(matches!(
        input::map(ctrl(']')).unwrap(),
        Action::GoToDefinition
    ));
}

#[test]
fn alt_hjkl_act_as_directional_keys() {
    assert!(matches!(input::map(alt('h')).unwrap(), Action::MoveLeft));
    assert!(matches!(input::map(alt('l')).unwrap(), Action::MoveRight));
    assert!(matches!(input::map(alt('k')).unwrap(), Action::MoveUp));
    assert!(matches!(input::map(alt('j')).unwrap(), Action::MoveDown));
}

#[test]
fn alt_b_f_jump_word() {
    assert!(matches!(input::map(alt('b')).unwrap(), Action::MoveWordLeft));
    assert!(matches!(input::map(alt('f')).unwrap(), Action::MoveWordRight));
}

#[test]
fn alt_t_opens_type_search() {
    assert!(matches!(input::map(alt('t')).unwrap(), Action::OpenTypeSearch));
}

#[test]
fn unknown_ctrl_letter_returns_none() {
    assert!(input::map(ctrl('z')).is_none());
    assert!(input::map(key(KeyCode::Other)).is_none());
}

#[test]
fn ctrl_v_toggles_the_mode() {
    assert!(matches!(input::map(ctrl('v')).unwrap(), Action::ToggleMode));
}

#[test]
fn alt_g_and_ctrl_shift_g_go_to_a_line() {
    assert!(matches!(input::map(alt('g')).unwrap(), Action::GoToLine));
    assert!(matches!(input::map(ctrl('G')).unwrap(), Action::GoToLine));
    assert!(matches!(input::map(ctrl('g')).unwrap(), Action::GoToDefinition));
}
