//! Which part of the editor a key goes to.

use vstd::prelude::*;

use crate::action::Action;
use crate::app;
use crate::app::dialogs;
use crate::app::navigation;
use crate::app::prompts;
use crate::app::repository;
use crate::app::{App, AppModel, Chord, Env, Errand, ErrandModel, Mode};
use crate::buffer;
use crate::rope;
use crate::tree;
use crate::text::owned;
use crate::tx;
use crate::view;

use vstd::view::View as _;

verus! {

/// Escape closes the topmost overlay, or else clears the status.
pub open spec fn escaped(m: AppModel) -> AppModel {
    if m.keys_help {
        AppModel { keys_help: false, ..m }
    } else if m.open_file is Some {
        AppModel { open_file: None, ..m }
    } else if m.type_search is Some {
        AppModel { type_search: None, ..m }
    } else if m.text_search is Some {
        AppModel { text_search: None, ..m }
    } else if m.history is Some {
        AppModel { history: None, ..m }
    } else if m.diff is Some {
        AppModel { diff: None, ..m }
    } else if m.tree.focused {
        AppModel { tree: tree::TreeModel { focused: false, ..m.tree }, ..m }
    } else {
        AppModel { status: Seq::empty(), quit_pending: false, ..m }
    }
}

/// The key that follows Ctrl-G picks where to go; any other cancels.
pub open spec fn chord_action(a: Action) -> Option<Action> {
    match a {
        Action::CtrlGPrefix => Some(Action::GoToDefinition),
        Action::Insert(c) => if c == 'g' || c == 'G' || c == 'd' || c == 'D' {
            Some(Action::GoToDefinition)
        } else if c == 't' || c == 'T' {
            Some(Action::OpenTypeSearch)
        } else if c == 'f' || c == 'F' || c == 's' || c == 'S' {
            Some(Action::OpenTextSearch)
        } else if c == 'l' || c == 'L' || c == 'v' || c == 'V' {
            Some(Action::GoToLine)
        } else if c == 'b' || c == 'B' {
            Some(Action::GoBack)
        } else {
            None
        },
        _ => None,
    }
}

/// A second key is waited for.
pub open spec fn chord_started(m: AppModel, status: Seq<char>) -> AppModel {
    AppModel { chord: Some(Chord::CtrlG), status, ..m }
}

/// The mode is changed.
pub open spec fn mode_toggled(m: AppModel) -> AppModel {
    match m.mode {
        Mode::View => AppModel { mode: Mode::Edit, status: "Edit mode"@, ..m },
        Mode::Edit => AppModel { mode: Mode::View, status: "View mode"@, ..m },
    }
}

pub open spec fn autosave_toggled(m: AppModel) -> AppModel {
    AppModel {
        autosave: !m.autosave,
        status: if m.autosave {
            "Autosave off"@
        } else {
            "Autosave on"@
        },
        ..m
    }
}

/// Where a key that is bound to no overlay of its own goes: to the topmost overlay
/// that is open, to the tree, or to the buffer.
pub open spec fn passed_down(m: AppModel, a: Action, env: Env) -> (AppModel, Option<ErrandModel>) {
    if m.keys_help {
        (m, None)
    } else if m.open_file is Some {
        dialogs::file_dialog_key(m, a)
    } else if m.type_search is Some {
        dialogs::type_dialog_key(m, a)
    } else if m.text_search is Some {
        dialogs::text_dialog_key(m, a)
    } else if m.history is Some {
        repository::history_key(m, a, env.rows)
    } else if m.diff is Some {
        repository::changes_key(m, a, env.rows)
    } else if m.tree.focused {
        navigation::tree_key(m, a)
    } else {
        app::acted(m, a, env)
    }
}

/// What a key does while no other is pending. A prompt takes every key; saving and
/// leaving get past any overlay.
pub open spec fn routed(before: AppModel, a: Action, env: Env) -> (AppModel, Option<ErrandModel>) {
    let m = if a is Quit {
        before
    } else {
        AppModel { quit_pending: false, ..before }
    };
    if m.prompt is Some {
        prompts::prompt_key(m, a)
    } else {
        match a {
            Action::ToggleTree => navigation::tree_toggled(m),
            Action::ToggleGitDiff => repository::changes_toggled(m),
            Action::ToggleHistory => repository::history_toggled(m),
            Action::ToggleKeysHelp => (AppModel { keys_help: !m.keys_help, ..m }, None),
            Action::OpenFile => (m, dialogs::file_dialog_wanted(m)),
            Action::OpenTypeSearch => (dialogs::type_dialog(m, env), None),
            Action::OpenTextSearch => (dialogs::text_dialog(m), None),
            Action::NewFile => (prompts::new_file_prompt(m), None),
            Action::GoToLine => (prompts::line_prompt(m), None),
            Action::CtrlGPrefix => (
                chord_started(
                    m,
                    "Ctrl-G: g/d=def · t=type · f=find · l/v=line · b=back · Esc cancels"@,
                ),
                None,
            ),
            Action::ToggleAutosave => (autosave_toggled(m), None),
            Action::ToggleMode => (mode_toggled(m), None),
            Action::Escape => (escaped(m), None),
            Action::Save => app::acted(m, a, env),
            Action::Quit => app::acted(m, a, env),
            _ => passed_down(m, a, env),
        }
    }
}

/// What a key does.
pub open spec fn applied(m: AppModel, a: Action, env: Env) -> (AppModel, Option<ErrandModel>) {
    match m.chord {
        None => routed(m, a, env),
        Some(_) => {
            let cleared = AppModel { chord: None, status: Seq::empty(), ..m };
            match chord_action(a) {
                Some(b) => routed(cleared, b, env),
                None => (cleared, None),
            }
        },
    }
}

/// Nothing stands between the keys and the buffer.
pub open spec fn buffer_has_keys(m: AppModel) -> bool {
    &&& m.chord is None
    &&& m.prompt is None
    &&& !m.keys_help
    &&& m.open_file is None
    &&& m.type_search is None
    &&& m.text_search is None
    &&& m.history is None
    &&& m.diff is None
    &&& !m.tree.focused
    &&& m.mode == Mode::Edit
}

/// A character that is typed into the buffer leaves the cursor on a line that is
/// there.
pub open spec fn key_fits(m: AppModel, a: Action) -> bool {
    buffer_has_keys(m) ==> (a matches Action::Insert(c) ==> view::typing_fits(
        m.view,
        m.buffer.text,
        c,
    ))
}

// ---------------------------------------------------------------------- lemmas

proof fn lemma_dialogs_within(m: AppModel, a: Action)
    requires
        app::ready(m),
    ensures
        ({
            let r = dialogs::type_dialog_key(m, a).0;
            view::within(r.view, r.buffer.text)
        }),
        ({
            let r = dialogs::text_dialog_key(m, a).0;
            view::within(r.view, r.buffer.text)
        }),
{
    match m.type_search {
        Some(v) => {
            if v.cursor < v.results.len() {
                let h = v.results[v.cursor];
                view::law_movement_stays_within(
                    m.view,
                    m.buffer.text,
                    0,
                    h.line as int,
                    h.character as int,
                );
            }
        },
        None => {},
    }
    match m.text_search {
        Some(v) => {
            if v.cursor < v.results.len() {
                let h = v.results[v.cursor];
                view::law_movement_stays_within(
                    m.view,
                    m.buffer.text,
                    0,
                    h.line as int,
                    h.col as int,
                );
            }
        },
        None => {},
    }
}

proof fn lemma_prompt_ready(m: AppModel, a: Action)
    requires
        app::ready(m),
    ensures
        app::ready(prompts::prompt_key(m, a).0),
{
    match m.prompt {
        Some(p) => {
            if a != Action::Escape && a == Action::Insert('\n') {
                let closed = AppModel { prompt: None, ..m };
                assert(app::ready(closed));
                match p.kind {
                    app::PromptKindModel::GoToLine => {
                        lemma_to_line_ready(closed, p.text);
                    },
                    _ => {},
                }
            }
        },
        None => {},
    }
}

proof fn lemma_to_line_ready(m: AppModel, typed: Seq<char>)
    requires
        app::ready(m),
    ensures
        app::ready(prompts::to_line(m, typed)),
{
    let t = crate::scan::trim(typed);
    match crate::scan::parse_number(t, usize::MAX as nat) {
        Some(n) => {
            if n > 0 {
                let target = view::min(n - 1, crate::rope::line_count(m.buffer.text) - 1);
                view::law_movement_stays_within(m.view, m.buffer.text, 0, target, 0);
            }
        },
        None => {},
    }
}

// ------------------------------------------------------------------------ keys

impl App {
    fn escape(&mut self)
        requires
            app::ready(old(self)@),
        ensures
            app::ready(final(self)@),
            final(self)@ == escaped(old(self)@),
    {
        if self.keys_help {
            self.keys_help = false;
        } else if self.open_file.is_some() {
            self.open_file = None;
        } else if self.type_search.is_some() {
            self.type_search = None;
        } else if self.text_search.is_some() {
            self.text_search = None;
        } else if self.history.is_some() {
            self.history = None;
        } else if self.diff.is_some() {
            self.diff = None;
        } else if self.tree.focused {
            self.tree.focused = false;
        } else {
            self.status = String::new();
            assert(self.status@ =~= Seq::<char>::empty());
            self.quit_pending = false;
        }
    }

    fn toggle_mode(&mut self)
        requires
            app::ready(old(self)@),
        ensures
            app::ready(final(self)@),
            final(self)@ == mode_toggled(old(self)@),
    {
        match self.mode {
            Mode::View => {
                self.mode = Mode::Edit;
                self.status = owned("Edit mode");
            },
            Mode::Edit => {
                self.mode = Mode::View;
                self.status = owned("View mode");
            },
        }
    }

    fn pass_down(&mut self, a: Action, env: Env) -> (r: Option<Errand>)
        requires
            app::ready(old(self)@),
            app::countable(old(self)@),
            old(self)@.chord is None,
            old(self)@.prompt is None,
            key_fits(old(self)@, a),
        ensures
            app::ready(final(self)@),
            (final(self)@, app::errand_view(r)) == passed_down(old(self)@, a, env),
    {
        let ghost m = self@;
        if self.keys_help {
            None
        } else if self.open_file.is_some() {
            self.drive_open_file(a)
        } else if self.type_search.is_some() {
            proof {
                lemma_dialogs_within(m, a);
            }
            self.drive_type_search(a)
        } else if self.text_search.is_some() {
            proof {
                lemma_dialogs_within(m, a);
            }
            self.drive_text_search(a)
        } else if self.history.is_some() {
            self.drive_history(a, env.rows)
        } else if self.diff.is_some() {
            self.drive_diff(a, env.rows)
        } else if self.tree.focused {
            self.drive_tree(a)
        } else {
            self.act_ready(a, env)
        }
    }

    fn route(&mut self, a: Action, env: Env) -> (r: Option<Errand>)
        requires
            app::ready(old(self)@),
            app::countable(old(self)@),
            old(self)@.chord is None,
            key_fits(old(self)@, a),
        ensures
            app::ready(final(self)@),
            (final(self)@, app::errand_view(r)) == routed(old(self)@, a, env),
    {
        if a != Action::Quit {
            self.quit_pending = false;
        }
        let ghost m = self@;
        assert(app::ready(m));
        if self.prompt.is_some() {
            proof {
                lemma_prompt_ready(m, a);
            }
            return self.drive_prompt(a);
        }
        match a {
            Action::ToggleTree => self.toggle_tree(),
            Action::ToggleGitDiff => self.toggle_git_diff(),
            Action::ToggleHistory => self.toggle_history(),
            Action::ToggleKeysHelp => {
                self.keys_help = !self.keys_help;
                None
            },
            Action::OpenFile => self.start_open_file_dialog(),
            Action::OpenTypeSearch => {
                self.start_type_search_dialog(env);
                None
            },
            Action::OpenTextSearch => {
                self.start_text_search_dialog();
                None
            },
            Action::NewFile => {
                self.start_new_file_prompt();
                None
            },
            Action::GoToLine => {
                self.start_goto_line_prompt();
                None
            },
            Action::CtrlGPrefix => {
                self.chord = Some(Chord::CtrlG);
                self.status = owned(
                    "Ctrl-G: g/d=def · t=type · f=find · l/v=line · b=back · Esc cancels",
                );
                None
            },
            Action::ToggleAutosave => {
                self.status = owned(
                    if self.autosave {
                        "Autosave off"
                    } else {
                        "Autosave on"
                    },
                );
                self.autosave = !self.autosave;
                None
            },
            Action::ToggleMode => {
                self.toggle_mode();
                None
            },
            Action::Escape => {
                self.escape();
                None
            },
            Action::Save => self.act_ready(a, env),
            Action::Quit => self.act_ready(a, env),
            _ => self.pass_down(a, env),
        }
    }

    fn chord_choice(a: Action) -> (r: Option<Action>)
        ensures
            r == chord_action(a),
    {
        match a {
            Action::CtrlGPrefix => Some(Action::GoToDefinition),
            Action::Insert(c) => if c == 'g' || c == 'G' || c == 'd' || c == 'D' {
                Some(Action::GoToDefinition)
            } else if c == 't' || c == 'T' {
                Some(Action::OpenTypeSearch)
            } else if c == 'f' || c == 'F' || c == 's' || c == 'S' {
                Some(Action::OpenTextSearch)
            } else if c == 'l' || c == 'L' || c == 'v' || c == 'V' {
                Some(Action::GoToLine)
            } else if c == 'b' || c == 'B' {
                Some(Action::GoBack)
            } else {
                None
            },
            _ => None,
        }
    }

    fn resolve_chord(&mut self, a: Action, env: Env) -> (r: Option<Errand>)
        requires
            app::ready(old(self)@),
            app::countable(old(self)@),
            old(self)@.chord is Some,
        ensures
            app::ready(final(self)@),
            (final(self)@, app::errand_view(r)) == applied(old(self)@, a, env),
    {
        self.chord = None;
        self.status = String::new();
        assert(self.status@ =~= Seq::<char>::empty());
        match Self::chord_choice(a) {
            Some(b) => self.route(b, env),
            None => None,
        }
    }

    fn has_keys(&self) -> (r: bool)
        ensures
            r == buffer_has_keys(self@),
    {
        self.chord.is_none() && self.prompt.is_none() && !self.keys_help && self.open_file.is_none()
            && self.type_search.is_none() && self.text_search.is_none() && self.history.is_none()
            && self.diff.is_none() && !self.tree.focused && self.mode == Mode::Edit
    }

    /// Whether the counters can go up once more.
    pub fn can_count(&self) -> (r: bool)
        ensures
            r == app::countable(self@),
    {
        self.tx_manager.has_room(1) && self.lsp_version < i32::MAX
    }

    /// Whether a key can be worked on.
    pub fn can_apply(&self, a: Action) -> (r: bool)
        requires
            app::ready(self@),
        ensures
            r == (app::countable(self@) && key_fits(self@, a)),
    {
        if !self.can_count() {
            return false;
        }
        match a {
            Action::Insert(c) => if c == '\n' && self.has_keys() {
                let at = self.view.char_idx(&self.buffer);
                let mut typed = self.buffer.rope().clone();
                typed.insert_char(at, c);
                proof {
                    let s = self@.buffer.text;
                    assert(rope::rope_chars(typed) =~= buffer::inserted(s, at as int, seq![c]));
                }
                self.view.cursor_line() < typed.len_lines() - 1
            } else {
                true
            },
            _ => true,
        }
    }

    /// Does what a key asks for, and says which errand is to be run. What is
    /// committed is recorded with the moment that the clock shows.
    pub fn apply(&mut self, a: Action, env: Env) -> (r: Option<Errand>)
        requires
            app::ready(old(self)@),
            app::countable(old(self)@),
            key_fits(old(self)@, a),
        ensures
            app::ready(final(self)@),
            exists|at: tx::Moment|
                tx::proper(at) && (final(self)@, app::errand_view(r)) == applied(
                    #[trigger] app::clocked(old(self)@, at),
                    a,
                    env,
                ),
    {
        self.tx_manager.tick();
        assert(self@ == app::clocked(old(self)@, self@.tx.now));
        self.apply_now(a, env)
    }

    fn apply_now(&mut self, a: Action, env: Env) -> (r: Option<Errand>)
        requires
            app::ready(old(self)@),
            app::countable(old(self)@),
            key_fits(old(self)@, a),
        ensures
            app::ready(final(self)@),
            (final(self)@, app::errand_view(r)) == applied(old(self)@, a, env),
    {
        if self.chord.is_some() {
            self.resolve_chord(a, env)
        } else {
            self.route(a, env)
        }
    }
}

// ------------------------------------------------------------------------- laws

/// The text and its history are as they were.
#[verifier::opaque]
pub open spec fn text_kept(m: AppModel, r: AppModel) -> bool {
    &&& r.buffer.text == m.buffer.text
    &&& r.buffer.version == m.buffer.version
    &&& r.buffer.dirty == m.buffer.dirty
    &&& r.tx == m.tx
}

/// The editor runs on, and no try to leave it was made or taken back.
#[verifier::opaque]
pub open spec fn staying(m: AppModel, r: AppModel) -> bool {
    &&& r.running == m.running
    &&& r.quit_pending == m.quit_pending
}

proof fn lemma_prompt_keeps(m: AppModel, a: Action)
    ensures
        text_kept(m, prompts::prompt_key(m, a).0),
        staying(m, prompts::prompt_key(m, a).0),
{
    reveal(text_kept);
    reveal(staying);
}

proof fn lemma_dialogs_keep(m: AppModel, a: Action)
    ensures
        text_kept(m, dialogs::file_dialog_key(m, a).0),
        staying(m, dialogs::file_dialog_key(m, a).0),
        text_kept(m, dialogs::type_dialog_key(m, a).0),
        staying(m, dialogs::type_dialog_key(m, a).0),
        text_kept(m, dialogs::text_dialog_key(m, a).0),
        staying(m, dialogs::text_dialog_key(m, a).0),
{
    reveal(text_kept);
    reveal(staying);
}

proof fn lemma_panes_keep(m: AppModel, a: Action, rows: u16)
    ensures
        text_kept(m, repository::history_key(m, a, rows).0),
        staying(m, repository::history_key(m, a, rows).0),
        text_kept(m, repository::changes_key(m, a, rows).0),
        staying(m, repository::changes_key(m, a, rows).0),
        text_kept(m, navigation::tree_key(m, a).0),
        staying(m, navigation::tree_key(m, a).0),
{
    reveal(text_kept);
    reveal(staying);
}

proof fn lemma_toggles_keep(m: AppModel, env: Env)
    ensures
        text_kept(m, navigation::tree_toggled(m).0),
        staying(m, navigation::tree_toggled(m).0),
        text_kept(m, repository::changes_toggled(m).0),
        staying(m, repository::changes_toggled(m).0),
        text_kept(m, repository::history_toggled(m).0),
        staying(m, repository::history_toggled(m).0),
        text_kept(m, dialogs::type_dialog(m, env)),
        staying(m, dialogs::type_dialog(m, env)),
        text_kept(m, dialogs::text_dialog(m)),
        staying(m, dialogs::text_dialog(m)),
        text_kept(m, prompts::new_file_prompt(m)),
        staying(m, prompts::new_file_prompt(m)),
        text_kept(m, prompts::line_prompt(m)),
        staying(m, prompts::line_prompt(m)),
        text_kept(m, prompts::rename_prompt(m)),
        staying(m, prompts::rename_prompt(m)),
{
    reveal(text_kept);
    reveal(staying);
}

proof fn lemma_settled_keeps(m: AppModel, env: Env)
    ensures
        text_kept(m, app::settled(m, env)),
        staying(m, app::settled(m, env)),
{
    reveal(text_kept);
    reveal(staying);
}

proof fn lemma_kept_chain(a: AppModel, b: AppModel, c: AppModel)
    requires
        text_kept(b, c),
        staying(b, c),
    ensures
        text_kept(a, b) ==> text_kept(a, c),
        staying(a, b) ==> staying(a, c),
{
    reveal(text_kept);
    reveal(staying);
}

proof fn lemma_wants_keep(m: AppModel, a: Action, env: Env)
    ensures
        text_kept(m, app::save_wanted(m).0),
        staying(m, app::save_wanted(m).0),
        text_kept(m, app::quit_wanted(m)),
        text_kept(m, navigation::definition_wanted(m).0),
        staying(m, navigation::definition_wanted(m).0),
        text_kept(m, navigation::back_wanted(m).0),
        staying(m, navigation::back_wanted(m).0),
        text_kept(m, navigation::type_wanted(m).0),
        staying(m, navigation::type_wanted(m).0),
        staying(m, app::edited(m, a, env)),
{
    reveal(text_kept);
    reveal(staying);
}

proof fn lemma_plain_keeps(m: AppModel)
    ensures
        forall|v: view::ViewModel| #[trigger] text_kept(m, (AppModel { view: v, ..m })),
        forall|v: view::ViewModel| #[trigger] staying(m, (AppModel { view: v, ..m })),
        forall|s: Seq<char>|
            text_kept(m, #[trigger] app::said(m, s)) && staying(m, app::said(m, s)),
{
    reveal(text_kept);
    reveal(staying);
}

/// The buffer changes only where an edit is asked for in edit mode.
proof fn lemma_acted_keeps(m: AppModel, a: Action, env: Env)
    ensures
        m.mode == Mode::View || !app::edits(a) ==> text_kept(m, app::acted(m, a, env).0),
        !(a is Quit) ==> staying(m, app::acted(m, a, env).0),
{
    lemma_plain_keeps(m);
    lemma_wants_keep(m, a, env);
    lemma_toggles_keep(m, env);
    if m.mode == Mode::View && (app::edits(a) || a is Rename) {
    } else {
        let inner = if app::edits(a) {
            app::edited(m, a, env)
        } else {
            match a {
                Action::Save => app::save_wanted(m).0,
                Action::Quit => app::quit_wanted(m),
                Action::GoToDefinition => navigation::definition_wanted(m).0,
                Action::GoBack => navigation::back_wanted(m).0,
                Action::ShowType => navigation::type_wanted(m).0,
                Action::Rename => prompts::rename_prompt(m),
                _ => AppModel { view: app::moved(m.view, m.buffer.text, a, env.rows), ..m },
            }
        };
        lemma_settled_keeps(inner, env);
        lemma_kept_chain(m, inner, app::settled(inner, env));
    }
}

proof fn lemma_passed_down_keeps(m: AppModel, a: Action, env: Env)
    ensures
        m.mode == Mode::View || !app::edits(a) ==> text_kept(m, passed_down(m, a, env).0),
        !(a is Quit) ==> staying(m, passed_down(m, a, env).0),
{
    reveal(text_kept);
    reveal(staying);
    lemma_dialogs_keep(m, a);
    lemma_panes_keep(m, a, env.rows);
    lemma_acted_keeps(m, a, env);
}

proof fn lemma_routed_keeps(before: AppModel, a: Action, env: Env)
    ensures
        before.mode == Mode::View || !app::edits(a) ==> text_kept(before, routed(before, a, env).0),
        !(a is Quit) ==> !routed(before, a, env).0.quit_pending,
        !(a is Quit) ==> routed(before, a, env).0.running == before.running,
{
    let m = if a is Quit {
        before
    } else {
        AppModel { quit_pending: false, ..before }
    };
    let r = routed(before, a, env).0;
    assert((m.mode == Mode::View || !app::edits(a) ==> text_kept(m, r)) && (!(a is Quit)
        ==> staying(m, r))) by {
        if m.prompt is Some {
            lemma_prompt_keeps(m, a);
        } else {
            lemma_toggles_keep(m, env);
            lemma_passed_down_keeps(m, a, env);
            lemma_acted_keeps(m, a, env);
            lemma_small_keep(m);
        }
    }
    reveal(text_kept);
    reveal(staying);
}

proof fn lemma_small_keep(m: AppModel)
    ensures
        text_kept(m, escaped(m)),
        !m.quit_pending ==> staying(m, escaped(m)),
        text_kept(m, mode_toggled(m)),
        staying(m, mode_toggled(m)),
        text_kept(m, autosave_toggled(m)),
        staying(m, autosave_toggled(m)),
        text_kept(m, m),
        staying(m, m),
        text_kept(m, (AppModel { keys_help: !m.keys_help, ..m })),
        staying(m, (AppModel { keys_help: !m.keys_help, ..m })),
        forall|s: Seq<char>|
            text_kept(m, #[trigger] chord_started(m, s)) && staying(m, chord_started(m, s)),
{
    reveal(text_kept);
    reveal(staying);
}

/// In view mode no key changes the text or its history.
pub proof fn law_view_mode_keeps_buffer(m: AppModel, a: Action, env: Env)
    requires
        m.mode == Mode::View,
    ensures
        text_kept(m, applied(m, a, env).0),
{
    let cleared = AppModel { chord: None, status: Seq::empty(), ..m };
    lemma_routed_keeps(m, a, env);
    assert(text_kept(m, cleared)) by {
        reveal(text_kept);
    }
    match chord_action(a) {
        Some(b) => {
            lemma_routed_keeps(cleared, b, env);
            let r = routed(cleared, b, env).0;
            assert(text_kept(m, r)) by {
                reveal(text_kept);
            }
        },
        None => {},
    }
}

/// Changing the mode twice brings the mode back, and changes nothing but the
/// status and a pending leave.
pub proof fn law_mode_toggles_back(m: AppModel, env: Env)
    requires
        m.chord is None,
        m.prompt is None,
    ensures
        ({
            let once = applied(m, Action::ToggleMode, env).0;
            let twice = applied(once, Action::ToggleMode, env).0;
            &&& once.mode != m.mode
            &&& twice == (AppModel { status: twice.status, quit_pending: false, ..m })
        }),
{
}

/// While a key is pending the next one never reaches the buffer as typed text.
pub proof fn law_chord_types_nothing(m: AppModel, a: Action, env: Env)
    requires
        m.chord is Some,
    ensures
        text_kept(m, applied(m, a, env).0),
{
    let cleared = AppModel { chord: None, status: Seq::empty(), ..m };
    assert(text_kept(m, cleared)) by {
        reveal(text_kept);
    }
    match chord_action(a) {
        Some(b) => {
            lemma_routed_keeps(cleared, b, env);
            let r = routed(cleared, b, env).0;
            assert(text_kept(m, r)) by {
                reveal(text_kept);
            }
        },
        None => {},
    }
}

/// The editor is not left on the first try while there are unsaved changes; any
/// other key leaves it running and takes a try back.
pub proof fn law_unsaved_changes_hold(m: AppModel, a: Action, env: Env)
    requires
        m.chord is None,
        m.prompt is None,
        m.running,
        m.buffer.dirty,
    ensures
        !m.quit_pending ==> applied(m, Action::Quit, env).0.running,
        !(a is Quit) ==> !applied(m, a, env).0.quit_pending,
        !(a is Quit) ==> applied(m, a, env).0.running,
{
    lemma_routed_keeps(m, a, env);
    assert(!m.quit_pending ==> applied(m, Action::Quit, env).0.running) by {
        lemma_settled_keeps(app::quit_wanted(m), env);
        reveal(staying);
    }
}

/// Nobody is locked in: whatever overlay is open, with nothing unsaved the editor is
/// left at once, and with unsaved changes on the second try in a row; and the buffer
/// can be saved.
pub proof fn law_overlays_lock_nobody_in(m: AppModel, env: Env)
    requires
        m.chord is None,
        m.prompt is None,
    ensures
        !m.buffer.dirty ==> !applied(m, Action::Quit, env).0.running,
        !applied(applied(m, Action::Quit, env).0, Action::Quit, env).0.running,
        applied(m, Action::Save, env).1 == app::acted(
            AppModel { quit_pending: false, ..m },
            Action::Save,
            env,
        ).1,
{
    let once = applied(m, Action::Quit, env).0;
    assert(once == app::settled(app::quit_wanted(m), env));
    lemma_settled_keeps(app::quit_wanted(m), env);
    lemma_settled_keeps(app::quit_wanted(once), env);
    reveal(staying);
    reveal(text_kept);
}

} // verus!
