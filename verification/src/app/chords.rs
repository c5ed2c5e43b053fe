//! What two keys in a row do, what Escape leaves, and what prompts and dialogs begin with.

use vstd::prelude::*;

use crate::action::Action;
use crate::app;
use crate::app::flows::{dialogs_first, printable};
use crate::app::laws::{keys_reach_the_text, lemma_run_end_is, lemma_run_start_is, of_word};
use crate::app::prompts;
use crate::app::repository;
use crate::app::routing;
use crate::app::{
    AppModel,
    Env,
    ErrandModel,
    GitFileModel,
    GitModel,
    Mode,
    PromptKindModel,
    TypeSearchModel,
};
use crate::git::StatusEntry;
use crate::paths;
use crate::runtime::requests::RequestModel;
use crate::tree;
use crate::view;

verus! {

/// As before the first of two keys, with nothing said.
pub open spec fn unchorded(m: AppModel) -> AppModel {
    AppModel { chord: None, status: Seq::empty(), ..m }
}

/// The second of two keys does what the key for that action does alone; any other one ends
/// the pair, and nothing is done.
pub proof fn law_second_keys(m: AppModel, c: char, env: Env)
    requires
        m.chord is Some,
    ensures
        ({
            let r = routing::applied(m, Action::Insert(c), env);
            let n = unchorded(m);
            let definition = c == 'g' || c == 'G' || c == 'd' || c == 'D';
            let types = c == 't' || c == 'T';
            let texts = c == 'f' || c == 'F' || c == 's' || c == 'S';
            let line = c == 'l' || c == 'L' || c == 'v' || c == 'V';
            let back = c == 'b' || c == 'B';
            &&& definition ==> r == routing::applied(n, Action::GoToDefinition, env)
            &&& types ==> r == routing::applied(n, Action::OpenTypeSearch, env)
            &&& texts ==> r == routing::applied(n, Action::OpenTextSearch, env)
            &&& line ==> r == routing::applied(n, Action::GoToLine, env)
            &&& back ==> r == routing::applied(n, Action::GoBack, env)
            &&& !definition && !types && !texts && !line && !back ==> r == (
                n,
                None::<ErrandModel>,
            )
        }),
        routing::applied(m, Action::CtrlGPrefix, env) == routing::applied(
            unchorded(m),
            Action::GoToDefinition,
            env,
        ),
        routing::applied(m, Action::Escape, env) == (unchorded(m), None::<ErrandModel>),
{
}

/// Escape closes what is in front, one at a time; where nothing is, it clears what is said.
pub proof fn law_escape_closes_what_is_in_front(m: AppModel, env: Env)
    requires
        m.chord is None,
        m.prompt is None,
    ensures
        ({
            let (r, e) = routing::applied(m, Action::Escape, env);
            let n = AppModel { quit_pending: false, ..m };
            &&& e is None
            &&& m.keys_help ==> r == (AppModel { keys_help: false, ..n })
            &&& !m.keys_help && m.open_file is Some ==> r == (AppModel { open_file: None, ..n })
            &&& !m.keys_help && m.open_file is None && m.type_search is Some ==> r == (AppModel {
                type_search: None,
                ..n
            })
            &&& !m.keys_help && m.open_file is None && m.type_search is None && m.text_search
                is Some ==> r == (AppModel { text_search: None, ..n })
            &&& !m.keys_help && m.open_file is None && m.type_search is None && m.text_search
                is None && m.history is Some ==> r == (AppModel { history: None, ..n })
            &&& !m.keys_help && m.open_file is None && m.type_search is None && m.text_search
                is None && m.history is None && m.diff is Some ==> r == (AppModel {
                diff: None,
                ..n
            })
            &&& !m.keys_help && m.open_file is None && m.type_search is None && m.text_search
                is None && m.history is None && m.diff is None ==> {
                &&& m.tree.focused ==> r == (AppModel {
                    tree: tree::TreeModel { focused: false, ..m.tree },
                    ..n
                })
                &&& !m.tree.focused ==> r == (AppModel { status: Seq::empty(), ..n })
            }
        }),
{
}

/// The key for saving by itself turns that on and off, and says which.
pub proof fn law_saving_by_itself_key(m: AppModel, env: Env)
    requires
        m.chord is None,
        m.prompt is None,
    ensures
        ({
            let r = routing::applied(m, Action::ToggleAutosave, env).0;
            &&& r.autosave != m.autosave
            &&& r.autosave ==> r.status == "Autosave on"@
            &&& !r.autosave ==> r.status == "Autosave off"@
            &&& r.buffer == m.buffer && r.view == m.view
        }),
        ({
            let r = routing::applied(m, Action::ToggleKeysHelp, env).0;
            r.keys_help != m.keys_help && r.buffer == m.buffer && r.view == m.view
        }),
{
}

/// A rename begins with the whole word that the cursor is in or next to, for the place of
/// the cursor.
pub proof fn law_renames_begin_with_the_word(m: AppModel) -> (r: (int, int))
    requires
        m.language is Some,
        m.servers.contains(m.language->Some_0),
        0 <= view::cursor(m.view, m.buffer.text) <= m.buffer.text.len(),
    ensures
        ({
            let s = m.buffer.text;
            let at = view::cursor(m.view, s);
            let p = prompts::rename_prompt(m).prompt;
            &&& p is Some
            &&& p->Some_0.kind == (PromptKindModel::RenameSymbol {
                line: m.view.line as u32,
                character: m.view.col as u32,
            })
            &&& 0 <= r.0 <= at <= r.1 <= s.len()
            &&& p->Some_0.text == s.subrange(r.0, r.1)
            &&& forall|i: int| r.0 <= i < r.1 ==> of_word(#[trigger] s[i])
            &&& r.0 > 0 ==> !of_word(s[r.0 - 1])
            &&& r.1 < s.len() ==> !of_word(s[r.1])
        }),
{
    let s = m.buffer.text;
    let at = view::cursor(m.view, s);
    let p = |c: char| view::word_char(c);
    lemma_run_start_is(s, at, p);
    lemma_run_end_is(s, at, p);
    let a = view::run_start(s, at, p);
    let b = view::run_end(s, at, p);
    assert forall|i: int| a <= i < b implies of_word(#[trigger] s[i]) by {
        assert(p(s[i]));
    }
    (a, b)
}

/// A new file is made in the directory under the cursor of the tree, or in that of the file
/// under it; without the tree in front, in its root.
pub proof fn law_where_files_are_made(m: AppModel, dir: Seq<char>)
    requires
        m.prompt is None,
    ensures
        ({
            let p = prompts::new_file_prompt(m).prompt;
            let parent = p->Some_0.kind->parent;
            let there = m.tree.focused && 0 <= m.tree.cursor < m.tree.rows.len();
            let row = m.tree.rows[m.tree.cursor];
            &&& p is Some && p->Some_0.kind is NewFile && p->Some_0.text.len() == 0
            &&& !m.tree.focused ==> parent == m.tree.root
            &&& there && row.is_parent_link ==> parent == m.tree.root
            &&& there && !row.is_parent_link && row.is_dir ==> parent == row.path
            &&& there && !row.is_parent_link && !row.is_dir && paths::parent(row.path) == Some(dir)
                ==> parent == dir
        }),
{
}

/// What is typed in the dialog for types is asked of the server once there are two
/// characters.
pub proof fn law_typing_a_type(m: AppModel, v: TypeSearchModel, c: char, env: Env)
    requires
        dialogs_first(m),
        m.open_file is None,
        m.type_search == Some(v),
        m.language is Some,
        m.servers.contains(m.language->Some_0),
        printable(c),
    ensures
        ({
            let (r, e) = routing::applied(m, Action::Insert(c), env);
            let w = r.type_search->Some_0;
            &&& r.buffer == m.buffer
            &&& r.type_search is Some && w.query == v.query.push(c)
            &&& v.query.len() == 0 ==> e is None && w.results.len() == 0 && w.status
                == "Type at least 2 characters"@
            &&& v.query.len() > 0 ==> e == Some(
                ErrandModel::Ask(
                    RequestModel::WorkspaceSymbol {
                        language: m.language->Some_0,
                        query: v.query.push(c),
                    },
                ),
            )
        }),
{
    assert(v.query.push(c).len() != v.query.len());
    assert(c != '\n');
}

proof fn lemma_no_place(fs: Seq<GitFileModel>, path: Seq<char>, i: int)
    requires
        0 <= i,
        forall|k: int| i <= k < fs.len() ==> !paths::same_path((#[trigger] fs[k]).path, path),
    ensures
        repository::file_place(fs, path, i) is None,
    decreases fs.len() - i,
{
    if i < fs.len() {
        assert(!paths::same_path(fs[i].path, path));
        lemma_no_place(fs, path, i + 1);
    }
}

/// Where the file under the cursor is no longer changed, the cursor goes to the last one.
pub proof fn law_files_that_are_gone(
    m: AppModel,
    v: GitModel,
    ss: Vec<StatusEntry>,
    gutter: bool,
)
    requires
        m.diff == Some(v),
        0 <= v.cursor < v.files.len(),
        ss@.len() > 0,
        ({
            let fs = repository::files_of(ss@);
            forall|k: int|
                0 <= k < fs.len() ==> paths::components((#[trigger] fs[k]).path)
                    != paths::components(v.files[v.cursor].path)
        }),
    ensures
        ({
            let r = repository::changes_again(m, Ok(ss), gutter).0;
            r.diff is Some && r.diff->Some_0.cursor == repository::files_of(ss@).len() - 1
        }),
{
    lemma_no_place(repository::files_of(ss@), v.files[v.cursor].path, 0);
}

/// Where the lines on the screen begin after a key, from the line of the cursor and where
/// they would begin without.
#[verifier::opaque]
spec fn shown_from(m: AppModel, a: Action, env: Env, top: int) -> bool {
    let r = routing::applied(m, a, env).0;
    let room = if env.rows > 1 {
        env.rows - 1
    } else {
        1
    };
    r.view.top == (if r.view.line < top {
        r.view.line
    } else if r.view.line >= top + room {
        r.view.line + 1 - room
    } else {
        top
    })
}

proof fn lemma_edits_settle(m: AppModel, a: Action, env: Env)
    requires
        keys_reach_the_text(m),
        m.mode == Mode::Edit,
        app::edits(a),
    ensures
        shown_from(m, a, env, m.view.top),
{
    reveal(shown_from);
    let e = app::edited(AppModel { quit_pending: false, ..m }, a, env);
    assert(e.view.top == m.view.top);
    assert(routing::applied(m, a, env).0 == app::settled(e, env));
}

spec fn moving(a: Action) -> bool {
    a is MoveLeft || a is MoveRight || a is MoveUp || a is MoveDown || a is MoveHome || a is MoveEnd
        || a is MoveWordLeft || a is MoveWordRight || a is PageUp || a is PageDown
}

proof fn lemma_moves_settle(m: AppModel, a: Action, env: Env) -> (top: int)
    requires
        keys_reach_the_text(m),
        moving(a),
    ensures
        shown_from(m, a, env, top),
        !(a is PageUp) && !(a is PageDown) ==> top == m.view.top,
{
    reveal(shown_from);
    let n = AppModel { quit_pending: false, ..m };
    let v = app::moved(n.view, n.buffer.text, a, env.rows);
    assert(!(a is PageUp) && !(a is PageDown) ==> v.top == m.view.top);
    assert(routing::applied(m, a, env).0 == app::settled(AppModel { view: v, ..n }, env));
    v.top
}

/// The cursor stays on the screen: after a key that moves it or edits the text its line is
/// among those that there is room for, and but for paging the lines that are shown change no
/// more than that takes. The last row of the screen is not for the text.
pub proof fn law_cursor_stays_on_the_screen(m: AppModel, a: Action, env: Env)
    requires
        keys_reach_the_text(m),
        m.mode == Mode::Edit,
        a is Insert || a is DeletePrev || a is DeleteNext || a is ClearLine || a is MoveLeft || a
            is MoveRight || a is MoveUp || a is MoveDown || a is MoveHome || a is MoveEnd || a
            is MoveWordLeft || a is MoveWordRight || a is PageUp || a is PageDown,
    ensures
        ({
            let r = routing::applied(m, a, env).0;
            let room = if env.rows > 1 {
                env.rows - 1
            } else {
                1
            };
            &&& r.view.top <= r.view.line < r.view.top + room
            &&& !(a is PageUp) && !(a is PageDown) ==> {
                &&& m.view.top <= r.view.line < m.view.top + room ==> r.view.top == m.view.top
                &&& r.view.line < m.view.top ==> r.view.top == r.view.line
                &&& r.view.line >= m.view.top + room ==> r.view.top == r.view.line + 1 - room
            }
        }),
{
    if app::edits(a) {
        lemma_edits_settle(m, a, env);
    } else {
        let top = lemma_moves_settle(m, a, env);
    }
    reveal(shown_from);
}

/// A server is told of each edit under a version of its own.
pub proof fn law_edits_are_numbered(m: AppModel, c: char, env: Env)
    requires
        keys_reach_the_text(m),
        m.mode == Mode::Edit,
        m.language is Some,
        m.uri is Some,
        m.buffer.version < u64::MAX,
    ensures
        ({
            let r = routing::applied(m, Action::Insert(c), env).0;
            r.lsp_version == m.lsp_version + 1 || r.buffer.version == m.buffer.version
        }),
{
}

} // verus!
