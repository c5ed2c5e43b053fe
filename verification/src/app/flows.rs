//! What the keys do in the dialogs, the prompts and the panes, and where a jump leads.

use vstd::prelude::*;

use crate::action::Action;
use crate::app;
use crate::app::dialogs;
use crate::app::navigation;
use crate::app::prompts;
use crate::app::routing;
use crate::app::{
    AppModel,
    Env,
    ErrandModel,
    Jump,
    Mode,
    NavModel,
    OpenFileModel,
    OpenedFile,
    PromptKindModel,
    PromptModel,
    TextSearchModel,
    TypeHitModel,
};
use crate::buffer;
use crate::lsp::{Location, SymbolInformation, TextEdit, WorkspaceEdit};
use crate::order;
use crate::paths;
use crate::rope;
use crate::runtime::rename;
use crate::runtime::requests;
use crate::scan;
use crate::search;
use crate::tree;
use crate::view;

verus! {

/// No pending key, no prompt and no help is before the dialogs.
pub open spec fn dialogs_first(m: AppModel) -> bool {
    m.chord is None && m.prompt is None && !m.keys_help
}

/// A character that is not a control character.
pub open spec fn printable(c: char) -> bool {
    !((c as u32) < 0x20 || 0x7f <= (c as u32) <= 0x9f)
}

/// The cursor is at a line and a column of a text, or as near as there are such.
pub open spec fn lands(v: view::ViewModel, s: Seq<char>, line: int, col: int) -> bool {
    let last = rope::line_count(s) - 1;
    let l = if line <= last {
        line
    } else {
        last
    };
    let len = rope::line_end(s, l) - rope::line_start(s, l);
    &&& v.line == l
    &&& v.col == (if col <= len {
        col
    } else {
        len
    })
}

proof fn lemma_lands(v: view::ViewModel, s: Seq<char>, line: int, col: int)
    requires
        0 <= line,
    ensures
        lands(view::gone_to(v, s, line, col), s, line, col),
{
    let last = rope::line_count(s) - 1;
    rope::lemma_line_end(
        s,
        if line <= last {
            line
        } else {
            last
        },
    );
}

/// A file is to be opened, and the place where the cursor is can be gone back to. With
/// unsaved changes the file is not opened.
pub open spec fn goes_to_file(
    m: AppModel,
    r: (AppModel, Option<ErrandModel>),
    path: Seq<char>,
    jump: Jump,
) -> bool {
    &&& r.0.buffer == m.buffer
    &&& m.buffer.dirty ==> {
        &&& r.1 is None
        &&& r.0.nav == m.nav
        &&& r.0.status == "Save first — current buffer has unsaved changes"@
    }
    &&& !m.buffer.dirty ==> {
        &&& r.1 matches Some(e) && e is Open && e->Open_path == path && e->jump == jump
        &&& m.buffer.path matches Some(p) ==> r.0.nav == m.nav.push(
            NavModel { path: p, line: m.view.line, col: m.view.col },
        )
    }
}

// ---------------------------------------------------------------- finding files

/// What is typed in the file dialog is the query, and the files that match it are listed
/// anew; Backspace takes the last character of it back.
pub proof fn law_typing_a_file_name(m: AppModel, v: OpenFileModel, c: char, env: Env)
    requires
        dialogs_first(m),
        m.open_file == Some(v),
        printable(c),
    ensures
        ({
            let typed = routing::applied(m, Action::Insert(c), env);
            let back = routing::applied(m, Action::DeletePrev, env);
            let query = v.query.push(c);
            &&& typed.1 is None && typed.0.buffer == m.buffer
            &&& typed.0.open_file == Some(
                OpenFileModel {
                    query,
                    matches: search::matching(v.files, query),
                    cursor: 0,
                    top: 0,
                    ..v
                },
            )
            &&& back.1 is None && back.0.buffer == m.buffer
            &&& v.query.len() > 0 ==> back.0.open_file == Some(
                OpenFileModel {
                    query: v.query.drop_last(),
                    matches: search::matching(v.files, v.query.drop_last()),
                    cursor: 0,
                    top: 0,
                    ..v
                },
            )
            &&& v.query.len() == 0 ==> back.0.open_file == Some(v)
        }),
{
    assert(v.query.push(c).len() != v.query.len());
    assert(c != '\n');
    if v.query.len() > 0 {
        assert(v.query.drop_last().len() != v.query.len());
    }
}

/// Enter in the file dialog opens the file under the cursor.
pub proof fn law_picking_a_file(m: AppModel, v: OpenFileModel, env: Env)
    requires
        dialogs_first(m),
        m.open_file == Some(v),
        0 <= v.cursor,
    ensures
        ({
            let r = routing::applied(m, Action::Insert('\n'), env);
            &&& r.0.open_file is None
            &&& v.cursor < v.matches.len() ==> goes_to_file(
                m,
                r,
                paths::join(v.root, v.files[v.matches[v.cursor]]),
                Jump::Dialog,
            )
            &&& v.cursor >= v.matches.len() ==> r.1 is None && r.0.buffer == m.buffer
        }),
{
}

/// The arrow keys move one row in a list, and stop at either end; Home and End go there.
pub proof fn law_moving_in_a_list(m: AppModel, v: OpenFileModel, env: Env)
    requires
        dialogs_first(m),
        m.open_file == Some(v),
        0 <= v.cursor < v.matches.len(),
    ensures
        ({
            let up = routing::applied(m, Action::MoveUp, env).0.open_file;
            let down = routing::applied(m, Action::MoveDown, env).0.open_file;
            let home = routing::applied(m, Action::MoveHome, env).0.open_file;
            let end = routing::applied(m, Action::MoveEnd, env).0.open_file;
            &&& up is Some && up->Some_0 == (OpenFileModel {
                cursor: if v.cursor > 0 {
                    v.cursor - 1
                } else {
                    0
                },
                ..v
            })
            &&& down is Some && down->Some_0 == (OpenFileModel {
                cursor: if v.cursor + 1 < v.matches.len() {
                    v.cursor + 1
                } else {
                    v.cursor
                },
                ..v
            })
            &&& home == Some(OpenFileModel { cursor: 0, ..v })
            &&& end == Some(OpenFileModel { cursor: v.matches.len() - 1, ..v })
        }),
{
}

// ---------------------------------------------------------------- finding texts

/// What is typed in the text dialog is searched for once there are two characters.
pub proof fn law_typing_a_text(m: AppModel, v: TextSearchModel, c: char, env: Env)
    requires
        dialogs_first(m),
        m.open_file is None,
        m.type_search is None,
        m.text_search == Some(v),
        printable(c),
    ensures
        ({
            let r = routing::applied(m, Action::Insert(c), env);
            let w = r.0.text_search->Some_0;
            &&& r.0.buffer == m.buffer
            &&& r.0.text_search is Some
            &&& w.query == v.query.push(c)
            &&& w.root == v.root
            &&& w.cursor == 0
            &&& v.query.len() == 0 ==> r.1 is None && w.results.len() == 0 && w.status
                == "Type at least 2 characters"@
            &&& v.query.len() > 0 ==> r.1 == Some(
                ErrandModel::Grep { root: v.root, query: v.query.push(c) },
            )
        }),
{
    assert(v.query.push(c).len() != v.query.len());
    assert(c != '\n');
}

/// Enter in the text dialog goes to the hit under the cursor: in the file that is open to
/// its line and column, otherwise to the file that it is in.
pub proof fn law_picking_a_hit(m: AppModel, v: TextSearchModel, env: Env)
    requires
        dialogs_first(m),
        m.open_file is None,
        m.type_search is None,
        m.text_search == Some(v),
        0 <= v.cursor < v.results.len(),
    ensures
        ({
            let r = routing::applied(m, Action::Insert('\n'), env);
            let hit = v.results[v.cursor];
            let path = if hit.path.len() > 0 && hit.path[0] == '/' {
                hit.path
            } else {
                paths::join(m.tree.root, hit.path)
            };
            let here = m.buffer.path is Some && paths::components(m.buffer.path->Some_0)
                == paths::components(path);
            &&& r.0.text_search is None
            &&& here ==> r.1 is None && lands(
                r.0.view,
                m.buffer.text,
                hit.line as int,
                hit.col as int,
            )
            &&& !here ==> goes_to_file(
                m,
                r,
                path,
                Jump::TextHit { line: hit.line as usize, col: hit.col as usize },
            )
        }),
{
    let hit = v.results[v.cursor];
    lemma_lands(m.view, m.buffer.text, hit.line as int, hit.col as int);
}

/// The hits of a search are shown as they come, from the top, and the status tells of none
/// and of too many.
pub proof fn law_hits_are_shown(
    m: AppModel,
    v: TextSearchModel,
    query: Seq<char>,
    hits: Seq<search::HitModel>,
    capped: bool,
)
    requires
        m.text_search == Some(v),
    ensures
        ({
            let w = dialogs::texts_found(m, query, hits, capped).text_search->Some_0;
            &&& w.results == hits
            &&& w.cursor == 0 && w.top == 0
            &&& w.query == v.query && w.root == v.root
            &&& hits.len() == 0 ==> w.status == "No matches for \""@ + query + "\""@
            &&& hits.len() > 0 && !capped ==> w.status.len() == 0
        }),
{
}

// ---------------------------------------------------------------- finding types

/// Of the symbols that a server knows those are listed that are types: classes, enums,
/// interfaces, objects, structs and type parameters, in their order.
pub proof fn law_only_types_are_listed(ss: Seq<SymbolInformation>, s: SymbolInformation)
    ensures
        ({
            let before = dialogs::types_among(ss, ss.len() as int);
            let after = dialogs::types_among(ss.push(s), ss.len() as int + 1);
            let listed = s.kind == 5 || s.kind == 10 || s.kind == 11 || s.kind == 19 || s.kind
                == 23 || s.kind == 26;
            &&& !listed ==> after == before
            &&& listed ==> {
                &&& after.len() == before.len() + 1
                &&& after.drop_last() == before
                &&& after.last().name == s.name@
                &&& after.last().uri == s.location.uri@
                &&& after.last().line == s.location.range.start.line
                &&& after.last().character == s.location.range.start.character
                &&& after.last().container is Some <==> s.container_name is Some
                &&& s.container_name matches Some(n) ==> after.last().container == Some(n@)
            }
        }),
        dialogs::types_among(ss, 0) == Seq::<TypeHitModel>::empty(),
{
    lemma_types_before(ss, s, ss.len() as int);
    assert(ss.push(s)[ss.len() as int] == s);
    let before = dialogs::types_among(ss, ss.len() as int);
    let after = dialogs::types_among(ss.push(s), ss.len() as int + 1);
    if after.len() > before.len() {
        assert(after.drop_last() =~= before);
    }
}

proof fn lemma_types_before(ss: Seq<SymbolInformation>, s: SymbolInformation, n: int)
    requires
        0 <= n <= ss.len(),
    ensures
        dialogs::types_among(ss.push(s), n) == dialogs::types_among(ss, n),
    decreases n,
{
    if n > 0 {
        lemma_types_before(ss, s, n - 1);
        assert(ss.push(s)[n - 1] == ss[n - 1]);
    }
}

/// Enter in the type dialog goes to the type under the cursor: in the file that is open to
/// its line and column, otherwise to the file that it is in.
pub proof fn law_picking_a_type(m: AppModel, cursor: int, hits: Seq<TypeHitModel>, env: Env)
    requires
        dialogs_first(m),
        m.open_file is None,
        m.type_search matches Some(v) && v.cursor == cursor && v.results == hits,
        0 <= cursor < hits.len(),
    ensures
        ({
            let r = routing::applied(m, Action::Insert('\n'), env);
            let hit = hits[cursor];
            &&& r.0.type_search is None
            &&& m.uri == Some(hit.uri) ==> r.1 is None && lands(
                r.0.view,
                m.buffer.text,
                hit.line as int,
                hit.character as int,
            )
            &&& m.uri != Some(hit.uri) ==> match crate::lsp::path_of(hit.uri) {
                Some(path) => goes_to_file(
                    m,
                    r,
                    path,
                    Jump::TypeHit { line: hit.line as usize, col: hit.character as usize },
                ),
                None => r.1 is None && r.0.status == "Type has unparseable URI "@ + hit.uri,
            }
        }),
{
    lemma_lands(m.view, m.buffer.text, hits[cursor].line as int, hits[cursor].character as int);
}

// --------------------------------------------------------------------- prompts

/// A prompt takes what is typed, Backspace takes the last character back, and Escape drops
/// the prompt; the buffer is left alone.
pub proof fn law_typing_in_a_prompt(m: AppModel, p: PromptModel, c: char, env: Env)
    requires
        m.chord is None,
        m.prompt == Some(p),
        printable(c),
    ensures
        ({
            let typed = routing::applied(m, Action::Insert(c), env);
            let back = routing::applied(m, Action::DeletePrev, env);
            let dropped = routing::applied(m, Action::Escape, env);
            &&& typed.0 == (AppModel {
                prompt: Some(PromptModel { text: p.text.push(c), ..p }),
                quit_pending: false,
                ..m
            })
            &&& back.0 == (AppModel {
                prompt: Some(
                    PromptModel {
                        text: if p.text.len() > 0 {
                            p.text.drop_last()
                        } else {
                            p.text
                        },
                        ..p
                    },
                ),
                quit_pending: false,
                ..m
            })
            &&& dropped.0 == (AppModel { prompt: None, quit_pending: false, ..m })
            &&& typed.1 is None && back.1 is None && dropped.1 is None
        }),
{
    assert(c != '\n');
}

/// Going to a line: the number that was typed, counted from one, or the last line if there
/// are fewer. Anything but a number is said to be none, and moves nothing.
pub proof fn law_going_to_a_line(m: AppModel, p: PromptModel, n: nat, env: Env)
    requires
        m.chord is None,
        m.prompt == Some(p),
        p.kind is GoToLine,
        scan::trim(p.text) == scan::decimal(n),
        n <= usize::MAX,
    ensures
        ({
            let r = routing::applied(m, Action::Insert('\n'), env);
            &&& r.1 is None
            &&& r.0.prompt is None
            &&& r.0.buffer == m.buffer
            &&& n > 0 ==> lands(r.0.view, m.buffer.text, n - 1, 0)
            &&& n == 0 ==> r.0.view == m.view && r.0.status == "Line numbers start at 1"@
        }),
{
    scan::law_number_round_trips(n, usize::MAX as nat);
    scan::lemma_decimal(n);
    let s = m.buffer.text;
    let last = rope::line_count(s) - 1;
    if n > 0 {
        let target = view::min(n - 1, last);
        lemma_lands(m.view, s, target, 0);
    }
}

/// What a prompt is confirmed with, without whitespace at either end: the name of a new
/// file, a commit message, or the new name of a symbol. With nothing typed nothing is done.
pub proof fn law_confirming_a_prompt(m: AppModel, p: PromptModel, env: Env)
    requires
        m.chord is None,
        m.prompt == Some(p),
    ensures
        ({
            let r = routing::applied(m, Action::Insert('\n'), env);
            let t = scan::trim(p.text);
            &&& r.0.prompt is None
            &&& r.0.buffer == m.buffer
            &&& t.len() == 0 ==> r.1 is None
            &&& t.len() > 0 ==> match p.kind {
                PromptKindModel::NewFile { parent } => r.1 == Some(
                    ErrandModel::Exists {
                        path: if t[0] == '/' {
                            t
                        } else {
                            paths::join(parent, t)
                        },
                    },
                ),
                PromptKindModel::CommitMessage { repo_root } => r.1 == Some(
                    ErrandModel::Commit { repo_root, message: t },
                ),
                PromptKindModel::RenameSymbol { line, character } => (m.language is Some
                    && m.servers.contains(m.language->Some_0) && m.uri is Some) ==> r.1 == Some(
                    ErrandModel::Ask(
                        requests::RequestModel::Rename {
                            language: m.language->Some_0,
                            uri: m.uri->Some_0,
                            line,
                            character,
                            new_name: t,
                        },
                    ),
                ),
                PromptKindModel::GoToLine => r.1 is None,
            }
        }),
{
}

/// A file that is not there yet is created where nothing is unsaved; one that is there is
/// left alone. Once it is created it is opened, and the place before can be gone back to.
pub proof fn law_creating_a_file(m: AppModel, path: Seq<char>)
    ensures
        ({
            let there = prompts::file_checked(m, path, true);
            let new = prompts::file_checked(m, path, false);
            let made = prompts::file_created(m, path, Ok(()));
            &&& there.1 is None && there.0.status == path + " already exists"@
            &&& m.buffer.dirty ==> new.1 is None
            &&& !m.buffer.dirty ==> new.1 == Some(
                ErrandModel::Create { path, holder: paths::parent(path) },
            )
            &&& made.1 matches Some(e) && e is Open && e->Open_path == path && e->jump
                == Jump::Created
            &&& m.buffer.path matches Some(p) ==> made.0.nav == m.nav.push(
                NavModel { path: p, line: m.view.line, col: m.view.col },
            )
            &&& made.0.buffer == m.buffer
        }),
{
}

// ----------------------------------------------------------------------- jumps

/// No overlay, tree, prompt or pending key takes the keys.
pub open spec fn text_has_keys(m: AppModel) -> bool {
    &&& dialogs_first(m)
    &&& m.open_file is None
    &&& m.type_search is None
    &&& m.text_search is None
    &&& m.history is None
    &&& m.diff is None
    &&& !m.tree.focused
}

/// A server runs for the buffer's language, and knows the buffer.
pub open spec fn served(m: AppModel) -> bool {
    m.language is Some && m.servers.contains(m.language->Some_0) && m.uri is Some
}

/// The server is asked for the definition, and for the type, of what stands at the cursor.
/// Where none runs, nothing is asked.
pub proof fn law_asking_about_the_cursor(m: AppModel, env: Env)
    requires
        text_has_keys(m),
        0 <= m.view.line <= u32::MAX,
        0 <= m.view.col <= u32::MAX,
    ensures
        ({
            let d = routing::applied(m, Action::GoToDefinition, env).1;
            let t = routing::applied(m, Action::ShowType, env).1;
            &&& !served(m) ==> d is None && t is None
            &&& served(m) ==> {
                &&& d is Some && d->Some_0 is Ask
                &&& d->Some_0->Ask_0 matches requests::RequestModel::Definition {
                    language,
                    uri,
                    line,
                    character,
                } && Some(language) == m.language && Some(uri) == m.uri && line == m.view.line
                    && character == m.view.col
                &&& t is Some && t->Some_0 is Ask
                &&& t->Some_0->Ask_0 matches requests::RequestModel::Hover {
                    language,
                    uri,
                    line,
                    character,
                } && Some(language) == m.language && Some(uri) == m.uri && line == m.view.line
                    && character == m.view.col
            }
        }),
{
}

/// The first definition that the server names is gone to: in the file that is open to its
/// line and character, otherwise to the file that it is in.
pub proof fn law_going_to_a_definition(m: AppModel, locs: Vec<Location>, env: Env)
    requires
        locs@.len() > 0,
    ensures
        ({
            let r = navigation::definition_found(m, Ok(locs), env);
            let loc = locs@[0];
            let (line, col) = (loc.range.start.line, loc.range.start.character);
            &&& m.uri == Some(loc.uri@) ==> r.1 is None && lands(
                r.0.view,
                m.buffer.text,
                line as int,
                col as int,
            )
            &&& m.uri != Some(loc.uri@) ==> match crate::lsp::path_of(loc.uri@) {
                Some(path) => !m.buffer.dirty ==> goes_to_file(
                    m,
                    r,
                    path,
                    Jump::Definition { line: line as usize, col: col as usize },
                ),
                None => r.1 is None,
            }
            &&& m.uri != Some(loc.uri@) && m.buffer.dirty ==> r.1 is None && r.0.buffer.text
                == m.buffer.text
        }),
{
    let loc = locs@[0];
    lemma_lands(
        m.view,
        m.buffer.text,
        loc.range.start.line as int,
        loc.range.start.character as int,
    );
}

/// A file that could be read is the buffer: its text, saved, at its first version, under its
/// path, only to be read; and the cursor is where the jump leads.
pub proof fn law_opening_a_file(m: AppModel, path: Seq<char>, jump: Jump, file: OpenedFile, env: Env)
    requires
        file.loaded is Ok,
    ensures
        ({
            let r = navigation::file_opened(m, path, jump, file, env);
            let s = match file.loaded->Ok_0 {
                Some(c) => c@,
                None => Seq::empty(),
            };
            &&& r.buffer.text == s
            &&& r.buffer.path == Some(path)
            &&& r.buffer.version == 0
            &&& !r.buffer.dirty
            &&& r.mode == Mode::View
            &&& r.nav == m.nav
            &&& r.language == crate::language::language_of(path)
            &&& match jump {
                Jump::Definition { line, col } => lands(r.view, s, line as int, col as int),
                Jump::Back { line, col } => lands(r.view, s, line as int, col as int),
                Jump::TextHit { line, col } => lands(r.view, s, line as int, col as int),
                Jump::TypeHit { line, col } => lands(r.view, s, line as int, col as int),
                _ => r.view.line == 0 && r.view.col == 0,
            }
        }),
{
    let s = match file.loaded->Ok_0 {
        Some(c) => c@,
        None => Seq::empty(),
    };
    let v = view::ViewModel { line: 0, col: 0, sticky: 0, top: 0 };
    match jump {
        Jump::Definition { line, col } => lemma_lands(v, s, line as int, col as int),
        Jump::Back { line, col } => lemma_lands(v, s, line as int, col as int),
        Jump::TextHit { line, col } => lemma_lands(v, s, line as int, col as int),
        Jump::TypeHit { line, col } => lemma_lands(v, s, line as int, col as int),
        _ => {},
    }
}

/// A file that could not be read leaves the buffer alone, and the place that was marked
/// before is not kept.
pub proof fn law_failing_to_open_a_file(
    m: AppModel,
    path: Seq<char>,
    jump: Jump,
    file: OpenedFile,
    env: Env,
)
    requires
        file.loaded is Err,
    ensures
        ({
            let r = navigation::file_opened(m, path, jump, file, env);
            &&& r.buffer.text == m.buffer.text
            &&& r.buffer.path == m.buffer.path
            &&& r.buffer.dirty == m.buffer.dirty
            &&& r.buffer.version == m.buffer.version
            &&& r.view.line == m.view.line && r.view.col == m.view.col
            &&& !(jump is Back) && m.nav.len() > 0 ==> r.nav == m.nav.drop_last()
            &&& jump is Back ==> r.nav == m.nav
        }),
{
}

/// Going back opens the file that was marked last, at the line and column that were marked,
/// and forgets the mark. With nothing marked nothing is opened, and with unsaved changes the
/// mark is kept.
pub proof fn law_going_back(m: AppModel, env: Env)
    requires
        text_has_keys(m),
    ensures
        ({
            let r = routing::applied(m, Action::GoBack, env);
            &&& m.nav.len() == 0 ==> r.1 is None && r.0.status == "Nothing to go back to"@
            &&& m.nav.len() > 0 && m.buffer.dirty ==> r.1 is None && r.0.nav == m.nav
            &&& m.nav.len() > 0 && !m.buffer.dirty ==> {
                let p = m.nav.last();
                &&& r.0.nav == m.nav.drop_last()
                &&& r.1 matches Some(e) && e is Open && e->Open_path == p.path && e->jump
                    == (Jump::Back { line: p.line as usize, col: p.col as usize })
            }
        }),
{
}

/// A jump to another file can be undone: going back leads to the file and the place that it
/// was made from.
pub proof fn law_going_back_undoes_a_jump(
    m: AppModel,
    path: Seq<char>,
    line: usize,
    col: usize,
    file: OpenedFile,
    env: Env,
)
    requires
        text_has_keys(m),
        !m.buffer.dirty,
        m.buffer.path is Some,
        file.loaded is Ok,
    ensures
        ({
            let jump = Jump::Definition { line, col };
            let left = dialogs::to_file(m, path, jump).0;
            let there = navigation::file_opened(left, path, jump, file, env);
            let back = routing::applied(there, Action::GoBack, env);
            &&& back.0.nav == m.nav
            &&& back.1 matches Some(e) && e is Open && Some(e->Open_path) == m.buffer.path
                && e->jump == (Jump::Back { line: m.view.line as usize, col: m.view.col as usize })
        }),
{
    let jump = Jump::Definition { line, col };
    let left = dialogs::to_file(m, path, jump).0;
    let there = navigation::file_opened(left, path, jump, file, env);
    law_opening_a_file(left, path, jump, file, env);
    lemma_still_has_keys(left, path, jump, file, env);
    law_going_back(there, env);
    assert(there.nav.drop_last() =~= m.nav);
}

proof fn lemma_still_has_keys(
    m: AppModel,
    path: Seq<char>,
    jump: Jump,
    file: OpenedFile,
    env: Env,
)
    requires
        text_has_keys(m),
        file.loaded is Ok,
    ensures
        text_has_keys(navigation::file_opened(m, path, jump, file, env)),
{
    lemma_revealed_focus(m.tree, file.canonical@, file.listings@);
}

proof fn lemma_revealed_focus(t: tree::TreeModel, target: Seq<char>, ls: Seq<tree::Listing>)
    ensures
        tree::revealed(t, target, ls).0.focused == t.focused,
{
}

// --------------------------------------------------------------------- renames

/// After a rename that succeeds, the text is the one before with every part that the edits
/// for the buffer name in it replaced by the edit's new text, in whatever order the edits are
/// listed. The history has one more entry, and the status counts the edits and the files that
/// were not touched.
pub proof fn law_renaming_replaces_what_the_server_saw(
    m: AppModel,
    name: Seq<char>,
    w: WorkspaceEdit,
    d: int,
    env: Env,
)
    requires
        0 <= d < w.changes@.len(),
        m.uri == Some(w.changes@[d].0@),
        rename::laws::named_once(w.changes@, d),
        rename::laws::name_parts_of(m.buffer.text, w.changes@[d].1@),
    ensures
        ({
            let s = m.buffer.text;
            let es = w.changes@[d].1@;
            let r = prompts::rename_done(m, name, Ok(w), env);
            exists|up: Seq<TextEdit>|
                {
                    &&& up.to_multiset() == es.to_multiset()
                    &&& rename::laws::start_to_end(s, up)
                    &&& r.buffer.text == #[trigger] rename::laws::replaced_from(s, 0, up)
                    &&& r.status == prompts::rename_status(
                        es.len(),
                        (w.changes@.len() - 1) as nat,
                    )
                }
        }),
{
    let s = m.buffer.text;
    let es = w.changes@[d].1@;
    let n = w.changes@.len() as int;
    let up = order::stable_sorted(es).reverse();
    rename::laws::lemma_document(m.buffer, es);
    rename::laws::lemma_reverse_multiset(order::stable_sorted(es));
    lemma_run(m.buffer, m.uri, w.changes@, d, n);
    let r = prompts::rename_done(m, name, Ok(w), env);
    assert(r.buffer.text == rename::laws::replaced_from(s, 0, up));
}

proof fn lemma_run(
    b: buffer::BufferModel,
    uri: Option<Seq<char>>,
    changes: Seq<(String, Vec<TextEdit>)>,
    d: int,
    n: int,
)
    requires
        0 <= d < changes.len(),
        0 <= n <= changes.len(),
        uri == Some(changes[d].0@),
        rename::laws::named_once(changes, d),
        rename::laws::name_parts_of(b.text, changes[d].1@),
    ensures
        ({
            let run = prompts::run_upto(b, uri, changes, n);
            let es = changes[d].1@;
            &&& run.failed is None
            &&& n <= d ==> run.buffer == b && run.applied == 0 && run.others == n
            &&& n > d ==> run.buffer.text == rename::laws::replaced_from(
                b.text,
                0,
                order::stable_sorted(es).reverse(),
            ) && run.applied == es.len() && run.others == n - 1
        }),
    decreases n,
{
    if n > 0 {
        lemma_run(b, uri, changes, d, n - 1);
        if n - 1 == d {
            rename::laws::lemma_document(b, changes[d].1@);
        } else {
            assert(changes[n - 1].0@ != changes[d].0@);
        }
    }
}

} // verus!
