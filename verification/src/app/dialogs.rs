//! The dialogs that find files, types and texts.

use vstd::prelude::*;

use crate::action::Action;
use crate::app;
use crate::app::{
    App, AppModel, Env, Errand, ErrandModel, Jump, OpenFileModel, OpenFileView, TextSearchModel,
    TextSearchView, TypeHit, TypeHitModel, TypeSearchModel, TypeSearchView,
};
use crate::buffer;
use crate::error;
use crate::error::numbered;
use crate::lsp;
use crate::lsp::{uri_to_path, SymbolInformation};
use crate::order;
use crate::paths;
use crate::paths::{is_absolute, is_same_path, join_paths};
use crate::runtime::requests;
use crate::runtime::requests::ServerRequest;
use crate::scan;
use crate::search;
use crate::search::{filter_files, TextHit, TEXT_SEARCH_MAX_HITS};
use crate::text;
use crate::text::{join2, join3, owned, substring, to_chars};
use crate::view;

use vstd::view::View as _;

verus! {

// ------------------------------------------------------------------ common keys

/// A control character.
pub open spec fn control(c: char) -> bool {
    (c as u32) < 0x20 || 0x7f <= (c as u32) <= 0x9f
}

pub(crate) fn is_control(c: char) -> (r: bool)
    ensures
        r == control(c),
{
    let n: u32 = c as u32;
    n < 0x20 || (0x7f <= n && n <= 0x9f)
}

/// A text without its last character.
pub open spec fn shortened(s: Seq<char>) -> Seq<char> {
    if s.len() > 0 {
        s.drop_last()
    } else {
        s
    }
}

/// What a key makes of a line that is being typed.
pub open spec fn line_after(s: Seq<char>, a: Action) -> Seq<char> {
    match a {
        Action::Insert(c) => if control(c) {
            s
        } else {
            s.push(c)
        },
        Action::DeletePrev => shortened(s),
        _ => s,
    }
}

/// Applies a key to a line that is being typed, and says whether it changed.
pub(crate) fn edit_line(s: &mut String, a: Action) -> (r: bool)
    ensures
        final(s)@ == line_after(old(s)@, a),
        r == (final(s)@ != old(s)@),
{
    match a {
        Action::Insert(c) => {
            if is_control(c) {
                return false;
            }
            s.push(c);
            assert(s@.len() == old(s)@.len() + 1);
            true
        },
        Action::DeletePrev => {
            let cs = to_chars(s);
            if cs.len() == 0 {
                return false;
            }
            *s = substring(&cs, 0, cs.len() - 1);
            assert(s@ =~= old(s)@.drop_last());
            assert(s@.len() == old(s)@.len() - 1);
            true
        },
        _ => false,
    }
}

/// Where a key moves the cursor of a list.
pub open spec fn list_move(cursor: int, len: nat, a: Action) -> int {
    match a {
        Action::MoveUp => if cursor > 0 {
            cursor - 1
        } else {
            cursor
        },
        Action::MoveDown => if cursor + 1 < len {
            cursor + 1
        } else {
            cursor
        },
        Action::MoveHome => 0,
        Action::MoveEnd => if len > 0 {
            len - 1
        } else {
            cursor
        },
        _ => cursor,
    }
}

pub(crate) fn move_in_list(cursor: usize, len: usize, a: Action) -> (r: usize)
    requires
        app::cursor_ok(cursor as int, len as nat),
    ensures
        r == list_move(cursor as int, len as nat, a),
        app::cursor_ok(r as int, len as nat),
{
    match a {
        Action::MoveUp => if cursor > 0 {
            cursor - 1
        } else {
            cursor
        },
        Action::MoveDown => if cursor < len && cursor + 1 < len {
            cursor + 1
        } else {
            cursor
        },
        Action::MoveHome => 0,
        Action::MoveEnd => if len > 0 {
            len - 1
        } else {
            cursor
        },
        _ => cursor,
    }
}

/// Another file is gone to, unless the buffer has unsaved changes.
pub open spec fn to_file(m: AppModel, path: Seq<char>, jump: Jump) -> (
    AppModel,
    Option<ErrandModel>,
) {
    if m.buffer.dirty {
        (app::said(m, app::unsaved()), None)
    } else {
        (app::marked_place(m), Some(app::open_errand(m, path, jump)))
    }
}

impl App {
    pub(crate) fn go_to_file(&mut self, path: String, jump: Jump) -> (r: Option<Errand>)
        ensures
            (final(self)@, app::errand_view(r)) == to_file(old(self)@, path@, jump),
    {
        if self.buffer.is_dirty() {
            self.status = owned("Save first — current buffer has unsaved changes");
            return None;
        }
        self.mark_place();
        Some(self.make_open(path, jump))
    }
}

// -------------------------------------------------------------------- open file

/// The dialog that finds a file by its name is asked for.
pub open spec fn file_dialog_wanted(m: AppModel) -> Option<ErrandModel> {
    if m.open_file is Some {
        None
    } else {
        Some(ErrandModel::Walk { root: m.tree.root })
    }
}

/// The files of the project are known: the dialog opens on them.
pub open spec fn file_dialog(m: AppModel, root: Seq<char>, files: Seq<Seq<char>>) -> AppModel {
    if files.len() == 0 {
        app::said(m, "No files under project root"@)
    } else {
        AppModel {
            open_file: Some(
                OpenFileModel {
                    root,
                    files,
                    query: Seq::empty(),
                    matches: search::matching(files, Seq::empty()),
                    cursor: 0,
                    top: 0,
                },
            ),
            ..m
        }
    }
}

/// What a key does in the dialog.
pub open spec fn file_dialog_key(m: AppModel, a: Action) -> (AppModel, Option<ErrandModel>) {
    match m.open_file {
        None => (m, None),
        Some(v) => if a == Action::Insert('\n') {
            let closed = AppModel { open_file: None, ..m };
            if v.cursor < v.matches.len() {
                to_file(
                    closed,
                    paths::join(v.root, v.files[v.matches[v.cursor]]),
                    Jump::Dialog,
                )
            } else {
                (closed, None)
            }
        } else {
            let query = line_after(v.query, a);
            let next = if query != v.query {
                OpenFileModel {
                    query,
                    matches: search::matching(v.files, query),
                    cursor: 0,
                    top: 0,
                    ..v
                }
            } else {
                OpenFileModel { cursor: list_move(v.cursor, v.matches.len(), a), ..v }
            };
            (AppModel { open_file: Some(next), ..m }, None)
        },
    }
}

impl App {
    pub(crate) fn start_open_file_dialog(&self) -> (r: Option<Errand>)
        ensures
            app::errand_view(r) == file_dialog_wanted(self@),
    {
        if self.open_file.is_some() {
            None
        } else {
            Some(Errand::Walk { root: owned(&self.tree.root) })
        }
    }

    /// Opens the dialog on the files under `root`.
    pub fn walked(&mut self, root: String, files: Vec<String>)
        requires
            app::steady(old(self)@),
        ensures
            app::steady(final(self)@),
            final(self)@ == file_dialog(old(self)@, root@, scan::string_views(files@)),
    {
        if files.len() == 0 {
            self.status = owned("No files under project root");
            return;
        }
        let ghost fs = scan::string_views(files@);
        let none = String::new();
        assert(none@ =~= Seq::<char>::empty());
        let matches = filter_files(&files, &none);
        proof {
            search::law_matches_are_files(fs, none@);
        }
        self.open_file = Some(
            OpenFileView { root, files, query: none, matches, cursor: 0, top: 0 },
        );
    }

    pub(crate) fn drive_open_file(&mut self, a: Action) -> (r: Option<Errand>)
        requires
            app::steady(old(self)@),
        ensures
            app::steady(final(self)@),
            (final(self)@, app::errand_view(r)) == file_dialog_key(old(self)@, a),
    {
        let ghost m = self@;
        if a == Action::Insert('\n') {
            let target = match &self.open_file {
                None => {
                    return None;
                },
                Some(v) => {
                    if v.cursor < v.matches.len() {
                        let ghost o = v@;
                        assert(o.matches[v.cursor as int] == v.matches@[v.cursor as int]);
                        let i: usize = v.matches[v.cursor];
                        assert(o.files[i as int] == v.files@[i as int]@);
                        Some(join_paths(&v.root, &v.files[i]))
                    } else {
                        None
                    }
                },
            };
            self.open_file = None;
            return match target {
                Some(path) => self.go_to_file(path, Jump::Dialog),
                None => None,
            };
        }
        match &mut self.open_file {
            None => {},
            Some(v) => {
                let ghost o = v@;
                if edit_line(&mut v.query, a) {
                    v.matches = filter_files(&v.files, &v.query);
                    proof {
                        search::law_matches_are_files(o.files, v.query@);
                    }
                    v.cursor = 0;
                    v.top = 0;
                } else {
                    v.cursor = move_in_list(v.cursor, v.matches.len(), a);
                }
            },
        }
        assert(self@ == file_dialog_key(m, a).0);
        None
    }
}

// ------------------------------------------------------------------ type search

/// The dialog that finds a type opens, if there is a server to ask.
pub open spec fn type_dialog(m: AppModel, env: Env) -> AppModel {
    if m.type_search is Some {
        m
    } else {
        match app::server_of(m) {
            None => app::said(m, "LSP not available"@),
            Some(l) => AppModel {
                type_search: Some(
                    TypeSearchModel {
                        query: Seq::empty(),
                        results: Seq::empty(),
                        cursor: 0,
                        top: 0,
                        status: if env.indexing {
                            app::still_indexing(l)
                        } else {
                            "Type to search workspace types"@
                        },
                    },
                ),
                ..m
            },
        }
    }
}

/// The dialog asks the server for what is being typed; for less than two
/// characters it does not.
pub open spec fn types_wanted(m: AppModel) -> (AppModel, Option<ErrandModel>) {
    match m.type_search {
        None => (m, None),
        Some(v) => if v.query.len() < 2 {
            (
                AppModel {
                    type_search: Some(
                        TypeSearchModel {
                            results: Seq::empty(),
                            cursor: 0,
                            top: 0,
                            status: "Type at least 2 characters"@,
                            ..v
                        },
                    ),
                    ..m
                },
                None,
            )
        } else {
            match app::server_of(m) {
                None => (m, None),
                Some(language) => (
                    m,
                    Some(
                        ErrandModel::Ask(
                            requests::RequestModel::WorkspaceSymbol { language, query: v.query },
                        ),
                    ),
                ),
            }
        },
    }
}

/// The place of a type is gone to.
pub open spec fn to_type(m: AppModel, hit: TypeHitModel) -> (AppModel, Option<ErrandModel>) {
    if Some(hit.uri) == m.uri {
        (
            AppModel {
                view: view::gone_to(
                    m.view,
                    m.buffer.text,
                    hit.line as int,
                    hit.character as int,
                ),
                status: Seq::empty(),
                ..m
            },
            None,
        )
    } else {
        match lsp::path_of(hit.uri) {
            None => (app::said(m, "Type has unparseable URI "@ + hit.uri), None),
            Some(path) => to_file(
                m,
                path,
                Jump::TypeHit { line: hit.line as usize, col: hit.character as usize },
            ),
        }
    }
}

/// What a key does in the dialog.
pub open spec fn type_dialog_key(m: AppModel, a: Action) -> (AppModel, Option<ErrandModel>) {
    match m.type_search {
        None => (m, None),
        Some(v) => if a == Action::Insert('\n') {
            let closed = AppModel { type_search: None, ..m };
            if v.cursor < v.results.len() {
                to_type(closed, v.results[v.cursor])
            } else {
                (closed, None)
            }
        } else {
            let query = line_after(v.query, a);
            if query != v.query {
                types_wanted(
                    AppModel { type_search: Some(TypeSearchModel { query, ..v }), ..m },
                )
            } else {
                (
                    AppModel {
                        type_search: Some(
                            TypeSearchModel {
                                cursor: list_move(v.cursor, v.results.len(), a),
                                ..v
                            },
                        ),
                        ..m
                    },
                    None,
                )
            }
        },
    }
}

/// The kinds of symbols that are types: classes, enums, interfaces, objects,
/// structs and type parameters.
pub open spec fn type_kind(kind: u32) -> bool {
    kind == 5 || kind == 10 || kind == 11 || kind == 19 || kind == 23 || kind == 26
}

/// Says whether symbols of a kind are types.
pub fn is_type_kind(kind: u32) -> (r: bool)
    ensures
        r == type_kind(kind),
{
    kind == 5 || kind == 10 || kind == 11 || kind == 19 || kind == 23 || kind == 26
}

/// A symbol as a hit.
pub open spec fn hit_of(s: SymbolInformation) -> TypeHitModel {
    TypeHitModel {
        name: s.name@,
        container: buffer::option_view(s.container_name),
        uri: s.location.uri@,
        line: s.location.range.start.line,
        character: s.location.range.start.character,
    }
}

/// The types among the first `n` symbols.
pub open spec fn types_among(ss: Seq<SymbolInformation>, n: int) -> Seq<TypeHitModel>
    decreases n,
{
    if n <= 0 {
        Seq::empty()
    } else {
        let before = types_among(ss, n - 1);
        if type_kind(ss[n - 1].kind) {
            before.push(hit_of(ss[n - 1]))
        } else {
            before
        }
    }
}

/// The server has answered with symbols, or failed.
pub open spec fn types_found(
    m: AppModel,
    query: Seq<char>,
    answer: Result<Vec<SymbolInformation>, String>,
    env: Env,
) -> AppModel {
    match m.type_search {
        None => m,
        Some(v) => match app::server_of(m) {
            None => m,
            Some(l) => {
                let (results, status) = match answer {
                    Ok(ss) => {
                        let types = types_among(ss@, ss@.len() as int);
                        (
                            types,
                            if types.len() > 0 {
                                Seq::empty()
                            } else if env.indexing {
                                app::still_indexing(l)
                            } else {
                                "No type matches for \""@ + query + "\""@
                            },
                        )
                    },
                    Err(e) => (Seq::empty(), "workspace/symbol failed: "@ + e@),
                };
                AppModel {
                    type_search: Some(
                        TypeSearchModel { results, cursor: 0, top: 0, status, ..v },
                    ),
                    ..m
                }
            },
        },
    }
}

fn pick_types(ss: &Vec<SymbolInformation>) -> (r: Vec<TypeHit>)
    ensures
        order::views_of(r@) == types_among(ss@, ss@.len() as int),
{
    let mut r: Vec<TypeHit> = Vec::new();
    let mut i: usize = 0;
    assert(order::views_of(r@) =~= types_among(ss@, 0));
    while i < ss.len()
        invariant
            i <= ss@.len(),
            order::views_of(r@) == types_among(ss@, i as int),
        decreases ss@.len() - i,
    {
        let ghost before = order::views_of(r@);
        let s = &ss[i];
        if is_type_kind(s.kind) {
            let hit = TypeHit {
                name: owned(&s.name),
                container: match &s.container_name {
                    Some(c) => Some(owned(c)),
                    None => None,
                },
                uri: owned(&s.location.uri),
                line: s.location.range.start.line,
                character: s.location.range.start.character,
            };
            assert(hit@ == hit_of(*s));
            r.push(hit);
            assert(order::views_of(r@) =~= before.push(hit_of(*s)));
        }
        i += 1;
    }
    r
}

impl App {
    pub(crate) fn start_type_search_dialog(&mut self, env: Env)
        requires
            app::steady(old(self)@),
        ensures
            app::steady(final(self)@),
            final(self)@ == type_dialog(old(self)@, env),
    {
        if self.type_search.is_some() {
            return;
        }
        match self.active_server() {
            None => {
                self.status = owned("LSP not available");
            },
            Some(l) => {
                let status = if env.indexing {
                    join2(l.lsp_binary(), " still indexing — try again in a moment")
                } else {
                    owned("Type to search workspace types")
                };
                let query = String::new();
                let results: Vec<TypeHit> = Vec::new();
                assert(query@ =~= Seq::<char>::empty());
                assert(order::views_of(results@) =~= Seq::<TypeHitModel>::empty());
                self.type_search = Some(
                    TypeSearchView { query, results, cursor: 0, top: 0, status },
                );
            },
        }
    }

    fn refresh_type_search_results(&mut self) -> (r: Option<Errand>)
        requires
            app::steady(old(self)@),
        ensures
            app::steady(final(self)@),
            (final(self)@, app::errand_view(r)) == types_wanted(old(self)@),
    {
        let query = match &self.type_search {
            Some(v) => owned(&v.query),
            None => {
                return None;
            },
        };
        if to_chars(&query).len() < 2 {
            match &mut self.type_search {
                Some(v) => {
                    v.results = Vec::new();
                    assert(order::views_of(v.results@) =~= Seq::<TypeHitModel>::empty());
                    v.cursor = 0;
                    v.top = 0;
                    v.status = owned("Type at least 2 characters");
                },
                None => {},
            }
            return None;
        }
        match self.active_server() {
            Some(language) => Some(
                Errand::Ask(ServerRequest::WorkspaceSymbol { language, query }),
            ),
            None => None,
        }
    }

    /// Takes the server's answer to the query of the dialog.
    pub fn symbols_known(
        &mut self,
        query: &str,
        answer: Result<Vec<SymbolInformation>, String>,
        env: Env,
    )
        requires
            app::steady(old(self)@),
        ensures
            app::steady(final(self)@),
            final(self)@ == types_found(old(self)@, query@, answer, env),
    {
        let language = match self.active_server() {
            Some(l) => l,
            None => {
                return;
            },
        };
        let (results, status) = match answer {
            Ok(ss) => {
                let types = pick_types(&ss);
                let status = if types.len() > 0 {
                    String::new()
                } else if env.indexing {
                    join2(language.lsp_binary(), " still indexing — try again in a moment")
                } else {
                    join3("No type matches for \"", query, "\"")
                };
                (types, status)
            },
            Err(e) => {
                let none: Vec<TypeHit> = Vec::new();
                (none, join2("workspace/symbol failed: ", &e))
            },
        };
        let ghost m = self@;
        match &mut self.type_search {
            Some(v) => {
                let ghost o = v@;
                v.cursor = 0;
                v.top = 0;
                v.results = results;
                v.status = status;
                assert(v@ =~= types_found(m, query@, answer, env).type_search->Some_0);
            },
            None => {},
        }
    }

    fn jump_to_type_hit(&mut self, hit: TypeHit) -> (r: Option<Errand>)
        requires
            app::steady(old(self)@),
        ensures
            app::steady(final(self)@),
            (final(self)@, app::errand_view(r)) == to_type(old(self)@, hit@),
    {
        let here = match &self.lsp_uri {
            Some(u) => text::same(u, &hit.uri),
            None => false,
        };
        let (line, col) = (hit.line as usize, hit.character as usize);
        if here {
            self.view.goto(&self.buffer, line, col);
            self.status = String::new();
            assert(self.status@ =~= Seq::<char>::empty());
            return None;
        }
        match uri_to_path(&hit.uri) {
            None => {
                self.status = join2("Type has unparseable URI ", &hit.uri);
                None
            },
            Some(path) => self.go_to_file(path, Jump::TypeHit { line, col }),
        }
    }

    pub(crate) fn drive_type_search(&mut self, a: Action) -> (r: Option<Errand>)
        requires
            app::steady(old(self)@),
        ensures
            app::steady(final(self)@),
            (final(self)@, app::errand_view(r)) == type_dialog_key(old(self)@, a),
    {
        let ghost m = self@;
        if a == Action::Insert('\n') {
            let hit = match &self.type_search {
                None => {
                    return None;
                },
                Some(v) => {
                    if v.cursor < v.results.len() {
                        let h = &v.results[v.cursor];
                        assert(v@.results[v.cursor as int] == h@);
                        Some(
                            TypeHit {
                                name: owned(&h.name),
                                container: match &h.container {
                                    Some(c) => Some(owned(c)),
                                    None => None,
                                },
                                uri: owned(&h.uri),
                                line: h.line,
                                character: h.character,
                            },
                        )
                    } else {
                        None
                    }
                },
            };
            self.type_search = None;
            return match hit {
                Some(h) => self.jump_to_type_hit(h),
                None => None,
            };
        }
        let mut changed = false;
        match &mut self.type_search {
            None => {},
            Some(v) => {
                if edit_line(&mut v.query, a) {
                    changed = true;
                } else {
                    v.cursor = move_in_list(v.cursor, v.results.len(), a);
                }
            },
        }
        if changed {
            self.refresh_type_search_results()
        } else {
            assert(self@ == type_dialog_key(m, a).0);
            None
        }
    }
}

// ------------------------------------------------------------------ text search

/// The dialog that finds a text opens.
pub open spec fn text_dialog(m: AppModel) -> AppModel {
    if m.text_search is Some {
        m
    } else {
        AppModel {
            text_search: Some(
                TextSearchModel {
                    root: m.tree.root,
                    query: Seq::empty(),
                    results: Seq::empty(),
                    cursor: 0,
                    top: 0,
                    status: "Type at least 2 characters"@,
                },
            ),
            ..m
        }
    }
}

/// The dialog searches for what is being typed; for less than two characters it
/// does not.
pub open spec fn texts_wanted(m: AppModel) -> (AppModel, Option<ErrandModel>) {
    match m.text_search {
        None => (m, None),
        Some(v) => {
            let top = TextSearchModel { cursor: 0, top: 0, ..v };
            if v.query.len() < 2 {
                (
                    AppModel {
                        text_search: Some(
                            TextSearchModel {
                                results: Seq::empty(),
                                status: "Type at least 2 characters"@,
                                ..top
                            },
                        ),
                        ..m
                    },
                    None,
                )
            } else {
                (
                    AppModel { text_search: Some(top), ..m },
                    Some(ErrandModel::Grep { root: v.root, query: v.query }),
                )
            }
        },
    }
}

/// What the dialog says of what it found.
pub open spec fn hits_status(query: Seq<char>, n: nat, capped: bool) -> Seq<char> {
    if n == 0 {
        "No matches for \""@ + query + "\""@
    } else if capped {
        error::with_number(
            error::with_number(""@, n as int, " match(es) — capped at "@),
            TEXT_SEARCH_MAX_HITS as int,
            ""@,
        )
    } else {
        Seq::empty()
    }
}

/// The hits are known.
pub open spec fn texts_found(
    m: AppModel,
    query: Seq<char>,
    hits: Seq<search::HitModel>,
    capped: bool,
) -> AppModel {
    match m.text_search {
        None => m,
        Some(v) => AppModel {
            text_search: Some(
                TextSearchModel {
                    results: hits,
                    cursor: 0,
                    top: 0,
                    status: hits_status(query, hits.len(), capped),
                    ..v
                },
            ),
            ..m
        },
    }
}

/// The path of a hit: one that is relative counts from the root of the tree.
pub open spec fn hit_path(m: AppModel, path: Seq<char>) -> Seq<char> {
    if paths::absolute(path) {
        path
    } else {
        paths::join(m.tree.root, path)
    }
}

/// The place of a hit is gone to.
pub open spec fn to_hit(m: AppModel, hit: search::HitModel) -> (AppModel, Option<ErrandModel>) {
    let path = hit_path(m, hit.path);
    if m.buffer.path matches Some(p) && paths::same_path(p, path) {
        (
            AppModel {
                view: view::gone_to(m.view, m.buffer.text, hit.line as int, hit.col as int),
                status: Seq::empty(),
                ..m
            },
            None,
        )
    } else {
        to_file(m, path, Jump::TextHit { line: hit.line as usize, col: hit.col as usize })
    }
}

/// What a key does in the dialog.
pub open spec fn text_dialog_key(m: AppModel, a: Action) -> (AppModel, Option<ErrandModel>) {
    match m.text_search {
        None => (m, None),
        Some(v) => if a == Action::Insert('\n') {
            let closed = AppModel { text_search: None, ..m };
            if v.cursor < v.results.len() {
                to_hit(closed, v.results[v.cursor])
            } else {
                (closed, None)
            }
        } else {
            let query = line_after(v.query, a);
            if query != v.query {
                texts_wanted(
                    AppModel { text_search: Some(TextSearchModel { query, ..v }), ..m },
                )
            } else {
                (
                    AppModel {
                        text_search: Some(
                            TextSearchModel {
                                cursor: list_move(v.cursor, v.results.len(), a),
                                ..v
                            },
                        ),
                        ..m
                    },
                    None,
                )
            }
        },
    }
}

impl App {
    pub(crate) fn start_text_search_dialog(&mut self)
        requires
            app::steady(old(self)@),
        ensures
            app::steady(final(self)@),
            final(self)@ == text_dialog(old(self)@),
    {
        if self.text_search.is_some() {
            return;
        }
        let query = String::new();
        let results: Vec<TextHit> = Vec::new();
        assert(query@ =~= Seq::<char>::empty());
        assert(order::views_of(results@) =~= Seq::<search::HitModel>::empty());
        self.text_search = Some(
            TextSearchView {
                root: owned(&self.tree.root),
                query,
                results,
                cursor: 0,
                top: 0,
                status: owned("Type at least 2 characters"),
            },
        );
    }

    fn refresh_text_search_results(&mut self) -> (r: Option<Errand>)
        requires
            app::steady(old(self)@),
        ensures
            app::steady(final(self)@),
            (final(self)@, app::errand_view(r)) == texts_wanted(old(self)@),
    {
        let ghost m = self@;
        let mut errand: Option<Errand> = None;
        match &mut self.text_search {
            None => {},
            Some(v) => {
                v.cursor = 0;
                v.top = 0;
                if to_chars(&v.query).len() < 2 {
                    v.results = Vec::new();
                    assert(order::views_of(v.results@) =~= Seq::<search::HitModel>::empty());
                    v.status = owned("Type at least 2 characters");
                } else {
                    errand = Some(
                        Errand::Grep { root: owned(&v.root), query: owned(&v.query) },
                    );
                }
            },
        }
        assert(self@ == texts_wanted(m).0);
        errand
    }

    /// Takes the hits of a search for `query`, and whether there were too many.
    pub fn grepped(&mut self, query: &str, hits: Vec<TextHit>, capped: bool)
        requires
            app::steady(old(self)@),
        ensures
            app::steady(final(self)@),
            final(self)@ == texts_found(old(self)@, query@, order::views_of(hits@), capped),
    {
        let ghost m = self@;
        let n: usize = hits.len();
        let status = if n == 0 {
            join3("No matches for \"", query, "\"")
        } else if capped {
            numbered(
                &numbered("", n as u64, " match(es) — capped at "),
                TEXT_SEARCH_MAX_HITS as u64,
                "",
            )
        } else {
            String::new()
        };
        assert(status@ =~= hits_status(query@, order::views_of(hits@).len(), capped));
        match &mut self.text_search {
            None => {},
            Some(v) => {
                v.cursor = 0;
                v.top = 0;
                v.results = hits;
                v.status = status;
            },
        }
        assert(self@ == texts_found(m, query@, order::views_of(hits@), capped));
    }

    fn jump_to_text_hit(&mut self, hit: TextHit) -> (r: Option<Errand>)
        requires
            app::steady(old(self)@),
        ensures
            app::steady(final(self)@),
            (final(self)@, app::errand_view(r)) == to_hit(old(self)@, hit@),
    {
        let path = if is_absolute(&to_chars(&hit.path)) {
            hit.path
        } else {
            join_paths(&self.tree.root, &hit.path)
        };
        let here = match self.buffer.path() {
            Some(p) => is_same_path(p, &path),
            None => false,
        };
        if here {
            self.view.goto(&self.buffer, hit.line, hit.col);
            self.status = String::new();
            assert(self.status@ =~= Seq::<char>::empty());
            return None;
        }
        self.go_to_file(path, Jump::TextHit { line: hit.line, col: hit.col })
    }

    pub(crate) fn drive_text_search(&mut self, a: Action) -> (r: Option<Errand>)
        requires
            app::steady(old(self)@),
        ensures
            app::steady(final(self)@),
            (final(self)@, app::errand_view(r)) == text_dialog_key(old(self)@, a),
    {
        let ghost m = self@;
        if a == Action::Insert('\n') {
            let hit = match &self.text_search {
                None => {
                    return None;
                },
                Some(v) => {
                    if v.cursor < v.results.len() {
                        assert(v@.results[v.cursor as int] == v.results@[v.cursor as int]@);
                        Some(v.results[v.cursor].duplicate())
                    } else {
                        None
                    }
                },
            };
            self.text_search = None;
            return match hit {
                Some(h) => self.jump_to_text_hit(h),
                None => None,
            };
        }
        let mut changed = false;
        match &mut self.text_search {
            None => {},
            Some(v) => {
                if edit_line(&mut v.query, a) {
                    changed = true;
                } else {
                    v.cursor = move_in_list(v.cursor, v.results.len(), a);
                }
            },
        }
        if changed {
            self.refresh_text_search_results()
        } else {
            assert(self@ == text_dialog_key(m, a).0);
            None
        }
    }
}

} // verus!
