//! Going to other places: definitions and back again, files that are opened, the
//! file tree, and what a server says of the symbol under the cursor.

use vstd::prelude::*;

use crate::action::Action;
use crate::app;
use crate::app::dialogs;
use crate::app::{App, AppModel, Env, Errand, ErrandModel, Jump, Mode, OpenedFile};
use crate::buffer;
use crate::buffer::Buffer;
use crate::hover;
use crate::hover::{extract_signature, looks_like_path_only, type_from_source_line};
use crate::language;
use crate::language::Language;
use crate::lsp;
use crate::lsp::{path_to_uri, uri_to_path, Location};
use crate::order;
use crate::paths;
use crate::paths::parent_of;
use crate::rope;
use crate::runtime;
use crate::runtime::requests;
use crate::runtime::requests::ServerRequest;
use crate::runtime::ServerNotice;
use crate::syntax;
use crate::syntax::Syntax;
use crate::text;
use crate::text::{join2, join3, owned};
use crate::tree;
use crate::tree::{Activation, DirItem, Listing};
use crate::view;
use crate::view::View;

use vstd::view::View as _;

verus! {

// ------------------------------------------------------------------ definitions

/// The definition of the symbol under the cursor is asked for.
pub open spec fn definition_wanted(m: AppModel) -> (AppModel, Option<ErrandModel>) {
    match app::asked_of(m) {
        None => (app::said(m, "LSP not available"@), None),
        Some((language, uri)) => (
            m,
            Some(
                ErrandModel::Ask(
                    requests::RequestModel::Definition {
                        language,
                        uri,
                        line: m.view.line as u32,
                        character: m.view.col as u32,
                    },
                ),
            ),
        ),
    }
}

/// What is said where a server knows nothing.
pub open spec fn unknown_status(m: AppModel, env: Env, otherwise: Seq<char>) -> Seq<char> {
    match app::server_of(m) {
        Some(l) => if env.indexing {
            app::still_indexing(l)
        } else {
            otherwise
        },
        None => otherwise,
    }
}

/// A definition in another file, or in this one, is gone to.
pub open spec fn to_location(m: AppModel, loc: Location, env: Env) -> (
    AppModel,
    Option<ErrandModel>,
) {
    let (line, col) = (loc.range.start.line, loc.range.start.character);
    if Some(loc.uri@) == m.uri {
        (
            app::settled(
                AppModel {
                    view: view::gone_to(m.view, m.buffer.text, line as int, col as int),
                    status: Seq::empty(),
                    ..m
                },
                env,
            ),
            None,
        )
    } else {
        match lsp::path_of(loc.uri@) {
            None => (
                app::settled(
                    app::said(m, "Definition has unparseable URI "@ + loc.uri@),
                    env,
                ),
                None,
            ),
            Some(path) => if m.buffer.dirty {
                (app::settled(app::said(m, app::unsaved()), env), None)
            } else {
                dialogs::to_file(
                    m,
                    path,
                    Jump::Definition { line: line as usize, col: col as usize },
                )
            },
        }
    }
}

/// The server has answered where the symbol is defined: the first place counts.
pub open spec fn definition_found(
    m: AppModel,
    answer: Result<Vec<Location>, String>,
    env: Env,
) -> (AppModel, Option<ErrandModel>) {
    match answer {
        Ok(locs) => if locs@.len() == 0 {
            (
                app::settled(
                    app::said(m, unknown_status(m, env, "No definition found"@)),
                    env,
                ),
                None,
            )
        } else {
            to_location(m, locs@[0], env)
        },
        Err(e) => (
            app::settled(app::said(m, "Definition lookup failed: "@ + e@), env),
            None,
        ),
    }
}

/// The last place on the stack is gone back to.
pub open spec fn back_wanted(m: AppModel) -> (AppModel, Option<ErrandModel>) {
    if m.nav.len() == 0 {
        (app::said(m, "Nothing to go back to"@), None)
    } else if m.buffer.dirty {
        (app::said(m, app::unsaved()), None)
    } else {
        let p = m.nav.last();
        (
            AppModel { nav: m.nav.drop_last(), ..m },
            Some(
                app::open_errand(
                    m,
                    p.path,
                    Jump::Back { line: p.line as usize, col: p.col as usize },
                ),
            ),
        )
    }
}

/// Bringing the cursor into view keeps the editor ready.
pub(crate) proof fn lemma_settled_ready(m: AppModel, env: Env)
    requires
        app::steady_but_syntax(m),
        view::within(m.view, m.buffer.text),
    ensures
        app::ready(app::settled(m, env)),
{
}

/// Going to a place in the text keeps the editor ready.
pub(crate) proof fn lemma_placed_ready(m: AppModel, line: int, col: int, status: Seq<char>)
    requires
        app::ready(m),
        line >= 0,
        col >= 0,
    ensures
        app::ready(
            AppModel { view: view::gone_to(m.view, m.buffer.text, line, col), status, ..m },
        ),
{
    view::law_movement_stays_within(m.view, m.buffer.text, 0, line, col);
}

proof fn lemma_definition_ready(m: AppModel, answer: Result<Vec<Location>, String>, env: Env)
    requires
        app::ready(m),
    ensures
        app::ready(definition_found(m, answer, env).0),
{
    match answer {
        Ok(locs) => {
            if locs@.len() == 0 {
                lemma_settled_ready(
                    app::said(m, unknown_status(m, env, "No definition found"@)),
                    env,
                );
            } else {
                let loc = locs@[0];
                let (line, col) = (loc.range.start.line, loc.range.start.character);
                lemma_placed_ready(m, line as int, col as int, Seq::empty());
                lemma_settled_ready(
                    AppModel {
                        view: view::gone_to(m.view, m.buffer.text, line as int, col as int),
                        status: Seq::empty(),
                        ..m
                    },
                    env,
                );
                lemma_settled_ready(
                    app::said(m, "Definition has unparseable URI "@ + loc.uri@),
                    env,
                );
                lemma_settled_ready(app::said(m, app::unsaved()), env);
            }
        },
        Err(e) => {
            lemma_settled_ready(app::said(m, "Definition lookup failed: "@ + e@), env);
        },
    }
}

impl App {
    pub(crate) fn go_to_definition(&mut self) -> (r: Option<Errand>)
        ensures
            (final(self)@, app::errand_view(r)) == definition_wanted(old(self)@),
    {
        match self.ask_whom() {
            None => {
                self.status = owned("LSP not available");
                None
            },
            Some((language, uri)) => {
                let line: u32 = self.view.cursor_line() as u32;
                let character: u32 = self.view.cursor_col() as u32;
                Some(Errand::Ask(ServerRequest::Definition { language, uri, line, character }))
            },
        }
    }

    fn say_unknown(&mut self, env: Env, otherwise: &str)
        ensures
            final(self)@ == app::said(
                old(self)@,
                unknown_status(old(self)@, env, otherwise@),
            ),
    {
        self.status = match self.active_server() {
            Some(l) => {
                if env.indexing {
                    join2(l.lsp_binary(), " still indexing — try again in a moment")
                } else {
                    owned(otherwise)
                }
            },
            None => owned(otherwise),
        };
    }

    fn go_to_location(&mut self, loc: &Location, env: Env) -> (r: Option<Errand>)
        requires
            app::syntax_right(old(self)@),
        ensures
            (final(self)@, app::errand_view(r)) == to_location(old(self)@, *loc, env),
    {
        let here = match &self.lsp_uri {
            Some(u) => text::same(u, &loc.uri),
            None => false,
        };
        let (line, col) = (loc.range.start.line as usize, loc.range.start.character as usize);
        if here {
            self.view.goto(&self.buffer, line, col);
            self.status = String::new();
            assert(self.status@ =~= Seq::<char>::empty());
            self.settle(env);
            return None;
        }
        match uri_to_path(&loc.uri) {
            None => {
                self.status = join2("Definition has unparseable URI ", &loc.uri);
                self.settle(env);
                None
            },
            Some(path) => {
                if self.buffer.is_dirty() {
                    self.status = owned("Save first — current buffer has unsaved changes");
                    self.settle(env);
                    return None;
                }
                self.go_to_file(path, Jump::Definition { line, col })
            },
        }
    }

    /// Takes the server's answer to where the symbol is defined.
    pub fn defined(&mut self, answer: Result<Vec<Location>, String>, env: Env) -> (r: Option<
        Errand,
    >)
        requires
            app::ready(old(self)@),
        ensures
            app::ready(final(self)@),
            (final(self)@, app::errand_view(r)) == definition_found(old(self)@, answer, env),
    {
        proof {
            lemma_definition_ready(self@, answer, env);
        }
        match answer {
            Ok(locs) => {
                if locs.len() == 0 {
                    self.say_unknown(env, "No definition found");
                    self.settle(env);
                    None
                } else {
                    self.go_to_location(&locs[0], env)
                }
            },
            Err(e) => {
                self.status = join2("Definition lookup failed: ", &e);
                self.settle(env);
                None
            },
        }
    }

    pub(crate) fn go_back(&mut self) -> (r: Option<Errand>)
        ensures
            (final(self)@, app::errand_view(r)) == back_wanted(old(self)@),
    {
        let ghost m = self@;
        if self.nav_stack.len() == 0 {
            self.status = owned("Nothing to go back to");
            return None;
        }
        if self.buffer.is_dirty() {
            self.status = owned("Save first — current buffer has unsaved changes");
            return None;
        }
        assert(m.nav.last() == self.nav_stack@.last()@);
        let p = self.nav_stack.pop().unwrap();
        assert(order::views_of(self.nav_stack@) =~= m.nav.drop_last());
        let jump = Jump::Back { line: p.line, col: p.col };
        Some(self.make_open(p.path, jump))
    }
}

// ------------------------------------------------------------------------ hover

/// What the server says of the symbol under the cursor is asked for.
pub open spec fn type_wanted(m: AppModel) -> (AppModel, Option<ErrandModel>) {
    match app::asked_of(m) {
        None => (app::said(m, "LSP not available"@), None),
        Some((language, uri)) => (
            m,
            Some(
                ErrandModel::Ask(
                    requests::RequestModel::Hover {
                        language,
                        uri,
                        line: m.view.line as u32,
                        character: m.view.col as u32,
                    },
                ),
            ),
        ),
    }
}

/// The type that is shown: in Rust a bare path gives way to what the source line
/// says.
pub open spec fn shown_type(m: AppModel, sig: Seq<char>) -> Seq<char> {
    if m.language == Some(Language::Rust) && hover::path_only(sig) && m.view.line
        < rope::line_count(m.buffer.text) {
        match hover::annotated_type(rope::line_text(m.buffer.text, m.view.line)) {
            Some(t) => t,
            None => sig,
        }
    } else {
        sig
    }
}

/// The server has said something of the symbol, or not.
pub open spec fn type_known(
    m: AppModel,
    answer: Result<Option<String>, String>,
    env: Env,
) -> AppModel {
    match answer {
        Ok(Some(t)) => match hover::signature_of(t@) {
            Some(sig) => app::said(m, "type: "@ + shown_type(m, sig)),
            None => app::said(m, "No type info"@),
        },
        Ok(None) => app::said(m, unknown_status(m, env, "No type info"@)),
        Err(e) => app::said(m, "Hover failed: "@ + e@),
    }
}

impl App {
    pub(crate) fn show_type(&mut self) -> (r: Option<Errand>)
        ensures
            (final(self)@, app::errand_view(r)) == type_wanted(old(self)@),
    {
        match self.ask_whom() {
            None => {
                self.status = owned("LSP not available");
                None
            },
            Some((language, uri)) => {
                let line: u32 = self.view.cursor_line() as u32;
                let character: u32 = self.view.cursor_col() as u32;
                Some(Errand::Ask(ServerRequest::Hover { language, uri, line, character }))
            },
        }
    }

    /// Takes what the server says of the symbol under the cursor.
    pub fn hovered(&mut self, answer: Result<Option<String>, String>, env: Env)
        requires
            app::ready(old(self)@),
        ensures
            app::ready(final(self)@),
            final(self)@ == type_known(old(self)@, answer, env),
    {
        match answer {
            Ok(Some(t)) => match extract_signature(&t) {
                Some(sig) => {
                    let from_source = match self.language {
                        Some(l) => l.supports_type_from_source_line(),
                        None => false,
                    };
                    let line: usize = self.view.cursor_line();
                    let resolved = if from_source && looks_like_path_only(&sig) {
                        match type_from_source_line(&self.buffer, line) {
                            Some(t) => t,
                            None => sig,
                        }
                    } else {
                        sig
                    };
                    self.status = join2("type: ", &resolved);
                },
                None => {
                    self.status = owned("No type info");
                },
            },
            Ok(None) => self.say_unknown(env, "No type info"),
            Err(e) => {
                self.status = join2("Hover failed: ", &e);
            },
        }
    }
}

// ---------------------------------------------------------------- opening files

/// The editor with another file in it.
pub open spec fn with_file(m: AppModel, path: Seq<char>, file: OpenedFile) -> AppModel {
    let contents = match file.loaded {
        Ok(c) => buffer::option_view(c),
        Err(_) => None,
    };
    let e = runtime::opened_entry(0, path, file.absolute@, contents);
    let (servers, outbox) = match e.language {
        Some(l) => if m.servers.contains(l) {
            (
                m.servers,
                m.outbox.push(
                    runtime::NoticeModel::Open {
                        language: l,
                        uri: lsp::uri_of(file.absolute@),
                        text: e.buffer.text,
                    },
                ),
            )
        } else {
            (
                if file.spawned {
                    m.servers.push(l)
                } else {
                    m.servers
                },
                m.outbox,
            )
        },
        None => (m.servers, m.outbox),
    };
    AppModel {
        buffer: e.buffer,
        syntax: e.syntax,
        language: e.language,
        uri: e.uri,
        servers,
        attempted: e.language is Some,
        outbox,
        git_status: app::gutter_of(file.diff),
        lsp_version: 0,
        view: view::ViewModel { line: 0, col: 0, sticky: 0, top: 0 },
        mode: Mode::View,
        tree: tree::revealed(m.tree, file.canonical@, file.listings@).0,
        ..m
    }
}

/// The stack without its last place.
pub open spec fn unmarked(m: AppModel) -> AppModel {
    if m.nav.len() > 0 {
        AppModel { nav: m.nav.drop_last(), ..m }
    } else {
        m
    }
}

/// A file could not be read.
pub open spec fn not_opened(m: AppModel, path: Seq<char>, jump: Jump, e: Seq<char>, env: Env) -> AppModel {
    match jump {
        Jump::Definition { line, col } => app::settled(
            app::said(unmarked(m), "Could not open "@ + path + (": "@ + e)),
            env,
        ),
        Jump::Back { line, col } => app::settled(
            app::said(m, "Could not reopen "@ + path + (": "@ + e)),
            env,
        ),
        Jump::Created => app::said(unmarked(m), "Created but failed to open: "@ + e),
        _ => app::said(unmarked(m), "Could not open "@ + path + (": "@ + e)),
    }
}

/// The cursor goes to a place in the file that is open, and the status is cleared.
pub open spec fn placed(m: AppModel, line: usize, col: usize) -> AppModel {
    AppModel {
        view: view::gone_to(m.view, m.buffer.text, line as int, col as int),
        status: Seq::empty(),
        ..m
    }
}

/// What is done once the file is open.
pub open spec fn arrived(
    m: AppModel,
    path: Seq<char>,
    jump: Jump,
    listings: Seq<Listing>,
    env: Env,
) -> AppModel {
    match jump {
        Jump::Definition { line, col } => app::settled(placed(m, line, col), env),
        Jump::Back { line, col } => app::settled(placed(m, line, col), env),
        Jump::Dialog => app::said(m, Seq::empty()),
        Jump::TextHit { line, col } => placed(m, line, col),
        Jump::TypeHit { line, col } => placed(m, line, col),
        Jump::Tree => app::said(
            AppModel { tree: tree::TreeModel { focused: false, ..m.tree }, ..m },
            Seq::empty(),
        ),
        Jump::Created => app::said(
            AppModel {
                tree: tree::TreeModel {
                    root: m.tree.root,
                    rows: tree::root_rows(
                        m.tree.root,
                        tree::listed_items(listings, m.tree.root),
                    ),
                    cursor: 0,
                    top: 0,
                    focused: false,
                },
                ..m
            },
            "Created "@ + path,
        ),
    }
}

/// The file that was to be opened is read, or not.
pub open spec fn file_opened(
    m: AppModel,
    path: Seq<char>,
    jump: Jump,
    file: OpenedFile,
    env: Env,
) -> AppModel {
    match file.loaded {
        Err(e) => not_opened(m, path, jump, e@, env),
        Ok(_) => arrived(with_file(m, path, file), path, jump, file.listings@, env),
    }
}

/// The start of a text is within it.
pub(crate) proof fn lemma_start_is_within(s: Seq<char>)
    ensures
        view::within(view::ViewModel { line: 0, col: 0, sticky: 0, top: 0 }, s),
{
    rope::lemma_line_start(s, 0);
}

proof fn lemma_with_file_ready(m: AppModel, path: Seq<char>, file: OpenedFile)
    requires
        app::ready(m),
    ensures
        app::ready(with_file(m, path, file)),
{
    let after = with_file(m, path, file);
    lemma_start_is_within(after.buffer.text);
    tree::lemma_revealed_ok(m.tree, file.canonical@, file.listings@);
}

proof fn lemma_opened_ready(m: AppModel, path: Seq<char>, jump: Jump, file: OpenedFile, env: Env)
    requires
        app::ready(m),
    ensures
        app::ready(file_opened(m, path, jump, file, env)),
{
    match file.loaded {
        Err(e) => {
            let failed = app::said(unmarked(m), "Could not open "@ + path + (": "@ + e@));
            let back = app::said(m, "Could not reopen "@ + path + (": "@ + e@));
            lemma_settled_ready(failed, env);
            lemma_settled_ready(back, env);
        },
        Ok(_) => {
            let there = with_file(m, path, file);
            lemma_with_file_ready(m, path, file);
            lemma_arrived_ready(there, path, jump, file.listings@, env);
        },
    }
}

proof fn lemma_arrived_ready(
    m: AppModel,
    path: Seq<char>,
    jump: Jump,
    listings: Seq<Listing>,
    env: Env,
)
    requires
        app::ready(m),
    ensures
        app::ready(arrived(m, path, jump, listings, env)),
{
    match jump {
        Jump::Definition { line, col } => {
            lemma_placed_ready(m, line as int, col as int, Seq::empty());
            lemma_settled_ready(placed(m, line, col), env);
        },
        Jump::Back { line, col } => {
            lemma_placed_ready(m, line as int, col as int, Seq::empty());
            lemma_settled_ready(placed(m, line, col), env);
        },
        Jump::TextHit { line, col } => {
            lemma_placed_ready(m, line as int, col as int, Seq::empty());
        },
        Jump::TypeHit { line, col } => {
            lemma_placed_ready(m, line as int, col as int, Seq::empty());
        },
        Jump::Created => {
            tree::lemma_fresh_ok(m.tree.root, tree::listed_items(listings, m.tree.root));
        },
        _ => {},
    }
}

impl App {
    fn unmark(&mut self)
        ensures
            final(self)@ == unmarked(old(self)@),
    {
        let ghost before = self@.nav;
        let _ = self.nav_stack.pop();
        assert(before.len() > 0 ==> order::views_of(self.nav_stack@) =~= before.drop_last());
        assert(before.len() == 0 ==> order::views_of(self.nav_stack@) =~= before);
    }

    /// The file is put into the editor.
    fn take_file(&mut self, path: String, contents: Option<String>, file: &OpenedFile)
        requires
            tree::tree_ok(old(self)@.tree),
            file.loaded matches Ok(c) && buffer::option_view(c) == buffer::option_view(contents),
        ensures
            final(self)@ == with_file(old(self)@, path@, *file),
    {
        let ghost m = self@;
        let ghost p = path@;
        let ghost e = runtime::opened_entry(0, p, file.absolute@, buffer::option_view(contents));
        let text = match &contents {
            Some(c) => Some(c.as_str()),
            None => None,
        };
        let language = Language::for_path(&path);
        let mut syntax = Syntax::for_path(Some(&path));
        let mut buffer = Buffer::open(path, text);
        match &mut syntax {
            Some(syn) => {
                syn.refresh(buffer.rope(), buffer.version());
                let _ = buffer.drain_edits();
            },
            None => {},
        }
        assert(buffer@ =~= e.buffer);
        assert(app::maybe_view(syntax) == e.syntax);
        let uri = path_to_uri(&file.absolute);
        match language {
            Some(l) => {
                if app::runs(&self.servers, l) {
                    let ghost before = runtime::notice_views(self.outbox@);
                    let notice = ServerNotice::Open {
                        language: l,
                        uri: owned(&uri),
                        text: buffer.text(),
                    };
                    let ghost model = notice@;
                    self.outbox.push(notice);
                    assert(runtime::notice_views(self.outbox@) =~= before.push(model));
                } else {
                    if file.spawned {
                        self.servers.push(l);
                    }
                }
            },
            None => {},
        }
        self.buffer = buffer;
        self.syntax = syntax;
        self.lsp_attempted = language.is_some();
        self.language = language;
        self.lsp_uri = Some(uri);
        self.lsp_version = 0;
        self.view = View::new();
        self.mode = Mode::View;
        let diff = match &file.diff {
            Ok(d) => Ok(owned(d)),
            Err(e) => Err(owned(e)),
        };
        assert(app::gutter_of(diff) == app::gutter_of(file.diff));
        self.set_gutter(diff);
        let _ = self.tree.reveal_path(&file.canonical, &file.listings);
    }

    fn place(&mut self, line: usize, col: usize)
        ensures
            final(self)@ == placed(old(self)@, line, col),
    {
        self.view.goto(&self.buffer, line, col);
        self.status = String::new();
        assert(self.status@ =~= Seq::<char>::empty());
    }

    fn refuse_file(&mut self, path: &str, jump: Jump, e: &str, env: Env)
        requires
            app::syntax_right(old(self)@),
        ensures
            final(self)@ == not_opened(old(self)@, path@, jump, e@, env),
    {
        match jump {
            Jump::Definition { line, col } => {
                self.unmark();
                self.status = join3("Could not open ", path, &join2(": ", e));
                self.settle(env);
            },
            Jump::Back { line, col } => {
                self.status = join3("Could not reopen ", path, &join2(": ", e));
                self.settle(env);
            },
            Jump::Created => {
                self.unmark();
                self.status = join2("Created but failed to open: ", e);
            },
            _ => {
                self.unmark();
                self.status = join3("Could not open ", path, &join2(": ", e));
            },
        }
    }

    /// Takes what came of reading the file at `path`.
    pub fn opened(&mut self, path: String, jump: Jump, file: OpenedFile, env: Env)
        requires
            app::ready(old(self)@),
        ensures
            app::ready(final(self)@),
            final(self)@ == file_opened(old(self)@, path@, jump, file, env),
    {
        proof {
            lemma_opened_ready(self@, path@, jump, file, env);
            lemma_with_file_ready(self@, path@, file);
        }
        let contents = match &file.loaded {
            Err(e) => {
                self.refuse_file(&path, jump, e, env);
                return;
            },
            Ok(c) => match c {
                Some(s) => Some(owned(s)),
                None => None,
            },
        };
        let name = owned(&path);
        self.take_file(path, contents, &file);
        match jump {
            Jump::Definition { line, col } => {
                self.place(line, col);
                self.settle(env);
            },
            Jump::Back { line, col } => {
                self.place(line, col);
                self.settle(env);
            },
            Jump::Dialog => {
                self.status = String::new();
                assert(self.status@ =~= Seq::<char>::empty());
            },
            Jump::TextHit { line, col } => self.place(line, col),
            Jump::TypeHit { line, col } => self.place(line, col),
            Jump::Tree => {
                self.tree.focused = false;
                self.status = String::new();
                assert(self.status@ =~= Seq::<char>::empty());
            },
            Jump::Created => {
                let root = owned(&self.tree.root);
                self.tree = tree::tree_from(root, &file.listings);
                self.status = join2("Created ", &name);
            },
        }
    }
}

// ------------------------------------------------------------------------- tree

/// The row under the tree's cursor is activated.
pub open spec fn row_activated(m: AppModel) -> (AppModel, Option<ErrandModel>) {
    if m.tree.cursor >= m.tree.rows.len() {
        (m, None)
    } else {
        let row = m.tree.rows[m.tree.cursor];
        if row.is_parent_link {
            (
                m,
                match paths::parent(m.tree.root) {
                    Some(dir) => Some(ErrandModel::ListRoot { dir }),
                    None => None,
                },
            )
        } else if !row.is_dir {
            dialogs::to_file(m, row.path, Jump::Tree)
        } else if row.expanded {
            (AppModel { tree: tree::activated(m.tree, Seq::empty()), ..m }, None)
        } else {
            (m, Some(ErrandModel::List { dir: row.path }))
        }
    }
}

/// What a key does in the tree.
pub open spec fn tree_key(m: AppModel, a: Action) -> (AppModel, Option<ErrandModel>) {
    match a {
        Action::MoveUp => (
            AppModel {
                tree: tree::TreeModel {
                    cursor: if m.tree.cursor > 0 {
                        m.tree.cursor - 1
                    } else {
                        0
                    },
                    ..m.tree
                },
                ..m
            },
            None,
        ),
        Action::MoveDown => (
            AppModel {
                tree: tree::TreeModel {
                    cursor: if m.tree.cursor + 1 < m.tree.rows.len() {
                        m.tree.cursor + 1
                    } else {
                        m.tree.cursor
                    },
                    ..m.tree
                },
                ..m
            },
            None,
        ),
        Action::Insert(c) => if c == '\n' {
            row_activated(m)
        } else {
            (m, None)
        },
        _ => (m, None),
    }
}

/// The tree is shown or hidden; where it is shown the buffer's file is looked for
/// in it.
pub open spec fn tree_toggled(m: AppModel) -> (AppModel, Option<ErrandModel>) {
    let focused = !m.tree.focused;
    (
        AppModel { tree: tree::TreeModel { focused, ..m.tree }, ..m },
        match m.buffer.path {
            Some(path) => if focused {
                Some(ErrandModel::Reveal { path })
            } else {
                None
            },
            None => None,
        },
    )
}

impl App {
    fn tree_activate(&mut self) -> (r: Option<Errand>)
        requires
            app::steady(old(self)@),
        ensures
            app::steady(final(self)@),
            (final(self)@, app::errand_view(r)) == row_activated(old(self)@),
    {
        let ghost m = self@;
        if let Some(dir) = self.tree.dir_to_expand() {
            return Some(Errand::List { dir });
        }
        let none: Vec<DirItem> = Vec::new();
        assert(tree::item_views(none@) =~= Seq::<tree::ItemModel>::empty());
        match self.tree.activate(&none) {
            Activation::Nothing => None,
            Activation::Ascend => match parent_of(&self.tree.root) {
                Some(dir) => Some(Errand::ListRoot { dir }),
                None => None,
            },
            Activation::Open(path) => self.go_to_file(path, Jump::Tree),
        }
    }

    pub(crate) fn drive_tree(&mut self, a: Action) -> (r: Option<Errand>)
        requires
            app::steady(old(self)@),
        ensures
            app::steady(final(self)@),
            (final(self)@, app::errand_view(r)) == tree_key(old(self)@, a),
    {
        match a {
            Action::MoveUp => {
                self.tree.move_up();
                None
            },
            Action::MoveDown => {
                self.tree.move_down();
                None
            },
            Action::Insert(c) => {
                if c == '\n' {
                    self.tree_activate()
                } else {
                    None
                }
            },
            _ => None,
        }
    }

    pub(crate) fn toggle_tree(&mut self) -> (r: Option<Errand>)
        requires
            app::steady(old(self)@),
        ensures
            app::steady(final(self)@),
            (final(self)@, app::errand_view(r)) == tree_toggled(old(self)@),
    {
        self.tree.focused = !self.tree.focused;
        if !self.tree.focused {
            return None;
        }
        match self.buffer.path() {
            Some(p) => Some(Errand::Reveal { path: owned(p) }),
            None => None,
        }
    }

    /// Takes what the directory under the tree's cursor holds.
    pub fn listed(&mut self, items: &Vec<DirItem>)
        requires
            app::steady(old(self)@),
        ensures
            app::steady(final(self)@),
            final(self)@ == (AppModel {
                tree: tree::activated(old(self)@.tree, tree::item_views(items@)),
                ..old(self)@
            }),
    {
        let _ = self.tree.activate(items);
    }

    /// Takes what the directory that the tree is to be rooted in holds.
    pub fn relisted(&mut self, items: &Vec<DirItem>)
        requires
            app::steady(old(self)@),
        ensures
            app::steady(final(self)@),
            final(self)@ == (AppModel {
                tree: tree::ascended(old(self)@.tree, tree::item_views(items@)),
                ..old(self)@
            }),
    {
        self.tree.ascend(items);
    }

    /// Takes what the directories on the way to the buffer's file hold.
    pub fn revealed(&mut self, canonical: &str, listings: &Vec<Listing>)
        requires
            app::steady(old(self)@),
        ensures
            app::steady(final(self)@),
            final(self)@ == (AppModel {
                tree: tree::revealed(old(self)@.tree, canonical@, listings@).0,
                ..old(self)@
            }),
    {
        let _ = self.tree.reveal_path(canonical, listings);
    }
}

} // verus!
