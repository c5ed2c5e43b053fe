//! How the editor starts, and what it writes to disk.

use vstd::prelude::*;

use crate::app;
use crate::app::{
    App, AppModel, Errand, ErrandModel, Mode, NavPoint, OpenedFile,
};
use crate::buffer;
use crate::buffer::Buffer;
use crate::error;
use crate::error::{numbered, EditorError};
use crate::git;
use crate::git::{LineChange, LineStatus};
use crate::language::Language;
use crate::lsp::path_to_uri;
use crate::order;
use crate::runtime;
use crate::runtime::ServerNotice;
use crate::syntax::Syntax;
use crate::text;
use crate::text::join2;
use crate::tree;
use crate::tree::{DirItem, FileTree};
use crate::tx;
use crate::tx::TxManager;
use crate::view;
use crate::view::View;

use vstd::view::View as _;

verus! {

/// How long after the last edit a buffer is saved by itself, in milliseconds.
pub const AUTOSAVE_DEBOUNCE: u64 = 500;

// ---------------------------------------------------------------------- start

/// An editor with no file, the tree of a directory beside it.
pub open spec fn empty_app(root: Seq<char>, items: Seq<tree::ItemModel>) -> AppModel {
    AppModel {
        buffer: buffer::BufferModel {
            text: Seq::empty(),
            path: None,
            version: 0,
            dirty: false,
            edits: Seq::empty(),
        },
        view: view::ViewModel { line: 0, col: 0, sticky: 0, top: 0 },
        syntax: None,
        running: true,
        status: Seq::empty(),
        git_status: Seq::empty(),
        servers: Seq::empty(),
        language: None,
        uri: None,
        attempted: false,
        lsp_version: 0,
        nav: Seq::empty(),
        tx: tx::empty_tx(),
        quit_pending: false,
        tree: tree::TreeModel {
            root,
            rows: tree::root_rows(root, items),
            cursor: 0,
            top: 0,
            focused: true,
        },
        autosave: false,
        last_edit: None,
        prompt: None,
        history: None,
        keys_help: false,
        open_file: None,
        type_search: None,
        text_search: None,
        diff: None,
        chord: None,
        mode: Mode::Edit,
        outbox: Seq::empty(),
    }
}

/// An editor with a file: the server of its language was to be started, and the
/// buffer has an address only if it was.
pub open spec fn file_app(
    path: Seq<char>,
    contents: Option<Seq<char>>,
    absolute: Seq<char>,
    diff: Result<String, String>,
    spawned: bool,
    root: Seq<char>,
    items: Seq<tree::ItemModel>,
) -> AppModel {
    let e = runtime::opened_entry(0, path, absolute, contents);
    let m = empty_app(root, items);
    AppModel {
        buffer: e.buffer,
        syntax: e.syntax,
        language: e.language,
        git_status: app::gutter_of(diff),
        servers: match e.language {
            Some(l) => if spawned {
                seq![l]
            } else {
                Seq::empty()
            },
            None => Seq::empty(),
        },
        uri: if e.language is Some && spawned {
            e.uri
        } else {
            None
        },
        attempted: e.language is Some,
        tree: tree::TreeModel { focused: false, ..m.tree },
        mode: Mode::View,
        ..m
    }
}

/// The buffer was written, or could not be.
pub open spec fn save_done(m: AppModel, written: Result<(), String>, diff: Result<String, String>)
    -> AppModel {
    if m.buffer.path is None {
        app::said(m, "Save failed: "@ + error::error_text(EditorError::NoPathToSave))
    } else {
        match written {
            Ok(_) => AppModel {
                buffer: buffer::BufferModel { dirty: false, ..m.buffer },
                status: error::with_number(
                    "Saved "@,
                    text::utf8_len(m.buffer.text) as int,
                    " bytes"@,
                ),
                git_status: app::gutter_of(diff),
                ..m
            },
            Err(e) => app::said(m, "Save failed: "@ + e@),
        }
    }
}

/// The buffer is to be saved by itself: it has a file and unsaved changes, and the
/// last of them is long enough ago.
pub open spec fn autosave_due(m: AppModel, now: u64) -> bool {
    &&& m.autosave
    &&& m.buffer.dirty
    &&& m.buffer.path is Some
    &&& match m.last_edit {
        Some(t) => now >= t && now - t >= AUTOSAVE_DEBOUNCE,
        None => false,
    }
}

/// The buffer was written by itself. If it could not be, nothing is said.
pub open spec fn autosave_done(
    m: AppModel,
    written: Result<(), String>,
    diff: Result<String, String>,
) -> AppModel {
    if m.buffer.path is Some && written is Ok {
        AppModel {
            buffer: buffer::BufferModel { dirty: false, ..m.buffer },
            status: error::with_number(
                "Autosaved "@,
                text::utf8_len(m.buffer.text) as int,
                " bytes"@,
            ),
            git_status: app::gutter_of(diff),
            last_edit: None,
            ..m
        }
    } else {
        m
    }
}

proof fn lemma_empty_ready(root: Seq<char>, items: Seq<tree::ItemModel>)
    ensures
        app::ready(empty_app(root, items)),
{
    crate::app::navigation::lemma_start_is_within(Seq::empty());
    tree::lemma_fresh_ok(root, items);
}

impl App {
    /// The editor for a directory: the tree has the keys, so that a file can be
    /// picked.
    pub fn new_for_dir(root: String, items: &Vec<DirItem>) -> (r: App)
        ensures
            app::ready(r@),
            r@ == empty_app(root@, tree::item_views(items@)),
    {
        proof {
            lemma_empty_ready(root@, tree::item_views(items@));
        }
        let mut tree = FileTree::new(root, items);
        tree.focused = true;
        let git_status: Vec<LineChange> = Vec::new();
        let servers: Vec<Language> = Vec::new();
        let nav_stack: Vec<NavPoint> = Vec::new();
        let outbox: Vec<ServerNotice> = Vec::new();
        let status = String::new();
        assert(status@ =~= Seq::<char>::empty());
        assert(git::change_pairs(git_status@) =~= Seq::empty());
        assert(servers@ =~= Seq::empty());
        assert(order::views_of(nav_stack@) =~= Seq::empty());
        assert(runtime::notice_views(outbox@) =~= Seq::empty());
        App {
            buffer: Buffer::scratch(),
            view: View::new(),
            syntax: None,
            running: true,
            status,
            git_status,
            servers,
            language: None,
            lsp_uri: None,
            lsp_attempted: false,
            lsp_version: 0,
            nav_stack,
            tx_manager: TxManager::new(),
            quit_pending: false,
            tree,
            autosave: false,
            last_edit: None,
            prompt: None,
            history: None,
            keys_help: false,
            open_file: None,
            type_search: None,
            text_search: None,
            diff: None,
            chord: None,
            mode: Mode::Edit,
            outbox,
        }
    }

    /// The editor for a file; `root` is the project that the file lies in, and
    /// `items` is what that directory holds.
    pub fn new(path: String, file: OpenedFile, root: String, items: &Vec<DirItem>) -> (r: Result<
        App,
        String,
    >)
        ensures
            match file.loaded {
                Ok(contents) => r matches Ok(a) && app::ready(a@) && a@ == file_app(
                    path@,
                    buffer::option_view(contents),
                    file.absolute@,
                    file.diff,
                    file.spawned,
                    root@,
                    tree::item_views(items@),
                ),
                Err(e) => r matches Err(x) && x@ == e@,
            },
    {
        let ghost p = path@;
        let ghost m = empty_app(root@, tree::item_views(items@));
        let OpenedFile { loaded, absolute, canonical: _, diff, spawned, listings: _ } = file;
        let contents = match loaded {
            Ok(c) => c,
            Err(e) => {
                return Err(e);
            },
        };
        let ghost e = runtime::opened_entry(0, p, absolute@, buffer::option_view(contents));
        let text = match &contents {
            Some(c) => Some(c.as_str()),
            None => None,
        };
        let mut app = App::new_for_dir(root, items);
        app.language = Language::for_path(&path);
        let mut syntax = Syntax::for_path(Some(&path));
        let mut buffer = Buffer::open(path, text);
        match &mut syntax {
            Some(syn) => {
                syn.refresh(buffer.rope(), buffer.version());
                let _ = buffer.drain_edits();
            },
            None => {},
        }
        assert(buffer@ =~= e.buffer);
        assert(app::maybe_view(syntax) == e.syntax);
        app.buffer = buffer;
        app.syntax = syntax;
        app.set_gutter(diff);
        match app.language {
            Some(l) => {
                app.lsp_attempted = true;
                if spawned {
                    app.servers.push(l);
                    assert(app.servers@ =~= seq![l]);
                    app.lsp_uri = Some(path_to_uri(&absolute));
                }
            },
            None => {},
        }
        app.tree.focused = false;
        app.mode = Mode::View;
        proof {
            crate::app::navigation::lemma_start_is_within(e.buffer.text);
        }
        Ok(app)
    }

    // --------------------------------------------------------------------- saving
    /// What became of a save.
    pub fn saved(&mut self, written: Result<(), String>, diff: Result<String, String>)
        requires
            app::ready(old(self)@),
        ensures
            app::ready(final(self)@),
            final(self)@ == save_done(old(self)@, written, diff),
    {
        let bytes: usize = self.buffer.len_bytes();
        match written {
            Ok(_) => match self.buffer.save(Ok(())) {
                Ok(_) => {
                    self.status = numbered("Saved ", bytes as u64, " bytes");
                    self.set_gutter(diff);
                },
                Err(e) => {
                    let text = e.message();
                    self.status = join2("Save failed: ", &text);
                },
            },
            Err(e) => {
                if self.buffer.path().is_none() {
                    let text = EditorError::NoPathToSave.message();
                    self.status = join2("Save failed: ", &text);
                } else {
                    self.status = join2("Save failed: ", &e);
                }
            },
        }
    }

    /// Asks for the buffer to be written if it is time for that.
    pub fn maybe_autosave(&self, now: u64) -> (r: Option<Errand>)
        ensures
            app::errand_view(r) == (if autosave_due(self@, now) {
                Some(
                    ErrandModel::Autosave {
                        path: self@.buffer.path->Some_0,
                        contents: self@.buffer.text,
                    },
                )
            } else {
                None
            }),
    {
        if !self.autosave || !self.buffer.is_dirty() {
            return None;
        }
        match self.last_edit {
            Some(t) => {
                if now < t || now - t < AUTOSAVE_DEBOUNCE {
                    return None;
                }
            },
            None => {
                return None;
            },
        }
        match self.buffer.save_target() {
            Ok((path, contents)) => Some(Errand::Autosave { path, contents }),
            Err(_) => None,
        }
    }

    /// What became of such a save.
    pub fn autosaved(&mut self, written: Result<(), String>, diff: Result<String, String>)
        requires
            app::ready(old(self)@),
        ensures
            app::ready(final(self)@),
            final(self)@ == autosave_done(old(self)@, written, diff),
    {
        let bytes: usize = self.buffer.len_bytes();
        if written.is_err() {
            return;
        }
        match self.buffer.save(Ok(())) {
            Ok(_) => {
                self.set_gutter(diff);
                self.status = numbered("Autosaved ", bytes as u64, " bytes");
                self.last_edit = None;
            },
            Err(_) => {},
        }
    }

    // -------------------------------------------------------------------- outside
    /// Hands out what the servers are to be told.
    pub fn take_notices(&mut self) -> (r: Vec<ServerNotice>)
        ensures
            runtime::notice_views(r@) == old(self)@.outbox,
            final(self)@ == (AppModel { outbox: Seq::empty(), ..old(self)@ }),
    {
        let mut taken: Vec<ServerNotice> = Vec::new();
        std::mem::swap(&mut taken, &mut self.outbox);
        assert(runtime::notice_views(self.outbox@) =~= Seq::empty());
        taken
    }

    /// The cursor is within the text.
    pub fn cursor_in_bounds(&self) -> (r: bool)
        ensures
            r == view::within(self@.view, self@.buffer.text),
    {
        self.view.in_bounds(&self.buffer)
    }

    /// How a line was changed since the last commit; of two changes of one line the
    /// later counts.
    pub fn line_status(&self, line: usize) -> (r: Option<LineStatus>)
        ensures
            r == status_of_line(self@.git_status, line as nat, self@.git_status.len() as int),
    {
        let ghost all = self@.git_status;
        let mut i: usize = self.git_status.len();
        while i > 0
            invariant
                i <= self.git_status@.len(),
                all == git::change_pairs(self.git_status@),
                status_of_line(all, line as nat, i as int) == status_of_line(
                    all,
                    line as nat,
                    all.len() as int,
                ),
            decreases i,
        {
            i -= 1;
            assert(all[i as int] == (
                self.git_status@[i as int].line as nat,
                self.git_status@[i as int].status,
            ));
            if self.git_status[i].line == line {
                return Some(self.git_status[i].status);
            }
        }
        None
    }
}

/// The status of a line among the first `n` changes.
pub open spec fn status_of_line(
    changes: Seq<(nat, LineStatus)>,
    line: nat,
    n: int,
) -> Option<LineStatus>
    decreases n,
{
    if n <= 0 {
        None
    } else if changes[n - 1].0 == line {
        Some(changes[n - 1].1)
    } else {
        status_of_line(changes, line, n - 1)
    }
}

/// A save that worked leaves no unsaved changes, so that the editor can be left at
/// once.
pub proof fn law_saved_can_be_left(
    m: AppModel,
    written: Result<(), String>,
    diff: Result<String, String>,
)
    requires
        m.buffer.path is Some,
        written is Ok,
    ensures
        !app::quit_wanted(save_done(m, written, diff)).running,
{
}

/// Nothing is saved by itself twice for one edit.
pub proof fn law_autosave_is_once(
    m: AppModel,
    written: Result<(), String>,
    diff: Result<String, String>,
    now: u64,
    later: u64,
)
    requires
        autosave_due(m, now),
        written is Ok,
    ensures
        !autosave_due(autosave_done(m, written, diff), later),
{
}

} // verus!
