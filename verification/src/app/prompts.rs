//! The prompts in the status bar, and what confirming them does.

use vstd::prelude::*;

use crate::action::Action;
use crate::app;
use crate::app::dialogs;
use crate::app::dialogs::edit_line;
use crate::app::{
    App, AppModel, Env, Errand, ErrandModel, Jump, Prompt, PromptKind, PromptKindModel, PromptModel,
};
use crate::buffer;
use crate::error;
use crate::error::{numbered, EditorError};
use crate::lsp::{TextEdit, WorkspaceEdit};
use crate::order;
use crate::order::sort;
use crate::paths;
use crate::paths::{is_absolute, join_paths, parent_of};
use crate::protocol;
use crate::protocol::apply_text_edits;
use crate::rope;
use crate::runtime;
use crate::runtime::rename::copy_text_edits;
use crate::runtime::requests;
use crate::runtime::requests::ServerRequest;
use crate::scan;
use crate::scan::{number, parse_usize, trim_text};
use crate::text;
use crate::text::{join2, join3, owned, same, to_chars};
use crate::tx;
use crate::tx::TxId;
use crate::view;
use crate::view::is_word_char;

use vstd::view::View as _;

verus! {

// ---------------------------------------------------------------- starting them

/// The directory that a new file is put in: the one under the tree's cursor, or
/// the one that holds the file there, or the tree's root.
pub open spec fn new_file_dir(m: AppModel) -> Seq<char> {
    if m.tree.focused && m.tree.cursor < m.tree.rows.len() {
        let row = m.tree.rows[m.tree.cursor];
        if row.is_parent_link {
            m.tree.root
        } else if row.is_dir {
            row.path
        } else {
            match paths::parent(row.path) {
                Some(p) => p,
                None => m.tree.root,
            }
        }
    } else {
        m.tree.root
    }
}

/// A prompt opens, unless one is open.
pub open spec fn prompted(m: AppModel, p: PromptModel) -> AppModel {
    if m.prompt is Some {
        m
    } else {
        AppModel { prompt: Some(p), ..m }
    }
}

pub open spec fn new_file_prompt(m: AppModel) -> AppModel {
    prompted(
        m,
        PromptModel {
            label: "New file:"@,
            text: Seq::empty(),
            kind: PromptKindModel::NewFile { parent: new_file_dir(m) },
        },
    )
}

pub open spec fn line_prompt(m: AppModel) -> AppModel {
    prompted(
        m,
        PromptModel {
            label: "Go to line:"@,
            text: Seq::empty(),
            kind: PromptKindModel::GoToLine,
        },
    )
}

/// The word that position `i` is in or next to.
pub open spec fn word_at(s: Seq<char>, i: int) -> Seq<char> {
    s.subrange(
        view::run_start(s, i, |c: char| view::word_char(c)),
        view::run_end(s, i, |c: char| view::word_char(c)),
    )
}

/// The prompt for a new name opens on the word under the cursor.
pub open spec fn rename_prompt(m: AppModel) -> AppModel {
    match app::server_of(m) {
        None => app::said(m, "LSP not available"@),
        Some(_) => AppModel {
            prompt: Some(
                PromptModel {
                    label: "Rename to:"@,
                    text: word_at(m.buffer.text, view::cursor(m.view, m.buffer.text)),
                    kind: PromptKindModel::RenameSymbol {
                        line: m.view.line as u32,
                        character: m.view.col as u32,
                    },
                },
            ),
            ..m
        },
    }
}

/// The word that the cursor of `v` is in or next to.
pub fn word_at_cursor(buf: &crate::buffer::Buffer, v: &crate::view::View) -> (r: String)
    requires
        view::within(v@, buf@.text),
    ensures
        r@ == word_at(buf@.text, view::cursor(v@, buf@.text)),
{
    let idx: usize = v.char_idx(buf);
    let total: usize = buf.len_chars();
    let ghost s = buf@.text;
    let mut start: usize = idx;
    while start > 0 && is_word_char(buf.char_at(start - 1))
        invariant
            start <= idx <= s.len(),
            s == buf@.text,
            view::run_start(s, idx as int, |c: char| view::word_char(c)) == view::run_start(
                s,
                start as int,
                |c: char| view::word_char(c),
            ),
        decreases start,
    {
        start -= 1;
    }
    let mut end: usize = idx;
    while end < total && is_word_char(buf.char_at(end))
        invariant
            idx <= end <= total,
            total == s.len(),
            s == buf@.text,
            view::run_end(s, idx as int, |c: char| view::word_char(c)) == view::run_end(
                s,
                end as int,
                |c: char| view::word_char(c),
            ),
        decreases total - end,
    {
        end += 1;
    }
    buf.slice(start, end)
}

impl App {
    fn new_file_parent(&self) -> (r: String)
        ensures
            r@ == new_file_dir(self@),
    {
        if self.tree.focused && self.tree.cursor < self.tree.entries.len() {
            let e = &self.tree.entries[self.tree.cursor];
            assert(self@.tree.rows[self.tree.cursor as int] == e@);
            if e.is_parent_link {
                return owned(&self.tree.root);
            }
            if e.is_dir {
                return owned(&e.path);
            }
            if let Some(p) = parent_of(&e.path) {
                return p;
            }
        }
        owned(&self.tree.root)
    }

    pub(crate) fn start_new_file_prompt(&mut self)
        ensures
            final(self)@ == new_file_prompt(old(self)@),
    {
        if self.prompt.is_some() {
            return;
        }
        let parent = self.new_file_parent();
        let none = String::new();
        assert(none@ =~= Seq::<char>::empty());
        self.prompt = Some(
            Prompt { label: "New file:", buffer: none, kind: PromptKind::NewFile { parent } },
        );
    }

    pub(crate) fn start_goto_line_prompt(&mut self)
        ensures
            final(self)@ == line_prompt(old(self)@),
    {
        if self.prompt.is_some() {
            return;
        }
        let none = String::new();
        assert(none@ =~= Seq::<char>::empty());
        self.prompt = Some(
            Prompt { label: "Go to line:", buffer: none, kind: PromptKind::GoToLine },
        );
    }

    pub(crate) fn start_rename_prompt(&mut self)
        requires
            view::within(old(self)@.view, old(self)@.buffer.text),
        ensures
            final(self)@ == rename_prompt(old(self)@),
    {
        if self.active_server().is_none() {
            self.status = owned("LSP not available");
            return;
        }
        let line: u32 = self.view.cursor_line() as u32;
        let character: u32 = self.view.cursor_col() as u32;
        let current = word_at_cursor(&self.buffer, &self.view);
        self.prompt = Some(
            Prompt {
                label: "Rename to:",
                buffer: current,
                kind: PromptKind::RenameSymbol { line, character },
            },
        );
    }
}

// -------------------------------------------------------------- confirming them

/// A line is gone to by its number, counted from one.
pub open spec fn to_line(m: AppModel, typed: Seq<char>) -> AppModel {
    let t = scan::trim(typed);
    if t.len() == 0 {
        m
    } else {
        match scan::parse_number(t, usize::MAX as nat) {
            None => app::said(m, "Not a line number: "@ + t),
            Some(n) => if n == 0 {
                app::said(m, "Line numbers start at 1"@)
            } else {
                let target = view::min(n - 1, rope::line_count(m.buffer.text) - 1);
                let there = AppModel {
                    view: view::gone_to(m.view, m.buffer.text, target, 0),
                    ..m
                };
                if target + 1 != n {
                    app::said(
                        there,
                        error::with_number("Clamped to last line ("@, target + 1, ")"@),
                    )
                } else {
                    there
                }
            },
        }
    }
}

/// A file is to be created, once it is known whether it exists.
pub open spec fn to_new_file(parent: Seq<char>, typed: Seq<char>) -> Option<ErrandModel> {
    let t = scan::trim(typed);
    if t.len() == 0 {
        None
    } else {
        Some(
            ErrandModel::Exists {
                path: if paths::absolute(t) {
                    t
                } else {
                    paths::join(parent, t)
                },
            },
        )
    }
}

/// Staged changes are to be committed.
pub open spec fn to_commit(m: AppModel, repo_root: Seq<char>, typed: Seq<char>) -> (
    AppModel,
    Option<ErrandModel>,
) {
    let t = scan::trim(typed);
    if t.len() == 0 {
        (app::said(m, "Empty commit message — aborted"@), None)
    } else {
        (m, Some(ErrandModel::Commit { repo_root, message: t }))
    }
}

/// A symbol is to be renamed.
pub open spec fn to_rename(m: AppModel, line: u32, character: u32, typed: Seq<char>) -> (
    AppModel,
    Option<ErrandModel>,
) {
    let t = scan::trim(typed);
    if t.len() == 0 {
        (app::said(m, "Empty name — rename aborted"@), None)
    } else {
        match app::asked_of(m) {
            None => (app::said(m, "LSP not available"@), None),
            Some((language, uri)) => (
                m,
                Some(
                    ErrandModel::Ask(
                        requests::RequestModel::Rename {
                            language,
                            uri,
                            line,
                            character,
                            new_name: t,
                        },
                    ),
                ),
            ),
        }
    }
}

/// A prompt is confirmed.
pub open spec fn confirmed(m: AppModel, p: PromptModel) -> (AppModel, Option<ErrandModel>) {
    match p.kind {
        PromptKindModel::NewFile { parent } => (m, to_new_file(parent, p.text)),
        PromptKindModel::CommitMessage { repo_root } => to_commit(m, repo_root, p.text),
        PromptKindModel::RenameSymbol { line, character } => to_rename(
            m,
            line,
            character,
            p.text,
        ),
        PromptKindModel::GoToLine => (to_line(m, p.text), None),
    }
}

/// What a key does while a prompt is open.
pub open spec fn prompt_key(m: AppModel, a: Action) -> (AppModel, Option<ErrandModel>) {
    match m.prompt {
        None => (m, None),
        Some(p) => if a == Action::Escape {
            (AppModel { prompt: None, ..m }, None)
        } else if a == Action::Insert('\n') {
            confirmed(AppModel { prompt: None, ..m }, p)
        } else {
            (
                AppModel {
                    prompt: Some(PromptModel { text: dialogs::line_after(p.text, a), ..p }),
                    ..m
                },
                None,
            )
        },
    }
}

impl App {
    fn do_goto_line(&mut self, typed: &str)
        ensures
            final(self)@ == to_line(old(self)@, typed@),
    {
        let t = trim_text(typed);
        let cs = to_chars(&t);
        if cs.len() == 0 {
            return;
        }
        let n: usize = match parse_usize(&cs) {
            Some(n) => n,
            None => {
                self.status = join2("Not a line number: ", &t);
                return;
            },
        };
        if n == 0 {
            self.status = owned("Line numbers start at 1");
            return;
        }
        let count: usize = self.buffer.line_count();
        assert(rope::line_count(self@.buffer.text) >= 1);
        let last: usize = count - 1;
        let target: usize = if n - 1 <= last {
            n - 1
        } else {
            last
        };
        self.view.goto(&self.buffer, target, 0);
        if target + 1 != n {
            self.status = numbered("Clamped to last line (", (target + 1) as u64, ")");
        }
    }

    fn do_rename(&mut self, line: u32, character: u32, typed: &str) -> (r: Option<Errand>)
        ensures
            (final(self)@, app::errand_view(r)) == to_rename(
                old(self)@,
                line,
                character,
                typed@,
            ),
    {
        let new_name = trim_text(typed);
        if to_chars(&new_name).len() == 0 {
            self.status = owned("Empty name — rename aborted");
            return None;
        }
        match self.ask_whom() {
            None => {
                self.status = owned("LSP not available");
                None
            },
            Some((language, uri)) => Some(
                Errand::Ask(ServerRequest::Rename { language, uri, line, character, new_name }),
            ),
        }
    }

    fn do_commit(&mut self, repo_root: String, typed: &str) -> (r: Option<Errand>)
        ensures
            (final(self)@, app::errand_view(r)) == to_commit(old(self)@, repo_root@, typed@),
    {
        let message = trim_text(typed);
        if to_chars(&message).len() == 0 {
            self.status = owned("Empty commit message — aborted");
            return None;
        }
        Some(Errand::Commit { repo_root, message })
    }

    fn confirm_prompt(&mut self, p: Prompt) -> (r: Option<Errand>)
        ensures
            (final(self)@, app::errand_view(r)) == confirmed(old(self)@, p@),
    {
        match p.kind {
            PromptKind::NewFile { parent } => {
                let name = trim_text(&p.buffer);
                let cs = to_chars(&name);
                if cs.len() == 0 {
                    None
                } else if is_absolute(&cs) {
                    Some(Errand::Exists { path: name })
                } else {
                    Some(Errand::Exists { path: join_paths(&parent, &name) })
                }
            },
            PromptKind::CommitMessage { repo_root } => self.do_commit(repo_root, &p.buffer),
            PromptKind::RenameSymbol { line, character } => self.do_rename(
                line,
                character,
                &p.buffer,
            ),
            PromptKind::GoToLine => {
                self.do_goto_line(&p.buffer);
                None
            },
        }
    }

    pub(crate) fn drive_prompt(&mut self, a: Action) -> (r: Option<Errand>)
        ensures
            (final(self)@, app::errand_view(r)) == prompt_key(old(self)@, a),
    {
        if a == Action::Escape {
            self.prompt = None;
            return None;
        }
        if a == Action::Insert('\n') {
            return match self.prompt.take() {
                Some(p) => self.confirm_prompt(p),
                None => None,
            };
        }
        let ghost m = self@;
        match &mut self.prompt {
            Some(p) => {
                let _ = edit_line(&mut p.buffer, a);
            },
            None => {},
        }
        assert(self@ == prompt_key(m, a).0);
        None
    }
}

// -------------------------------------------------------------------- new files

/// Why a file was not created: its directory, or the file itself.
#[derive(Debug)]
pub enum CreateFailure {
    Dir(String),
    File(String),
}

/// It is known whether the file that is to be created exists.
pub open spec fn file_checked(m: AppModel, path: Seq<char>, exists: bool) -> (
    AppModel,
    Option<ErrandModel>,
) {
    if exists {
        (app::said(m, path + " already exists"@), None)
    } else if m.buffer.dirty {
        (app::said(m, app::unsaved()), None)
    } else {
        (m, Some(ErrandModel::Create { path, holder: paths::parent(path) }))
    }
}

/// The file was created, or not.
pub open spec fn file_created(m: AppModel, path: Seq<char>, made: Result<(), CreateFailure>) -> (
    AppModel,
    Option<ErrandModel>,
) {
    match made {
        Ok(_) => (
            app::marked_place(m),
            Some(app::open_errand(m, path, Jump::Created)),
        ),
        Err(CreateFailure::Dir(e)) => (
            app::said(
                m,
                "Could not create "@ + match paths::parent(path) {
                    Some(dir) => dir,
                    None => path,
                } + (": "@ + e@),
            ),
            None,
        ),
        Err(CreateFailure::File(e)) => (
            app::said(m, "Could not create "@ + path + (": "@ + e@)),
            None,
        ),
    }
}

impl App {
    /// Takes the answer to whether the file that is to be created exists.
    pub fn exists_known(&mut self, path: String, exists: bool) -> (r: Option<Errand>)
        requires
            app::steady(old(self)@),
        ensures
            app::steady(final(self)@),
            (final(self)@, app::errand_view(r)) == file_checked(old(self)@, path@, exists),
    {
        if exists {
            self.status = join2(&path, " already exists");
            return None;
        }
        if self.buffer.is_dirty() {
            self.status = owned("Save first — current buffer has unsaved changes");
            return None;
        }
        let holder = parent_of(&path);
        Some(Errand::Create { path, holder })
    }

    /// Takes what came of creating a file.
    pub fn created(&mut self, path: String, made: Result<(), CreateFailure>) -> (r: Option<Errand>)
        requires
            app::steady(old(self)@),
        ensures
            app::steady(final(self)@),
            (final(self)@, app::errand_view(r)) == file_created(old(self)@, path@, made),
    {
        match made {
            Ok(_) => {
                self.mark_place();
                Some(self.make_open(path, Jump::Created))
            },
            Err(CreateFailure::Dir(e)) => {
                let dir = match parent_of(&path) {
                    Some(d) => d,
                    None => path,
                };
                self.status = join3("Could not create ", &dir, &join2(": ", &e));
                None
            },
            Err(CreateFailure::File(e)) => {
                self.status = join3("Could not create ", &path, &join2(": ", &e));
                None
            },
        }
    }
}

// ----------------------------------------------------------------------- rename

/// How far the edits of a rename have got: the buffer, how many edits were made
/// in it, how many documents were left alone, and why an edit failed.
pub struct RenameRun {
    pub buffer: buffer::BufferModel,
    pub applied: nat,
    pub others: nat,
    pub failed: Option<EditorError>,
}

/// The edits of the first `n` documents: those of the buffer's own are made from
/// the end of the text to its start.
pub open spec fn run_upto(
    b: buffer::BufferModel,
    uri: Option<Seq<char>>,
    changes: Seq<(String, Vec<TextEdit>)>,
    n: int,
) -> RenameRun
    decreases n,
{
    if n <= 0 {
        RenameRun { buffer: b, applied: 0, others: 0, failed: None }
    } else {
        let run = run_upto(b, uri, changes, n - 1);
        if run.failed is Some {
            run
        } else if Some(changes[n - 1].0@) == uri {
            let edits = order::stable_sorted(changes[n - 1].1@);
            let (after, failed) = protocol::after_text_edits(
                run.buffer,
                edits,
                edits.len() as int,
            );
            RenameRun { buffer: after, applied: run.applied + edits.len(), failed, ..run }
        } else {
            RenameRun { others: run.others + 1, ..run }
        }
    }
}

/// How many edits the first `n` documents hold.
pub open spec fn edits_in(changes: Seq<(String, Vec<TextEdit>)>, n: int) -> nat
    decreases n,
{
    if n <= 0 {
        0
    } else {
        edits_in(changes, n - 1) + changes[n - 1].1@.len()
    }
}

/// What the status bar says of a rename.
pub open spec fn rename_status(applied: nat, others: nat) -> Seq<char> {
    if others > 0 {
        error::with_number(
            error::with_number("Renamed "@, applied as int, " occurrence(s); "@),
            others as int,
            " other file(s) need manual edit"@,
        )
    } else if applied == 0 {
        "Nothing to rename"@
    } else {
        error::with_number("Renamed "@, applied as int, " occurrence(s)"@)
    }
}

/// A cursor that is no longer within the text is pulled back into it.
pub open spec fn pulled_in(m: AppModel) -> AppModel {
    if view::within(m.view, m.buffer.text) {
        m
    } else {
        AppModel {
            view: view::gone_to(m.view, m.buffer.text, m.view.line, m.view.col),
            ..m
        }
    }
}

/// The server has answered a rename: the edits of this buffer are one transaction,
/// which is rolled back where one of them fails. The cursor stays within the text.
pub open spec fn rename_done(
    m: AppModel,
    name: Seq<char>,
    answer: Result<WorkspaceEdit, String>,
    env: Env,
) -> AppModel {
    pulled_in(rename_answered(m, name, answer, env))
}

/// What the server's answer to a rename does, but for the cursor.
pub open spec fn rename_answered(
    m: AppModel,
    name: Seq<char>,
    answer: Result<WorkspaceEdit, String>,
    env: Env,
) -> AppModel {
    match answer {
        Err(e) => app::said(m, "Rename failed: "@ + e@),
        Ok(w) => {
            let run = run_upto(m.buffer, m.uri, w.changes@, w.changes@.len() as int);
            let there = AppModel { buffer: run.buffer, ..m };
            let dropped = tx::TxModel { next_tx: (m.tx.next_tx + 1) as u64, ..m.tx };
            match run.failed {
                Some(e) => AppModel {
                    buffer: buffer::after_restore(run.buffer, buffer::snapshot_of(m.buffer)),
                    tx: dropped,
                    status: "Rename apply failed: "@ + error::error_text(e),
                    syntax: match m.syntax {
                        Some(x) => Some(
                            crate::syntax::SyntaxModel { cached_version: None, ..x },
                        ),
                        None => None,
                    },
                    ..m
                },
                None => app::parsed(
                    app::said(
                        if run.buffer.version == m.buffer.version {
                            AppModel { tx: dropped, ..there }
                        } else {
                            app::told(
                                AppModel {
                                    tx: runtime::logged(
                                        m.tx,
                                        "rename -> "@ + name,
                                        run.buffer,
                                    ),
                                    last_edit: Some(env.now),
                                    ..there
                                },
                            )
                        },
                        rename_status(run.applied, run.others),
                    ),
                ),
            }
        },
    }
}

proof fn lemma_run_fails(
    b: buffer::BufferModel,
    uri: Option<Seq<char>>,
    changes: Seq<(String, Vec<TextEdit>)>,
    i: int,
    n: int,
)
    requires
        0 <= i <= n,
        run_upto(b, uri, changes, i).failed is Some,
    ensures
        run_upto(b, uri, changes, n) == run_upto(b, uri, changes, i),
    decreases n - i,
{
    if i < n {
        lemma_run_fails(b, uri, changes, i, n - 1);
    }
}

proof fn lemma_edits_in(changes: Seq<(String, Vec<TextEdit>)>, i: int, n: int)
    requires
        0 <= i <= n,
    ensures
        edits_in(changes, i) <= edits_in(changes, n),
    decreases n - i,
{
    if i < n {
        lemma_edits_in(changes, i, n - 1);
    }
}

impl App {
    fn run_edits(&mut self, w: &WorkspaceEdit) -> (r: Result<(usize, usize), EditorError>)
        requires
            edits_in(w.changes@, w.changes@.len() as int) <= usize::MAX,
        ensures
            ({
                let run = run_upto(
                    old(self)@.buffer,
                    old(self)@.uri,
                    w.changes@,
                    w.changes@.len() as int,
                );
                &&& final(self)@ == (AppModel { buffer: run.buffer, ..old(self)@ })
                &&& match r {
                    Ok((applied, others)) => {
                        &&& run.failed is None
                        &&& applied == run.applied
                        &&& others == run.others
                    },
                    Err(e) => run.failed == Some(e),
                }
            }),
    {
        let ghost b = self@.buffer;
        let ghost uri = self@.uri;
        let ghost m = self@;
        let ghost cs = w.changes@;
        let mut applied: usize = 0;
        let mut others: usize = 0;
        let mut i: usize = 0;
        while i < w.changes.len()
            invariant
                cs == w.changes@,
                m == old(self)@,
                b == m.buffer,
                uri == m.uri,
                i <= cs.len(),
                w.changes.len() == cs.len(),
                others <= i,
                applied <= edits_in(cs, i as int),
                edits_in(cs, cs.len() as int) <= usize::MAX,
                run_upto(b, uri, cs, i as int) == (RenameRun {
                    buffer: self@.buffer,
                    applied: applied as nat,
                    others: others as nat,
                    failed: None,
                }),
                self@ == (AppModel { buffer: self@.buffer, ..m }),
            decreases cs.len() - i,
        {
            let here = match &self.lsp_uri {
                Some(u) => same(u, &w.changes[i].0),
                None => false,
            };
            proof {
                lemma_edits_in(cs, i + 1, cs.len() as int);
            }
            if here {
                let n: usize = w.changes[i].1.len();
                let edits = sort(copy_text_edits(&w.changes[i].1));
                proof {
                    lemma_sorted_len(cs[i as int].1@);
                }
                match apply_text_edits(&mut self.buffer, &edits) {
                    Ok(_) => {
                        applied += n;
                    },
                    Err(e) => {
                        assert(run_upto(b, uri, cs, i + 1).failed == Some(e));
                        proof {
                            lemma_run_fails(b, uri, cs, i + 1, cs.len() as int);
                        }
                        return Err(e);
                    },
                }
            } else {
                others += 1;
            }
            i += 1;
        }
        Ok((applied, others))
    }

    fn reparse(&mut self)
        ensures
            final(self)@ == app::parsed(old(self)@),
    {
        match &mut self.syntax {
            Some(syn) => {
                syn.invalidate();
                syn.refresh(self.buffer.rope(), self.buffer.version());
                let _ = self.buffer.drain_edits();
            },
            None => {},
        }
    }

    /// Takes the server's answer to a rename.
    pub fn renamed(&mut self, name: &str, answer: Result<WorkspaceEdit, String>, env: Env)
        requires
            app::steady(old(self)@),
            app::countable(old(self)@),
            answer matches Ok(w) ==> edits_in(w.changes@, w.changes@.len() as int) <= usize::MAX,
        ensures
            app::ready(final(self)@),
            exists|at: tx::Moment|
                tx::proper(at) && final(self)@ == rename_done(
                    #[trigger] app::clocked(old(self)@, at),
                    name@,
                    answer,
                    env,
                ),
    {
        self.tx_manager.tick();
        assert(self@ == app::clocked(old(self)@, self@.tx.now));
        self.rename_now(name, answer, env);
    }

    fn rename_now(&mut self, name: &str, answer: Result<WorkspaceEdit, String>, env: Env)
        requires
            app::steady(old(self)@),
            app::countable(old(self)@),
            answer matches Ok(w) ==> edits_in(w.changes@, w.changes@.len() as int) <= usize::MAX,
        ensures
            app::ready(final(self)@),
            final(self)@ == rename_done(old(self)@, name@, answer, env),
    {
        self.take_rename(name, answer, env);
        self.pull_in();
    }

    fn pull_in(&mut self)
        requires
            app::steady(old(self)@),
        ensures
            app::ready(final(self)@),
            final(self)@ == pulled_in(old(self)@),
    {
        if !self.cursor_in_bounds() {
            let line: usize = self.view.cursor_line();
            let col: usize = self.view.cursor_col();
            proof {
                let t = self@.buffer.text;
                view::lemma_in_text_is_within(
                    view::gone_to(self@.view, t, line as int, col as int),
                    t,
                );
            }
            self.view.goto(&self.buffer, line, col);
        }
    }

    fn take_rename(&mut self, name: &str, answer: Result<WorkspaceEdit, String>, env: Env)
        requires
            app::steady(old(self)@),
            app::countable(old(self)@),
            answer matches Ok(w) ==> edits_in(w.changes@, w.changes@.len() as int) <= usize::MAX,
        ensures
            app::steady(final(self)@),
            final(self)@ == rename_answered(old(self)@, name@, answer, env),
    {
        let ghost m = self@;
        let w = match answer {
            Ok(w) => w,
            Err(e) => {
                self.status = join2("Rename failed: ", &e);
                return;
            },
        };
        proof {
            lemma_rename_steady(m, name@, answer, env);
        }
        let pre_version: u64 = self.buffer.version();
        let tx_id: TxId = self.tx_manager.begin(join2("rename -> ", name), None, &self.buffer);
        match self.run_edits(&w) {
            Err(e) => self.drop_rename(tx_id, e, Ghost((m.tx, m.buffer))),
            Ok((applied, others)) => {
                let changed = self.buffer.version() != pre_version;
                self.log_rename(tx_id, changed, env, Ghost((m.tx, "rename -> "@ + name@)));
                self.status = if others > 0 {
                    numbered(
                        &numbered("Renamed ", applied as u64, " occurrence(s); "),
                        others as u64,
                        " other file(s) need manual edit",
                    )
                } else if applied == 0 {
                    owned("Nothing to rename")
                } else {
                    numbered("Renamed ", applied as u64, " occurrence(s)")
                };
                self.reparse();
            },
        }
    }

    fn drop_rename(
        &mut self,
        tx_id: TxId,
        e: EditorError,
        Ghost(before): Ghost<(tx::TxModel, buffer::BufferModel)>,
    )
        requires
            before.0.active.len() == 0,
            old(self)@.tx.active.len() == 1,
            old(self)@.tx.active[0].tx == tx_id.0,
            old(self)@.tx.active[0].snapshot == buffer::snapshot_of(before.1),
            old(self)@.tx == (tx::TxModel {
                next_tx: old(self)@.tx.next_tx,
                active: old(self)@.tx.active,
                ..before.0
            }),
        ensures
            final(self)@ == (AppModel {
                buffer: buffer::after_restore(
                    old(self)@.buffer,
                    buffer::snapshot_of(before.1),
                ),
                tx: tx::TxModel { next_tx: old(self)@.tx.next_tx, ..before.0 },
                status: "Rename apply failed: "@ + error::error_text(e),
                syntax: match old(self)@.syntax {
                    Some(x) => Some(crate::syntax::SyntaxModel { cached_version: None, ..x }),
                    None => None,
                },
                ..old(self)@
            }),
    {
        let _ = self.tx_manager.rollback(tx_id, &mut self.buffer);
        assert(self@.tx.active =~= before.0.active);
        match &mut self.syntax {
            Some(syn) => syn.invalidate(),
            None => {},
        }
        self.status = join2("Rename apply failed: ", &e.message());
    }

    fn log_rename(
        &mut self,
        tx_id: TxId,
        changed: bool,
        env: Env,
        Ghost(begun): Ghost<(tx::TxModel, Seq<char>)>,
    )
        requires
            app::countable(AppModel { tx: begun.0, ..old(self)@ }),
            begun.0.active.len() == 0,
            old(self)@.tx.active.len() == 1,
            old(self)@.tx.active[0].tx == tx_id.0 == begun.0.next_tx,
            old(self)@.tx.active[0].intent == begun.1,
            old(self)@.tx.active[0].conversation is None,
            old(self)@.tx == (tx::TxModel {
                next_tx: (begun.0.next_tx + 1) as u64,
                active: old(self)@.tx.active,
                ..begun.0
            }),
        ensures
            final(self)@ == (if changed {
                app::told(
                    AppModel {
                        tx: runtime::logged(begun.0, begun.1, old(self)@.buffer),
                        last_edit: Some(env.now),
                        ..old(self)@
                    },
                )
            } else {
                AppModel {
                    tx: tx::TxModel { next_tx: (begun.0.next_tx + 1) as u64, ..begun.0 },
                    ..old(self)@
                }
            }),
    {
        let ghost m = self@;
        if changed {
            let _ = self.tx_manager.record(tx_id, &self.buffer);
            assert(self@.tx.active =~= begun.0.active);
            assert(self@.tx =~= runtime::logged(begun.0, begun.1, m.buffer));
            self.last_edit = Some(env.now);
            self.notify_lsp_changed();
        } else {
            let _ = self.tx_manager.discard(tx_id);
            assert(self@.tx.active =~= begun.0.active);
        }
    }
}

proof fn lemma_rename_steady(
    m: AppModel,
    name: Seq<char>,
    answer: Result<WorkspaceEdit, String>,
    env: Env,
)
    requires
        app::steady(m),
        app::countable(m),
    ensures
        app::steady(rename_answered(m, name, answer, env)),
{
    match answer {
        Ok(w) => {
            lemma_run_path(m.buffer, m.uri, w.changes@, w.changes@.len() as int);
        },
        Err(_) => {},
    }
}

/// A rename whose edits do not fit leaves the text, whether it was saved, and the
/// history as they were, and says that it failed.
pub proof fn law_failed_renames_leave_no_trace(
    m: AppModel,
    name: Seq<char>,
    w: WorkspaceEdit,
    env: Env,
)
    requires
        run_upto(m.buffer, m.uri, w.changes@, w.changes@.len() as int).failed is Some,
    ensures
        ({
            let r = rename_done(m, name, Ok(w), env);
            &&& r.buffer.text == m.buffer.text
            &&& r.buffer.dirty == m.buffer.dirty
            &&& r.tx.history == m.tx.history
            &&& r.tx.active == m.tx.active
            &&& scan::starts_with(r.status, "Rename apply failed"@)
        }),
{
    let run = run_upto(m.buffer, m.uri, w.changes@, w.changes@.len() as int);
    let e = error::error_text(run.failed->Some_0);
    reveal_strlit("Rename apply failed: ");
    reveal_strlit("Rename apply failed");
    let whole = "Rename apply failed: "@ + e;
    let start = "Rename apply failed"@;
    assert(whole.take(start.len() as int) =~= start);
}

proof fn lemma_sorted_len(edits: Seq<TextEdit>)
    ensures
        order::stable_sorted(edits).len() == edits.len(),
    decreases edits.len(),
{
    if edits.len() > 0 {
        lemma_sorted_len(edits.drop_last());
        lemma_insert_len(order::stable_sorted(edits.drop_last()), edits.last());
    }
}

proof fn lemma_insert_len(edits: Seq<TextEdit>, x: TextEdit)
    ensures
        order::stable_insert(edits, x).len() == edits.len() + 1,
    decreases edits.len(),
{
    if edits.len() > 0 {
        lemma_insert_len(edits.drop_last(), x);
    }
}

/// Edits leave a buffer with its file.
proof fn lemma_run_path(
    b: buffer::BufferModel,
    uri: Option<Seq<char>>,
    changes: Seq<(String, Vec<TextEdit>)>,
    n: int,
)
    ensures
        run_upto(b, uri, changes, n).buffer.path == b.path,
    decreases n,
{
    if n > 0 {
        lemma_run_path(b, uri, changes, n - 1);
        let run = run_upto(b, uri, changes, n - 1);
        let edits = order::stable_sorted(changes[n - 1].1@);
        lemma_edits_path(run.buffer, edits, edits.len() as int);
    }
}

proof fn lemma_edits_path(b: buffer::BufferModel, edits: Seq<TextEdit>, n: int)
    ensures
        protocol::after_text_edits(b, edits, n).0.path == b.path,
    decreases n,
{
    if n > 0 {
        lemma_edits_path(b, edits, n - 1);
    }
}

} // verus!
