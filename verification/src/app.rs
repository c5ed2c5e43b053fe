//! The terminal editor: one buffer on the screen, the overlays above it, and what
//! each key does to them.
//!
//! `App::apply` takes an action and says which errand, if any, is to be run
//! outside: a file to read or write, a repository to ask, a language server to
//! question. What came of an errand is handed to the method for it, which may ask
//! for the next.

use vstd::prelude::*;

use crate::action;
use crate::action::{action_intent, Action};
use crate::buffer;
use crate::buffer::Buffer;
use crate::error;
use crate::error::EditorError;
use crate::git;
use crate::git::{diff_against_head, LineChange, LineStatus, LogEntry};
use crate::language;
use crate::language::Language;
use crate::order;
use crate::rope;
use crate::runtime;
use crate::runtime::requests;
use crate::runtime::requests::ServerRequest;
use crate::runtime::screen;
use crate::runtime::screen::{apply_key_edit, KeyEdit};
use crate::runtime::ServerNotice;
use crate::scan;
use crate::search;
use crate::search::TextHit;
use crate::syntax;
use crate::syntax::Syntax;
use crate::text;
use crate::text::{join2, owned};
use crate::tree;
use crate::tree::{FileTree, Listing};
use crate::tx;
use crate::tx::TxManager;
use crate::view;
use crate::view::View;

use vstd::view::View as _;

pub mod chords;
pub mod dialogs;
pub mod flows;
pub mod laws;
pub mod navigation;
pub mod panes;
pub mod prompts;
pub mod replies;
pub mod repository;
pub mod routing;
pub mod session;
pub mod starts;

verus! {

// ----------------------------------------------------------------------- types

/// Whether the keys may change the buffer.
#[derive(Clone, Copy, Debug, PartialEq, Eq, Structural)]
pub enum Mode {
    /// The buffer is only read.
    View,
    Edit,
}

/// A key that waits for the one that follows.
#[derive(Clone, Copy, Debug, PartialEq, Eq, Structural)]
pub enum Chord {
    CtrlG,
}

/// A line that is typed in the status bar.
#[derive(Debug)]
pub struct Prompt {
    pub label: &'static str,
    pub buffer: String,
    pub kind: PromptKind,
}

/// What a prompt is for.
#[derive(Debug)]
pub enum PromptKind {
    /// The name of a file to create in a directory.
    NewFile { parent: String },
    CommitMessage { repo_root: String },
    /// The new name of the symbol at a place.
    RenameSymbol { line: u32, character: u32 },
    GoToLine,
}

/// The dialog that finds a file by its name.
#[derive(Debug)]
pub struct OpenFileView {
    pub root: String,
    pub files: Vec<String>,
    pub query: String,
    /// The files that match, by their places in `files`.
    pub matches: Vec<usize>,
    pub cursor: usize,
    pub top: usize,
}

/// The dialog that finds a type in the workspace.
#[derive(Debug)]
pub struct TypeSearchView {
    pub query: String,
    pub results: Vec<TypeHit>,
    pub cursor: usize,
    pub top: usize,
    pub status: String,
}

#[derive(Debug)]
pub struct TypeHit {
    pub name: String,
    pub container: Option<String>,
    pub uri: String,
    pub line: u32,
    pub character: u32,
}

/// The dialog that finds a text in the project.
#[derive(Debug)]
pub struct TextSearchView {
    pub root: String,
    pub query: String,
    pub results: Vec<TextHit>,
    pub cursor: usize,
    pub top: usize,
    pub status: String,
}

/// The commits of a repository, and what one of them changed.
#[derive(Debug)]
pub struct HistoryView {
    pub entries: Vec<LogEntry>,
    pub cursor: usize,
    pub commit_lines: Vec<String>,
    pub commit_scroll: usize,
    pub repo_root: String,
}

/// The changed files of a repository, and the changes to one of them.
#[derive(Debug)]
pub struct GitView {
    pub files: Vec<GitFile>,
    pub cursor: usize,
    pub diff_lines: Vec<String>,
    pub diff_scroll: usize,
    pub repo_root: String,
}

#[derive(Debug)]
pub struct GitFile {
    /// The path relative to the repository.
    pub path: String,
    pub staged: char,
    pub unstaged: char,
    pub group: GitGroup,
}

/// The sections of the list of changed files, in the order they are listed.
#[derive(Clone, Copy, Debug, PartialEq, Eq, Structural)]
pub enum GitGroup {
    Staged,
    Both,
    Modified,
    Untracked,
}

/// A place to go back to.
#[derive(Debug)]
pub struct NavPoint {
    pub path: String,
    pub line: usize,
    pub col: usize,
}

/// What to do once a file is open.
#[derive(Clone, Copy, Debug, PartialEq, Eq, Structural)]
pub enum Jump {
    Definition { line: usize, col: usize },
    Back { line: usize, col: usize },
    Dialog,
    TextHit { line: usize, col: usize },
    TypeHit { line: usize, col: usize },
    Tree,
    Created,
}

/// What is to be run outside.
#[derive(Debug)]
pub enum Errand {
    Save { path: String, contents: String },
    Autosave { path: String, contents: String },
    /// Read a file, and start the server of its language if one is named.
    Open { path: String, spawn: Option<Language>, jump: Jump },
    Exists { path: String },
    Create { path: String, holder: Option<String> },
    /// List a directory that is to be expanded.
    List { dir: String },
    /// List the directory that the tree is to be rooted in.
    ListRoot { dir: String },
    Reveal { path: String },
    Walk { root: String },
    Grep { root: String, query: String },
    /// The state of the repository that a path lies in.
    Status { probe: String },
    /// The state of a repository, once more.
    Refresh { repo_root: String, gutter: bool },
    FileDiff { repo_root: String, path: String, untracked: bool, gutter: bool },
    Stage { repo_root: String, path: String },
    Unstage { repo_root: String, path: String },
    Commit { repo_root: String, message: String },
    /// The changes of the buffer's file.
    Gutter { path: String },
    Log { probe: String },
    Show { repo_root: String, sha: String },
    Ask(ServerRequest),
}

/// What the screen and the clock say, and whether the buffer's language server is
/// still indexing.
#[derive(Clone, Copy, Debug)]
pub struct Env {
    pub rows: u16,
    /// Milliseconds on a clock that does not go back.
    pub now: u64,
    pub indexing: bool,
}

/// What came of reading a file.
#[derive(Debug)]
pub struct OpenedFile {
    /// The contents, if there is a file.
    pub loaded: Result<Option<String>, String>,
    /// The path in absolute form.
    pub absolute: String,
    /// The path in the form that the tree holds.
    pub canonical: String,
    /// The file's changes since the last commit.
    pub diff: Result<String, String>,
    /// The server that was to be started is running.
    pub spawned: bool,
    /// What the directories on the way to the file hold.
    pub listings: Vec<Listing>,
}

pub struct App {
    pub buffer: Buffer,
    pub view: View,
    pub syntax: Option<Syntax>,
    pub running: bool,
    pub status: String,
    /// The changed lines of the file; of two for one line the later counts.
    pub git_status: Vec<LineChange>,
    /// The languages whose servers are running.
    pub servers: Vec<Language>,
    pub language: Option<Language>,
    pub lsp_uri: Option<String>,
    /// A server was to be started for the buffer's file.
    pub lsp_attempted: bool,
    pub lsp_version: i32,
    pub nav_stack: Vec<NavPoint>,
    pub tx_manager: TxManager,
    pub quit_pending: bool,
    pub tree: FileTree,
    pub autosave: bool,
    pub last_edit: Option<u64>,
    pub prompt: Option<Prompt>,
    pub history: Option<HistoryView>,
    pub keys_help: bool,
    pub open_file: Option<OpenFileView>,
    pub type_search: Option<TypeSearchView>,
    pub text_search: Option<TextSearchView>,
    pub diff: Option<GitView>,
    pub chord: Option<Chord>,
    pub mode: Mode,
    /// What the servers are to be told.
    pub outbox: Vec<ServerNotice>,
}

// ---------------------------------------------------------------------- models

pub struct PromptModel {
    pub label: Seq<char>,
    pub text: Seq<char>,
    pub kind: PromptKindModel,
}

pub enum PromptKindModel {
    NewFile { parent: Seq<char> },
    CommitMessage { repo_root: Seq<char> },
    RenameSymbol { line: u32, character: u32 },
    GoToLine,
}

impl vstd::view::View for PromptKind {
    type V = PromptKindModel;

    open spec fn view(&self) -> PromptKindModel {
        match *self {
            PromptKind::NewFile { parent } => PromptKindModel::NewFile { parent: parent@ },
            PromptKind::CommitMessage { repo_root } => PromptKindModel::CommitMessage {
                repo_root: repo_root@,
            },
            PromptKind::RenameSymbol { line, character } => PromptKindModel::RenameSymbol {
                line,
                character,
            },
            PromptKind::GoToLine => PromptKindModel::GoToLine,
        }
    }
}

impl vstd::view::View for Prompt {
    type V = PromptModel;

    open spec fn view(&self) -> PromptModel {
        PromptModel { label: self.label@, text: self.buffer@, kind: self.kind@ }
    }
}

#[verifier::ext_equal]
pub struct OpenFileModel {
    pub root: Seq<char>,
    pub files: Seq<Seq<char>>,
    pub query: Seq<char>,
    pub matches: Seq<int>,
    pub cursor: int,
    pub top: int,
}

impl vstd::view::View for OpenFileView {
    type V = OpenFileModel;

    open spec fn view(&self) -> OpenFileModel {
        OpenFileModel {
            root: self.root@,
            files: scan::string_views(self.files@),
            query: self.query@,
            matches: search::index_ints(self.matches@),
            cursor: self.cursor as int,
            top: self.top as int,
        }
    }
}

pub struct TypeHitModel {
    pub name: Seq<char>,
    pub container: Option<Seq<char>>,
    pub uri: Seq<char>,
    pub line: u32,
    pub character: u32,
}

impl vstd::view::View for TypeHit {
    type V = TypeHitModel;

    open spec fn view(&self) -> TypeHitModel {
        TypeHitModel {
            name: self.name@,
            container: buffer::option_view(self.container),
            uri: self.uri@,
            line: self.line,
            character: self.character,
        }
    }
}

#[verifier::ext_equal]
pub struct TypeSearchModel {
    pub query: Seq<char>,
    pub results: Seq<TypeHitModel>,
    pub cursor: int,
    pub top: int,
    pub status: Seq<char>,
}

impl vstd::view::View for TypeSearchView {
    type V = TypeSearchModel;

    open spec fn view(&self) -> TypeSearchModel {
        TypeSearchModel {
            query: self.query@,
            results: order::views_of(self.results@),
            cursor: self.cursor as int,
            top: self.top as int,
            status: self.status@,
        }
    }
}

#[verifier::ext_equal]
pub struct TextSearchModel {
    pub root: Seq<char>,
    pub query: Seq<char>,
    pub results: Seq<search::HitModel>,
    pub cursor: int,
    pub top: int,
    pub status: Seq<char>,
}

impl vstd::view::View for TextSearchView {
    type V = TextSearchModel;

    open spec fn view(&self) -> TextSearchModel {
        TextSearchModel {
            root: self.root@,
            query: self.query@,
            results: order::views_of(self.results@),
            cursor: self.cursor as int,
            top: self.top as int,
            status: self.status@,
        }
    }
}

pub struct LogModel {
    pub sha: Seq<char>,
    pub short_sha: Seq<char>,
    pub author: Seq<char>,
    pub date: Seq<char>,
    pub subject: Seq<char>,
}

impl vstd::view::View for LogEntry {
    type V = LogModel;

    open spec fn view(&self) -> LogModel {
        LogModel {
            sha: self.sha@,
            short_sha: self.short_sha@,
            author: self.author@,
            date: self.date@,
            subject: self.subject@,
        }
    }
}

#[verifier::ext_equal]
pub struct HistoryModel {
    pub entries: Seq<LogModel>,
    pub cursor: int,
    pub lines: Seq<Seq<char>>,
    pub scroll: int,
    pub repo_root: Seq<char>,
}

impl vstd::view::View for HistoryView {
    type V = HistoryModel;

    open spec fn view(&self) -> HistoryModel {
        HistoryModel {
            entries: order::views_of(self.entries@),
            cursor: self.cursor as int,
            lines: scan::string_views(self.commit_lines@),
            scroll: self.commit_scroll as int,
            repo_root: self.repo_root@,
        }
    }
}

pub struct GitFileModel {
    pub path: Seq<char>,
    pub staged: char,
    pub unstaged: char,
    pub group: GitGroup,
}

impl vstd::view::View for GitFile {
    type V = GitFileModel;

    open spec fn view(&self) -> GitFileModel {
        GitFileModel {
            path: self.path@,
            staged: self.staged,
            unstaged: self.unstaged,
            group: self.group,
        }
    }
}

#[verifier::ext_equal]
pub struct GitModel {
    pub files: Seq<GitFileModel>,
    pub cursor: int,
    pub lines: Seq<Seq<char>>,
    pub scroll: int,
    pub repo_root: Seq<char>,
}

impl vstd::view::View for GitView {
    type V = GitModel;

    open spec fn view(&self) -> GitModel {
        GitModel {
            files: order::views_of(self.files@),
            cursor: self.cursor as int,
            lines: scan::string_views(self.diff_lines@),
            scroll: self.diff_scroll as int,
            repo_root: self.repo_root@,
        }
    }
}

pub struct NavModel {
    pub path: Seq<char>,
    pub line: int,
    pub col: int,
}

impl vstd::view::View for NavPoint {
    type V = NavModel;

    open spec fn view(&self) -> NavModel {
        NavModel { path: self.path@, line: self.line as int, col: self.col as int }
    }
}

pub enum ErrandModel {
    Save { path: Seq<char>, contents: Seq<char> },
    Autosave { path: Seq<char>, contents: Seq<char> },
    Open { path: Seq<char>, spawn: Option<Language>, jump: Jump },
    Exists { path: Seq<char> },
    Create { path: Seq<char>, holder: Option<Seq<char>> },
    List { dir: Seq<char> },
    ListRoot { dir: Seq<char> },
    Reveal { path: Seq<char> },
    Walk { root: Seq<char> },
    Grep { root: Seq<char>, query: Seq<char> },
    Status { probe: Seq<char> },
    Refresh { repo_root: Seq<char>, gutter: bool },
    FileDiff { repo_root: Seq<char>, path: Seq<char>, untracked: bool, gutter: bool },
    Stage { repo_root: Seq<char>, path: Seq<char> },
    Unstage { repo_root: Seq<char>, path: Seq<char> },
    Commit { repo_root: Seq<char>, message: Seq<char> },
    Gutter { path: Seq<char> },
    Log { probe: Seq<char> },
    Show { repo_root: Seq<char>, sha: Seq<char> },
    Ask(requests::RequestModel),
}

impl vstd::view::View for Errand {
    type V = ErrandModel;

    open spec fn view(&self) -> ErrandModel {
        match *self {
            Errand::Save { path, contents } => ErrandModel::Save {
                path: path@,
                contents: contents@,
            },
            Errand::Autosave { path, contents } => ErrandModel::Autosave {
                path: path@,
                contents: contents@,
            },
            Errand::Open { path, spawn, jump } => ErrandModel::Open { path: path@, spawn, jump },
            Errand::Exists { path } => ErrandModel::Exists { path: path@ },
            Errand::Create { path, holder } => ErrandModel::Create {
                path: path@,
                holder: buffer::option_view(holder),
            },
            Errand::List { dir } => ErrandModel::List { dir: dir@ },
            Errand::ListRoot { dir } => ErrandModel::ListRoot { dir: dir@ },
            Errand::Reveal { path } => ErrandModel::Reveal { path: path@ },
            Errand::Walk { root } => ErrandModel::Walk { root: root@ },
            Errand::Grep { root, query } => ErrandModel::Grep { root: root@, query: query@ },
            Errand::Status { probe } => ErrandModel::Status { probe: probe@ },
            Errand::Refresh { repo_root, gutter } => ErrandModel::Refresh {
                repo_root: repo_root@,
                gutter,
            },
            Errand::FileDiff { repo_root, path, untracked, gutter } => ErrandModel::FileDiff {
                repo_root: repo_root@,
                path: path@,
                untracked,
                gutter,
            },
            Errand::Stage { repo_root, path } => ErrandModel::Stage {
                repo_root: repo_root@,
                path: path@,
            },
            Errand::Unstage { repo_root, path } => ErrandModel::Unstage {
                repo_root: repo_root@,
                path: path@,
            },
            Errand::Commit { repo_root, message } => ErrandModel::Commit {
                repo_root: repo_root@,
                message: message@,
            },
            Errand::Gutter { path } => ErrandModel::Gutter { path: path@ },
            Errand::Log { probe } => ErrandModel::Log { probe: probe@ },
            Errand::Show { repo_root, sha } => ErrandModel::Show {
                repo_root: repo_root@,
                sha: sha@,
            },
            Errand::Ask(q) => ErrandModel::Ask(q@),
        }
    }
}

pub open spec fn errand_view(e: Option<Errand>) -> Option<ErrandModel> {
    match e {
        Some(e) => Some(e@),
        None => None,
    }
}

/// What the editor is.
#[verifier::ext_equal]
pub struct AppModel {
    pub buffer: buffer::BufferModel,
    pub view: view::ViewModel,
    pub syntax: Option<syntax::SyntaxModel>,
    pub running: bool,
    pub status: Seq<char>,
    pub git_status: Seq<(nat, LineStatus)>,
    pub servers: Seq<Language>,
    pub language: Option<Language>,
    pub uri: Option<Seq<char>>,
    pub attempted: bool,
    pub lsp_version: int,
    pub nav: Seq<NavModel>,
    pub tx: tx::TxModel,
    pub quit_pending: bool,
    pub tree: tree::TreeModel,
    pub autosave: bool,
    pub last_edit: Option<u64>,
    pub prompt: Option<PromptModel>,
    pub history: Option<HistoryModel>,
    pub keys_help: bool,
    pub open_file: Option<OpenFileModel>,
    pub type_search: Option<TypeSearchModel>,
    pub text_search: Option<TextSearchModel>,
    pub diff: Option<GitModel>,
    pub chord: Option<Chord>,
    pub mode: Mode,
    pub outbox: Seq<runtime::NoticeModel>,
}

/// The view of what may be there.
pub open spec fn maybe_view<T: vstd::view::View>(o: Option<T>) -> Option<T::V> {
    match o {
        Some(x) => Some(x@),
        None => None,
    }
}

impl vstd::view::View for App {
    type V = AppModel;

    open spec fn view(&self) -> AppModel {
        AppModel {
            buffer: self.buffer@,
            view: self.view@,
            syntax: maybe_view(self.syntax),
            running: self.running,
            status: self.status@,
            git_status: git::change_pairs(self.git_status@),
            servers: self.servers@,
            language: self.language,
            uri: buffer::option_view(self.lsp_uri),
            attempted: self.lsp_attempted,
            lsp_version: self.lsp_version as int,
            nav: order::views_of(self.nav_stack@),
            tx: self.tx_manager@,
            quit_pending: self.quit_pending,
            tree: self.tree@,
            autosave: self.autosave,
            last_edit: self.last_edit,
            prompt: maybe_view(self.prompt),
            history: maybe_view(self.history),
            keys_help: self.keys_help,
            open_file: maybe_view(self.open_file),
            type_search: maybe_view(self.type_search),
            text_search: maybe_view(self.text_search),
            diff: maybe_view(self.diff),
            chord: self.chord,
            mode: self.mode,
            outbox: runtime::notice_views(self.outbox@),
        }
    }
}

// ------------------------------------------------------------------- invariants

/// A cursor in a list.
pub open spec fn cursor_ok(cursor: int, len: nat) -> bool {
    0 <= cursor && (cursor < len || cursor == 0)
}

/// The overlays: their cursors are on rows that are there.
pub open spec fn overlays_ok(m: AppModel) -> bool {
    &&& m.open_file matches Some(v) ==> {
        &&& cursor_ok(v.cursor, v.matches.len())
        &&& forall|i: int| 0 <= i < v.matches.len() ==> 0 <= #[trigger] v.matches[i] < v.files.len()
    }
    &&& m.type_search matches Some(v) ==> cursor_ok(v.cursor, v.results.len())
    &&& m.text_search matches Some(v) ==> cursor_ok(v.cursor, v.results.len())
    &&& m.history matches Some(v) ==> v.cursor < v.entries.len() && v.cursor >= 0 && v.scroll >= 0
    &&& m.diff matches Some(v) ==> v.cursor < v.files.len() && v.cursor >= 0 && v.scroll >= 0
}

/// The syntax of a text at a version.
pub open spec fn syntax_at(s: Seq<char>, version: u64) -> syntax::SyntaxModel {
    syntax::SyntaxModel {
        parsed: Some(s),
        cached_version: Some(version),
        spans: syntax::text_spans(s),
    }
}

/// The syntax is right for the version it was made for.
pub open spec fn syntax_right(m: AppModel) -> bool {
    match m.syntax {
        Some(x) => x.cached_version == Some(m.buffer.version) ==> x == syntax_at(
            m.buffer.text,
            m.buffer.version,
        ),
        None => true,
    }
}

/// The syntax is that of the text, or is to be made anew.
pub open spec fn syntax_kept(m: AppModel) -> bool {
    match m.syntax {
        Some(x) => x.cached_version is None || x == syntax_at(m.buffer.text, m.buffer.version),
        None => true,
    }
}

/// The buffer's language is that of its file, a syntax is kept where there is a
/// grammar, no transaction is open, and the overlays and the tree are in order.
pub open spec fn steady_but_syntax(m: AppModel) -> bool {
    &&& m.language == runtime::path_language(m.buffer.path)
    &&& m.syntax is Some <==> syntax::has_grammar(m.buffer.path)
    &&& m.view.sticky >= 0
    &&& m.view.top >= 0
    &&& tx::orderly(m.tx)
    &&& m.tx.active.len() == 0
    &&& tree::tree_ok(m.tree)
    &&& overlays_ok(m)
}

/// What holds of the editor whenever no key is being worked on, but for where its
/// cursor is.
pub open spec fn steady(m: AppModel) -> bool {
    steady_but_syntax(m) && syntax_kept(m)
}

/// The editor is steady, and its cursor is within the text.
pub open spec fn ready(m: AppModel) -> bool {
    steady(m) && view::within(m.view, m.buffer.text)
}

/// The counters can go up once more.
pub open spec fn countable(m: AppModel) -> bool {
    &&& m.tx.next_tx < u64::MAX
    &&& m.tx.next_change < u64::MAX
    &&& m.lsp_version < i32::MAX
}

// ----------------------------------------------------------------------- pieces

/// The same editor at another moment.
pub open spec fn clocked(m: AppModel, at: tx::Moment) -> AppModel {
    AppModel { tx: tx::at_moment(m.tx, at), ..m }
}

pub open spec fn said(m: AppModel, status: Seq<char>) -> AppModel {
    AppModel { status, ..m }
}

/// The server of the buffer's language, if it is running.
pub open spec fn server_of(m: AppModel) -> Option<Language> {
    match m.language {
        Some(l) => if m.servers.contains(l) {
            Some(l)
        } else {
            None
        },
        None => None,
    }
}

/// The server of the buffer's language and the buffer's address there.
pub open spec fn asked_of(m: AppModel) -> Option<(Language, Seq<char>)> {
    match server_of(m) {
        Some(l) => match m.uri {
            Some(u) => Some((l, u)),
            None => None,
        },
        None => None,
    }
}

pub open spec fn still_indexing(l: Language) -> Seq<char> {
    language::server_binary(l) + " still indexing — try again in a moment"@
}

pub open spec fn unsaved() -> Seq<char> {
    "Save first — current buffer has unsaved changes"@
}

/// The changed lines that a diff tells of.
pub open spec fn gutter_of(diff: Result<String, String>) -> Seq<(nat, LineStatus)> {
    match diff {
        Ok(d) => if git::line_numbers_fit(d@) {
            git::changes_of(d@)
        } else {
            Seq::empty()
        },
        Err(_) => Seq::empty(),
    }
}

/// The place that the cursor is at, put on the stack.
pub open spec fn marked_place(m: AppModel) -> AppModel {
    match m.buffer.path {
        Some(path) => AppModel {
            nav: m.nav.push(NavModel { path, line: m.view.line, col: m.view.col }),
            ..m
        },
        None => m,
    }
}

/// The errand that opens a file.
pub open spec fn open_errand(m: AppModel, path: Seq<char>, jump: Jump) -> ErrandModel {
    ErrandModel::Open {
        path,
        spawn: match language::language_of(path) {
            Some(l) => if m.servers.contains(l) {
                None
            } else {
                Some(l)
            },
            None => None,
        },
        jump,
    }
}

/// The server is told that the buffer has changed.
pub open spec fn told(m: AppModel) -> AppModel {
    match m.language {
        None => m,
        Some(l) => match m.uri {
            None => m,
            Some(uri) => AppModel {
                lsp_version: m.lsp_version + 1,
                outbox: if m.servers.contains(l) {
                    m.outbox.push(
                        runtime::NoticeModel::Change {
                            language: l,
                            uri,
                            version: m.lsp_version + 1,
                            text: m.buffer.text,
                        },
                    )
                } else {
                    m.outbox
                },
                ..m
            },
        },
    }
}

/// The syntax is brought up to the text.
pub open spec fn parsed(m: AppModel) -> AppModel {
    match m.syntax {
        Some(_) => AppModel {
            syntax: Some(syntax_at(m.buffer.text, m.buffer.version)),
            buffer: buffer::BufferModel { edits: Seq::empty(), ..m.buffer },
            ..m
        },
        None => m,
    }
}

/// How many rows of text there are: the last one is the status bar.
pub open spec fn text_rows(rows: u16) -> u16 {
    if rows > 0 {
        (rows - 1) as u16
    } else {
        0
    }
}

/// The cursor is brought into view, and the syntax up to the text.
pub open spec fn settled(m: AppModel, env: Env) -> AppModel {
    parsed(
        AppModel {
            view: view::ViewModel {
                top: view::scrolled(
                    m.view.top,
                    m.view.line,
                    view::page_step(text_rows(env.rows)),
                ),
                ..m.view
            },
            ..m
        },
    )
}

impl App {
    /// The server of the buffer's language, if it is running.
    pub fn active_server(&self) -> (r: Option<Language>)
        ensures
            r == server_of(self@),
    {
        match self.language {
            Some(l) => {
                if runs(&self.servers, l) {
                    Some(l)
                } else {
                    None
                }
            },
            None => None,
        }
    }

    pub(crate) fn ask_whom(&self) -> (r: Option<(Language, String)>)
        ensures
            match r {
                Some((l, u)) => asked_of(self@) == Some((l, u@)),
                None => asked_of(self@) is None,
            },
    {
        match self.active_server() {
            Some(l) => match &self.lsp_uri {
                Some(u) => Some((l, owned(u))),
                None => None,
            },
            None => None,
        }
    }

    pub(crate) fn mark_place(&mut self)
        ensures
            final(self)@ == marked_place(old(self)@),
    {
        let ghost before = self@.nav;
        let place = match self.buffer.path() {
            Some(p) => Some(
                NavPoint {
                    path: owned(p),
                    line: self.view.cursor_line(),
                    col: self.view.cursor_col(),
                },
            ),
            None => None,
        };
        match place {
            Some(p) => {
                let ghost model = p@;
                self.nav_stack.push(p);
                assert(order::views_of(self.nav_stack@) =~= before.push(model));
            },
            None => {},
        }
    }

    pub(crate) fn make_open(&self, path: String, jump: Jump) -> (r: Errand)
        ensures
            r@ == open_errand(self@, path@, jump),
    {
        let spawn = match Language::for_path(&path) {
            Some(l) => {
                if runs(&self.servers, l) {
                    None
                } else {
                    Some(l)
                }
            },
            None => None,
        };
        Errand::Open { path, spawn, jump }
    }

    pub(crate) fn notify_lsp_changed(&mut self)
        requires
            old(self)@.lsp_version < i32::MAX,
        ensures
            final(self)@ == told(old(self)@),
    {
        let language = match self.language {
            Some(l) => l,
            None => {
                return;
            },
        };
        let uri = match &self.lsp_uri {
            Some(u) => owned(u),
            None => {
                return;
            },
        };
        self.lsp_version += 1;
        if runs(&self.servers, language) {
            let ghost before = runtime::notice_views(self.outbox@);
            let notice = ServerNotice::Change {
                language,
                uri,
                version: self.lsp_version,
                text: self.buffer.text(),
            };
            let ghost model = notice@;
            self.outbox.push(notice);
            assert(runtime::notice_views(self.outbox@) =~= before.push(model));
        }
    }

    pub(crate) fn parse(&mut self)
        requires
            syntax_right(old(self)@),
        ensures
            final(self)@ == parsed(old(self)@),
    {
        match &mut self.syntax {
            Some(syn) => {
                syn.refresh(self.buffer.rope(), self.buffer.version());
                let _ = self.buffer.drain_edits();
            },
            None => {},
        }
    }

    pub(crate) fn settle(&mut self, env: Env)
        requires
            syntax_right(old(self)@),
        ensures
            final(self)@ == settled(old(self)@, env),
    {
        let rows: u16 = if env.rows > 0 {
            env.rows - 1
        } else {
            0
        };
        self.view.scroll_into_view(rows);
        self.parse();
    }

    pub(crate) fn set_gutter(&mut self, diff: Result<String, String>)
        ensures
            final(self)@ == (AppModel { git_status: gutter_of(diff), ..old(self)@ }),
    {
        self.git_status = gutter_lines(diff);
    }
}

/// The changed lines that a diff tells of; none if the diff cannot be had.
pub fn gutter_lines(diff: Result<String, String>) -> (r: Vec<LineChange>)
    ensures
        git::change_pairs(r@) == gutter_of(diff),
{
    match diff_against_head(diff) {
        Ok(Some(changes)) => changes,
        _ => {
            let none: Vec<LineChange> = Vec::new();
            assert(git::change_pairs(none@) =~= Seq::empty());
            none
        },
    }
}

pub(crate) fn runs(servers: &Vec<Language>, l: Language) -> (r: bool)
    ensures
        r == servers@.contains(l),
{
    let mut i: usize = 0;
    while i < servers.len()
        invariant
            i <= servers@.len(),
            forall|k: int| 0 <= k < i ==> servers@[k] != l,
        decreases servers@.len() - i,
    {
        if servers[i] == l {
            return true;
        }
        i += 1;
    }
    false
}

// ------------------------------------------------------------------------ edits

/// The edit that an action makes.
pub open spec fn edit_of(m: AppModel, a: Action) -> KeyEdit {
    let s = m.buffer.text;
    let i = view::cursor(m.view, s);
    match a {
        Action::Insert(c) => KeyEdit::InsertChar(i as usize, c),
        Action::DeletePrev => if i > 0 {
            KeyEdit::Delete((i - 1) as usize, i as usize)
        } else {
            KeyEdit::Nothing
        },
        Action::DeleteNext => if i < s.len() {
            KeyEdit::Delete(i as usize, (i + 1) as usize)
        } else {
            KeyEdit::Nothing
        },
        Action::ClearLine => {
            let start = rope::line_start(s, m.view.line);
            let len = rope::line_len(s, m.view.line);
            if len > 0 {
                KeyEdit::Delete(start as usize, (start + len) as usize)
            } else {
                KeyEdit::Nothing
            }
        },
        _ => KeyEdit::Nothing,
    }
}

/// Where an edit leaves the cursor, in the text `t` that it makes.
pub open spec fn view_after_edit(m: AppModel, a: Action, t: Seq<char>) -> view::ViewModel {
    match a {
        Action::Insert(c) => view::after_typing(m.view, t, seq![c]),
        Action::DeletePrev => if view::cursor(m.view, m.buffer.text) > 0 {
            view::left_of(m.view, t)
        } else {
            m.view
        },
        Action::ClearLine => view::gone_to(m.view, t, m.view.line, 0),
        _ => m.view,
    }
}

/// An edit by hand is a transaction of its own, and the server is told of it. One
/// that changes nothing leaves no trace but a used transaction id.
pub open spec fn edited(m: AppModel, a: Action, env: Env) -> AppModel {
    let b = screen::after_key_edit(m.buffer, edit_of(m, a));
    let there = AppModel { buffer: b, view: view_after_edit(m, a, b.text), ..m };
    if b.version == m.buffer.version {
        AppModel {
            tx: tx::TxModel { next_tx: (m.tx.next_tx + 1) as u64, ..m.tx },
            ..there
        }
    } else {
        told(
            AppModel {
                tx: runtime::logged(m.tx, action::intent_of(a)->Some_0, b),
                last_edit: Some(env.now),
                ..there
            },
        )
    }
}

/// The actions that change the buffer.
pub open spec fn edits(a: Action) -> bool {
    a is Insert || a is DeletePrev || a is DeleteNext || a is ClearLine
}

/// Where a movement takes the cursor.
pub open spec fn moved(v: view::ViewModel, s: Seq<char>, a: Action, rows: u16) -> view::ViewModel {
    match a {
        Action::MoveLeft => view::left_of(v, s),
        Action::MoveRight => view::right_of(v, s),
        Action::MoveUp => view::above(v, s),
        Action::MoveDown => view::below(v, s),
        Action::MoveWordLeft => view::word_left_of(v, s),
        Action::MoveWordRight => view::word_right_of(v, s),
        Action::MoveHome => view::moved(v, v.line, 0),
        Action::MoveEnd => view::moved(v, v.line, rope::line_len(s, v.line) as int),
        Action::PageUp => view::paged_up(v, s, text_rows(rows)),
        Action::PageDown => view::paged_down(v, s, text_rows(rows)),
        _ => v,
    }
}

/// The buffer is to be saved.
pub open spec fn save_wanted(m: AppModel) -> (AppModel, Option<ErrandModel>) {
    match m.buffer.path {
        Some(path) => (m, Some(ErrandModel::Save { path, contents: m.buffer.text })),
        None => (
            said(m, "Save failed: "@ + error::error_text(EditorError::NoPathToSave)),
            None,
        ),
    }
}

/// The editor is to be left; with unsaved changes it takes two tries.
pub open spec fn quit_wanted(m: AppModel) -> AppModel {
    if m.buffer.dirty && !m.quit_pending {
        AppModel {
            quit_pending: true,
            status: "Unsaved changes — Ctrl-Q again to quit, Ctrl-S to save"@,
            ..m
        }
    } else {
        AppModel { running: false, ..m }
    }
}

/// An action that asks for something settles only once it is answered.
pub open spec fn settled_unless_asked(r: (AppModel, Option<ErrandModel>), env: Env) -> (
    AppModel,
    Option<ErrandModel>,
) {
    match r.1 {
        Some(_) => r,
        None => (settled(r.0, env), None),
    }
}

/// What an action does to the buffer and its view.
pub open spec fn acted(m: AppModel, a: Action, env: Env) -> (AppModel, Option<ErrandModel>) {
    if m.mode == Mode::View && (edits(a) || a is Rename) {
        (said(m, "View mode — Ctrl-V to edit"@), None)
    } else if edits(a) {
        (settled(edited(m, a, env), env), None)
    } else {
        match a {
            Action::Save => (settled(save_wanted(m).0, env), save_wanted(m).1),
            Action::Quit => (settled(quit_wanted(m), env), None),
            Action::GoToDefinition => settled_unless_asked(navigation::definition_wanted(m), env),
            Action::GoBack => settled_unless_asked(navigation::back_wanted(m), env),
            Action::ShowType => (
                settled(navigation::type_wanted(m).0, env),
                navigation::type_wanted(m).1,
            ),
            Action::Rename => (settled(prompts::rename_prompt(m), env), None),
            _ => (
                settled(
                    AppModel { view: moved(m.view, m.buffer.text, a, env.rows), ..m },
                    env,
                ),
                None,
            ),
        }
    }
}

proof fn lemma_moved_within(m: AppModel, a: Action, rows: u16)
    requires
        ready(m),
    ensures
        view::within(moved(m.view, m.buffer.text, a, rows), m.buffer.text),
        moved(m.view, m.buffer.text, a, rows).sticky >= 0,
        moved(m.view, m.buffer.text, a, rows).top >= 0,
{
    view::law_movement_stays_within(m.view, m.buffer.text, text_rows(rows), 0, 0);
    rope::lemma_line_start(m.buffer.text, m.view.line);
}

/// An edit by hand keeps the cursor within the text.
proof fn lemma_edited_within(m: AppModel, a: Action)
    requires
        ready(m),
        a matches Action::Insert(c) ==> view::typing_fits(m.view, m.buffer.text, c),
        m.buffer.text.len() <= usize::MAX,
    ensures
        ({
            let b = screen::after_key_edit(m.buffer, edit_of(m, a));
            let v = view_after_edit(m, a, b.text);
            &&& view::within(v, b.text)
            &&& v.sticky >= 0
            &&& v.top >= 0
            &&& screen::key_edit_fits(m.buffer.text, edit_of(m, a))
            &&& b.path == m.buffer.path
            &&& b.version == m.buffer.version ==> b == m.buffer
        }),
{
    let s = m.buffer.text;
    let i = view::cursor(m.view, s);
    rope::lemma_line_start(s, m.view.line);
    match a {
        Action::Insert(c) => {
            view::law_typing_stays_within(m.view, s, c);
            assert(seq![c].len() == 1);
        },
        Action::DeletePrev => {
            if i > 0 {
                view::law_delete_prev_stays_within(m.view, s);
            }
        },
        Action::DeleteNext => {
            if i < s.len() {
                view::law_delete_next_stays_within(m.view, s);
            }
        },
        Action::ClearLine => {
            let b = screen::after_key_edit(m.buffer, edit_of(m, a));
            rope::lemma_line_start(s, m.view.line + 1);
            rope::lemma_line_start_monotone(s, m.view.line, m.view.line + 1);
            view::lemma_in_text_is_within(view::gone_to(m.view, b.text, m.view.line, 0), b.text);
        },
        _ => {},
    }
}

proof fn lemma_edited_ready(m: AppModel, a: Action, env: Env)
    requires
        ready(m),
        countable(m),
        edits(a),
        a matches Action::Insert(c) ==> view::typing_fits(m.view, m.buffer.text, c),
        m.buffer.text.len() <= usize::MAX,
    ensures
        steady_but_syntax(edited(m, a, env)),
        syntax_right(edited(m, a, env)),
        view::within(edited(m, a, env).view, edited(m, a, env).buffer.text),
{
    lemma_edited_within(m, a);
}

/// What an action does keeps the editor ready.
proof fn lemma_acted_ready(m: AppModel, a: Action, env: Env)
    requires
        ready(m),
        countable(m),
        m.mode == Mode::Edit ==> (a matches Action::Insert(c) ==> view::typing_fits(
            m.view,
            m.buffer.text,
            c,
        )),
        m.buffer.text.len() <= usize::MAX,
    ensures
        ready(acted(m, a, env).0),
{
    if m.mode == Mode::View && (edits(a) || a is Rename) {
    } else if edits(a) {
        lemma_edited_ready(m, a, env);
        navigation::lemma_settled_ready(edited(m, a, env), env);
    } else {
        match a {
            Action::Save => {
                navigation::lemma_settled_ready(save_wanted(m).0, env);
            },
            Action::Quit => {
                navigation::lemma_settled_ready(quit_wanted(m), env);
            },
            Action::GoToDefinition => {
                navigation::lemma_settled_ready(navigation::definition_wanted(m).0, env);
            },
            Action::GoBack => {
                navigation::lemma_settled_ready(navigation::back_wanted(m).0, env);
            },
            Action::ShowType => {
                navigation::lemma_settled_ready(navigation::type_wanted(m).0, env);
            },
            Action::Rename => {
                navigation::lemma_settled_ready(prompts::rename_prompt(m), env);
            },
            _ => {
                lemma_moved_within(m, a, env.rows);
                let there = AppModel { view: moved(m.view, m.buffer.text, a, env.rows), ..m };
                assert(ready(there));
                navigation::lemma_settled_ready(there, env);
            },
        }
    }
}

impl App {
    fn key_edit(&self, a: Action) -> (r: KeyEdit)
        requires
            ready(self@),
        ensures
            r == edit_of(self@, a),
    {
        let i: usize = self.view.char_idx(&self.buffer);
        let total: usize = self.buffer.len_chars();
        match a {
            Action::Insert(c) => KeyEdit::InsertChar(i, c),
            Action::DeletePrev => if i > 0 {
                KeyEdit::Delete(i - 1, i)
            } else {
                KeyEdit::Nothing
            },
            Action::DeleteNext => if i < total {
                KeyEdit::Delete(i, i + 1)
            } else {
                KeyEdit::Nothing
            },
            Action::ClearLine => {
                let line: usize = self.view.cursor_line();
                let start: usize = self.buffer.line_to_char(line);
                let len: usize = self.buffer.line_len_chars(line);
                if len > 0 {
                    KeyEdit::Delete(start, start + len)
                } else {
                    KeyEdit::Nothing
                }
            },
            _ => KeyEdit::Nothing,
        }
    }

    fn follow_edit(&mut self, a: Action, Ghost(m): Ghost<AppModel>)
        requires
            ready(m),
            edits(a),
            a matches Action::Insert(c) ==> view::typing_fits(m.view, m.buffer.text, c),
            m.buffer.text.len() <= usize::MAX,
            old(self)@ == (AppModel {
                buffer: screen::after_key_edit(m.buffer, edit_of(m, a)),
                tx: old(self)@.tx,
                ..m
            }),
        ensures
            final(self)@ == (AppModel {
                view: view_after_edit(m, a, old(self)@.buffer.text),
                ..old(self)@
            }),
    {
        proof {
            lemma_edited_within(m, a);
        }
        match a {
            Action::Insert(c) => {
                proof {
                    view::law_typing_stays_within(m.view, m.buffer.text, c);
                }
                let total: usize = self.buffer.len_chars();
                let mut s = String::new();
                s.push(c);
                assert(s@ =~= seq![c]);
                proof {
                    rope::lemma_line_start(m.buffer.text, m.view.line);
                }
                assert(self@.buffer.text == view::text_with(m.view, m.buffer.text, c));
                assert(total == m.buffer.text.len() + 1);
                self.view.after_insert(&self.buffer, &s);
            },
            Action::DeletePrev => {
                if self.view.cursor_line() > 0 || self.view.cursor_col() > 0 {
                    proof {
                        lemma_past_start(m.view, m.buffer.text);
                        view::law_delete_prev_stays_within(m.view, m.buffer.text);
                    }
                    self.view.after_delete_prev(&self.buffer);
                } else {
                    proof {
                        rope::lemma_line_start(m.buffer.text, 0);
                        lemma_first_line(m.buffer.text);
                    }
                }
            },
            Action::ClearLine => {
                let line: usize = self.view.cursor_line();
                self.view.goto(&self.buffer, line, 0);
            },
            _ => {},
        }
    }

    fn edit(&mut self, a: Action, env: Env)
        requires
            ready(old(self)@),
            countable(old(self)@),
            edits(a),
            a matches Action::Insert(c) ==> view::typing_fits(
                old(self)@.view,
                old(self)@.buffer.text,
                c,
            ),
        ensures
            final(self)@ == edited(old(self)@, a, env),
            old(self)@.buffer.text.len() <= usize::MAX,
    {
        let ghost m = self@;
        let total: usize = self.buffer.len_chars();
        proof {
            lemma_edited_within(m, a);
        }
        let key = self.key_edit(a);
        let intent = match action_intent(a) {
            Some(s) => s,
            None => String::new(),
        };
        let ghost name = intent@;
        assert(Some(name) == action::intent_of(a));
        let pre_version: u64 = self.buffer.version();
        let tx_id = self.tx_manager.begin(intent, None, &self.buffer);
        apply_key_edit(&mut self.buffer, key);
        self.follow_edit(a, Ghost(m));
        let ghost b = self@.buffer;
        if self.buffer.version() == pre_version {
            let _ = self.tx_manager.discard(tx_id);
            assert(self@.tx.active =~= m.tx.active);
        } else {
            let _ = self.tx_manager.record(tx_id, &self.buffer);
            assert(self@.tx.active =~= m.tx.active);
            assert(self@.tx =~= runtime::logged(m.tx, name, b));
            self.last_edit = Some(env.now);
            self.notify_lsp_changed();
        }
    }

    fn move_cursor(&mut self, a: Action, rows: u16)
        requires
            ready(old(self)@),
        ensures
            final(self)@ == (AppModel {
                view: moved(old(self)@.view, old(self)@.buffer.text, a, rows),
                ..old(self)@
            }),
    {
        let viewport: u16 = if rows > 0 {
            rows - 1
        } else {
            0
        };
        match a {
            Action::MoveLeft => self.view.move_left(&self.buffer),
            Action::MoveRight => self.view.move_right(&self.buffer),
            Action::MoveUp => self.view.move_up(&self.buffer),
            Action::MoveDown => self.view.move_down(&self.buffer),
            Action::MoveWordLeft => self.view.move_word_left(&self.buffer),
            Action::MoveWordRight => self.view.move_word_right(&self.buffer),
            Action::MoveHome => self.view.move_home(),
            Action::MoveEnd => self.view.move_end(&self.buffer),
            Action::PageUp => self.view.page_up(&self.buffer, viewport),
            Action::PageDown => self.view.page_down(&self.buffer, viewport),
            _ => {},
        }
    }

    fn save(&mut self) -> (r: Option<Errand>)
        ensures
            (final(self)@, errand_view(r)) == save_wanted(old(self)@),
    {
        match self.buffer.save_target() {
            Ok((path, contents)) => Some(Errand::Save { path, contents }),
            Err(e) => {
                self.status = join2("Save failed: ", &e.message());
                None
            },
        }
    }

    fn quit(&mut self)
        ensures
            final(self)@ == quit_wanted(old(self)@),
    {
        if self.buffer.is_dirty() && !self.quit_pending {
            self.quit_pending = true;
            self.status = owned("Unsaved changes — Ctrl-Q again to quit, Ctrl-S to save");
        } else {
            self.running = false;
        }
    }

    fn act(&mut self, a: Action, env: Env) -> (r: Option<Errand>)
        requires
            ready(old(self)@),
            countable(old(self)@),
            old(self)@.mode == Mode::Edit ==> (a matches Action::Insert(c) ==> view::typing_fits(
                old(self)@.view,
                old(self)@.buffer.text,
                c,
            )),
        ensures
            (final(self)@, errand_view(r)) == acted(old(self)@, a, env),
            old(self)@.buffer.text.len() <= usize::MAX,
    {
        let total: usize = self.buffer.len_chars();
        let changes = match a {
            Action::Insert(_) | Action::DeletePrev | Action::DeleteNext | Action::ClearLine => true,
            _ => false,
        };
        if self.mode == Mode::View && (changes || a == Action::Rename) {
            self.status = owned("View mode — Ctrl-V to edit");
            return None;
        }
        if changes {
            proof {
                lemma_edited_ready(self@, a, env);
            }
            self.edit(a, env);
            self.settle(env);
            return None;
        }
        match a {
            Action::Save => {
                let r = self.save();
                self.settle(env);
                r
            },
            Action::Quit => {
                self.quit();
                self.settle(env);
                None
            },
            Action::GoToDefinition => {
                let r = self.go_to_definition();
                if r.is_none() {
                    self.settle(env);
                }
                r
            },
            Action::GoBack => {
                let r = self.go_back();
                if r.is_none() {
                    self.settle(env);
                }
                r
            },
            Action::ShowType => {
                let r = self.show_type();
                self.settle(env);
                r
            },
            Action::Rename => {
                self.start_rename_prompt();
                self.settle(env);
                None
            },
            _ => {
                self.move_cursor(a, env.rows);
                self.settle(env);
                None
            },
        }
    }
}

impl App {
    pub(crate) fn act_ready(&mut self, a: Action, env: Env) -> (r: Option<Errand>)
        requires
            ready(old(self)@),
            countable(old(self)@),
            old(self)@.mode == Mode::Edit ==> (a matches Action::Insert(c) ==> view::typing_fits(
                old(self)@.view,
                old(self)@.buffer.text,
                c,
            )),
        ensures
            ready(final(self)@),
            (final(self)@, errand_view(r)) == acted(old(self)@, a, env),
    {
        let ghost m = self@;
        let r = self.act(a, env);
        proof {
            lemma_acted_ready(m, a, env);
        }
        r
    }
}

/// The first line starts with the text.
proof fn lemma_first_line(s: Seq<char>)
    ensures
        rope::line_start(s, 0) == 0,
{
    rope::lemma_line_start(s, 0);
    if rope::line_start(s, 0) > 0 {
        assert(rope::line_of(s, 0) < 0);
    }
}

/// A cursor that is on a later line, or in a later column, is past the start of
/// the text.
proof fn lemma_past_start(v: view::ViewModel, s: Seq<char>)
    requires
        view::within(v, s),
        v.line > 0 || v.col > 0,
    ensures
        view::cursor(v, s) > 0,
{
    rope::lemma_line_start(s, v.line);
    if v.line > 0 && rope::line_start(s, v.line) == 0 {
        assert(rope::line_of(s, 0) == v.line);
    }
}

} // verus!
