//! What a protocol verb asks of a language server, a repository or a test
//! runner, and what is done with the answer.

use vstd::prelude::*;

use super::EditorCore;
use crate::buffer;
use crate::error::EditorError;
use crate::language;
use crate::language::{Language, TestRunnerKind};
use crate::paths;
use crate::paths::{parent_of, relative_path};
use crate::runtime;
use crate::runtime::insight;
use crate::scan;
use crate::test_runner;
use crate::test_runner::{command_line, TestResults};
use crate::text::owned;

verus! {

/// A question to a language server.
#[derive(Debug)]
pub enum ServerRequest {
    Definition { language: Language, uri: String, line: u32, character: u32 },
    References {
        language: Language,
        uri: String,
        line: u32,
        character: u32,
        include_declaration: bool,
    },
    Hover { language: Language, uri: String, line: u32, character: u32 },
    WorkspaceSymbol { language: Language, query: String },
    Diagnostics { language: Language, uri: String },
    WaitUntilIdle { language: Language, uri: String, timeout_ms: u64 },
    DocumentSymbols { language: Language, uri: String },
    Rename { language: Language, uri: String, line: u32, character: u32, new_name: String },
}

/// What a question is.
pub enum RequestModel {
    Definition { language: Language, uri: Seq<char>, line: u32, character: u32 },
    References {
        language: Language,
        uri: Seq<char>,
        line: u32,
        character: u32,
        include_declaration: bool,
    },
    Hover { language: Language, uri: Seq<char>, line: u32, character: u32 },
    WorkspaceSymbol { language: Language, query: Seq<char> },
    Diagnostics { language: Language, uri: Seq<char> },
    WaitUntilIdle { language: Language, uri: Seq<char>, timeout_ms: u64 },
    DocumentSymbols { language: Language, uri: Seq<char> },
    Rename { language: Language, uri: Seq<char>, line: u32, character: u32, new_name: Seq<char> },
}

impl View for ServerRequest {
    type V = RequestModel;

    open spec fn view(&self) -> RequestModel {
        match *self {
            ServerRequest::Definition { language, uri, line, character } =>
                RequestModel::Definition { language, uri: uri@, line, character },
            ServerRequest::References { language, uri, line, character, include_declaration } =>
                RequestModel::References {
                language,
                uri: uri@,
                line,
                character,
                include_declaration,
            },
            ServerRequest::Hover { language, uri, line, character } => RequestModel::Hover {
                language,
                uri: uri@,
                line,
                character,
            },
            ServerRequest::WorkspaceSymbol { language, query } => RequestModel::WorkspaceSymbol {
                language,
                query: query@,
            },
            ServerRequest::Diagnostics { language, uri } => RequestModel::Diagnostics {
                language,
                uri: uri@,
            },
            ServerRequest::WaitUntilIdle { language, uri, timeout_ms } =>
                RequestModel::WaitUntilIdle { language, uri: uri@, timeout_ms },
            ServerRequest::DocumentSymbols { language, uri } => RequestModel::DocumentSymbols {
                language,
                uri: uri@,
            },
            ServerRequest::Rename { language, uri, line, character, new_name } =>
                RequestModel::Rename { language, uri: uri@, line, character, new_name: new_name@ },
        }
    }
}

/// The server that serves a buffer, and the buffer's address there.
pub open spec fn server_target(m: runtime::CoreModel, id: u64) -> Result<
    (Language, Seq<char>),
    EditorError,
> {
    match runtime::place_of(m.entries, id) {
        None => Err(EditorError::UnknownBuffer { id }),
        Some(k) => {
            let e = m.entries[k];
            match e.language {
                None => Err(EditorError::NoLanguageForServer),
                Some(l) => match e.uri {
                    None => Err(EditorError::NoUri),
                    Some(u) => if m.running.contains(l) {
                        Ok((l, u))
                    } else {
                        Err(EditorError::ServerNotRunning { language: l })
                    },
                },
            }
        },
    }
}

/// `r` is the question `q` to the server of a buffer, or why it cannot be asked.
pub open spec fn asks(
    r: Result<ServerRequest, EditorError>,
    target: Result<(Language, Seq<char>), EditorError>,
    q: spec_fn(Language, Seq<char>) -> RequestModel,
) -> bool {
    match target {
        Ok((l, u)) => r is Ok && r->Ok_0@ == q(l, u),
        Err(e) => r == Err::<ServerRequest, _>(e),
    }
}

impl EditorCore {
    fn lsp_for_buffer(&self, buffer_id: u64) -> (r: Result<(Language, String), EditorError>)
        ensures
            match r {
                Ok((l, u)) => server_target(self@, buffer_id) == Ok::<
                    (Language, Seq<char>),
                    EditorError,
                >((l, u@)),
                Err(e) => server_target(self@, buffer_id) == Err::<(Language, Seq<char>), _>(e),
            },
    {
        let k: usize = match self.find(buffer_id) {
            Some(k) => k,
            None => {
                return Err(EditorError::UnknownBuffer { id: buffer_id });
            },
        };
        assert(self@.entries[k as int] == self.buffers@[k as int]@);
        let language = match self.buffers[k].language {
            Some(l) => l,
            None => {
                return Err(EditorError::NoLanguageForServer);
            },
        };
        match &self.buffers[k].uri {
            None => Err(EditorError::NoUri),
            Some(u) => {
                if self.runs(language) {
                    Ok((language, u.clone()))
                } else {
                    Err(EditorError::ServerNotRunning { language })
                }
            },
        }
    }

    /// Where the symbol at a point is defined.
    pub fn symbol_definition(&self, buffer_id: u64, line: u32, character: u32) -> (r: Result<
        ServerRequest,
        EditorError,
    >)
        ensures
            asks(
                r,
                server_target(self@, buffer_id),
                |l: Language, u: Seq<char>|
                    RequestModel::Definition { language: l, uri: u, line, character },
            ),
    {
        match self.lsp_for_buffer(buffer_id) {
            Ok((language, uri)) => Ok(
                ServerRequest::Definition { language, uri, line, character },
            ),
            Err(e) => Err(e),
        }
    }

    /// Where the symbol at a point is used.
    pub fn symbol_references(
        &self,
        buffer_id: u64,
        line: u32,
        character: u32,
        include_declaration: bool,
    ) -> (r: Result<ServerRequest, EditorError>)
        ensures
            asks(
                r,
                server_target(self@, buffer_id),
                |l: Language, u: Seq<char>|
                    RequestModel::References {
                        language: l,
                        uri: u,
                        line,
                        character,
                        include_declaration,
                    },
            ),
    {
        match self.lsp_for_buffer(buffer_id) {
            Ok((language, uri)) => Ok(
                ServerRequest::References { language, uri, line, character, include_declaration },
            ),
            Err(e) => Err(e),
        }
    }

    /// What the server says of the symbol at a point.
    pub fn symbol_hover(&self, buffer_id: u64, line: u32, character: u32) -> (r: Result<
        ServerRequest,
        EditorError,
    >)
        ensures
            asks(
                r,
                server_target(self@, buffer_id),
                |l: Language, u: Seq<char>|
                    RequestModel::Hover { language: l, uri: u, line, character },
            ),
    {
        match self.lsp_for_buffer(buffer_id) {
            Ok((language, uri)) => Ok(ServerRequest::Hover { language, uri, line, character }),
            Err(e) => Err(e),
        }
    }

    /// The symbols of the workspace that match a query; the buffer picks the
    /// server.
    pub fn symbol_workspace_search(&self, buffer_id: u64, query: &str) -> (r: Result<
        ServerRequest,
        EditorError,
    >)
        ensures
            asks(
                r,
                server_target(self@, buffer_id),
                |l: Language, u: Seq<char>|
                    RequestModel::WorkspaceSymbol { language: l, query: query@ },
            ),
    {
        match self.lsp_for_buffer(buffer_id) {
            Ok((language, _)) => Ok(
                ServerRequest::WorkspaceSymbol { language, query: owned(query) },
            ),
            Err(e) => Err(e),
        }
    }

    /// The diagnostics that the server published last.
    pub fn diag_current(&self, buffer_id: u64) -> (r: Result<ServerRequest, EditorError>)
        ensures
            asks(
                r,
                server_target(self@, buffer_id),
                |l: Language, u: Seq<char>| RequestModel::Diagnostics { language: l, uri: u },
            ),
    {
        match self.lsp_for_buffer(buffer_id) {
            Ok((language, uri)) => Ok(ServerRequest::Diagnostics { language, uri }),
            Err(e) => Err(e),
        }
    }

    /// Waits until the server has caught up with the buffer.
    pub fn diag_wait_until_idle(&self, buffer_id: u64, timeout_ms: u64) -> (r: Result<
        ServerRequest,
        EditorError,
    >)
        ensures
            asks(
                r,
                server_target(self@, buffer_id),
                |l: Language, u: Seq<char>|
                    RequestModel::WaitUntilIdle { language: l, uri: u, timeout_ms },
            ),
    {
        match self.lsp_for_buffer(buffer_id) {
            Ok((language, uri)) => Ok(ServerRequest::WaitUntilIdle { language, uri, timeout_ms }),
            Err(e) => Err(e),
        }
    }

    /// The symbols of the buffer's document.
    pub fn document_symbols(&self, buffer_id: u64) -> (r: Result<ServerRequest, EditorError>)
        ensures
            asks(
                r,
                server_target(self@, buffer_id),
                |l: Language, u: Seq<char>| RequestModel::DocumentSymbols { language: l, uri: u },
            ),
    {
        match self.lsp_for_buffer(buffer_id) {
            Ok((language, uri)) => Ok(ServerRequest::DocumentSymbols { language, uri }),
            Err(e) => Err(e),
        }
    }

    /// The symbols that tell what is in scope at a point of a buffer. The imports
    /// are looked at first: a buffer that has none to list is refused.
    pub fn scope_in_scope(&self, buffer_id: u64) -> (r: Result<ServerRequest, EditorError>)
        requires
            runtime::well_formed(self@),
        ensures
            match insight::imports_result(self@, buffer_id) {
                Err(e) => r == Err::<ServerRequest, _>(e),
                Ok(_) => asks(
                    r,
                    server_target(self@, buffer_id),
                    |l: Language, u: Seq<char>|
                        RequestModel::DocumentSymbols { language: l, uri: u },
                ),
            },
    {
        match self.scope_imports(buffer_id) {
            Err(e) => Err(e),
            Ok(_) => self.document_symbols(buffer_id),
        }
    }

    /// The edits that renaming the symbol at a point takes, for a buffer that is
    /// at `version`.
    pub fn edit_rename_symbol(
        &self,
        buffer_id: u64,
        version: u64,
        line: u32,
        character: u32,
        new_name: &str,
    ) -> (r: Result<ServerRequest, EditorError>)
        ensures
            match runtime::place_of(self@.entries, buffer_id) {
                None => r == Err::<ServerRequest, _>(EditorError::UnknownBuffer { id: buffer_id }),
                Some(k) => match runtime::version_refusal(self@, k, version) {
                    Some(e) => r == Err::<ServerRequest, _>(e),
                    None => asks(
                        r,
                        server_target(self@, buffer_id),
                        |l: Language, u: Seq<char>|
                            RequestModel::Rename {
                                language: l,
                                uri: u,
                                line,
                                character,
                                new_name: new_name@,
                            },
                    ),
                },
            },
    {
        match self.find(buffer_id) {
            None => {
                return Err(EditorError::UnknownBuffer { id: buffer_id });
            },
            Some(k) => {
                proof {
                    runtime::lemma_place_of(self@.entries, buffer_id);
                    assert(self@.entries[k as int] == self.buffers@[k as int]@);
                }
                let at: u64 = self.buffers[k].buffer.version();
                if at != version {
                    return Err(EditorError::VersionMismatch { id: buffer_id, at, sent: version });
                }
            },
        }
        match self.lsp_for_buffer(buffer_id) {
            Ok((language, uri)) => Ok(
                ServerRequest::Rename {
                    language,
                    uri,
                    line,
                    character,
                    new_name: owned(new_name),
                },
            ),
            Err(e) => Err(e),
        }
    }
}

// ------------------------------------------------------------------- repository

/// The path of a buffer's file, or why there is none.
pub open spec fn buffer_file(m: runtime::CoreModel, id: u64, missing: EditorError) -> Result<
    Seq<char>,
    EditorError,
> {
    match runtime::place_of(m.entries, id) {
        None => Err(EditorError::UnknownBuffer { id }),
        Some(k) => match m.entries[k].buffer.path {
            None => Err(missing),
            Some(p) => Ok(p),
        },
    }
}

/// What to stage: the path that was asked for, or the buffer's own file, relative
/// to the repository.
pub open spec fn stage_path_of(
    path: Seq<char>,
    repo_root: Seq<char>,
    asked: Option<Seq<char>>,
) -> Seq<char> {
    match asked {
        Some(p) => p,
        None => paths::relative_to(path, repo_root),
    }
}

/// What to stage, given the repository of the buffer's file.
pub fn stage_target(path: &str, repo_root: &str, asked: Option<&str>) -> (r: String)
    ensures
        r@ == stage_path_of(
            path@,
            repo_root@,
            match asked {
                Some(p) => Some(p@),
                None => None,
            },
        ),
{
    match asked {
        Some(p) => owned(p),
        None => relative_path(path, repo_root),
    }
}

/// Where a scan for tasks starts: the repository of the buffer's file, or the
/// directory that holds the file.
pub fn tasks_scan_root(path: &str, repo_root: Option<&str>) -> (r: String)
    ensures
        r@ == match repo_root {
            Some(root) => root@,
            None => match paths::parent(path@) {
                Some(p) => p,
                None => "."@,
            },
        },
{
    match repo_root {
        Some(root) => owned(root),
        None => match parent_of(path) {
            Some(p) => p,
            None => owned("."),
        },
    }
}

impl EditorCore {
    fn file_of(&self, buffer_id: u64, missing: EditorError) -> (r: Result<String, EditorError>)
        ensures
            match r {
                Ok(p) => buffer_file(self@, buffer_id, missing) == Ok::<Seq<char>, EditorError>(p@),
                Err(e) => buffer_file(self@, buffer_id, missing) == Err::<Seq<char>, _>(e),
            },
    {
        match self.find(buffer_id) {
            None => Err(EditorError::UnknownBuffer { id: buffer_id }),
            Some(k) => {
                assert(self@.entries[k as int] == self.buffers@[k as int]@);
                match self.buffers[k].buffer.path() {
                    Some(p) => Ok(owned(p)),
                    None => Err(missing),
                }
            },
        }
    }

    /// The file whose diff a buffer's `git.diff` is.
    pub fn git_diff(&self, buffer_id: u64) -> (r: Result<String, EditorError>)
        ensures
            match r {
                Ok(p) => buffer_file(self@, buffer_id, EditorError::NoPathToDiff) == Ok::<
                    Seq<char>,
                    EditorError,
                >(p@),
                Err(e) => buffer_file(self@, buffer_id, EditorError::NoPathToDiff) == Err::<
                    Seq<char>,
                    _,
                >(e),
            },
    {
        self.file_of(buffer_id, EditorError::NoPathToDiff)
    }

    /// The file whose repository the other git verbs work on.
    pub fn repo_file(&self, buffer_id: u64) -> (r: Result<String, EditorError>)
        ensures
            match r {
                Ok(p) => buffer_file(self@, buffer_id, EditorError::NoPathForRepo) == Ok::<
                    Seq<char>,
                    EditorError,
                >(p@),
                Err(e) => buffer_file(self@, buffer_id, EditorError::NoPathForRepo) == Err::<
                    Seq<char>,
                    _,
                >(e),
            },
    {
        self.file_of(buffer_id, EditorError::NoPathForRepo)
    }

    /// The file that tells where a scan for tasks starts.
    pub fn tasks_list(&self, buffer_id: u64) -> (r: Result<String, EditorError>)
        ensures
            match r {
                Ok(p) => buffer_file(self@, buffer_id, EditorError::NoPathToScan) == Ok::<
                    Seq<char>,
                    EditorError,
                >(p@),
                Err(e) => buffer_file(self@, buffer_id, EditorError::NoPathToScan) == Err::<
                    Seq<char>,
                    _,
                >(e),
            },
    {
        self.file_of(buffer_id, EditorError::NoPathToScan)
    }
}

// ------------------------------------------------------------------------ tests

/// A test run: the file that tells its workspace, its language, its output's
/// format, and its program with the arguments.
#[derive(Debug)]
pub struct TestRequest {
    pub path: String,
    pub language: Language,
    pub kind: TestRunnerKind,
    pub argv: Vec<String>,
}

/// Why no tests can be run for a buffer, before the filter is looked at.
pub open spec fn test_refusal(m: runtime::CoreModel, id: u64) -> Option<EditorError> {
    match runtime::place_of(m.entries, id) {
        None => Some(EditorError::UnknownBuffer { id }),
        Some(k) => {
            let e = m.entries[k];
            match e.buffer.path {
                None => Some(EditorError::NoPathForTests),
                Some(_) => match e.language {
                    None => Some(EditorError::NoLanguageForTests),
                    Some(l) => match language::test_argv(l) {
                        None => Some(EditorError::NoTestRunner { language: l }),
                        Some(_) => None,
                    },
                },
            }
        },
    }
}

/// What a test run is.
#[verifier::ext_equal]
pub struct RunModel {
    pub path: Seq<char>,
    pub language: Language,
    pub kind: TestRunnerKind,
    pub argv: Seq<Seq<char>>,
}

impl View for TestRequest {
    type V = RunModel;

    open spec fn view(&self) -> RunModel {
        RunModel {
            path: self.path@,
            language: self.language,
            kind: self.kind,
            argv: scan::string_views(self.argv@),
        }
    }
}

/// The test run that an entry's language calls for.
pub open spec fn run_of(e: runtime::EntryModel, target: Option<Seq<char>>) -> RunModel {
    let l = e.language->Some_0;
    RunModel {
        path: e.buffer.path->Some_0,
        language: l,
        kind: language::runner_kind(l)->Some_0,
        argv: test_runner::run_arguments(
            test_runner::str_views(language::test_argv(l)->Some_0),
            target,
        ),
    }
}

impl EditorCore {
    /// The test run of a buffer's language, with an optional filter.
    pub fn test_run(&self, buffer_id: u64, target: Option<&str>) -> (r: Result<
        TestRequest,
        EditorError,
    >)
        ensures
            match test_refusal(self@, buffer_id) {
                Some(e) => r == Err::<TestRequest, _>(e),
                None => match r {
                    Ok(run) => !test_runner::flag_like(test_runner::target_view(target)) && run@
                        == run_of(
                        self@.entries[runtime::place_of(self@.entries, buffer_id)->Some_0],
                        test_runner::target_view(target),
                    ),
                    Err(e) => test_runner::flag_like(test_runner::target_view(target)) && (
                    e matches EditorError::FilterLooksLikeFlag { filter } && filter@
                        == test_runner::debug_notation(target->Some_0@)),
                },
            },
    {
        let k: usize = match self.find(buffer_id) {
            Some(k) => k,
            None => {
                return Err(EditorError::UnknownBuffer { id: buffer_id });
            },
        };
        assert(self@.entries[k as int] == self.buffers@[k as int]@);
        let path = match self.buffers[k].buffer.path() {
            Some(p) => owned(p),
            None => {
                return Err(EditorError::NoPathForTests);
            },
        };
        let language = match self.buffers[k].language {
            Some(l) => l,
            None => {
                return Err(EditorError::NoLanguageForTests);
            },
        };
        match (language.test_command(), language.test_runner_kind()) {
            (Some(cmd), Some(kind)) => match command_line(&cmd, target) {
                Ok(argv) => Ok(TestRequest { path, language, kind, argv }),
                Err(e) => Err(e),
            },
            _ => Err(EditorError::NoTestRunner { language }),
        }
    }

    /// Keeps the outcome of a test run.
    pub fn test_finished(&mut self, results: &TestResults)
        requires
            runtime::well_formed(old(self)@),
        ensures
            runtime::well_formed(final(self)@),
            final(self)@ == (runtime::CoreModel { last_results: Some(results@), ..old(self)@ }),
    {
        self.last_test_results = Some(results.duplicate());
    }

    /// The outcome of the last test run of this session.
    pub fn test_last_results(&self) -> (r: Option<TestResults>)
        ensures
            match r {
                Some(t) => self@.last_results == Some(t@),
                None => self@.last_results is None,
            },
    {
        match &self.last_test_results {
            Some(t) => Some(t.duplicate()),
            None => None,
        }
    }
}

} // verus!
