//! One tool call: what it does to the runtime, and what it asks of the world
//! around it.
//!
//! A call is done at once, or asks for an [`Effect`] first. The answer to an
//! effect goes to `resume_tool`, which ends the call.

use serde_json::Value;
use vstd::prelude::*;

use crate::buffer;
use crate::error;
use crate::error::EditorError;
use crate::git::{LogEntry, StatusEntry};
use crate::json;
use crate::json::{maybe_string, null, obj0, obj1, string, unsigned};
use crate::language::TestRunnerKind;
use crate::lsp::{Diagnostic, DocumentSymbol, Location, SymbolInformation, WorkspaceEdit};
use crate::mcp::args;
use crate::mcp::args::{
    get_coordinate, get_flag, get_number, get_size, get_span, get_string, get_text, Arg,
};
use crate::mcp::payload;
use crate::mcp::payload::{bulk_value, changes_value, imports_value, list_of, ToJson};
use crate::mcp::tools::Tool;
use crate::proposals;
use crate::proposals::ProposalId;
use crate::protocol;
use crate::protocol::{
    ByteRange, CharRange, ClientInfo, DiagWaitResult, InlineTask, RenameResult, SOLE_BUFFER_ID,
};
use crate::runtime;
use crate::runtime::insight;
use crate::runtime::insight::scope_report;
use crate::runtime::rename;
use crate::runtime::requests;
use crate::runtime::requests::{ServerRequest, TestRequest};
use crate::runtime::approval;
use crate::runtime::EditorCore;
use crate::scan;
use crate::scan::number;
use crate::syntax;
use crate::test_runner;
use crate::test_runner::finish_run;
use crate::text::{join2, owned};
use crate::tx;
use crate::tx::TxId;

verus! {

/// What the agent server works on: the runtime, and the name of the client that
/// it serves.
pub struct ProtocolState {
    pub core: EditorCore,
    pub client_id: String,
}

/// What a call asks for before it can be answered.
#[derive(Debug)]
pub enum Effect {
    /// The file at a path, and the path in its absolute form.
    Open { path: String },
    Diff { file: String },
    Status { file: String },
    Log { file: String, limit: usize },
    Show { file: String, sha: String },
    Stage { file: String, asked: Option<String> },
    Unstage { file: String, asked: Option<String> },
    Commit { file: String, message: String },
    Tasks { file: String },
    /// The tests of a file's workspace.
    RunTests(TestRequest),
    Server(ServerRequest),
}

/// What an effect is.
pub enum EffectModel {
    Open { path: Seq<char> },
    Diff { file: Seq<char> },
    Status { file: Seq<char> },
    Log { file: Seq<char>, limit: usize },
    Show { file: Seq<char>, sha: Seq<char> },
    Stage { file: Seq<char>, asked: Option<Seq<char>> },
    Unstage { file: Seq<char>, asked: Option<Seq<char>> },
    Commit { file: Seq<char>, message: Seq<char> },
    Tasks { file: Seq<char> },
    RunTests(requests::RunModel),
    Server(requests::RequestModel),
}

impl View for Effect {
    type V = EffectModel;

    open spec fn view(&self) -> EffectModel {
        match *self {
            Effect::Open { path } => EffectModel::Open { path: path@ },
            Effect::Diff { file } => EffectModel::Diff { file: file@ },
            Effect::Status { file } => EffectModel::Status { file: file@ },
            Effect::Log { file, limit } => EffectModel::Log { file: file@, limit },
            Effect::Show { file, sha } => EffectModel::Show { file: file@, sha: sha@ },
            Effect::Stage { file, asked } => EffectModel::Stage {
                file: file@,
                asked: buffer::option_view(asked),
            },
            Effect::Unstage { file, asked } => EffectModel::Unstage {
                file: file@,
                asked: buffer::option_view(asked),
            },
            Effect::Commit { file, message } => EffectModel::Commit {
                file: file@,
                message: message@,
            },
            Effect::Tasks { file } => EffectModel::Tasks { file: file@ },
            Effect::RunTests(run) => EffectModel::RunTests(run@),
            Effect::Server(q) => EffectModel::Server(q@),
        }
    }
}

/// How far a call has got.
pub enum Outcome {
    Done(Result<Value, String>),
    Ask(Effect),
}

/// How far a call has got, over trees and texts.
pub enum OutcomeModel {
    Done(Result<json::Json, Seq<char>>),
    Ask(EffectModel),
}

/// A result over trees and texts.
pub open spec fn result_view(r: Result<Value, String>) -> Result<json::Json, Seq<char>> {
    match r {
        Ok(v) => Ok(json::value_json(v)),
        Err(e) => Err(e@),
    }
}

impl View for Outcome {
    type V = OutcomeModel;

    open spec fn view(&self) -> OutcomeModel {
        match *self {
            Outcome::Done(r) => OutcomeModel::Done(result_view(r)),
            Outcome::Ask(e) => OutcomeModel::Ask(e@),
        }
    }
}

impl ProtocolState {
    /// The state of a client whose first buffer is the file at `path`.
    pub fn open(
        path: String,
        absolute: String,
        loaded: Result<Option<String>, EditorError>,
        process: u32,
    ) -> (r: Result<ProtocolState, EditorError>)
        ensures
            match loaded {
                Err(e) => r == Err::<ProtocolState, _>(e),
                Ok(contents) => {
                    &&& r is Ok
                    &&& runtime::well_formed(r->Ok_0.core@)
                    &&& r->Ok_0.client_id@ == "mcp-"@ + scan::decimal(process as nat)
                    &&& r->Ok_0.core@ == runtime::after_open(
                        runtime::empty_core(),
                        runtime::opened_entry(
                            SOLE_BUFFER_ID,
                            path@,
                            absolute@,
                            buffer::option_view(contents),
                        ),
                    )
                },
            },
    {
        let mut core = EditorCore::new();
        match core.buffer_open(path, absolute, loaded) {
            Ok(_) => Ok(
                ProtocolState { core, client_id: join2("mcp-", &number(process as u64)) },
            ),
            Err(e) => Err(e),
        }
    }

    /// The clients of the runtime: this one.
    pub fn clients_list(&self) -> (r: Vec<ClientInfo>)
        ensures
            r@.len() == 1,
            r@[0].id@ == self.client_id@,
            r@[0].kind@ == "agent"@,
            r@[0].focus == self.core@.focus,
    {
        vec![
            ClientInfo {
                id: owned(&self.client_id),
                kind: owned("agent"),
                focus: self.core.focus(),
            },
        ]
    }
}

// ----------------------------------------------------------------------- calls

/// A call that is done and leaves `m`.
pub open spec fn ok(m: runtime::CoreModel, j: json::Json) -> (runtime::CoreModel, OutcomeModel) {
    (m, OutcomeModel::Done(Ok(j)))
}

/// A call that is refused and leaves `m`.
pub open spec fn refused(m: runtime::CoreModel, e: EditorError) -> (
    runtime::CoreModel,
    OutcomeModel,
) {
    (m, OutcomeModel::Done(Err(error::error_text(e))))
}

/// A call that asks for an effect and leaves `m`.
pub open spec fn ask(m: runtime::CoreModel, e: EffectModel) -> (runtime::CoreModel, OutcomeModel) {
    (m, OutcomeModel::Ask(e))
}

/// A call that asks a server.
pub open spec fn ask_server(m: runtime::CoreModel, q: requests::RequestModel) -> (
    runtime::CoreModel,
    OutcomeModel,
) {
    ask(m, EffectModel::Server(q))
}

pub open spec fn one(key: Seq<char>, j: json::Json) -> json::Json {
    json::obj(seq![(key, j)])
}

pub open spec fn nothing() -> json::Json {
    json::obj(Seq::empty())
}

pub open spec fn char_range(s: Option<(usize, usize)>) -> Option<CharRange> {
    match s {
        Some((start, end)) => Some(CharRange { start, end }),
        None => None,
    }
}

/// The span, or the empty one at the start.
pub open spec fn span_or_start(s: Option<(usize, usize)>) -> (usize, usize) {
    match s {
        Some(p) => p,
        None => (0, 0),
    }
}

/// What a call does to the runtime, and how far it gets at once.
pub open spec fn called(
    m: runtime::CoreModel,
    client: Seq<char>,
    tool: Tool,
    a: Seq<args::ArgModel>,
) -> (runtime::CoreModel, OutcomeModel) {
    let id = args::number_at(a, 0);
    match tool {
        Tool::BufferList => ok(m, payload::entries_json(m.entries)),
        Tool::BufferOpen => ask(m, EffectModel::Open { path: args::string_at(a, 0) }),
        Tool::BufferClose => match runtime::place_of(m.entries, id) {
            Some(k) => ok(runtime::after_close(m, k), nothing()),
            None => refused(m, EditorError::UnknownBuffer { id }),
        },
        Tool::ClientsList => ok(
            m,
            json::Json::List(seq![payload::client_json(client, "agent"@, m.focus)]),
        ),
        Tool::GitDiff => match requests::buffer_file(m, id, EditorError::NoPathToDiff) {
            Ok(file) => ask(m, EffectModel::Diff { file }),
            Err(e) => refused(m, e),
        },
        Tool::GitStatus => match requests::buffer_file(m, id, EditorError::NoPathForRepo) {
            Ok(file) => ask(m, EffectModel::Status { file }),
            Err(e) => refused(m, e),
        },
        Tool::GitLog => match requests::buffer_file(m, id, EditorError::NoPathForRepo) {
            Ok(file) => ask(m, EffectModel::Log { file, limit: args::size_at(a, 1) }),
            Err(e) => refused(m, e),
        },
        Tool::GitShow => match requests::buffer_file(m, id, EditorError::NoPathForRepo) {
            Ok(file) => ask(m, EffectModel::Show { file, sha: args::string_at(a, 1) }),
            Err(e) => refused(m, e),
        },
        Tool::GitStage => match requests::buffer_file(m, id, EditorError::NoPathForRepo) {
            Ok(file) => ask(m, EffectModel::Stage { file, asked: args::text_at(a, 1) }),
            Err(e) => refused(m, e),
        },
        Tool::GitUnstage => match requests::buffer_file(m, id, EditorError::NoPathForRepo) {
            Ok(file) => ask(m, EffectModel::Unstage { file, asked: args::text_at(a, 1) }),
            Err(e) => refused(m, e),
        },
        Tool::GitCommit => match requests::buffer_file(m, id, EditorError::NoPathForRepo) {
            Ok(file) => ask(m, EffectModel::Commit { file, message: args::string_at(a, 1) }),
            Err(e) => refused(m, e),
        },
        Tool::TasksList => match requests::buffer_file(m, id, EditorError::NoPathToScan) {
            Ok(file) => ask(m, EffectModel::Tasks { file }),
            Err(e) => refused(m, e),
        },
        Tool::ProposeRange => match runtime::place_of(m.entries, id) {
            Some(_) => ok(
                approval::proposed(
                    m,
                    id,
                    args::string_at(a, 4),
                    proposals::ReplaceModel {
                        version: args::number_at(a, 1),
                        start: span_or_start(args::span_at(a, 2)).0 as int,
                        end: span_or_start(args::span_at(a, 2)).1 as int,
                        text: args::string_at(a, 3),
                    },
                ),
                one("proposal_id"@, payload::int_json(m.proposals.next_id as int)),
            ),
            None => refused(m, EditorError::UnknownBuffer { id }),
        },
        Tool::ProposalsList => ok(m, payload::proposals_json(m.proposals.queue)),
        Tool::ProposalsAccept => match approval::accept_result(m, id) {
            (after, Ok(v)) => ok(after, one("version"@, payload::int_json(v as int))),
            (after, Err(e)) => refused(after, e),
        },
        Tool::ProposalsReject => match proposals::place_of(m.proposals.queue, id) {
            Some(_) => ok(approval::withdrawn(m, id), nothing()),
            None => refused(m, EditorError::UnknownProposal { id }),
        },
        Tool::ProposalsAcceptAll => {
            let ids = approval::queued_ids(m);
            let (after, count, errors) = approval::accepted_upto(m, ids, ids.len() as int);
            ok(after, payload::bulk_json(count, errors))
        },
        Tool::ProposalsRejectAll => ok(
            runtime::CoreModel {
                proposals: proposals::QueueModel {
                    queue: Seq::<proposals::ProposalModel>::empty(),
                    ..m.proposals
                },
                ..m
            },
            one("rejected"@, payload::int_json(m.proposals.queue.len() as int)),
        ),
        Tool::ProposalsCount => ok(
            m,
            one("count"@, payload::int_json(m.proposals.queue.len() as int)),
        ),
        Tool::BufferRead => match runtime::read_result(m, id, char_range(args::span_at(a, 1))) {
            Ok((text, version)) => ok(m, payload::read_json(text, version)),
            Err(e) => refused(m, e),
        },
        Tool::AstQuery => match insight::ast_result(m, id, args::string_at(a, 1)) {
            Ok(found) => ok(m, payload::matches_json(found)),
            Err(e) => refused(m, e),
        },
        Tool::ReplaceRange => {
            let (start, end) = span_or_start(args::span_at(a, 2));
            match runtime::replace_range_result(
                m,
                id,
                args::number_at(a, 1),
                CharRange { start, end },
                args::string_at(a, 3),
            ) {
                (after, Ok(v)) => ok(after, one("version"@, payload::int_json(v as int))),
                (after, Err(e)) => refused(after, e),
            }
        },
        Tool::ReplaceNode => {
            let (start, end) = span_or_start(args::span_at(a, 2));
            match runtime::replace_node_result(
                m,
                id,
                args::number_at(a, 1),
                ByteRange { start, end },
                args::string_at(a, 3),
            ) {
                (after, Ok(v)) => ok(after, one("version"@, payload::int_json(v as int))),
                (after, Err(e)) => refused(after, e),
            }
        },
        Tool::TxBegin => match approval::begin_refusal(m, id) {
            Some(e) => refused(m, e),
            None => ok(
                approval::begun(
                    m,
                    runtime::place_of(m.entries, id)->Some_0,
                    args::string_at(a, 1),
                    args::text_at(a, 2),
                ),
                one("tx_id"@, payload::int_json(m.tx.next_tx as int)),
            ),
        },
        Tool::TxCommit => match approval::end_refusal(m, id) {
            Some(e) => refused(m, e),
            None => ok(
                approval::committed(m, approval::open_place(m)),
                one("change_id"@, payload::int_json(m.tx.next_change as int)),
            ),
        },
        Tool::TxRollback => match approval::end_refusal(m, id) {
            Some(e) => refused(m, e),
            None => ok(approval::rolled_back(m, approval::open_place(m)), nothing()),
        },
        Tool::HistoryRecent => ok(
            m,
            payload::changes_json(tx::recent_of(m.tx.history, args::size_at(a, 0) as int)),
        ),
        Tool::SymbolDefinition => match requests::server_target(m, id) {
            Ok((language, uri)) => ask_server(
                m,
                requests::RequestModel::Definition {
                    language,
                    uri,
                    line: args::coordinate_at(a, 1),
                    character: args::coordinate_at(a, 2),
                },
            ),
            Err(e) => refused(m, e),
        },
        Tool::SymbolReferences => match requests::server_target(m, id) {
            Ok((language, uri)) => ask_server(
                m,
                requests::RequestModel::References {
                    language,
                    uri,
                    line: args::coordinate_at(a, 1),
                    character: args::coordinate_at(a, 2),
                    include_declaration: args::flag_at(a, 3),
                },
            ),
            Err(e) => refused(m, e),
        },
        Tool::SymbolHover => match requests::server_target(m, id) {
            Ok((language, uri)) => ask_server(
                m,
                requests::RequestModel::Hover {
                    language,
                    uri,
                    line: args::coordinate_at(a, 1),
                    character: args::coordinate_at(a, 2),
                },
            ),
            Err(e) => refused(m, e),
        },
        Tool::BufferVersion => match runtime::place_of(m.entries, id) {
            Some(k) => ok(
                m,
                one("version"@, payload::int_json(m.entries[k].buffer.version as int)),
            ),
            None => refused(m, EditorError::UnknownBuffer { id }),
        },
        Tool::WorkspaceSearch => match requests::server_target(m, id) {
            Ok((language, _)) => ask_server(
                m,
                requests::RequestModel::WorkspaceSymbol { language, query: args::string_at(a, 1) },
            ),
            Err(e) => refused(m, e),
        },
        Tool::DiagCurrent => match requests::server_target(m, id) {
            Ok((language, uri)) => ask_server(
                m,
                requests::RequestModel::Diagnostics { language, uri },
            ),
            Err(e) => refused(m, e),
        },
        Tool::DiagWait => match requests::server_target(m, id) {
            Ok((language, uri)) => ask_server(
                m,
                requests::RequestModel::WaitUntilIdle {
                    language,
                    uri,
                    timeout_ms: args::number_at(a, 1),
                },
            ),
            Err(e) => refused(m, e),
        },
        Tool::RenameSymbol => match runtime::place_of(m.entries, id) {
            None => refused(m, EditorError::UnknownBuffer { id }),
            Some(k) => match runtime::version_refusal(m, k, args::number_at(a, 1)) {
                Some(e) => refused(m, e),
                None => match requests::server_target(m, id) {
                    Ok((language, uri)) => ask_server(
                        m,
                        requests::RequestModel::Rename {
                            language,
                            uri,
                            line: args::coordinate_at(a, 2),
                            character: args::coordinate_at(a, 3),
                            new_name: args::string_at(a, 4),
                        },
                    ),
                    Err(e) => refused(m, e),
                },
            },
        },
        Tool::TestRun => match requests::test_refusal(m, id) {
            Some(e) => refused(m, e),
            None => if test_runner::flag_like(args::text_at(a, 1)) {
                (
                    m,
                    OutcomeModel::Done(
                        Err(
                            error::flag_filter_text(
                                test_runner::debug_notation(args::string_at(a, 1)),
                            ),
                        ),
                    ),
                )
            } else {
                ask(
                    m,
                    EffectModel::RunTests(
                        requests::run_of(
                            m.entries[runtime::place_of(m.entries, id)->Some_0],
                            args::text_at(a, 1),
                        ),
                    ),
                )
            },
        },
        Tool::TestLastResults => ok(
            m,
            match m.last_results {
                Some(t) => payload::results_json(t),
                None => json::Json::Null,
            },
        ),
        Tool::ScopeImports => match insight::imports_result(m, id) {
            Ok(v) => ok(m, payload::imports_json(v)),
            Err(e) => refused(m, e),
        },
        Tool::ScopeInScope => match insight::imports_result(m, id) {
            Err(e) => refused(m, e),
            Ok(_) => match requests::server_target(m, id) {
                Ok((language, uri)) => ask_server(
                    m,
                    requests::RequestModel::DocumentSymbols { language, uri },
                ),
                Err(e) => refused(m, e),
            },
        },
        Tool::ContextPack => {
            let line = args::coordinate_at(a, 1);
            let character = args::coordinate_at(a, 2);
            match insight::pack_refusal(m, id, line, character) {
                Some(e) => refused(m, e),
                None => {
                    let e = m.entries[runtime::place_of(m.entries, id)->Some_0];
                    ok(
                        m,
                        payload::pack_json(
                            insight::pack_around(
                                e,
                                e.language->Some_0,
                                line,
                                character,
                                args::size_at(a, 3) as int,
                            ),
                        ),
                    )
                },
            }
        },
    }
}

/// A call leaves `after` and gets as far as `out`, at some moment.
pub open spec fn calls(
    m: runtime::CoreModel,
    client: Seq<char>,
    tool: Tool,
    a: Seq<args::ArgModel>,
    after: runtime::CoreModel,
    out: OutcomeModel,
) -> bool {
    exists|at: tx::Moment|
        tx::proper(at) && (after, out) == called(
            #[trigger] runtime::clocked(m, at),
            client,
            tool,
            a,
        )
}

/// What a call keeps for the time after its effect: the path that it opens or the
/// name that it gives, and the point of a buffer that it is about.
pub struct Kept {
    pub text: String,
    pub buffer_id: u64,
    pub line: u32,
    pub character: u32,
}

/// What a call keeps.
pub struct KeptModel {
    pub text: Seq<char>,
    pub id: u64,
    pub line: u32,
    pub character: u32,
}

impl View for Kept {
    type V = KeptModel;

    open spec fn view(&self) -> KeptModel {
        KeptModel {
            text: self.text@,
            id: self.buffer_id,
            line: self.line,
            character: self.character,
        }
    }
}

/// What a call keeps for the time after its effect.
pub open spec fn kept_of(tool: Tool, a: Seq<args::ArgModel>) -> KeptModel {
    KeptModel {
        text: match tool {
            Tool::BufferOpen => args::string_at(a, 0),
            Tool::RenameSymbol => args::string_at(a, 4),
            _ => ""@,
        },
        id: args::number_at(a, 0),
        line: args::coordinate_at(a, 1),
        character: args::coordinate_at(a, 2),
    }
}

/// What a call keeps for the time after its effect.
pub fn keep(tool: Tool, a: &Vec<Arg>) -> (r: Kept)
    ensures
        r@ == kept_of(tool, args::arg_views(a@)),
{
    let text = match tool {
        Tool::BufferOpen => get_string(a, 0),
        Tool::RenameSymbol => get_string(a, 4),
        _ => owned(""),
    };
    Kept {
        text,
        buffer_id: get_number(a, 0),
        line: get_coordinate(a, 1),
        character: get_coordinate(a, 2),
    }
}

fn refuse(e: EditorError) -> (r: Outcome)
    ensures
        r@ == OutcomeModel::Done(Err(error::error_text(e))),
{
    Outcome::Done(Err(e.message()))
}

fn done_one(key: &'static str, v: Value) -> (r: Outcome)
    ensures
        r@ == OutcomeModel::Done(Ok(one(key@, json::value_json(v)))),
{
    Outcome::Done(Ok(obj1(key, v)))
}

fn done_empty() -> (r: Outcome)
    ensures
        r@ == OutcomeModel::Done(Ok(nothing())),
{
    Outcome::Done(Ok(obj0()))
}

fn versioned(r: Result<u64, EditorError>) -> (out: Outcome)
    ensures
        out@ == (match r {
            Ok(v) => OutcomeModel::Done(Ok(one("version"@, payload::int_json(v as int)))),
            Err(e) => OutcomeModel::Done(Err(error::error_text(e))),
        }),
{
    match r {
        Ok(v) => done_one("version", unsigned(v)),
        Err(e) => refuse(e),
    }
}

fn emptied(r: Result<(), EditorError>) -> (out: Outcome)
    ensures
        out@ == (match r {
            Ok(_) => OutcomeModel::Done(Ok(nothing())),
            Err(e) => OutcomeModel::Done(Err(error::error_text(e))),
        }),
{
    match r {
        Ok(_) => done_empty(),
        Err(e) => refuse(e),
    }
}

fn asked(r: Result<ServerRequest, EditorError>) -> (out: Outcome)
    ensures
        out@ == (match r {
            Ok(q) => OutcomeModel::Ask(EffectModel::Server(q@)),
            Err(e) => OutcomeModel::Done(Err(error::error_text(e))),
        }),
{
    match r {
        Ok(q) => Outcome::Ask(Effect::Server(q)),
        Err(e) => refuse(e),
    }
}

impl ProtocolState {
    fn list_buffers(&self) -> (r: Value)
        ensures
            json::value_json(r) == payload::entries_json(self.core@.entries),
    {
        let listed = self.core.buffer_list();
        let ghost goal = Seq::new(
            self.core@.entries.len(),
            |i: int|
                payload::entry_json(
                    self.core@.entries[i].id,
                    self.core@.entries[i].buffer.path,
                    self.core@.entries[i].buffer.dirty,
                    self.core@.entries[i].buffer.version,
                ),
        );
        assert forall|i: int| 0 <= i < goal.len() implies payload::all_trees(listed@)[i]
            == goal[i] by {
            assert(runtime::listed(listed@[i], self.core@.entries[i]));
        }
        assert(payload::all_trees(listed@) =~= goal);
        list_of(&listed)
    }

    fn list_clients(&self) -> (r: Value)
        ensures
            json::value_json(r) == json::Json::List(
                seq![payload::client_json(self.client_id@, "agent"@, self.core@.focus)],
            ),
    {
        let clients = self.clients_list();
        assert(payload::all_trees(clients@) =~= seq![
            payload::client_json(self.client_id@, "agent"@, self.core@.focus),
        ]);
        list_of(&clients)
    }

    fn list_proposals(&self) -> (r: Value)
        ensures
            json::value_json(r) == payload::proposals_json(self.core@.proposals.queue),
    {
        let queued = self.core.proposals_list();
        let ghost ps = self.core@.proposals.queue;
        assert forall|i: int| 0 <= i < ps.len() implies payload::all_trees(queued@)[i]
            == payload::proposal_json(ps[i]) by {
            assert(proposals::proposal_views(queued@)[i] == queued@[i]@);
        }
        assert(payload::all_trees(queued@) =~= Seq::new(
            ps.len(),
            |i: int| payload::proposal_json(ps[i]),
        ));
        list_of(&queued)
    }

    fn query(&self, id: u64, query: &str) -> (r: Outcome)
        requires
            runtime::well_formed(self.core@),
        ensures
            r@ == (match insight::ast_result(self.core@, id, query@) {
                Ok(found) => OutcomeModel::Done(Ok(payload::matches_json(found))),
                Err(e) => OutcomeModel::Done(Err(error::error_text(e))),
            }),
    {
        match self.core.ast_query(id, query) {
            Ok(found) => {
                let ghost ms = syntax::match_views(found@);
                assert(payload::all_trees(found@) =~= Seq::new(
                    ms.len(),
                    |i: int| payload::match_json(ms[i]),
                ));
                Outcome::Done(Ok(list_of(&found)))
            },
            Err(e) => refuse(e),
        }
    }

    fn call_repository(&self, tool: Tool, a: &Vec<Arg>) -> (r: Outcome)
        requires
            tool == Tool::GitDiff || tool == Tool::GitStatus || tool == Tool::GitLog || tool
                == Tool::GitShow || tool == Tool::GitStage || tool == Tool::GitUnstage || tool
                == Tool::GitCommit || tool == Tool::TasksList,
        ensures
            (self.core@, r@) == called(
                self.core@,
                self.client_id@,
                tool,
                args::arg_views(a@),
            ),
    {
        let id: u64 = get_number(a, 0);
        let found = match tool {
            Tool::GitDiff => self.core.git_diff(id),
            Tool::TasksList => self.core.tasks_list(id),
            _ => self.core.repo_file(id),
        };
        match found {
            Err(e) => refuse(e),
            Ok(file) => Outcome::Ask(
                match tool {
                    Tool::GitDiff => Effect::Diff { file },
                    Tool::GitStatus => Effect::Status { file },
                    Tool::GitLog => Effect::Log { file, limit: get_size(a, 1) },
                    Tool::GitShow => Effect::Show { file, sha: get_string(a, 1) },
                    Tool::GitStage => Effect::Stage { file, asked: get_text(a, 1) },
                    Tool::GitUnstage => Effect::Unstage { file, asked: get_text(a, 1) },
                    Tool::GitCommit => Effect::Commit { file, message: get_string(a, 1) },
                    _ => Effect::Tasks { file },
                },
            ),
        }
    }

    fn call_server(&self, tool: Tool, a: &Vec<Arg>) -> (r: Outcome)
        requires
            tool == Tool::SymbolDefinition || tool == Tool::SymbolReferences || tool
                == Tool::SymbolHover || tool == Tool::WorkspaceSearch || tool == Tool::DiagCurrent
                || tool == Tool::DiagWait || tool == Tool::RenameSymbol,
        ensures
            (self.core@, r@) == called(
                self.core@,
                self.client_id@,
                tool,
                args::arg_views(a@),
            ),
    {
        let id: u64 = get_number(a, 0);
        match tool {
            Tool::SymbolDefinition => asked(
                self.core.symbol_definition(id, get_coordinate(a, 1), get_coordinate(a, 2)),
            ),
            Tool::SymbolReferences => asked(
                self.core.symbol_references(
                    id,
                    get_coordinate(a, 1),
                    get_coordinate(a, 2),
                    get_flag(a, 3),
                ),
            ),
            Tool::SymbolHover => asked(
                self.core.symbol_hover(id, get_coordinate(a, 1), get_coordinate(a, 2)),
            ),
            Tool::WorkspaceSearch => asked(
                self.core.symbol_workspace_search(id, &get_string(a, 1)),
            ),
            Tool::DiagCurrent => asked(self.core.diag_current(id)),
            Tool::DiagWait => asked(self.core.diag_wait_until_idle(id, get_number(a, 1))),
            _ => asked(
                self.core.edit_rename_symbol(
                    id,
                    get_number(a, 1),
                    get_coordinate(a, 2),
                    get_coordinate(a, 3),
                    &get_string(a, 4),
                ),
            ),
        }
    }

    fn call_proposals(&mut self, tool: Tool, a: &Vec<Arg>) -> (r: Outcome)
        requires
            runtime::well_formed(old(self).core@),
            runtime::room(old(self).core@, call_room(old(self).core@)),
            tool == Tool::ProposeRange || tool == Tool::ProposalsAccept || tool
                == Tool::ProposalsReject || tool == Tool::ProposalsAcceptAll || tool
                == Tool::ProposalsRejectAll,
        ensures
            runtime::well_formed(final(self).core@),
            final(self).client_id@ == old(self).client_id@,
            (final(self).core@, r@) == called(
                old(self).core@,
                old(self).client_id@,
                tool,
                args::arg_views(a@),
            ),
    {
        let id: u64 = get_number(a, 0);
        match tool {
            Tool::ProposeRange => {
                let (start, end) = match get_span(a, 2) {
                    Some(p) => p,
                    None => (0, 0),
                };
                match self.core.propose_replace_range(
                    id,
                    get_number(a, 1),
                    CharRange { start, end },
                    get_string(a, 3),
                    get_string(a, 4),
                ) {
                    Ok(p) => done_one("proposal_id", unsigned(p.0)),
                    Err(e) => refuse(e),
                }
            },
            Tool::ProposalsAccept => versioned(self.core.accept(ProposalId(id))),
            Tool::ProposalsReject => emptied(self.core.proposal_reject(ProposalId(id))),
            Tool::ProposalsAcceptAll => {
                let all = self.core.accept_all();
                Outcome::Done(Ok(bulk_value(&all)))
            },
            _ => {
                let n: usize = self.core.proposals_reject_all();
                done_one("rejected", unsigned(n as u64))
            },
        }
    }

    fn call_edits(&mut self, tool: Tool, a: &Vec<Arg>) -> (r: Outcome)
        requires
            runtime::well_formed(old(self).core@),
            runtime::room(old(self).core@, call_room(old(self).core@)),
            tool == Tool::ReplaceRange || tool == Tool::ReplaceNode || tool == Tool::TxBegin
                || tool == Tool::TxCommit || tool == Tool::TxRollback || tool
                == Tool::BufferClose,
        ensures
            runtime::well_formed(final(self).core@),
            final(self).client_id@ == old(self).client_id@,
            (final(self).core@, r@) == called(
                old(self).core@,
                old(self).client_id@,
                tool,
                args::arg_views(a@),
            ),
    {
        let id: u64 = get_number(a, 0);
        match tool {
            Tool::ReplaceRange => {
                let (start, end) = match get_span(a, 2) {
                    Some(p) => p,
                    None => (0, 0),
                };
                versioned(
                    self.core.replace_range(
                        id,
                        get_number(a, 1),
                        CharRange { start, end },
                        &get_string(a, 3),
                    ),
                )
            },
            Tool::ReplaceNode => {
                let (start, end) = match get_span(a, 2) {
                    Some(p) => p,
                    None => (0, 0),
                };
                versioned(
                    self.core.replace_node(
                        id,
                        get_number(a, 1),
                        ByteRange { start, end },
                        &get_string(a, 3),
                    ),
                )
            },
            Tool::TxBegin => match self.core.tx_begin(id, get_string(a, 1), get_text(a, 2)) {
                Ok(t) => done_one("tx_id", unsigned(t.0)),
                Err(e) => refuse(e),
            },
            Tool::TxCommit => match self.core.end_committed(TxId(id)) {
                Ok(c) => done_one("change_id", unsigned(c.0)),
                Err(e) => refuse(e),
            },
            Tool::TxRollback => emptied(self.core.tx_rollback(TxId(id))),
            _ => emptied(self.core.buffer_close(id)),
        }
    }

    fn call_reads(&self, tool: Tool, a: &Vec<Arg>) -> (r: Outcome)
        requires
            runtime::well_formed(self.core@),
            tool == Tool::BufferList || tool == Tool::BufferOpen || tool == Tool::ClientsList
                || tool == Tool::ProposalsList || tool == Tool::ProposalsCount || tool
                == Tool::BufferRead || tool == Tool::AstQuery || tool == Tool::BufferVersion
                || tool == Tool::HistoryRecent,
        ensures
            (self.core@, r@) == called(
                self.core@,
                self.client_id@,
                tool,
                args::arg_views(a@),
            ),
    {
        let id: u64 = get_number(a, 0);
        match tool {
            Tool::BufferList => Outcome::Done(Ok(self.list_buffers())),
            Tool::BufferOpen => Outcome::Ask(Effect::Open { path: get_string(a, 0) }),
            Tool::ClientsList => Outcome::Done(Ok(self.list_clients())),
            Tool::ProposalsList => Outcome::Done(Ok(self.list_proposals())),
            Tool::ProposalsCount => done_one(
                "count",
                unsigned(self.core.proposals_count() as u64),
            ),
            Tool::BufferRead => {
                let range = match get_span(a, 1) {
                    Some((start, end)) => Some(CharRange { start, end }),
                    None => None,
                };
                match self.core.buffer_read(id, range) {
                    Ok(read) => Outcome::Done(Ok(read.to_value())),
                    Err(e) => refuse(e),
                }
            },
            Tool::AstQuery => self.query(id, &get_string(a, 1)),
            Tool::BufferVersion => versioned(self.core.buffer_version(id)),
            _ => Outcome::Done(Ok(changes_value(self.core.history_recent(get_size(a, 0))))),
        }
    }

    fn list_imports(&self, id: u64) -> (r: Outcome)
        requires
            runtime::well_formed(self.core@),
        ensures
            r@ == (match insight::imports_result(self.core@, id) {
                Ok(v) => OutcomeModel::Done(Ok(payload::imports_json(v))),
                Err(e) => OutcomeModel::Done(Err(error::error_text(e))),
            }),
    {
        match self.core.scope_imports(id) {
            Ok(v) => Outcome::Done(Ok(imports_value(&v))),
            Err(e) => refuse(e),
        }
    }

    fn start_tests(&self, id: u64, target: Option<String>) -> (r: Outcome)
        ensures
            r@ == (match requests::test_refusal(self.core@, id) {
                Some(e) => OutcomeModel::Done(Err(error::error_text(e))),
                None => if test_runner::flag_like(buffer::option_view(target)) {
                    OutcomeModel::Done(
                        Err(
                            error::flag_filter_text(
                                test_runner::debug_notation(target->Some_0@),
                            ),
                        ),
                    )
                } else {
                    OutcomeModel::Ask(
                        EffectModel::RunTests(
                            requests::run_of(
                                self.core@.entries[runtime::place_of(
                                    self.core@.entries,
                                    id,
                                )->Some_0],
                                buffer::option_view(target),
                            ),
                        ),
                    )
                },
            }),
    {
        let filter: Option<&str> = match &target {
            Some(t) => Some(t.as_str()),
            None => None,
        };
        assert(test_runner::target_view(filter) == buffer::option_view(target));
        match self.core.test_run(id, filter) {
            Ok(run) => Outcome::Ask(Effect::RunTests(run)),
            Err(e) => refuse(e),
        }
    }

    fn last_results(&self) -> (r: Value)
        ensures
            json::value_json(r) == (match self.core@.last_results {
                Some(t) => payload::results_json(t),
                None => json::Json::Null,
            }),
    {
        match self.core.test_last_results() {
            Some(t) => t.to_value(),
            None => null(),
        }
    }

    fn call_insight(&self, tool: Tool, a: &Vec<Arg>) -> (r: Outcome)
        requires
            runtime::well_formed(self.core@),
            tool == Tool::TestRun || tool == Tool::TestLastResults || tool == Tool::ScopeImports
                || tool == Tool::ScopeInScope || tool == Tool::ContextPack,
        ensures
            (self.core@, r@) == called(
                self.core@,
                self.client_id@,
                tool,
                args::arg_views(a@),
            ),
    {
        let id: u64 = get_number(a, 0);
        match tool {
            Tool::TestRun => self.start_tests(id, get_text(a, 1)),
            Tool::TestLastResults => Outcome::Done(Ok(self.last_results())),
            Tool::ScopeImports => self.list_imports(id),
            Tool::ScopeInScope => asked(self.core.scope_in_scope(id)),
            _ => match self.core.context_pack(
                id,
                get_coordinate(a, 1),
                get_coordinate(a, 2),
                get_size(a, 3),
            ) {
                Ok(p) => Outcome::Done(Ok(p.to_value())),
                Err(e) => refuse(e),
            },
        }
    }

    fn dispatch_now(&mut self, tool: Tool, a: &Vec<Arg>) -> (r: Outcome)
        requires
            runtime::well_formed(old(self).core@),
            runtime::room(old(self).core@, call_room(old(self).core@)),
        ensures
            runtime::well_formed(final(self).core@),
            final(self).client_id@ == old(self).client_id@,
            (final(self).core@, r@) == called(
                old(self).core@,
                old(self).client_id@,
                tool,
                args::arg_views(a@),
            ),
    {
        match tool {
            Tool::GitDiff
            | Tool::GitStatus
            | Tool::GitLog
            | Tool::GitShow
            | Tool::GitStage
            | Tool::GitUnstage
            | Tool::GitCommit
            | Tool::TasksList => self.call_repository(tool, a),
            Tool::SymbolDefinition
            | Tool::SymbolReferences
            | Tool::SymbolHover
            | Tool::WorkspaceSearch
            | Tool::DiagCurrent
            | Tool::DiagWait
            | Tool::RenameSymbol => self.call_server(tool, a),
            Tool::ProposeRange
            | Tool::ProposalsAccept
            | Tool::ProposalsReject
            | Tool::ProposalsAcceptAll
            | Tool::ProposalsRejectAll => self.call_proposals(tool, a),
            Tool::ReplaceRange
            | Tool::ReplaceNode
            | Tool::TxBegin
            | Tool::TxCommit
            | Tool::TxRollback
            | Tool::BufferClose => self.call_edits(tool, a),
            Tool::BufferList
            | Tool::BufferOpen
            | Tool::ClientsList
            | Tool::ProposalsList
            | Tool::ProposalsCount
            | Tool::BufferRead
            | Tool::AstQuery
            | Tool::BufferVersion
            | Tool::HistoryRecent => self.call_reads(tool, a),
            Tool::TestRun
            | Tool::TestLastResults
            | Tool::ScopeImports
            | Tool::ScopeInScope
            | Tool::ContextPack => self.call_insight(tool, a),
        }
    }

    /// Runs a tool.
    pub fn dispatch_tool(&mut self, tool: Tool, a: &Vec<Arg>) -> (r: Outcome)
        requires
            runtime::well_formed(old(self).core@),
            runtime::room(old(self).core@, call_room(old(self).core@)),
        ensures
            runtime::well_formed(final(self).core@),
            final(self).client_id@ == old(self).client_id@,
            calls(
                old(self).core@,
                old(self).client_id@,
                tool,
                args::arg_views(a@),
                final(self).core@,
                r@,
            ),
    {
        self.core.tick();
        self.dispatch_now(tool, a)
    }
}

/// How often a call may count up.
pub open spec fn call_room(m: runtime::CoreModel) -> int {
    5 * m.proposals.queue.len() as int + 5
}

// --------------------------------------------------------------------- answers

impl ProtocolState {
    /// Whether the counters leave room for a call.
    pub fn can_call(&self) -> (r: bool)
        ensures
            r == runtime::room(self.core@, call_room(self.core@)),
    {
        let waiting: u64 = self.core.proposals_count() as u64;
        if waiting > (u64::MAX - 5) / 5 {
            return false;
        }
        self.core.has_room(5 * waiting + 5)
    }

    /// Whether the counters leave room for the rest of a call.
    pub fn can_resume(&self, answer: &Answer) -> (r: bool)
        ensures
            r == runtime::room(self.core@, answer_room(*answer)),
    {
        match answer {
            Answer::File { absolute: _, loaded: _ } => self.core.has_room(1),
            Answer::Edits(w) => {
                let n: u64 = w.changes.len() as u64;
                n <= u64::MAX / 2 && self.core.has_room(2 * n)
            },
            _ => self.core.has_room(0),
        }
    }
}

/// What came of an effect.
#[derive(Debug)]
pub enum Answer {
    /// The file, where there is one, and its path in absolute form.
    File { absolute: String, loaded: Result<Option<String>, EditorError> },
    Done,
    Text(String),
    MaybeText(Option<String>),
    Statuses(Vec<StatusEntry>),
    Commits(Vec<LogEntry>),
    Locations(Vec<Location>),
    Symbols(Vec<SymbolInformation>),
    Diagnostics(Vec<Diagnostic>),
    Waited(DiagWaitResult),
    Tasks(Vec<InlineTask>),
    Edits(WorkspaceEdit),
    DocumentSymbols(Vec<DocumentSymbol>),
    /// What the process of a test run printed, and whether it ended well.
    Tested { kind: TestRunnerKind, stdout: String, stderr: String, exit_ok: bool },
    Failed(String),
}

/// The name under which a tool returns a text.
pub open spec fn text_key(tool: Tool) -> &'static str {
    match tool {
        Tool::GitDiff => "diff",
        Tool::GitShow => "patch",
        Tool::GitCommit => "output",
        _ => "text",
    }
}

fn key_of(tool: Tool) -> (r: &'static str)
    ensures
        r == text_key(tool),
{
    match tool {
        Tool::GitDiff => "diff",
        Tool::GitShow => "patch",
        Tool::GitCommit => "output",
        _ => "text",
    }
}

/// What an answer that changes nothing is returned as.
pub open spec fn answer_json(tool: Tool, a: Answer) -> Result<json::Json, Seq<char>> {
    match a {
        Answer::Text(s) => Ok(one(text_key(tool)@, payload::text_json(s@))),
        Answer::MaybeText(s) => Ok(
            one(text_key(tool)@, json::opt_text(buffer::option_view(s))),
        ),
        Answer::Statuses(v) => Ok(json::Json::List(payload::all_trees(v@))),
        Answer::Commits(v) => Ok(json::Json::List(payload::all_trees(v@))),
        Answer::Locations(v) => Ok(json::Json::List(payload::all_trees(v@))),
        Answer::Symbols(v) => Ok(json::Json::List(payload::all_trees(v@))),
        Answer::Diagnostics(v) => Ok(json::Json::List(payload::all_trees(v@))),
        Answer::Tasks(v) => Ok(json::Json::List(payload::all_trees(v@))),
        Answer::Waited(w) => Ok(w.tree()),
        Answer::Failed(e) => Err(e@),
        _ => Ok(nothing()),
    }
}

/// A call whose effect was answered leaves `after` and returns `out`, at some moment.
pub open spec fn resumes(
    m: runtime::CoreModel,
    tool: Tool,
    kept: KeptModel,
    a: Answer,
    after: runtime::CoreModel,
    out: Result<json::Json, Seq<char>>,
) -> bool {
    exists|at: tx::Moment|
        tx::proper(at) && resumed(#[trigger] runtime::clocked(m, at), tool, kept, a, after, out)
}

/// A call whose effect was answered leaves `after` and returns `out`, at the moment
/// that the clock was last read at.
pub open spec fn resumed(
    m: runtime::CoreModel,
    tool: Tool,
    kept: KeptModel,
    a: Answer,
    after: runtime::CoreModel,
    out: Result<json::Json, Seq<char>>,
) -> bool {
    match a {
        Answer::File { absolute, loaded } => match loaded {
            Ok(contents) => {
                &&& after == runtime::after_open(
                    m,
                    runtime::opened_entry(
                        m.next_id,
                        kept.text,
                        absolute@,
                        buffer::option_view(contents),
                    ),
                )
                &&& out == Ok::<json::Json, Seq<char>>(
                    one("buffer_id"@, payload::int_json(m.next_id as int)),
                )
            },
            Err(e) => {
                &&& after == (runtime::CoreModel { next_id: (m.next_id + 1) as u64, ..m })
                &&& out == Err::<json::Json, _>(error::error_text(e))
            },
        },
        Answer::Edits(w) => {
            let st = rename::renamed(m, w.changes@, kept.text);
            match st.failed {
                Some(e) => after == st.core && out == Err::<json::Json, _>(error::error_text(e)),
                None => {
                    &&& after == rename::all_settled(st.core, st.places, st.places.len() as int)
                    &&& exists|r: RenameResult| #[trigger]
                        rename::reports(r, st) && out == Ok::<json::Json, Seq<char>>(r.tree())
                },
            }
        },
        Answer::DocumentSymbols(symbols) => {
            &&& after == m
            &&& out == (match insight::imports_result(m, kept.id) {
                Ok(imports) => Ok::<json::Json, Seq<char>>(
                    payload::scope_json(
                        protocol::enclosing_of(
                            symbols@,
                            kept.line as int,
                            kept.character as int,
                        ),
                        imports,
                        protocol::siblings_of(
                            symbols@,
                            kept.line as int,
                            kept.character as int,
                        ),
                    ),
                ),
                Err(e) => Err(error::error_text(e)),
            })
        },
        Answer::Tested { kind, stdout, stderr, exit_ok } => {
            let t = test_runner::outcome_of(stdout@, stderr@, exit_ok);
            &&& after == (runtime::CoreModel { last_results: Some(t), ..m })
            &&& out == Ok::<json::Json, Seq<char>>(payload::results_json(t))
        },
        _ => after == m && out == answer_json(tool, a),
    }
}

/// How often the end of a call may count up.
pub open spec fn answer_room(a: Answer) -> int {
    match a {
        Answer::File { absolute, loaded } => 1,
        Answer::Edits(w) => 2 * w.changes@.len() as int,
        _ => 0,
    }
}

impl ProtocolState {
    /// Ends a call with the answer to its effect.
    pub fn resume_tool(&mut self, tool: Tool, kept: Kept, answer: Answer) -> (r: Result<
        Value,
        String,
    >)
        requires
            runtime::well_formed(old(self).core@),
            runtime::room(old(self).core@, answer_room(answer)),
        ensures
            runtime::well_formed(final(self).core@),
            final(self).client_id@ == old(self).client_id@,
            resumes(
                old(self).core@,
                tool,
                kept@,
                answer,
                final(self).core@,
                result_view(r),
            ),
    {
        self.core.tick();
        self.resume_now(tool, kept, answer)
    }

    fn describe_scope(&self, kept: &Kept, symbols: &Vec<DocumentSymbol>) -> (r: Result<
        Value,
        String,
    >)
        requires
            runtime::well_formed(self.core@),
        ensures
            result_view(r) == (match insight::imports_result(self.core@, kept.buffer_id) {
                Ok(imports) => Ok::<json::Json, Seq<char>>(
                    payload::scope_json(
                        protocol::enclosing_of(
                            symbols@,
                            kept.line as int,
                            kept.character as int,
                        ),
                        imports,
                        protocol::siblings_of(
                            symbols@,
                            kept.line as int,
                            kept.character as int,
                        ),
                    ),
                ),
                Err(e) => Err(error::error_text(e)),
            }),
    {
        match self.core.scope_imports(kept.buffer_id) {
            Ok(imports) => Ok(
                scope_report(imports, symbols, kept.line, kept.character).to_value(),
            ),
            Err(e) => Err(e.message()),
        }
    }

    fn resume_now(&mut self, tool: Tool, kept: Kept, answer: Answer) -> (r: Result<Value, String>)
        requires
            runtime::well_formed(old(self).core@),
            runtime::room(old(self).core@, answer_room(answer)),
        ensures
            runtime::well_formed(final(self).core@),
            final(self).client_id@ == old(self).client_id@,
            resumed(
                old(self).core@,
                tool,
                kept@,
                answer,
                final(self).core@,
                result_view(r),
            ),
    {
        match answer {
            Answer::File { absolute, loaded } => match self.core.buffer_open(
                kept.text,
                absolute,
                loaded,
            ) {
                Ok(id) => Ok(obj1("buffer_id", unsigned(id))),
                Err(e) => Err(e.message()),
            },
            Answer::Edits(w) => match self.core.rename_documents(&kept.text, &w) {
                Ok(done) => Ok(done.to_value()),
                Err(e) => Err(e.message()),
            },
            Answer::Done => Ok(obj0()),
            Answer::Text(s) => Ok(obj1(key_of(tool), string(&s))),
            Answer::MaybeText(s) => Ok(obj1(key_of(tool), maybe_string(&s))),
            Answer::Statuses(v) => Ok(list_of(&v)),
            Answer::Commits(v) => Ok(list_of(&v)),
            Answer::Locations(v) => Ok(list_of(&v)),
            Answer::Symbols(v) => Ok(list_of(&v)),
            Answer::Diagnostics(v) => Ok(list_of(&v)),
            Answer::Tasks(v) => Ok(list_of(&v)),
            Answer::Waited(w) => Ok(w.to_value()),
            Answer::DocumentSymbols(symbols) => self.describe_scope(&kept, &symbols),
            Answer::Tested { kind, stdout, stderr, exit_ok } => {
                let results = finish_run(kind, &stdout, &stderr, exit_ok);
                self.core.test_finished(&results);
                Ok(results.to_value())
            },
            Answer::Failed(e) => Err(e),
        }
    }
}

} // verus!
