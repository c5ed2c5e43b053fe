//! What each tool does with the arguments that it is called with.

use vstd::prelude::*;

use crate::error;
use crate::error::EditorError;
use crate::json;
use crate::json::Json;
use crate::language::Language;
use crate::lsp::laws::says;
use crate::mcp;
use crate::mcp::args;
use crate::mcp::args::ArgModel;
use crate::mcp::calls;
use crate::mcp::calls::{EffectModel, OutcomeModel};
use crate::mcp::tools;
use crate::mcp::tools::{Field, Presence, Tool};
use crate::protocol::{ByteRange, CharRange};
use crate::runtime;
use crate::runtime::facts::holds;
use crate::runtime::requests::RequestModel;
use crate::runtime::CoreModel;
use crate::scan;

verus! {

/// A tool takes the arguments.
pub open spec fn takes(tool: Tool, j: Json) -> bool {
    args::args_of(j, tools::tool_fields(tool)) is Ok
}

/// What comes of calling a tool.
pub open spec fn run(m: CoreModel, client: Seq<char>, tool: Tool, j: Json) -> (
    CoreModel,
    OutcomeModel,
) {
    calls::called(m, client, tool, args::args_of(j, tools::tool_fields(tool))->Ok_0)
}

/// An argument is given as it has to be, or may be left out and is.
pub open spec fn fits(j: Json, f: Field) -> bool {
    match json::member(j, f.name@) {
        Some(x) => args::given(f, x) is Ok,
        None => f.presence != Presence::Required,
    }
}

proof fn lemma_faultless(j: Json, fields: Seq<Field>, n: int)
    requires
        0 <= n <= fields.len(),
        forall|i: int| 0 <= i < fields.len() ==> fits(j, #[trigger] fields[i]),
    ensures
        args::first_faulty(j, fields, n) is None,
        args::first_missing(j, fields, n) is None,
    decreases n,
{
    if n > 0 {
        lemma_faultless(j, fields, n - 1);
        assert(fits(j, fields[n - 1]));
    }
}

proof fn lemma_args(j: Json, fields: Seq<Field>)
    requires
        j is Object,
        fields.len() > 0,
        forall|i: int| 0 <= i < fields.len() ==> fits(j, #[trigger] fields[i]),
    ensures
        args::args_of(j, fields) == Ok::<Seq<ArgModel>, Seq<char>>(
            Seq::new(fields.len(), |i: int| args::named_arg(j, fields[i])),
        ),
{
    lemma_faultless(j, fields, fields.len() as int);
}

pub proof fn lemma_tool_args(tool: Tool, j: Json) -> (a: Seq<ArgModel>)
    requires
        j is Object,
        tools::tool_fields(tool).len() > 0,
        forall|i: int|
            0 <= i < tools::tool_fields(tool).len() ==> fits(
                j,
                #[trigger] tools::tool_fields(tool)[i],
            ),
    ensures
        args::args_of(j, tools::tool_fields(tool)) == Ok::<Seq<ArgModel>, Seq<char>>(a),
        a.len() == tools::tool_fields(tool).len(),
        forall|i: int|
            0 <= i < a.len() ==> #[trigger] a[i] == args::named_arg(
                j,
                tools::tool_fields(tool)[i],
            ),
{
    let fields = tools::tool_fields(tool);
    lemma_args(j, fields);
    Seq::new(fields.len(), |i: int| args::named_arg(j, fields[i]))
}

pub proof fn lemma_held(m: CoreModel, id: u64, k: int)
    requires
        holds(m, id, k),
    ensures
        runtime::place_of(m.entries, id) == Some(k),
{
    runtime::lemma_place_of(m.entries, id);
}

// --------------------------------------------------------------------- git tools

/// The git tools ask for what they are named after, about the buffer's file.
pub proof fn law_git_tools(
    m: CoreModel,
    client: Seq<char>,
    j: Json,
    id: u64,
    k: int,
    file: Seq<char>,
    n: usize,
    s: Seq<char>,
)
    requires
        holds(m, id, k),
        m.entries[k].buffer.path == Some(file),
        says(j, "buffer_id"@, Json::Int(id as int)),
    ensures
        takes(Tool::GitDiff, j) && run(m, client, Tool::GitDiff, j) == (
            m,
            OutcomeModel::Ask(EffectModel::Diff { file }),
        ),
        takes(Tool::GitStatus, j) && run(m, client, Tool::GitStatus, j) == (
            m,
            OutcomeModel::Ask(EffectModel::Status { file }),
        ),
        takes(Tool::TasksList, j) && run(m, client, Tool::TasksList, j) == (
            m,
            OutcomeModel::Ask(EffectModel::Tasks { file }),
        ),
        says(j, "limit"@, Json::Int(n as int)) ==> takes(Tool::GitLog, j) && run(
            m,
            client,
            Tool::GitLog,
            j,
        ) == (m, OutcomeModel::Ask(EffectModel::Log { file, limit: n })),
        says(j, "sha"@, Json::Text(s)) ==> takes(Tool::GitShow, j) && run(
            m,
            client,
            Tool::GitShow,
            j,
        ) == (m, OutcomeModel::Ask(EffectModel::Show { file, sha: s })),
        says(j, "message"@, Json::Text(s)) ==> takes(Tool::GitCommit, j) && run(
            m,
            client,
            Tool::GitCommit,
            j,
        ) == (m, OutcomeModel::Ask(EffectModel::Commit { file, message: s })),
{
    lemma_held(m, id, k);
    let a = lemma_tool_args(Tool::GitDiff, j);
    assert(a[0] == ArgModel::Number(id));
    let a = lemma_tool_args(Tool::GitStatus, j);
    assert(a[0] == ArgModel::Number(id));
    let a = lemma_tool_args(Tool::TasksList, j);
    assert(a[0] == ArgModel::Number(id));
    if says(j, "limit"@, Json::Int(n as int)) {
        let a = lemma_tool_args(Tool::GitLog, j);
        assert(a[0] == ArgModel::Number(id));
        assert(a[1] == ArgModel::Size(n));
    }
    if says(j, "sha"@, Json::Text(s)) {
        let a = lemma_tool_args(Tool::GitShow, j);
        assert(a[0] == ArgModel::Number(id));
        assert(a[1] == ArgModel::Text(s));
    }
    if says(j, "message"@, Json::Text(s)) {
        let a = lemma_tool_args(Tool::GitCommit, j);
        assert(a[0] == ArgModel::Number(id));
        assert(a[1] == ArgModel::Text(s));
    }
}

/// Staging and unstaging are about the path that is given, or else about the buffer's file.
pub proof fn law_staging_tools(
    m: CoreModel,
    client: Seq<char>,
    j: Json,
    id: u64,
    k: int,
    file: Seq<char>,
    s: Seq<char>,
)
    requires
        holds(m, id, k),
        m.entries[k].buffer.path == Some(file),
        says(j, "buffer_id"@, Json::Int(id as int)),
        says(j, "path"@, Json::Text(s)) || !j->Object_0.contains_key("path"@),
    ensures
        ({
            let asked = if j->Object_0.contains_key("path"@) {
                Some(s)
            } else {
                None
            };
            &&& takes(Tool::GitStage, j) && run(m, client, Tool::GitStage, j) == (
                m,
                OutcomeModel::Ask(EffectModel::Stage { file, asked }),
            )
            &&& takes(Tool::GitUnstage, j) && run(m, client, Tool::GitUnstage, j) == (
                m,
                OutcomeModel::Ask(EffectModel::Unstage { file, asked }),
            )
        }),
{
    lemma_held(m, id, k);
    let a = lemma_tool_args(Tool::GitStage, j);
    assert(a[0] == ArgModel::Number(id));
    assert(a[1] == (if j->Object_0.contains_key("path"@) {
        ArgModel::Text(s)
    } else {
        ArgModel::Absent
    }));
    let b = lemma_tool_args(Tool::GitUnstage, j);
    assert(b[0] == ArgModel::Number(id));
    assert(b[1] == a[1]);
}

// ------------------------------------------------------------------ server tools

/// The tools that ask a server ask the one of the buffer's language, about the buffer and the
/// place that is given.
pub proof fn law_server_tools(
    m: CoreModel,
    client: Seq<char>,
    j: Json,
    id: u64,
    k: int,
    language: Language,
    uri: Seq<char>,
    line: u32,
    character: u32,
)
    requires
        holds(m, id, k),
        m.entries[k].language == Some(language),
        m.entries[k].uri == Some(uri),
        m.running.contains(language),
        says(j, "buffer_id"@, Json::Int(id as int)),
        says(j, "line"@, Json::Int(line as int)),
        says(j, "character"@, Json::Int(character as int)),
    ensures
        takes(Tool::SymbolDefinition, j) && run(m, client, Tool::SymbolDefinition, j) == (
            m,
            OutcomeModel::Ask(
                EffectModel::Server(RequestModel::Definition { language, uri, line, character }),
            ),
        ),
        takes(Tool::SymbolHover, j) && run(m, client, Tool::SymbolHover, j) == (
            m,
            OutcomeModel::Ask(
                EffectModel::Server(RequestModel::Hover { language, uri, line, character }),
            ),
        ),
        takes(Tool::DiagCurrent, j) && run(m, client, Tool::DiagCurrent, j) == (
            m,
            OutcomeModel::Ask(EffectModel::Server(RequestModel::Diagnostics { language, uri })),
        ),
{
    lemma_held(m, id, k);
    let a = lemma_tool_args(Tool::SymbolDefinition, j);
    assert(a[0] == ArgModel::Number(id));
    assert(a[1] == ArgModel::Coordinate(line));
    assert(a[2] == ArgModel::Coordinate(character));
    let a = lemma_tool_args(Tool::SymbolHover, j);
    assert(a[0] == ArgModel::Number(id));
    assert(a[1] == ArgModel::Coordinate(line));
    assert(a[2] == ArgModel::Coordinate(character));
    let a = lemma_tool_args(Tool::DiagCurrent, j);
    assert(a[0] == ArgModel::Number(id));
}

/// References take in the declaration unless that is not wanted, and waiting ends after three
/// seconds unless another time is given.
pub proof fn law_server_tools_with_defaults(
    m: CoreModel,
    client: Seq<char>,
    j: Json,
    id: u64,
    k: int,
    language: Language,
    uri: Seq<char>,
    line: u32,
    character: u32,
    flag: bool,
    millis: u64,
)
    requires
        holds(m, id, k),
        m.entries[k].language == Some(language),
        m.entries[k].uri == Some(uri),
        m.running.contains(language),
        says(j, "buffer_id"@, Json::Int(id as int)),
        says(j, "line"@, Json::Int(line as int)),
        says(j, "character"@, Json::Int(character as int)),
        says(j, "include_declaration"@, Json::Bool(flag)) || !j->Object_0.contains_key(
            "include_declaration"@,
        ),
        says(j, "timeout_ms"@, Json::Int(millis as int)) || !j->Object_0.contains_key(
            "timeout_ms"@,
        ),
    ensures
        takes(Tool::SymbolReferences, j) && run(m, client, Tool::SymbolReferences, j) == (
            m,
            OutcomeModel::Ask(
                EffectModel::Server(
                    RequestModel::References {
                        language,
                        uri,
                        line,
                        character,
                        include_declaration: if j->Object_0.contains_key("include_declaration"@) {
                            flag
                        } else {
                            true
                        },
                    },
                ),
            ),
        ),
        takes(Tool::DiagWait, j) && run(m, client, Tool::DiagWait, j) == (
            m,
            OutcomeModel::Ask(
                EffectModel::Server(
                    RequestModel::WaitUntilIdle {
                        language,
                        uri,
                        timeout_ms: if j->Object_0.contains_key("timeout_ms"@) {
                            millis
                        } else {
                            3000
                        },
                    },
                ),
            ),
        ),
{
    lemma_held(m, id, k);
    let a = lemma_tool_args(Tool::SymbolReferences, j);
    assert(a[0] == ArgModel::Number(id));
    assert(a[1] == ArgModel::Coordinate(line));
    assert(a[2] == ArgModel::Coordinate(character));
    assert(a[3] == ArgModel::Flag(
        if j->Object_0.contains_key("include_declaration"@) {
            flag
        } else {
            true
        },
    ));
    let b = lemma_tool_args(Tool::DiagWait, j);
    assert(b[0] == ArgModel::Number(id));
    assert(b[1] == ArgModel::Number(
        if j->Object_0.contains_key("timeout_ms"@) {
            millis
        } else {
            3000
        },
    ));
}

/// A search in the workspace asks the server for the query; a rename, made for the version
/// that the buffer is at, asks it to rename what stands at the place.
pub proof fn law_searching_and_renaming_tools(
    m: CoreModel,
    client: Seq<char>,
    j: Json,
    id: u64,
    k: int,
    language: Language,
    uri: Seq<char>,
    line: u32,
    character: u32,
    version: u64,
    s: Seq<char>,
)
    requires
        holds(m, id, k),
        m.entries[k].language == Some(language),
        m.entries[k].uri == Some(uri),
        m.running.contains(language),
        says(j, "buffer_id"@, Json::Int(id as int)),
    ensures
        says(j, "query"@, Json::Text(s)) ==> takes(Tool::WorkspaceSearch, j) && run(
            m,
            client,
            Tool::WorkspaceSearch,
            j,
        ) == (
            m,
            OutcomeModel::Ask(
                EffectModel::Server(RequestModel::WorkspaceSymbol { language, query: s }),
            ),
        ),
        says(j, "line"@, Json::Int(line as int)) && says(
            j,
            "character"@,
            Json::Int(character as int),
        ) && says(j, "version"@, Json::Int(version as int)) && says(j, "new_name"@, Json::Text(s))
            ==> {
            &&& takes(Tool::RenameSymbol, j)
            &&& m.entries[k].buffer.version == version ==> run(
                m,
                client,
                Tool::RenameSymbol,
                j,
            ) == (
                m,
                OutcomeModel::Ask(
                    EffectModel::Server(
                        RequestModel::Rename { language, uri, line, character, new_name: s },
                    ),
                ),
            )
            &&& m.entries[k].buffer.version != version ==> {
                let r = run(m, client, Tool::RenameSymbol, j);
                r.0 == m && r.1 is Done && r.1->Done_0 is Err
            }
        },
{
    lemma_held(m, id, k);
    if says(j, "query"@, Json::Text(s)) {
        let a = lemma_tool_args(Tool::WorkspaceSearch, j);
        assert(a[0] == ArgModel::Number(id));
        assert(a[1] == ArgModel::Text(s));
    }
    if says(j, "line"@, Json::Int(line as int)) && says(
        j,
        "character"@,
        Json::Int(character as int),
    ) && says(j, "version"@, Json::Int(version as int)) && says(j, "new_name"@, Json::Text(s)) {
        let a = lemma_tool_args(Tool::RenameSymbol, j);
        assert(a[0] == ArgModel::Number(id));
        assert(a[1] == ArgModel::Number(version));
        assert(a[2] == ArgModel::Coordinate(line));
        assert(a[3] == ArgModel::Coordinate(character));
        assert(a[4] == ArgModel::Text(s));
    }
}

// --------------------------------------------------------------- unknown buffers

/// Nothing came of a call for a buffer that is not there, and that is what is said.
pub open spec fn misses(m: CoreModel, client: Seq<char>, tool: Tool, j: Json, id: u64) -> bool {
    &&& takes(tool, j)
    &&& run(m, client, tool, j) == (
        m,
        OutcomeModel::Done(
            Err::<Json, Seq<char>>("unknown buffer_id "@ + scan::decimal(id as nat)),
        ),
    )
}

/// No buffer has the id.
pub open spec fn unheard_of(m: CoreModel, id: u64) -> bool {
    forall|i: int| 0 <= i < m.entries.len() ==> (#[trigger] m.entries[i]).id != id
}

proof fn lemma_unheard_of(m: CoreModel, id: u64)
    requires
        unheard_of(m, id),
    ensures
        runtime::place_of(m.entries, id) is None,
        error::error_text((EditorError::UnknownBuffer { id })) == "unknown buffer_id "@ + scan::decimal(
            id as nat,
        ),
{
    runtime::lemma_place_of(m.entries, id);
    assert(error::error_text((EditorError::UnknownBuffer { id })) =~= "unknown buffer_id "@
        + scan::decimal(id as nat)) by {
        reveal_strlit("");
    }
}

/// The tools about a file say that there is no such buffer, and change nothing.
pub proof fn law_unknown_buffers_have_no_file(m: CoreModel, client: Seq<char>, j: Json, id: u64)
    requires
        says(j, "buffer_id"@, Json::Int(id as int)),
        unheard_of(m, id),
    ensures
        misses(m, client, Tool::GitDiff, j, id),
        misses(m, client, Tool::GitStatus, j, id),
        misses(m, client, Tool::TasksList, j, id),
{
    lemma_unheard_of(m, id);
    let a = lemma_tool_args(Tool::GitDiff, j);
    assert(a[0] == ArgModel::Number(id));
    let b = lemma_tool_args(Tool::GitStatus, j);
    assert(b[0] == ArgModel::Number(id));
    let c = lemma_tool_args(Tool::TasksList, j);
    assert(c[0] == ArgModel::Number(id));
}

/// The tools about a buffer itself say that there is none, and change nothing.
pub proof fn law_unknown_buffers_are_said(m: CoreModel, client: Seq<char>, j: Json, id: u64)
    requires
        says(j, "buffer_id"@, Json::Int(id as int)),
        unheard_of(m, id),
    ensures
        misses(m, client, Tool::BufferClose, j, id),
        misses(m, client, Tool::BufferVersion, j, id),
{
    lemma_unheard_of(m, id);
    let a = lemma_tool_args(Tool::BufferClose, j);
    assert(a[0] == ArgModel::Number(id));
    let b = lemma_tool_args(Tool::BufferVersion, j);
    assert(b[0] == ArgModel::Number(id));
}

// ----------------------------------------------------------------- editing tools

proof fn lemma_span(j: Json, name: Seq<char>, pair: Seq<char>, start: usize, end: usize)
    requires
        says(j, "start"@, Json::Int(start as int)),
        says(j, "end"@, Json::Int(end as int)),
    ensures
        args::span_of_json(j, name, pair) == Ok::<(usize, usize), Seq<char>>((start, end)),
{
}

/// Replacing a range makes the edit that is asked for, and answers with the new version.
pub proof fn law_replacing_a_range(
    m: CoreModel,
    client: Seq<char>,
    j: Json,
    range: Json,
    id: u64,
    version: u64,
    start: usize,
    end: usize,
    t: Seq<char>,
)
    requires
        says(j, "buffer_id"@, Json::Int(id as int)),
        says(j, "version"@, Json::Int(version as int)),
        says(j, "text"@, Json::Text(t)),
        says(j, "range"@, range),
        says(range, "start"@, Json::Int(start as int)),
        says(range, "end"@, Json::Int(end as int)),
    ensures
        takes(Tool::ReplaceRange, j),
        run(m, client, Tool::ReplaceRange, j).0 == runtime::replace_range_result(
            m,
            id,
            version,
            CharRange { start, end },
            t,
        ).0,
        answers_version(
            run(m, client, Tool::ReplaceRange, j).1,
            runtime::replace_range_result(m, id, version, (CharRange { start, end }), t).1,
        ),
{
    lemma_span(range, "struct CharRange"@, "struct CharRange with 2 elements"@, start, end);
    let a = lemma_tool_args(Tool::ReplaceRange, j);
    assert(a[0] == ArgModel::Number(id));
    assert(a[1] == ArgModel::Number(version));
    assert(a[2] == ArgModel::Span(start, end));
    assert(a[3] == ArgModel::Text(t));
    lemma_one("version"@);
    let out = runtime::replace_range_result(m, id, version, (CharRange { start, end }), t);
    assert(run(m, client, Tool::ReplaceRange, j).0 == out.0);
}

/// Replacing a node makes the edit that is asked for, and answers with the new version.
pub proof fn law_replacing_a_node(
    m: CoreModel,
    client: Seq<char>,
    j: Json,
    range: Json,
    id: u64,
    version: u64,
    start: usize,
    end: usize,
    t: Seq<char>,
)
    requires
        says(j, "buffer_id"@, Json::Int(id as int)),
        says(j, "version"@, Json::Int(version as int)),
        says(j, "text"@, Json::Text(t)),
        says(j, "byte_range"@, range),
        says(range, "start"@, Json::Int(start as int)),
        says(range, "end"@, Json::Int(end as int)),
    ensures
        takes(Tool::ReplaceNode, j),
        run(m, client, Tool::ReplaceNode, j).0 == runtime::replace_node_result(
            m,
            id,
            version,
            ByteRange { start, end },
            t,
        ).0,
        answers_version(
            run(m, client, Tool::ReplaceNode, j).1,
            runtime::replace_node_result(m, id, version, (ByteRange { start, end }), t).1,
        ),
{
    lemma_span(range, "struct ByteRange"@, "struct ByteRange with 2 elements"@, start, end);
    let a = lemma_tool_args(Tool::ReplaceNode, j);
    assert(a[0] == ArgModel::Number(id));
    assert(a[1] == ArgModel::Number(version));
    assert(a[2] == ArgModel::Span(start, end));
    assert(a[3] == ArgModel::Text(t));
    lemma_one("version"@);
    let out = runtime::replace_node_result(m, id, version, (ByteRange { start, end }), t);
    assert(run(m, client, Tool::ReplaceNode, j).0 == out.0);
}

/// The answer to an edit: the version, or why it was refused.
pub open spec fn answers_version(out: OutcomeModel, r: Result<u64, EditorError>) -> bool {
    match r {
        Ok(v) => out is Done && out->Done_0 is Ok && says(
            out->Done_0->Ok_0,
            "version"@,
            Json::Int(v as int),
        ),
        Err(e) => out == OutcomeModel::Done(Err::<Json, Seq<char>>(error::error_text(e))),
    }
}

pub proof fn lemma_one(key: Seq<char>)
    ensures
        forall|x: Json| says(#[trigger] calls::one(key, x), key, x),
{
    assert forall|x: Json| says(#[trigger] calls::one(key, x), key, x) by {
        let f = seq![(key, x)];
        assert(f.drop_last() =~= Seq::<(Seq<char>, Json)>::empty());
        reveal_with_fuel(json::put, 2);
    }
}

/// Reading a buffer answers with its text, or with the part of it that a range names, and its
/// version.
pub proof fn law_reading_tool(
    m: CoreModel,
    client: Seq<char>,
    j: Json,
    range: Json,
    id: u64,
    start: usize,
    end: usize,
)
    requires
        says(j, "buffer_id"@, Json::Int(id as int)),
        says(j, "range"@, range) || !j->Object_0.contains_key("range"@),
        says(range, "start"@, Json::Int(start as int)),
        says(range, "end"@, Json::Int(end as int)),
    ensures
        ({
            let (after, out) = run(m, client, Tool::BufferRead, j);
            let asked = if j->Object_0.contains_key("range"@) {
                Some(CharRange { start, end })
            } else {
                None
            };
            &&& takes(Tool::BufferRead, j)
            &&& after == m
            &&& match runtime::read_result(m, id, asked) {
                Ok((s, v)) => out is Done && out->Done_0 is Ok && says(
                    out->Done_0->Ok_0,
                    "text"@,
                    Json::Text(s),
                ) && says(out->Done_0->Ok_0, "version"@, Json::Int(v as int)),
                Err(e) => out == OutcomeModel::Done(Err::<Json, Seq<char>>(error::error_text(e))),
            }
        }),
{
    lemma_span(range, "struct CharRange"@, "struct CharRange with 2 elements"@, start, end);
    let a = lemma_tool_args(Tool::BufferRead, j);
    assert(a[0] == ArgModel::Number(id));
    assert(a[1] == (if j->Object_0.contains_key("range"@) {
        ArgModel::Span(start, end)
    } else {
        ArgModel::Absent
    }));
    let asked = if j->Object_0.contains_key("range"@) {
        Some(CharRange { start, end })
    } else {
        None
    };
    if let Ok((s, v)) = runtime::read_result(m, id, asked) {
        reveal_strlit("text");
        reveal_strlit("version");
        assert("text"@.len() != "version"@.len());
        crate::lsp::laws::lemma_two(
            ("text"@, Json::Text(s)),
            ("version"@, Json::Int(v as int)),
        );
    }
}

/// Opening asks for the file at the path that is given; closing takes the buffer away; the
/// version of a buffer is said.
pub proof fn law_buffer_tools(
    m: CoreModel,
    client: Seq<char>,
    j: Json,
    id: u64,
    k: int,
    path: Seq<char>,
)
    requires
        holds(m, id, k),
        says(j, "buffer_id"@, Json::Int(id as int)),
        says(j, "path"@, Json::Text(path)),
    ensures
        takes(Tool::BufferOpen, j) && run(m, client, Tool::BufferOpen, j) == (
            m,
            OutcomeModel::Ask(EffectModel::Open { path }),
        ),
        takes(Tool::BufferClose, j) && run(m, client, Tool::BufferClose, j).0.entries
            == m.entries.take(k) + m.entries.skip(k + 1),
        ({
            let (after, out) = run(m, client, Tool::BufferVersion, j);
            &&& takes(Tool::BufferVersion, j)
            &&& after == m
            &&& out is Done && out->Done_0 is Ok && says(
                out->Done_0->Ok_0,
                "version"@,
                Json::Int(m.entries[k].buffer.version as int),
            )
        }),
{
    lemma_held(m, id, k);
    lemma_one("version"@);
    let a = lemma_tool_args(Tool::BufferOpen, j);
    assert(a[0] == ArgModel::Text(path));
    let a = lemma_tool_args(Tool::BufferClose, j);
    assert(a[0] == ArgModel::Number(id));
    assert(m.entries.remove(k) =~= m.entries.take(k) + m.entries.skip(k + 1));
    let a = lemma_tool_args(Tool::BufferVersion, j);
    assert(a[0] == ArgModel::Number(id));
}

// ------------------------------------------------------------------ transactions

/// A transaction is begun on a buffer under the next number, unless one is open. Committing
/// it adds one entry to the history, with its intent, and rolling it back puts the text back
/// that the buffer had.
pub proof fn law_transaction_tools(
    m: CoreModel,
    client: Seq<char>,
    j: Json,
    id: u64,
    k: int,
    intent: Seq<char>,
)
    requires
        holds(m, id, k),
        says(j, "buffer_id"@, Json::Int(id as int)),
        says(j, "intent"@, Json::Text(intent)),
        !j->Object_0.contains_key("conversation_id"@),
    ensures
        ({
            let (after, out) = run(m, client, Tool::TxBegin, j);
            &&& takes(Tool::TxBegin, j)
            &&& m.explicit is Some ==> after == m && out is Done && out->Done_0 is Err
            &&& m.explicit is None ==> {
                &&& out is Done && out->Done_0 is Ok && says(
                    out->Done_0->Ok_0,
                    "tx_id"@,
                    Json::Int(m.tx.next_tx as int),
                )
                &&& after.explicit == Some((m.tx.next_tx, id))
                &&& after.entries == m.entries
                &&& after.tx.history == m.tx.history
                &&& after.tx.active.last().intent == intent
                &&& after.tx.active.last().snapshot.text == m.entries[k].buffer.text
            }
        }),
{
    lemma_held(m, id, k);
    lemma_one("tx_id"@);
    let a = lemma_tool_args(Tool::TxBegin, j);
    assert(a[0] == ArgModel::Number(id));
    assert(a[1] == ArgModel::Text(intent));
    assert(a[2] == ArgModel::Absent);
}

/// Ending a transaction: only the open one can be ended. A commit adds an entry with its
/// intent to the history and leaves the buffers as they are; a rollback adds none, and the
/// buffer has the text that it had at the beginning.
pub proof fn law_ending_a_transaction(
    m: CoreModel,
    client: Seq<char>,
    j: Json,
    t: u64,
    id: u64,
    k: int,
)
    requires
        holds(m, id, k),
        says(j, "tx_id"@, Json::Int(t as int)),
        m.explicit is Some,
        m.explicit->Some_0.1 == id,
        m.tx.active.len() == 1,
    ensures
        ({
            let (done, said) = run(m, client, Tool::TxCommit, j);
            let (back, _) = run(m, client, Tool::TxRollback, j);
            &&& takes(Tool::TxCommit, j) && takes(Tool::TxRollback, j)
            &&& m.explicit->Some_0.0 != t ==> done == m && back == m && said is Done
                && said->Done_0 is Err
            &&& m.explicit->Some_0.0 == t ==> {
                &&& done.entries == m.entries
                &&& done.explicit is None && back.explicit is None
                &&& done.tx.history.len() == m.tx.history.len() + 1
                &&& done.tx.history.drop_last() == m.tx.history
                &&& done.tx.history.last().intent == m.tx.active[0].intent
                &&& done.tx.history.last().at == m.tx.now
                &&& says(said->Done_0->Ok_0, "change_id"@, Json::Int(m.tx.next_change as int))
                &&& done.tx.active.len() == 0 && back.tx.active.len() == 0
                &&& back.tx.history == m.tx.history
                &&& back.entries[k].buffer.text == m.tx.active[0].snapshot.text
                &&& back.entries[k].buffer.dirty == m.tx.active[0].snapshot.dirty
                &&& forall|i: int|
                    0 <= i < m.entries.len() && i != k ==> #[trigger] back.entries[i]
                        == m.entries[i]
            }
        }),
{
    lemma_held(m, id, k);
    lemma_one("change_id"@);
    let a = lemma_tool_args(Tool::TxCommit, j);
    assert(a[0] == ArgModel::Number(t));
    let b = lemma_tool_args(Tool::TxRollback, j);
    assert(b[0] == ArgModel::Number(t));
    if m.explicit->Some_0.0 == t {
        let done = run(m, client, Tool::TxCommit, j).0;
        assert(done.tx.history.drop_last() =~= m.tx.history);
    }
}

// --------------------------------------------------------------------- proposals

/// A proposal waits at the end of the queue under the next number, with all that it was made
/// of, and edits nothing. One that is rejected is gone, and the others stay in their order.
pub proof fn law_proposal_tools(
    m: CoreModel,
    client: Seq<char>,
    j: Json,
    range: Json,
    id: u64,
    k: int,
    version: u64,
    start: usize,
    end: usize,
    t: Seq<char>,
    intent: Seq<char>,
)
    requires
        holds(m, id, k),
        m.proposals.next_id < u64::MAX,
        says(j, "buffer_id"@, Json::Int(id as int)),
        says(j, "version"@, Json::Int(version as int)),
        says(j, "range"@, range),
        says(j, "text"@, Json::Text(t)),
        says(j, "intent"@, Json::Text(intent)),
        says(range, "start"@, Json::Int(start as int)),
        says(range, "end"@, Json::Int(end as int)),
    ensures
        ({
            let (after, out) = run(m, client, Tool::ProposeRange, j);
            let p = after.proposals.queue.last();
            &&& takes(Tool::ProposeRange, j)
            &&& after.entries == m.entries && after.tx == m.tx && after.outbox == m.outbox
            &&& after.proposals.queue.len() == m.proposals.queue.len() + 1
            &&& after.proposals.queue.drop_last() == m.proposals.queue
            &&& p.id == m.proposals.next_id
            &&& after.proposals.next_id == m.proposals.next_id + 1
            &&& p.buffer_id == id && p.intent == intent
            &&& p.kind.version == version && p.kind.start == start && p.kind.end == end
                && p.kind.text == t
            &&& out is Done && out->Done_0 is Ok && says(
                out->Done_0->Ok_0,
                "proposal_id"@,
                Json::Int(m.proposals.next_id as int),
            )
        }),
{
    lemma_held(m, id, k);
    lemma_one("proposal_id"@);
    lemma_span(range, "struct CharRange"@, "struct CharRange with 2 elements"@, start, end);
    let a = lemma_tool_args(Tool::ProposeRange, j);
    assert(a[0] == ArgModel::Number(id));
    assert(a[1] == ArgModel::Number(version));
    assert(a[2] == ArgModel::Span(start, end));
    assert(a[3] == ArgModel::Text(t));
    assert(a[4] == ArgModel::Text(intent));
    let after = run(m, client, Tool::ProposeRange, j).0;
    assert(after.proposals.queue.drop_last() =~= m.proposals.queue);
}

/// Rejecting takes one proposal, or all of them, out of the queue, and edits nothing; the
/// count is that of the queue.
pub proof fn law_rejecting_tools(m: CoreModel, client: Seq<char>, j: Json, id: u64, q: int)
    requires
        says(j, "proposal_id"@, Json::Int(id as int)),
        0 <= q < m.proposals.queue.len(),
        m.proposals.queue[q].id == id,
        forall|i: int|
            0 <= i < m.proposals.queue.len() && i != q ==> (#[trigger] m.proposals.queue[i]).id
                != id,
    ensures
        ({
            let one = run(m, client, Tool::ProposalsReject, j).0;
            let all = run(m, client, Tool::ProposalsRejectAll, j);
            let count = run(m, client, Tool::ProposalsCount, j);
            &&& takes(Tool::ProposalsReject, j)
            &&& one.proposals.queue == m.proposals.queue.take(q) + m.proposals.queue.skip(q + 1)
            &&& one.entries == m.entries && one.tx == m.tx
            &&& all.0.proposals.queue.len() == 0 && all.0.entries == m.entries && all.0.tx == m.tx
            &&& says(
                all.1->Done_0->Ok_0,
                "rejected"@,
                Json::Int(m.proposals.queue.len() as int),
            )
            &&& count.0 == m && says(
                count.1->Done_0->Ok_0,
                "count"@,
                Json::Int(m.proposals.queue.len() as int),
            )
        }),
{
    lemma_one("rejected"@);
    lemma_one("count"@);
    crate::proposals::lemma_place_of(m.proposals.queue, id);
    let a = lemma_tool_args(Tool::ProposalsReject, j);
    assert(a[0] == ArgModel::Number(id));
    assert(m.proposals.queue.remove(q) =~= m.proposals.queue.take(q) + m.proposals.queue.skip(
        q + 1,
    ));
}

// ----------------------------------------------------------------------- replies

/// A reply goes under the id of its request, with the result or the error; a message without
/// an id gets none.
pub proof fn law_replies(id: Json, result: Json, code: int, message: Seq<char>)
    ensures
        ({
            let done = mcp::success_json(id, result);
            let failed = mcp::failure_json(id, code, message);
            let e = failed->Object_0["error"@];
            &&& mcp::replied(Some(id), Ok(result)) == Some(json::json_text(done))
            &&& mcp::replied(Some(id), Err((code, message))) == Some(json::json_text(failed))
            &&& mcp::replied(None, Ok(result)) is None
            &&& mcp::replied(None, Err((code, message))) is None
            &&& says(done, "id"@, id) && says(done, "result"@, result)
            &&& says(failed, "id"@, id) && says(failed, "error"@, e)
            &&& says(e, "code"@, Json::Int(code)) && says(e, "message"@, Json::Text(message))
        }),
{
    reveal_strlit("jsonrpc");
    reveal_strlit("id");
    reveal_strlit("result");
    reveal_strlit("error");
    reveal_strlit("code");
    reveal_strlit("message");
    assert("jsonrpc"@.len() == 7 && "id"@.len() == 2 && "result"@.len() == 6 && "error"@.len() == 5
        && "code"@.len() == 4 && "message"@.len() == 7);
    let v = ("jsonrpc"@, Json::Text("2.0"@));
    crate::lsp::laws::lemma_three(v, ("id"@, id), ("result"@, result));
    let e = json::obj(seq![("code"@, Json::Int(code)), ("message"@, Json::Text(message))]);
    crate::lsp::laws::lemma_two(("code"@, Json::Int(code)), ("message"@, Json::Text(message)));
    crate::lsp::laws::lemma_three(v, ("id"@, id), ("error"@, e));
}

/// What a tool came to is said as one text: the JSON of the result, or the refusal, which is
/// marked as an error.
pub proof fn law_results_of_tools(r: Result<Json, Seq<char>>)
    ensures
        ({
            let j = mcp::call_result_json(r);
            let c = j->Object_0["content"@];
            &&& says(j, "isError"@, Json::Bool(r is Err))
            &&& says(j, "content"@, c) && c is List && c->List_0.len() == 1
            &&& says(c->List_0[0], "type"@, Json::Text("text"@))
            &&& says(
                c->List_0[0],
                "text"@,
                Json::Text(
                    match r {
                        Ok(v) => json::json_text(v),
                        Err(e) => e,
                    },
                ),
            )
        }),
{
    reveal_strlit("content");
    reveal_strlit("isError");
    reveal_strlit("type");
    reveal_strlit("text");
    assert("content"@[0] != "isError"@[0]);
    assert("type"@[1] != "text"@[1]);
    let t = ("type"@, Json::Text("text"@));
    let x = ("text"@, Json::Text(mcp::result_text(r)));
    crate::lsp::laws::lemma_two(t, x);
    crate::lsp::laws::lemma_two(
        ("content"@, Json::List(seq![json::obj(seq![t, x])])),
        ("isError"@, Json::Bool(r is Err)),
    );
}

} // verus!
