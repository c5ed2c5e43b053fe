//! What the tools that list, accept, test and look around come to, and how a call ends once
//! what it asked for is there.

use vstd::prelude::*;

use crate::error;
use crate::json::Json;
use crate::language::Language;
use crate::lsp::laws::says;
use crate::mcp::args;
use crate::mcp::args::ArgModel;
use crate::mcp::calls;
use crate::mcp::calls::{Answer, EffectModel, KeptModel, OutcomeModel};
use crate::mcp::effects::{lemma_held, lemma_one, lemma_tool_args, run, takes};
use crate::mcp::payload;
use crate::mcp::payload::ToJson;
use crate::mcp::tools;
use crate::mcp::tools::Tool;
use crate::protocol;
use crate::runtime::approval;
use crate::runtime::facts::holds;
use crate::runtime::insight;
use crate::runtime::requests::RequestModel;
use crate::runtime::CoreModel;
use crate::test_runner;

verus! {

/// A call is done with a result.
pub open spec fn done_with(out: OutcomeModel, j: Json) -> bool {
    out == OutcomeModel::Done(Ok::<Json, Seq<char>>(j))
}

/// Listing changes nothing: the buffers, the proposals and the client are told as they are,
/// each entry for its own, in their order.
pub proof fn law_listing_tools(m: CoreModel, client: Seq<char>, j: Json, i: int)
    ensures
        ({
            let (after, out) = run(m, client, Tool::BufferList, j);
            let list = out->Done_0->Ok_0;
            &&& after == m
            &&& out is Done && out->Done_0 is Ok
            &&& list is List && list->List_0.len() == m.entries.len()
            &&& 0 <= i < m.entries.len() ==> list->List_0[i] == payload::entry_json(
                m.entries[i].id,
                m.entries[i].buffer.path,
                m.entries[i].buffer.dirty,
                m.entries[i].buffer.version,
            )
        }),
        ({
            let (after, out) = run(m, client, Tool::ProposalsList, j);
            let list = out->Done_0->Ok_0;
            &&& after == m
            &&& out is Done && out->Done_0 is Ok
            &&& list is List && list->List_0.len() == m.proposals.queue.len()
            &&& 0 <= i < m.proposals.queue.len() ==> list->List_0[i] == payload::proposal_json(
                m.proposals.queue[i],
            )
        }),
        run(m, client, Tool::ClientsList, j).0 == m,
        done_with(
            run(m, client, Tool::ClientsList, j).1,
            Json::List(seq![payload::client_json(client, "agent"@, m.focus)]),
        ),
        run(m, client, Tool::TestLastResults, j).0 == m,
        done_with(
            run(m, client, Tool::TestLastResults, j).1,
            match m.last_results {
                Some(t) => payload::results_json(t),
                None => Json::Null,
            },
        ),
{
}

/// The last entries of the history are told, as many as are asked for, the oldest of them
/// first.
pub proof fn law_history_tool(m: CoreModel, client: Seq<char>, j: Json, limit: usize, i: int)
    requires
        says(j, "limit"@, Json::Int(limit as int)),
    ensures
        ({
            let (after, out) = run(m, client, Tool::HistoryRecent, j);
            let list = out->Done_0->Ok_0;
            let all = m.tx.history;
            let n = if limit < all.len() {
                limit as int
            } else {
                all.len() as int
            };
            &&& takes(Tool::HistoryRecent, j)
            &&& after == m
            &&& out is Done && out->Done_0 is Ok
            &&& list is List && list->List_0.len() == n
            &&& 0 <= i < n ==> list->List_0[i] == payload::change_json(all[all.len() - n + i])
        }),
{
    let a = lemma_tool_args(Tool::HistoryRecent, j);
    assert(a[0] == ArgModel::Size(limit));
}

/// Accepting makes the proposal that is named an edit, and says the new version; accepting
/// all says how many went through, and of each other why it did not.
pub proof fn law_accepting_tools(m: CoreModel, client: Seq<char>, j: Json, id: u64)
    requires
        says(j, "proposal_id"@, Json::Int(id as int)),
    ensures
        takes(Tool::ProposalsAccept, j),
        run(m, client, Tool::ProposalsAccept, j).0 == approval::accept_result(m, id).0,
        match approval::accept_result(m, id).1 {
            Ok(v) => {
                let out = run(m, client, Tool::ProposalsAccept, j).1;
                out is Done && out->Done_0 is Ok && says(
                    out->Done_0->Ok_0,
                    "version"@,
                    Json::Int(v as int),
                )
            },
            Err(e) => run(m, client, Tool::ProposalsAccept, j).1 == OutcomeModel::Done(
                Err::<Json, Seq<char>>(error::error_text(e)),
            ),
        },
{
    let a = lemma_tool_args(Tool::ProposalsAccept, j);
    assert(a[0] == ArgModel::Number(id));
    lemma_one("version"@);
}

/// A test run is asked for where the buffer's language has one: its own command, with the
/// target as a filter. A target that looks like an option is refused.
pub proof fn law_test_tool(
    m: CoreModel,
    client: Seq<char>,
    j: Json,
    id: u64,
    k: int,
    file: Seq<char>,
    target: Seq<char>,
)
    requires
        holds(m, id, k),
        m.entries[k].buffer.path == Some(file),
        m.entries[k].language == Some(Language::Rust),
        says(j, "buffer_id"@, Json::Int(id as int)),
        says(j, "target"@, Json::Text(target)) || !j->Object_0.contains_key("target"@),
    ensures
        takes(Tool::TestRun, j),
        ({
            let (after, out) = run(m, client, Tool::TestRun, j);
            let filtered = j->Object_0.contains_key("target"@);
            &&& after == m
            &&& filtered && target.len() > 0 && target[0] == '-' ==> out is Done && out->Done_0 is Err
            &&& !(filtered && target.len() > 0 && target[0] == '-') ==> {
                &&& out is Ask && out->Ask_0 is RunTests
                &&& out->Ask_0->RunTests_0.path == file
                &&& out->Ask_0->RunTests_0.argv == (if filtered {
                    seq!["cargo"@, "test"@, "--color"@, "never"@, "--"@, target]
                } else {
                    seq!["cargo"@, "test"@, "--color"@, "never"@]
                })
            }
        }),
{
    lemma_held(m, id, k);
    let a = lemma_tool_args(Tool::TestRun, j);
    let filtered = j->Object_0.contains_key("target"@);
    assert(a[0] == ArgModel::Number(id));
    assert(a[1] == (if filtered {
        ArgModel::Text(target)
    } else {
        ArgModel::Absent
    }));
    let own = test_runner::str_views(seq!["cargo", "test"]);
    assert(own =~= seq!["cargo"@, "test"@]);
    assert(test_runner::run_arguments(own, None) =~= seq![
        "cargo"@,
        "test"@,
        "--color"@,
        "never"@,
    ]);
    assert(test_runner::run_arguments(own, Some(target)) =~= seq![
        "cargo"@,
        "test"@,
        "--color"@,
        "never"@,
        "--"@,
        target,
    ]);
}

/// What is in scope is asked of the server of the buffer's language.
pub proof fn law_scope_tool(
    m: CoreModel,
    client: Seq<char>,
    j: Json,
    id: u64,
    k: int,
    language: Language,
    uri: Seq<char>,
    line: u32,
    character: u32,
)
    requires
        holds(m, id, k),
        m.entries[k].language == Some(language),
        m.entries[k].uri == Some(uri),
        m.running.contains(language),
        insight::imports_result(m, id) is Ok,
        says(j, "buffer_id"@, Json::Int(id as int)),
        says(j, "line"@, Json::Int(line as int)),
        says(j, "character"@, Json::Int(character as int)),
    ensures
        takes(Tool::ScopeInScope, j),
        run(m, client, Tool::ScopeInScope, j) == (
            m,
            OutcomeModel::Ask(EffectModel::Server(RequestModel::DocumentSymbols { language, uri })),
        ),
        calls::kept_of(
            Tool::ScopeInScope,
            args::args_of(j, tools::tool_fields(Tool::ScopeInScope))->Ok_0,
        ) == (KeptModel { text: ""@, id, line, character }),
{
    lemma_held(m, id, k);
    let a = lemma_tool_args(Tool::ScopeInScope, j);
    assert(a[0] == ArgModel::Number(id));
    assert(a[1] == ArgModel::Coordinate(line));
    assert(a[2] == ArgModel::Coordinate(character));
}

/// A context is packed around the place that is given, within the budget that is given.
pub proof fn law_context_tool(
    m: CoreModel,
    client: Seq<char>,
    j: Json,
    id: u64,
    k: int,
    line: u32,
    character: u32,
    budget: usize,
)
    requires
        holds(m, id, k),
        insight::pack_refusal(m, id, line, character) is None,
        says(j, "buffer_id"@, Json::Int(id as int)),
        says(j, "line"@, Json::Int(line as int)),
        says(j, "character"@, Json::Int(character as int)),
        says(j, "token_budget"@, Json::Int(budget as int)),
    ensures
        takes(Tool::ContextPack, j),
        run(m, client, Tool::ContextPack, j).0 == m,
        done_with(
            run(m, client, Tool::ContextPack, j).1,
            payload::pack_json(
                insight::pack_around(
                    m.entries[k],
                    m.entries[k].language->Some_0,
                    line,
                    character,
                    budget as int,
                ),
            ),
        ),
{
    lemma_held(m, id, k);
    let a = lemma_tool_args(Tool::ContextPack, j);
    assert(a[0] == ArgModel::Number(id));
    assert(a[1] == ArgModel::Coordinate(line));
    assert(a[2] == ArgModel::Coordinate(character));
    assert(a[3] == ArgModel::Size(budget));
}

// ------------------------------------------------------------------ ends of calls

/// A file that was read becomes a buffer under the next id, last in the list, with what the
/// file holds; one that could not be read becomes none.
pub proof fn law_files_that_were_read(
    m: CoreModel,
    tool: Tool,
    kept: KeptModel,
    a: Answer,
    after: CoreModel,
    out: Result<Json, Seq<char>>,
)
    requires
        a is File,
        m.next_id < u64::MAX,
        calls::resumed(m, tool, kept, a, after, out),
    ensures
        after.next_id == m.next_id + 1,
        match a->loaded {
            Ok(contents) => {
                let e = after.entries.last();
                &&& out is Ok && says(out->Ok_0, "buffer_id"@, Json::Int(m.next_id as int))
                &&& after.entries.len() == m.entries.len() + 1
                &&& after.entries.drop_last() == m.entries
                &&& e.id == m.next_id
                &&& e.buffer.path == Some(kept.text)
                &&& e.buffer.text == (match contents {
                    Some(c) => c@,
                    None => Seq::<char>::empty(),
                })
                &&& !e.buffer.dirty && e.buffer.version == 0
            },
            Err(e) => out is Err && after.entries == m.entries,
        },
{
    lemma_one("buffer_id"@);
    if a->loaded is Ok {
        assert(after.entries.drop_last() =~= m.entries);
    }
}

/// The outcome of a test run is told and kept as the last one; nothing else changes.
pub proof fn law_tests_that_ran(
    m: CoreModel,
    tool: Tool,
    kept: KeptModel,
    a: Answer,
    after: CoreModel,
    out: Result<Json, Seq<char>>,
)
    requires
        a is Tested,
        calls::resumed(m, tool, kept, a, after, out),
    ensures
        ({
            let t = test_runner::outcome_of(a->stdout@, a->stderr@, a->exit_ok);
            &&& out == Ok::<Json, Seq<char>>(payload::results_json(t))
            &&& after.last_results == Some(t)
            &&& after.entries == m.entries && after.tx == m.tx && after.proposals == m.proposals
                && after.outbox == m.outbox
        }),
{
}

/// What git or a server answered is told as it is, one entry for each, in its order, and
/// changes nothing; a failure is told as one.
pub proof fn law_answers_are_told(
    m: CoreModel,
    tool: Tool,
    kept: KeptModel,
    a: Answer,
    after: CoreModel,
    out: Result<Json, Seq<char>>,
    i: int,
)
    requires
        calls::resumed(m, tool, kept, a, after, out),
    ensures
        a is Failed ==> after == m && out == Err::<Json, Seq<char>>(a->Failed_0@),
        a is Statuses ==> after == m && out is Ok && out->Ok_0 is List && out->Ok_0->List_0.len()
            == a->Statuses_0@.len() && (0 <= i < a->Statuses_0@.len() ==> out->Ok_0->List_0[i]
            == a->Statuses_0@[i].tree()),
        a is Commits ==> after == m && out is Ok && out->Ok_0 is List && out->Ok_0->List_0.len()
            == a->Commits_0@.len() && (0 <= i < a->Commits_0@.len() ==> out->Ok_0->List_0[i]
            == a->Commits_0@[i].tree()),
        a is Locations ==> after == m && out is Ok && out->Ok_0 is List && out->Ok_0->List_0.len()
            == a->Locations_0@.len() && (0 <= i < a->Locations_0@.len() ==> out->Ok_0->List_0[i]
            == a->Locations_0@[i].tree()),
        a is Diagnostics ==> after == m && out is Ok && out->Ok_0 is List
            && out->Ok_0->List_0.len() == a->Diagnostics_0@.len() && (0 <= i
            < a->Diagnostics_0@.len() ==> out->Ok_0->List_0[i] == a->Diagnostics_0@[i].tree()),
        a is Tasks ==> after == m && out is Ok && out->Ok_0 is List && out->Ok_0->List_0.len()
            == a->Tasks_0@.len() && (0 <= i < a->Tasks_0@.len() ==> out->Ok_0->List_0[i]
            == a->Tasks_0@[i].tree()),
{
}

/// A scope is told by the symbols around the place that was asked about, the imports of the
/// buffer, and the other symbols at the top.
pub proof fn law_scopes_are_told(
    m: CoreModel,
    tool: Tool,
    kept: KeptModel,
    a: Answer,
    after: CoreModel,
    out: Result<Json, Seq<char>>,
)
    requires
        a is DocumentSymbols,
        insight::imports_result(m, kept.id) is Ok,
        calls::resumed(m, tool, kept, a, after, out),
    ensures
        ({
            let symbols = a->DocumentSymbols_0@;
            &&& after == m && out is Ok
            &&& says(
                out->Ok_0,
                "enclosing"@,
                payload::symbols_json(
                    protocol::enclosing_of(symbols, kept.line as int, kept.character as int),
                ),
            )
            &&& says(
                out->Ok_0,
                "imports"@,
                payload::imports_json(insight::imports_result(m, kept.id)->Ok_0),
            )
            &&& says(
                out->Ok_0,
                "siblings"@,
                payload::symbols_json(
                    protocol::siblings_of(symbols, kept.line as int, kept.character as int),
                ),
            )
        }),
{
    let symbols = a->DocumentSymbols_0@;
    reveal_strlit("enclosing");
    reveal_strlit("imports");
    reveal_strlit("siblings");
    assert("enclosing"@.len() == 9 && "imports"@.len() == 7 && "siblings"@.len() == 8);
    crate::lsp::laws::lemma_three(
        (
            "enclosing"@,
            payload::symbols_json(
                protocol::enclosing_of(symbols, kept.line as int, kept.character as int),
            ),
        ),
        ("imports"@, payload::imports_json(insight::imports_result(m, kept.id)->Ok_0)),
        (
            "siblings"@,
            payload::symbols_json(
                protocol::siblings_of(symbols, kept.line as int, kept.character as int),
            ),
        ),
    );
}

} // verus!
