//! What a client of the agent server can rely on across calls.

use vstd::prelude::*;

use crate::buffer;
use crate::error;
use crate::error::EditorError;
use crate::json;
use crate::lsp::TextEdit;
use crate::mcp;
use crate::mcp::args;
use crate::mcp::calls;
use crate::mcp::payload;
use crate::mcp::tools;
use crate::mcp::tools::Tool;
use crate::order;
use crate::protocol;
use crate::protocol::{ByteRange, CharRange};
use crate::runtime;
use crate::runtime::laws;
use crate::runtime::rename;
use crate::tx;

verus! {

/// The arguments of an edit of the characters from `start` to `end`.
pub open spec fn edit_args(id: u64, version: u64, start: usize, end: usize, t: Seq<char>) -> Seq<
    args::ArgModel,
> {
    seq![
        args::ArgModel::Number(id),
        args::ArgModel::Number(version),
        args::ArgModel::Span(start, end),
        args::ArgModel::Text(t),
    ]
}

/// The arguments of a read of a whole buffer.
pub open spec fn read_args(id: u64) -> Seq<args::ArgModel> {
    seq![args::ArgModel::Number(id), args::ArgModel::Absent]
}

proof fn lemma_edit_call(
    m: runtime::CoreModel,
    client: Seq<char>,
    id: u64,
    version: u64,
    start: usize,
    end: usize,
    t: Seq<char>,
)
    ensures
        calls::called(m, client, Tool::ReplaceRange, edit_args(id, version, start, end, t)) == (
        match runtime::replace_range_result(m, id, version, CharRange { start, end }, t) {
            (after, Ok(v)) => calls::ok(
                after,
                calls::one("version"@, payload::int_json(v as int)),
            ),
            (after, Err(e)) => calls::refused(after, e),
        }),
{
}

proof fn lemma_read_call(m: runtime::CoreModel, client: Seq<char>, id: u64)
    ensures
        calls::called(m, client, Tool::BufferRead, read_args(id)) == (match runtime::read_result(
            m,
            id,
            None,
        ) {
            Ok((text, version)) => calls::ok(m, payload::read_json(text, version)),
            Err(e) => calls::refused(m, e),
        }),
{
}

/// What `edit.replace_range` put into a buffer is what `buffer.read` then reports, in its
/// place, and under the version that the edit returned.
pub proof fn law_reads_report_edits(
    m: runtime::CoreModel,
    client: Seq<char>,
    id: u64,
    version: u64,
    start: usize,
    end: usize,
    t: Seq<char>,
    v: u64,
)
    requires
        runtime::replace_range_result(m, id, version, CharRange { start, end }, t).1 == Ok::<
            u64,
            EditorError,
        >(v),
    ensures
        ({
            let (n, out) = calls::called(
                m,
                client,
                Tool::ReplaceRange,
                edit_args(id, version, start, end, t),
            );
            let before = runtime::read_result(m, id, None)->Ok_0.0;
            &&& out == calls::OutcomeModel::Done(
                Ok(calls::one("version"@, payload::int_json(v as int))),
            )
            &&& calls::called(n, client, Tool::BufferRead, read_args(id)) == calls::ok(
                n,
                payload::read_json(buffer::replaced(before, start as int, end as int, t), v),
            )
        }),
{
    let range = CharRange { start, end };
    let n = runtime::replace_range_result(m, id, version, range, t).0;
    laws::law_reads_give_back_edits(m, id, version, range, t);
    lemma_edit_call(m, client, id, version, start, end, t);
    lemma_read_call(n, client, id);
}

/// An edit that names a version that the buffer is not at is answered with an error
/// that says which version it is at, and changes nothing.
pub proof fn law_stale_edits_are_answered(
    m: runtime::CoreModel,
    client: Seq<char>,
    id: u64,
    version: u64,
    start: usize,
    end: usize,
    t: Seq<char>,
)
    requires
        runtime::read_result(m, id, None) is Ok,
        runtime::read_result(m, id, None)->Ok_0.1 != version,
    ensures
        ({
            let refusal = calls::refused(
                m,
                EditorError::VersionMismatch {
                    id,
                    at: runtime::read_result(m, id, None)->Ok_0.1,
                    sent: version,
                },
            );
            let a = edit_args(id, version, start, end, t);
            &&& calls::called(m, client, Tool::ReplaceRange, a) == refusal
            &&& calls::called(m, client, Tool::ReplaceNode, a) == refusal
        }),
{
    laws::law_stale_edits_are_refused(
        m,
        id,
        version,
        CharRange { start, end },
        ByteRange { start, end },
        t,
    );
}

/// The result of a call says whether it failed.
pub proof fn law_failures_are_marked(r: Result<json::Json, Seq<char>>)
    ensures
        json::member(mcp::call_result_json(r), "isError"@) == Some(json::Json::Bool(r is Err)),
{
    reveal_with_fuel(json::put, 3);
}

/// A call of a tool that is not listed is answered with an error that names it, and
/// changes nothing. A call of one that is listed is run by the tool of that name.
pub proof fn law_listed_tools_are_run(
    m: runtime::CoreModel,
    client: Seq<char>,
    id: Option<json::Json>,
    params: json::Json,
    after: runtime::CoreModel,
    step: mcp::StepModel,
    name: Seq<char>,
)
    requires
        mcp::tool_called(m, client, id, params, after, step),
        mcp::called_name(params) == Some(name),
    ensures
        tools::says_unknown(tools::unknown_text(name)),
        if tools::listed(name) {
            exists|t: Tool|
                tools::tool_name(t) == name && #[trigger] mcp::tool_run(
                    m,
                    client,
                    id,
                    params,
                    t,
                    after,
                    step,
                )
        } else {
            after == m && step == mcp::StepModel::Reply(
                mcp::replied(id, Ok(mcp::call_result_json(Err(tools::unknown_text(name))))),
            )
        },
{
    tools::lemma_unknown_text(name);
    tools::law_listed_tools_are_found(name, Tool::BufferList, 0, 0);
    if let Some(t) = tools::tool_named(name) {
        tools::law_listed_tools_are_found(name, t, 0, 0);
        assert(mcp::tool_run(m, client, id, params, t, after, step));
    }
}

// --------------------------------------------------------- tools that are not there

proof fn lemma_numbered(prefix: Seq<char>, n: int, suffix: Seq<char>)
    ensures
        error::with_number(prefix, n, suffix).len() >= prefix.len(),
        forall|i: int|
            0 <= i < prefix.len() ==> #[trigger] error::with_number(prefix, n, suffix)[i]
                == prefix[i],
{
}

/// A text with another ninth or tenth letter is not what is said of a tool that is not there.
proof fn lemma_goes_on_otherwise(s: Seq<char>)
    requires
        s.len() > 9,
        s[8] != 't' || s[9] != 'o',
    ensures
        !tools::says_unknown(s),
{
    reveal_strlit("unknown tool: ");
    if tools::says_unknown(s) {
        assert(s.subrange(0, 14)[8] == s[8]);
        assert(s.subrange(0, 14)[9] == s[9]);
    }
}

/// A refusal of the editor's own, with numbers in it, is in other words than what is
/// said of a tool that is not there.
proof fn lemma_numbered_refusals(e: EditorError)
    requires
        e is UnknownBuffer || e is RangeOutside || e is ByteRangeOutside || e is VersionMismatch
            || e is NotTheOpenTransaction || e is UnknownTransaction || e is UnknownProposal || e
            is LineOutOfBounds || e is CharacterPastEnd,
    ensures
        !tools::says_unknown(error::error_text(e)),
{
    let s = error::error_text(e);
    match e {
        EditorError::UnknownBuffer { id } => {
            reveal_strlit("unknown buffer_id ");
            lemma_numbered("unknown buffer_id "@, id as int, ""@);
            lemma_goes_on_otherwise(s);
        },
        EditorError::UnknownTransaction { tx } => {
            reveal_strlit("unknown tx_id TxId(");
            lemma_numbered("unknown tx_id TxId("@, tx as int, ")"@);
            lemma_goes_on_otherwise(s);
        },
        EditorError::UnknownProposal { id } => {
            reveal_strlit("unknown proposal_id ProposalId(");
            lemma_numbered("unknown proposal_id ProposalId("@, id as int, ")"@);
            lemma_goes_on_otherwise(s);
        },
        EditorError::RangeOutside { start, end, len } => {
            reveal_strlit("range ");
            let a = error::with_number("range "@, start as int, ".."@);
            let b = error::with_number(a, end as int, " outside buffer (len_chars = "@);
            lemma_numbered("range "@, start as int, ".."@);
            lemma_numbered(a, end as int, " outside buffer (len_chars = "@);
            lemma_numbered(b, len as int, ")"@);
            tools::lemma_starts_otherwise(s);
        },
        EditorError::ByteRangeOutside { start, end, len } => {
            reveal_strlit("byte range ");
            let a = error::with_number("byte range "@, start as int, ".."@);
            let b = error::with_number(a, end as int, " outside buffer (len_bytes = "@);
            lemma_numbered("byte range "@, start as int, ".."@);
            lemma_numbered(a, end as int, " outside buffer (len_bytes = "@);
            lemma_numbered(b, len as int, ")"@);
            tools::lemma_starts_otherwise(s);
        },
        EditorError::VersionMismatch { id, at, sent } => {
            reveal_strlit("version mismatch: buffer ");
            let a = error::with_number("version mismatch: buffer "@, id as int, " is at "@);
            let b = error::with_number(a, at as int, ", caller sent "@);
            lemma_numbered("version mismatch: buffer "@, id as int, " is at "@);
            lemma_numbered(a, at as int, ", caller sent "@);
            lemma_numbered(b, sent as int, ""@);
            tools::lemma_starts_otherwise(s);
        },
        EditorError::NotTheOpenTransaction { tx } => {
            reveal_strlit("tx_id TxId(");
            lemma_numbered("tx_id TxId("@, tx as int, ") is not the currently open transaction"@);
            tools::lemma_starts_otherwise(s);
        },
        EditorError::LineOutOfBounds { line, count } => {
            reveal_strlit("lsp position line ");
            let a = error::with_number(
                "lsp position line "@,
                line as int,
                " out of bounds (line_count = "@,
            );
            lemma_numbered("lsp position line "@, line as int, " out of bounds (line_count = "@);
            lemma_numbered(a, count as int, ")"@);
            tools::lemma_starts_otherwise(s);
        },
        EditorError::CharacterPastEnd { character, line, len } => {
            reveal_strlit("lsp position character ");
            let a = error::with_number(
                "lsp position character "@,
                character as int,
                " past end of line "@,
            );
            let b = error::with_number(a, line as int, " (len = "@);
            lemma_numbered("lsp position character "@, character as int, " past end of line "@);
            lemma_numbered(a, line as int, " (len = "@);
            lemma_numbered(b, len as int, ")"@);
            tools::lemma_starts_otherwise(s);
        },
        _ => {},
    }
}

/// What a test filter is refused with is in other words, too.
proof fn lemma_flag_filter(shown: Seq<char>)
    ensures
        !tools::says_unknown(error::flag_filter_text(shown)),
{
    reveal_strlit("test target filter must not start with '-': ");
    tools::lemma_starts_otherwise(error::flag_filter_text(shown));
}

/// A refusal of the editor's own is in other words than what is said of a tool that is
/// not there.
proof fn lemma_own_refusals(e: EditorError)
    requires
        !(e is Outside),
    ensures
        !tools::says_unknown(error::error_text(e)),
{
    let s = error::error_text(e);
    match e {
        EditorError::TransactionOpen => {
            reveal_strlit("a transaction is already open; commit or rollback it first");
            tools::lemma_starts_otherwise(s);
        },
        EditorError::NoPathToSave => {
            reveal_strlit("buffer has no associated path");
            tools::lemma_starts_otherwise(s);
        },
        EditorError::NoPathToDiff => {
            reveal_strlit("buffer has no path; cannot diff against HEAD");
            tools::lemma_starts_otherwise(s);
        },
        EditorError::NoPathForTests => {
            reveal_strlit("buffer has no path; cannot locate a test workspace");
            tools::lemma_starts_otherwise(s);
        },
        EditorError::NoPathToScan => {
            reveal_strlit("buffer has no path; cannot locate a scan root");
            tools::lemma_starts_otherwise(s);
        },
        EditorError::NoPathForRepo => {
            reveal_strlit("buffer has no path; cannot locate a git repo");
            tools::lemma_starts_otherwise(s);
        },
        EditorError::NoLanguageForTests => {
            reveal_strlit("buffer language is unknown; cannot run tests");
            tools::lemma_starts_otherwise(s);
        },
        EditorError::NoLanguageForImports => {
            reveal_strlit("buffer has no recognized language; cannot list imports");
            tools::lemma_starts_otherwise(s);
        },
        EditorError::NoLanguageForContext => {
            reveal_strlit("buffer has no recognized language; cannot pack context");
            tools::lemma_starts_otherwise(s);
        },
        EditorError::NoLanguageForServer => {
            reveal_strlit("buffer has no recognized language; cannot query LSP");
            tools::lemma_starts_otherwise(s);
        },
        EditorError::NoUri => {
            reveal_strlit("buffer has no file URI; cannot query LSP");
            tools::lemma_starts_otherwise(s);
        },
        EditorError::NoSyntax => {
            reveal_strlit("buffer has no syntax (unsupported language)");
            tools::lemma_starts_otherwise(s);
        },
        EditorError::NotParsed => {
            reveal_strlit("buffer has not been parsed");
            tools::lemma_starts_otherwise(s);
        },
        EditorError::BadQuery => {
            reveal_strlit("compiling tree-sitter query");
            tools::lemma_starts_otherwise(s);
        },
        EditorError::NoTestRunner { .. } => {
            reveal_strlit("no test runner configured for ");
            tools::lemma_starts_otherwise(s);
        },
        EditorError::NoImportQuery { .. } => {
            reveal_strlit("no import query for ");
            tools::lemma_starts_otherwise(s);
        },
        EditorError::ServerNotRunning { .. } => {
            reveal_strlit("rust-analyzer");
            reveal_strlit("metals");
            reveal_strlit("elm-language-server");
            tools::lemma_starts_otherwise(s);
        },
        EditorError::EmptyTestCommand => {
            reveal_strlit("empty test command (language descriptor bug)");
            tools::lemma_starts_otherwise(s);
        },
        EditorError::FilterLooksLikeFlag { filter } => {
            lemma_flag_filter(filter@);
        },
        _ => {
            lemma_numbered_refusals(e);
        },
    }
}

/// A call, as far as it got, was not refused in the words that are said of a tool that is
/// not there.
pub open spec fn known(out: calls::OutcomeModel) -> bool {
    out matches calls::OutcomeModel::Done(Err(s)) ==> !tools::says_unknown(s)
}

proof fn lemma_called_is_known(
    m: runtime::CoreModel,
    client: Seq<char>,
    tool: Tool,
    a: Seq<args::ArgModel>,
)
    ensures
        known(calls::called(m, client, tool, a).1),
{
    assert forall|e: EditorError| !(e is Outside) implies !tools::says_unknown(
        #[trigger] error::error_text(e),
    ) by {
        lemma_own_refusals(e);
    }
    assert forall|shown: Seq<char>| !tools::says_unknown(
        #[trigger] error::flag_filter_text(shown),
    ) by {
        lemma_flag_filter(shown);
    }
}

/// A tool that is there is never answered in the words that are said of one that is not,
/// whatever it is called with and on.
pub proof fn law_tools_that_run_are_known(
    m: runtime::CoreModel,
    client: Seq<char>,
    tool: Tool,
    a: Seq<args::ArgModel>,
    after: runtime::CoreModel,
    out: calls::OutcomeModel,
)
    requires
        calls::calls(m, client, tool, a, after, out),
    ensures
        known(out),
{
    let at = choose|at: tx::Moment|
        tx::proper(at) && (after, out) == calls::called(
            #[trigger] runtime::clocked(m, at),
            client,
            tool,
            a,
        );
    lemma_called_is_known(runtime::clocked(m, at), client, tool, a);
}

/// What came of an effect is a message from outside, in the words that are said of a tool
/// that is not there.
pub open spec fn outside_says_unknown(a: calls::Answer) -> bool {
    match a {
        calls::Answer::Failed(e) => tools::says_unknown(e@),
        calls::Answer::File { absolute, loaded } => match loaded {
            Err(EditorError::Outside { message }) => tools::says_unknown(message@),
            _ => false,
        },
        _ => false,
    }
}

proof fn lemma_text_edit_refusals(b: buffer::BufferModel, es: Seq<TextEdit>, n: int)
    ensures
        protocol::after_text_edits(b, es, n).1 matches Some(e) ==> !(e is Outside),
    decreases n,
{
    if n > 0 {
        lemma_text_edit_refusals(b, es, n - 1);
    }
}

proof fn lemma_rename_refusals(
    m: runtime::CoreModel,
    changes: Seq<(String, Vec<TextEdit>)>,
    name: Seq<char>,
    n: int,
)
    ensures
        rename::renamed_upto(m, changes, name, n).failed matches Some(e) ==> !(e is Outside),
    decreases n,
{
    if n > 0 {
        lemma_rename_refusals(m, changes, name, n - 1);
        let before = rename::renamed_upto(m, changes, name, n - 1);
        if before.failed is None {
            let uri = changes[n - 1].0@;
            let edits = order::stable_sorted(changes[n - 1].1@);
            if let Some(k) = rename::addressed(before.core.entries, uri) {
                lemma_text_edit_refusals(
                    before.core.entries[k].buffer,
                    edits,
                    edits.len() as int,
                );
            }
        }
    }
}

/// A call that goes on after its effect is not answered in the words that are said of a
/// tool that is not there, unless a message from outside has them.
pub proof fn law_finished_tools_are_known(
    m: runtime::CoreModel,
    tool: Tool,
    kept: calls::KeptModel,
    answer: calls::Answer,
    after: runtime::CoreModel,
    out: Result<json::Json, Seq<char>>,
)
    requires
        calls::resumes(m, tool, kept, answer, after, out),
        !outside_says_unknown(answer),
    ensures
        out matches Err(s) ==> !tools::says_unknown(s),
{
    let at = choose|at: tx::Moment|
        tx::proper(at) && calls::resumed(
            #[trigger] runtime::clocked(m, at),
            tool,
            kept,
            answer,
            after,
            out,
        );
    let now = runtime::clocked(m, at);
    assert forall|e: EditorError| !(e is Outside) implies !tools::says_unknown(
        #[trigger] error::error_text(e),
    ) by {
        lemma_own_refusals(e);
    }
    if let calls::Answer::Edits(w) = answer {
        lemma_rename_refusals(now, w.changes@, kept.text, w.changes@.len() as int);
    }
}

/// What `test.run` returned is what `test.last_results` reports from then on.
pub proof fn law_last_results_are_kept(
    m: runtime::CoreModel,
    client: Seq<char>,
    kept: calls::KeptModel,
    answer: calls::Answer,
    after: runtime::CoreModel,
    out: Result<json::Json, Seq<char>>,
    a: Seq<args::ArgModel>,
)
    requires
        answer is Tested,
        calls::resumed(m, Tool::TestRun, kept, answer, after, out),
    ensures
        out is Ok,
        calls::called(after, client, Tool::TestLastResults, a) == calls::ok(after, out->Ok_0),
{
}

} // verus!
