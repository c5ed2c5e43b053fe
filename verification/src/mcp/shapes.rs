//! What the JSON says that the tools return.

use vstd::prelude::*;

use crate::buffer;
use crate::git::{LogEntry, StatusEntry};
use crate::json;
use crate::json::Json;
use crate::lsp::laws::says;
use crate::lsp::{Diagnostic, Location, Position, Range};
use crate::mcp;
use crate::mcp::payload;
use crate::mcp::payload::ToJson;
use crate::mcp::tools;
use crate::mcp::StepModel;
use crate::proposals::ProposalModel;
use crate::protocol::{InlineTask, PackModel, RenameApplied, SliceModel};
use crate::runtime::CoreModel;
use crate::test_runner::ResultsModel;
use crate::tx::ChangeModel;

verus! {

/// No two members have the same name.
spec fn distinct(fields: Seq<(Seq<char>, Json)>) -> bool {
    forall|i: int, j: int|
        0 <= i < j < fields.len() ==> (#[trigger] fields[i]).0 != (#[trigger] fields[j]).0
}

proof fn lemma_fields(fields: Seq<(Seq<char>, Json)>)
    requires
        distinct(fields),
    ensures
        forall|i: int|
            0 <= i < fields.len() ==> says(
                json::obj(fields),
                (#[trigger] fields[i]).0,
                fields[i].1,
            ),
    decreases fields.len(),
{
    if fields.len() > 0 {
        let some = fields.drop_last();
        assert forall|i: int, j: int| 0 <= i < j < some.len() implies (#[trigger] some[i]).0 != (
        #[trigger] some[j]).0 by {
            assert(fields[i].0 != fields[j].0);
        }
        lemma_fields(some);
        assert forall|i: int| 0 <= i < fields.len() implies says(
            json::obj(fields),
            (#[trigger] fields[i]).0,
            fields[i].1,
        ) by {
            if i < some.len() {
                assert(some[i] == fields[i]);
                assert(fields[i].0 != fields[fields.len() - 1].0);
            }
        }
    }
}

/// A text, or nothing.
pub open spec fn maybe(s: Option<Seq<char>>) -> Json {
    match s {
        Some(s) => Json::Text(s),
        None => Json::Null,
    }
}

/// A list of the texts.
pub open spec fn lists(j: Json, texts: Seq<Seq<char>>) -> bool {
    &&& j is List && j->List_0.len() == texts.len()
    &&& forall|i: int| 0 <= i < texts.len() ==> #[trigger] j->List_0[i] == Json::Text(texts[i])
}

/// The entry of a buffer.
pub proof fn law_buffer_entries(id: u64, path: Option<Seq<char>>, dirty: bool, version: u64)
    ensures
        ({
            let j = payload::entry_json(id, path, dirty, version);
            &&& says(j, "id"@, Json::Int(id as int))
            &&& says(j, "path"@, maybe(path))
            &&& says(j, "dirty"@, Json::Bool(dirty))
            &&& says(j, "version"@, Json::Int(version as int))
        }),
{
    reveal_strlit("id");
    reveal_strlit("path");
    reveal_strlit("dirty");
    reveal_strlit("version");
    assert("id"@.len() == 2);
    assert("path"@.len() == 4);
    assert("dirty"@.len() == 5);
    assert("version"@.len() == 7);
    let f = seq![
        ("id"@, Json::Int(id as int)),
        ("path"@, json::opt_text(path)),
        ("dirty"@, Json::Bool(dirty)),
        ("version"@, Json::Int(version as int)),
    ];
    lemma_fields(f);
    assert(f[0].0 == "id"@);
    assert(f[1].0 == "path"@);
    assert(f[2].0 == "dirty"@);
    assert(f[3].0 == "version"@);
}

/// An entry of the history.
pub proof fn law_history_entries(c: ChangeModel)
    ensures
        ({
            let j = payload::change_json(c);
            &&& says(j, "change_id"@, Json::Int(c.change as int))
            &&& says(j, "tx_id"@, Json::Int(c.tx as int))
            &&& says(j, "intent"@, Json::Text(c.intent))
            &&& says(j, "conversation_id"@, maybe(c.conversation))
            &&& says(j, "timestamp"@, payload::moment_json(c.at))
            &&& says(j, "files"@, j->Object_0["files"@])
            &&& lists(j->Object_0["files"@], c.files)
        }),
{
    reveal_strlit("change_id");
    reveal_strlit("tx_id");
    reveal_strlit("intent");
    reveal_strlit("conversation_id");
    reveal_strlit("timestamp");
    reveal_strlit("files");
    assert("change_id"@.len() == 9);
    assert("tx_id"@.len() == 5);
    assert("intent"@.len() == 6);
    assert("conversation_id"@.len() == 15);
    assert("timestamp"@.len() == 9);
    assert("files"@.len() == 5);
    assert("change_id"@[0] != "timestamp"@[0]);
    assert("tx_id"@[0] != "files"@[0]);
    let f = seq![
        ("change_id"@, Json::Int(c.change as int)),
        ("tx_id"@, Json::Int(c.tx as int)),
        ("intent"@, Json::Text(c.intent)),
        ("conversation_id"@, json::opt_text(c.conversation)),
        ("timestamp"@, payload::moment_json(c.at)),
        ("files"@, Json::List(json::text_trees(c.files))),
    ];
    lemma_fields(f);
    assert(f[0].0 == "change_id"@);
    assert(f[1].0 == "tx_id"@);
    assert(f[2].0 == "intent"@);
    assert(f[3].0 == "conversation_id"@);
    assert(f[4].0 == "timestamp"@);
    assert(f[5].0 == "files"@);
}

/// A moment.
pub proof fn law_moments(c: ChangeModel)
    ensures
        ({
            let j = payload::moment_json(c.at);
            &&& says(j, "secs_since_epoch"@, Json::Int(c.at.secs as int))
            &&& says(j, "nanos_since_epoch"@, Json::Int(c.at.nanos as int))
        }),
{
    reveal_strlit("secs_since_epoch");
    reveal_strlit("nanos_since_epoch");
    assert("secs_since_epoch"@.len() == 16);
    assert("nanos_since_epoch"@.len() == 17);
    let f = seq![
        ("secs_since_epoch"@, Json::Int(c.at.secs as int)),
        ("nanos_since_epoch"@, Json::Int(c.at.nanos as int)),
    ];
    lemma_fields(f);
    assert(f[0].0 == "secs_since_epoch"@);
    assert(f[1].0 == "nanos_since_epoch"@);
}

/// A proposal.
pub proof fn law_listed_proposals(p: ProposalModel)
    ensures
        ({
            let j = payload::proposal_json(p);
            &&& says(j, "id"@, Json::Int(p.id as int))
            &&& says(j, "buffer_id"@, Json::Int(p.buffer_id as int))
            &&& says(j, "intent"@, Json::Text(p.intent))
            &&& says(j, "kind"@, payload::kind_json(p.kind))
        }),
{
    reveal_strlit("id");
    reveal_strlit("buffer_id");
    reveal_strlit("intent");
    reveal_strlit("kind");
    assert("id"@.len() == 2);
    assert("buffer_id"@.len() == 9);
    assert("intent"@.len() == 6);
    assert("kind"@.len() == 4);
    let f = seq![
        ("id"@, Json::Int(p.id as int)),
        ("buffer_id"@, Json::Int(p.buffer_id as int)),
        ("intent"@, Json::Text(p.intent)),
        ("kind"@, payload::kind_json(p.kind)),
    ];
    lemma_fields(f);
    assert(f[0].0 == "id"@);
    assert(f[1].0 == "buffer_id"@);
    assert(f[2].0 == "intent"@);
    assert(f[3].0 == "kind"@);
}

/// What a proposal is made of.
pub proof fn law_kinds_of_proposals(p: ProposalModel)
    ensures
        ({
            let j = payload::kind_json(p.kind);
            &&& says(j, "kind"@, Json::Text("replace_range"@))
            &&& says(j, "version"@, Json::Int(p.kind.version as int))
            &&& says(j, "start"@, Json::Int(p.kind.start))
            &&& says(j, "end"@, Json::Int(p.kind.end))
            &&& says(j, "text"@, Json::Text(p.kind.text))
        }),
{
    reveal_strlit("kind");
    reveal_strlit("version");
    reveal_strlit("start");
    reveal_strlit("end");
    reveal_strlit("text");
    assert("kind"@.len() == 4);
    assert("version"@.len() == 7);
    assert("start"@.len() == 5);
    assert("end"@.len() == 3);
    assert("text"@.len() == 4);
    assert("kind"@[0] != "text"@[0]);
    let f = seq![
        ("kind"@, Json::Text("replace_range"@)),
        ("version"@, Json::Int(p.kind.version as int)),
        ("start"@, Json::Int(p.kind.start)),
        ("end"@, Json::Int(p.kind.end)),
        ("text"@, Json::Text(p.kind.text)),
    ];
    lemma_fields(f);
    assert(f[0].0 == "kind"@);
    assert(f[1].0 == "version"@);
    assert(f[2].0 == "start"@);
    assert(f[3].0 == "end"@);
    assert(f[4].0 == "text"@);
}

/// A client.
pub proof fn law_clients(id: Seq<char>, kind: Seq<char>, focus: Option<u64>)
    ensures
        ({
            let j = payload::client_json(id, kind, focus);
            &&& says(j, "id"@, Json::Text(id))
            &&& says(j, "kind"@, Json::Text(kind))
            &&& says(j, "focus"@, match focus {
                Some(n) => Json::Int(n as int),
                None => Json::Null,
            })
        }),
{
    reveal_strlit("id");
    reveal_strlit("kind");
    reveal_strlit("focus");
    assert("id"@.len() == 2);
    assert("kind"@.len() == 4);
    assert("focus"@.len() == 5);
    let f = seq![
        ("id"@, Json::Text(id)),
        ("kind"@, Json::Text(kind)),
        ("focus"@, json::opt_int(focus)),
    ];
    lemma_fields(f);
    assert(f[0].0 == "id"@);
    assert(f[1].0 == "kind"@);
    assert(f[2].0 == "focus"@);
}

/// The results of a test run.
pub proof fn law_test_results(t: ResultsModel)
    ensures
        ({
            let j = payload::results_json(t);
            &&& says(j, "passed"@, Json::Int(t.passed as int))
            &&& says(j, "failed"@, Json::Int(t.failed as int))
            &&& says(j, "ignored"@, Json::Int(t.ignored as int))
            &&& says(j, "failures"@, j->Object_0["failures"@])
            &&& says(j, "exit_ok"@, Json::Bool(t.exit_ok))
            &&& says(j, "raw_tail"@, Json::Text(t.raw_tail))
            &&& j->Object_0["failures"@]->List_0.len() == t.failures.len()
            &&& forall|i: int|
                0 <= i < t.failures.len() ==> #[trigger] j->Object_0["failures"@]->List_0[i]
                    == payload::failure_json(t.failures[i].0, t.failures[i].1)
        }),
{
    reveal_strlit("passed");
    reveal_strlit("failed");
    reveal_strlit("ignored");
    reveal_strlit("failures");
    reveal_strlit("exit_ok");
    reveal_strlit("raw_tail");
    assert("passed"@.len() == 6);
    assert("failed"@.len() == 6);
    assert("ignored"@.len() == 7);
    assert("failures"@.len() == 8);
    assert("exit_ok"@.len() == 7);
    assert("raw_tail"@.len() == 8);
    assert("passed"@[0] != "failed"@[0]);
    assert("ignored"@[0] != "exit_ok"@[0]);
    assert("failures"@[0] != "raw_tail"@[0]);
    let f = seq![
        ("passed"@, Json::Int(t.passed as int)),
        ("failed"@, Json::Int(t.failed as int)),
        ("ignored"@, Json::Int(t.ignored as int)),
        ("failures"@, Json::List(Seq::new(t.failures.len(), |i: int| payload::failure_json(t.failures[i].0, t.failures[i].1)))),
        ("exit_ok"@, Json::Bool(t.exit_ok)),
        ("raw_tail"@, Json::Text(t.raw_tail)),
    ];
    lemma_fields(f);
    assert(f[0].0 == "passed"@);
    assert(f[1].0 == "failed"@);
    assert(f[2].0 == "ignored"@);
    assert(f[3].0 == "failures"@);
    assert(f[4].0 == "exit_ok"@);
    assert(f[5].0 == "raw_tail"@);
}

/// A failed test.
pub proof fn law_failed_tests(name: Seq<char>, message: Seq<char>)
    ensures
        ({
            let j = payload::failure_json(name, message);
            &&& says(j, "name"@, Json::Text(name))
            &&& says(j, "message"@, Json::Text(message))
        }),
{
    reveal_strlit("name");
    reveal_strlit("message");
    assert("name"@.len() == 4);
    assert("message"@.len() == 7);
    let f = seq![
        ("name"@, Json::Text(name)),
        ("message"@, Json::Text(message)),
    ];
    lemma_fields(f);
    assert(f[0].0 == "name"@);
    assert(f[1].0 == "message"@);
}

/// A slice of a context.
pub proof fn law_listed_slices(s: SliceModel)
    ensures
        ({
            let j = payload::slice_json(s);
            &&& says(j, "path"@, maybe(s.path))
            &&& says(j, "range"@, s.range.tree())
            &&& says(j, "reason"@, Json::Text(s.reason))
            &&& says(j, "text"@, Json::Text(s.text))
            &&& says(j, "estimated_tokens"@, Json::Int(s.tokens as int))
        }),
{
    reveal_strlit("path");
    reveal_strlit("range");
    reveal_strlit("reason");
    reveal_strlit("text");
    reveal_strlit("estimated_tokens");
    assert("path"@.len() == 4);
    assert("range"@.len() == 5);
    assert("reason"@.len() == 6);
    assert("text"@.len() == 4);
    assert("estimated_tokens"@.len() == 16);
    assert("path"@[0] != "text"@[0]);
    let f = seq![
        ("path"@, json::opt_text(s.path)),
        ("range"@, s.range.tree()),
        ("reason"@, Json::Text(s.reason)),
        ("text"@, Json::Text(s.text)),
        ("estimated_tokens"@, Json::Int(s.tokens as int)),
    ];
    lemma_fields(f);
    assert(f[0].0 == "path"@);
    assert(f[1].0 == "range"@);
    assert(f[2].0 == "reason"@);
    assert(f[3].0 == "text"@);
    assert(f[4].0 == "estimated_tokens"@);
}

/// A packed context.
pub proof fn law_packed_contexts(p: PackModel)
    ensures
        ({
            let j = payload::pack_json(p);
            &&& says(j, "anchor"@, match p.anchor {
                Some(r) => r.tree(),
                None => Json::Null,
            })
            &&& says(j, "slices"@, j->Object_0["slices"@])
            &&& says(j, "estimated_tokens"@, Json::Int(p.tokens as int))
            &&& says(j, "truncated"@, Json::Bool(p.truncated))
            &&& j->Object_0["slices"@]->List_0.len() == p.slices.len()
            &&& forall|i: int|
                0 <= i < p.slices.len() ==> #[trigger] j->Object_0["slices"@]->List_0[i]
                    == payload::slice_json(p.slices[i])
        }),
{
    reveal_strlit("anchor");
    reveal_strlit("slices");
    reveal_strlit("estimated_tokens");
    reveal_strlit("truncated");
    assert("anchor"@.len() == 6);
    assert("slices"@.len() == 6);
    assert("estimated_tokens"@.len() == 16);
    assert("truncated"@.len() == 9);
    assert("anchor"@[0] != "slices"@[0]);
    let f = seq![
        ("anchor"@, payload::maybe_range_json(p.anchor)),
        ("slices"@, Json::List(Seq::new(p.slices.len(), |i: int| payload::slice_json(p.slices[i])))),
        ("estimated_tokens"@, Json::Int(p.tokens as int)),
        ("truncated"@, Json::Bool(p.truncated)),
    ];
    lemma_fields(f);
    assert(f[0].0 == "anchor"@);
    assert(f[1].0 == "slices"@);
    assert(f[2].0 == "estimated_tokens"@);
    assert(f[3].0 == "truncated"@);
}

/// A changed file.
pub proof fn law_changed_files(e: StatusEntry)
    ensures
        ({
            let j = e.tree();
            &&& says(j, "path"@, Json::Text(e.path@))
            &&& says(j, "staged"@, Json::Text(seq![e.staged]))
            &&& says(j, "unstaged"@, Json::Text(seq![e.unstaged]))
        }),
{
    reveal_strlit("path");
    reveal_strlit("staged");
    reveal_strlit("unstaged");
    assert("path"@.len() == 4);
    assert("staged"@.len() == 6);
    assert("unstaged"@.len() == 8);
    let f = seq![
        ("path"@, Json::Text(e.path@)),
        ("staged"@, Json::Text(seq![e.staged])),
        ("unstaged"@, Json::Text(seq![e.unstaged])),
    ];
    lemma_fields(f);
    assert(f[0].0 == "path"@);
    assert(f[1].0 == "staged"@);
    assert(f[2].0 == "unstaged"@);
}

/// A commit.
pub proof fn law_commits(e: LogEntry)
    ensures
        ({
            let j = e.tree();
            &&& says(j, "sha"@, Json::Text(e.sha@))
            &&& says(j, "short_sha"@, Json::Text(e.short_sha@))
            &&& says(j, "author"@, Json::Text(e.author@))
            &&& says(j, "date"@, Json::Text(e.date@))
            &&& says(j, "subject"@, Json::Text(e.subject@))
        }),
{
    reveal_strlit("sha");
    reveal_strlit("short_sha");
    reveal_strlit("author");
    reveal_strlit("date");
    reveal_strlit("subject");
    assert("sha"@.len() == 3);
    assert("short_sha"@.len() == 9);
    assert("author"@.len() == 6);
    assert("date"@.len() == 4);
    assert("subject"@.len() == 7);
    let f = seq![
        ("sha"@, Json::Text(e.sha@)),
        ("short_sha"@, Json::Text(e.short_sha@)),
        ("author"@, Json::Text(e.author@)),
        ("date"@, Json::Text(e.date@)),
        ("subject"@, Json::Text(e.subject@)),
    ];
    lemma_fields(f);
    assert(f[0].0 == "sha"@);
    assert(f[1].0 == "short_sha"@);
    assert(f[2].0 == "author"@);
    assert(f[3].0 == "date"@);
    assert(f[4].0 == "subject"@);
}

/// A position.
pub proof fn law_places(p: Position)
    ensures
        ({
            let j = p.tree();
            &&& says(j, "line"@, Json::Int(p.line as int))
            &&& says(j, "character"@, Json::Int(p.character as int))
        }),
{
    reveal_strlit("line");
    reveal_strlit("character");
    assert("line"@.len() == 4);
    assert("character"@.len() == 9);
    let f = seq![
        ("line"@, Json::Int(p.line as int)),
        ("character"@, Json::Int(p.character as int)),
    ];
    lemma_fields(f);
    assert(f[0].0 == "line"@);
    assert(f[1].0 == "character"@);
}

/// A range.
pub proof fn law_ranges(r: Range)
    ensures
        ({
            let j = r.tree();
            &&& says(j, "start"@, r.start.tree())
            &&& says(j, "end"@, r.end.tree())
        }),
{
    reveal_strlit("start");
    reveal_strlit("end");
    assert("start"@.len() == 5);
    assert("end"@.len() == 3);
    let f = seq![
        ("start"@, r.start.tree()),
        ("end"@, r.end.tree()),
    ];
    lemma_fields(f);
    assert(f[0].0 == "start"@);
    assert(f[1].0 == "end"@);
}

/// A location.
pub proof fn law_locations(l: Location)
    ensures
        ({
            let j = l.tree();
            &&& says(j, "uri"@, Json::Text(l.uri@))
            &&& says(j, "range"@, l.range.tree())
        }),
{
    reveal_strlit("uri");
    reveal_strlit("range");
    assert("uri"@.len() == 3);
    assert("range"@.len() == 5);
    let f = seq![
        ("uri"@, Json::Text(l.uri@)),
        ("range"@, l.range.tree()),
    ];
    lemma_fields(f);
    assert(f[0].0 == "uri"@);
    assert(f[1].0 == "range"@);
}

/// A problem.
pub proof fn law_problems(d: Diagnostic)
    ensures
        ({
            let j = d.tree();
            &&& says(j, "range"@, d.range.tree())
            &&& says(j, "severity"@, match d.severity {
                Some(n) => Json::Int(n as int),
                None => Json::Null,
            })
            &&& says(j, "message"@, Json::Text(d.message@))
            &&& says(j, "source"@, maybe(buffer::option_view(d.source)))
        }),
{
    reveal_strlit("range");
    reveal_strlit("severity");
    reveal_strlit("message");
    reveal_strlit("source");
    assert("range"@.len() == 5);
    assert("severity"@.len() == 8);
    assert("message"@.len() == 7);
    assert("source"@.len() == 6);
    let f = seq![
        ("range"@, d.range.tree()),
        ("severity"@, json::opt_int(payload::wide(d.severity))),
        ("message"@, Json::Text(d.message@)),
        ("source"@, json::opt_text(buffer::option_view(d.source))),
    ];
    lemma_fields(f);
    assert(f[0].0 == "range"@);
    assert(f[1].0 == "severity"@);
    assert(f[2].0 == "message"@);
    assert(f[3].0 == "source"@);
}

/// A task in a file.
pub proof fn law_listed_tasks(t: InlineTask)
    ensures
        ({
            let j = t.tree();
            &&& says(j, "path"@, Json::Text(t.path@))
            &&& says(j, "line"@, Json::Int(t.line as int))
            &&& says(j, "kind"@, Json::Text(t.kind@))
            &&& says(j, "text"@, Json::Text(t.text@))
        }),
{
    reveal_strlit("path");
    reveal_strlit("line");
    reveal_strlit("kind");
    reveal_strlit("text");
    assert("path"@.len() == 4);
    assert("line"@.len() == 4);
    assert("kind"@.len() == 4);
    assert("text"@.len() == 4);
    assert("path"@[0] != "line"@[0]);
    assert("path"@[0] != "kind"@[0]);
    assert("path"@[0] != "text"@[0]);
    assert("line"@[0] != "kind"@[0]);
    assert("line"@[0] != "text"@[0]);
    assert("kind"@[0] != "text"@[0]);
    let f = seq![
        ("path"@, Json::Text(t.path@)),
        ("line"@, Json::Int(t.line as int)),
        ("kind"@, Json::Text(t.kind@)),
        ("text"@, Json::Text(t.text@)),
    ];
    lemma_fields(f);
    assert(f[0].0 == "path"@);
    assert(f[1].0 == "line"@);
    assert(f[2].0 == "kind"@);
    assert(f[3].0 == "text"@);
}

/// A file that a rename changed.
pub proof fn law_renamed_files(r: RenameApplied)
    ensures
        ({
            let j = r.tree();
            &&& says(j, "buffer_id"@, Json::Int(r.buffer_id as int))
            &&& says(j, "uri"@, Json::Text(r.uri@))
            &&& says(j, "edits"@, Json::Int(r.edits as int))
            &&& says(j, "new_version"@, Json::Int(r.new_version as int))
        }),
{
    reveal_strlit("buffer_id");
    reveal_strlit("uri");
    reveal_strlit("edits");
    reveal_strlit("new_version");
    assert("buffer_id"@.len() == 9);
    assert("uri"@.len() == 3);
    assert("edits"@.len() == 5);
    assert("new_version"@.len() == 11);
    let f = seq![
        ("buffer_id"@, Json::Int(r.buffer_id as int)),
        ("uri"@, Json::Text(r.uri@)),
        ("edits"@, Json::Int(r.edits as int)),
        ("new_version"@, Json::Int(r.new_version as int)),
    ];
    lemma_fields(f);
    assert(f[0].0 == "buffer_id"@);
    assert(f[1].0 == "uri"@);
    assert(f[2].0 == "edits"@);
    assert(f[3].0 == "new_version"@);
}

/// An import.
pub proof fn law_listed_imports(t: Seq<char>, line: int)
    ensures
        ({
            let j = payload::import_json(t, line);
            &&& says(j, "text"@, Json::Text(t))
            &&& says(j, "line"@, Json::Int(line))
        }),
{
    reveal_strlit("text");
    reveal_strlit("line");
    assert("text"@.len() == 4);
    assert("line"@.len() == 4);
    assert("text"@[0] != "line"@[0]);
    let f = seq![
        ("text"@, Json::Text(t)),
        ("line"@, Json::Int(line)),
    ];
    lemma_fields(f);
    assert(f[0].0 == "text"@);
    assert(f[1].0 == "line"@);
}

// ----------------------------------------------------------------------- methods

/// What is asked for decides what is answered, under the id of the request. Whatever the
/// server does not know is refused by its name. None of it changes anything.
pub proof fn law_methods(
    m: CoreModel,
    client: Seq<char>,
    j: Json,
    id: Json,
    method: Seq<char>,
    after: CoreModel,
    step: StepModel,
)
    requires
        says(j, "id"@, id),
        says(j, "method"@, Json::Text(method)),
        mcp::handled(m, client, j, after, step),
        method != "tools/call"@,
        method != "initialized"@,
        method != "notifications/initialized"@,
    ensures
        after == m,
        step is Reply && step->Reply_0 is Some,
        ({
            let said = step->Reply_0->Some_0;
            &&& method == "initialize"@ ==> said == json::json_text(
                mcp::success_json(id, mcp::initialize_json()),
            )
            &&& method == "tools/list"@ ==> said == json::json_text(
                mcp::success_json(id, tools::tools_json()),
            )
            &&& method == "ping"@ ==> said == json::json_text(
                mcp::success_json(id, Json::Object(Map::empty())),
            )
            &&& method == "resources/list"@ || method == "prompts/list"@ ==> said
                == json::json_text(mcp::success_json(id, mcp::nothing_hosted_json()))
            &&& method != "initialize"@ && method != "tools/list"@ && method != "ping"@ && method
                != "resources/list"@ && method != "prompts/list"@ ==> said == json::json_text(
                mcp::failure_json(id, -32601, "method not found: "@ + method),
            )
        }),
{

    reveal_strlit("initialize");
    reveal_strlit("notifications/initialized");
    reveal_strlit("initialized");
    reveal_strlit("tools/list");
    reveal_strlit("tools/call");
    reveal_strlit("ping");
    reveal_strlit("resources/list");
    reveal_strlit("prompts/list");
    assert("initialize"@.len() == 10);
    assert("notifications/initialized"@.len() == 25);
    assert("initialized"@.len() == 11);
    assert("tools/list"@.len() == 10);
    assert("tools/call"@.len() == 10);
    assert("ping"@.len() == 4);
    assert("resources/list"@.len() == 14);
    assert("prompts/list"@.len() == 12);
    assert("initialize"@[0] != "tools/list"@[0]);
    assert("initialize"@[0] != "tools/call"@[0]);
    assert("tools/list"@[6] != "tools/call"@[6]);
    assert(json::put(Seq::empty()) == Map::<Seq<char>, Json>::empty());
}

/// A call without a name is refused as such, and one of a tool that there is not says so in
/// its result.
pub proof fn law_calls_without_a_tool(
    m: CoreModel,
    client: Seq<char>,
    j: Json,
    id: Json,
    params: Json,
    after: CoreModel,
    step: StepModel,
)
    requires
        says(j, "id"@, id),
        says(j, "method"@, Json::Text("tools/call"@)),
        says(j, "params"@, params),
        mcp::handled(m, client, j, after, step),
    ensures
        params is Object && !params->Object_0.contains_key("name"@) ==> after == m && step
            == StepModel::Reply(
            Some(
                json::json_text(
                    mcp::failure_json(id, -32602, "tools/call missing `name`"@),
                ),
            ),
        ),
        forall|name: Seq<char>|
            says(params, "name"@, Json::Text(name)) && #[trigger] tools::tool_named(name) is None
                ==> after == m && step == StepModel::Reply(
                Some(
                    json::json_text(
                        mcp::success_json(
                            id,
                            mcp::call_result_json(Err(tools::unknown_text(name))),
                        ),
                    ),
                ),
            ),
{

    reveal_strlit("initialize");
    reveal_strlit("notifications/initialized");
    reveal_strlit("initialized");
    reveal_strlit("tools/list");
    reveal_strlit("tools/call");
    assert("initialize"@.len() == 10);
    assert("notifications/initialized"@.len() == 25);
    assert("initialized"@.len() == 11);
    assert("tools/list"@.len() == 10);
    assert("tools/call"@.len() == 10);
    assert("initialize"@[0] != "tools/list"@[0]);
    assert("initialize"@[0] != "tools/call"@[0]);
    assert("tools/list"@[6] != "tools/call"@[6]);
}

/// A server says what it speaks and who it is, and hosts neither resources nor prompts.
pub proof fn law_introduction()
    ensures
        says(mcp::initialize_json(), "protocolVersion"@, Json::Text("2024-11-05"@)),
        says(mcp::nothing_hosted_json(), "resources"@, Json::List(Seq::empty())),
        says(mcp::nothing_hosted_json(), "prompts"@, Json::List(Seq::empty())),
{
    reveal_strlit("protocolVersion");
    reveal_strlit("capabilities");
    reveal_strlit("serverInfo");
    reveal_strlit("resources");
    reveal_strlit("prompts");
    assert("protocolVersion"@.len() == 15);
    assert("capabilities"@.len() == 12);
    assert("serverInfo"@.len() == 10);
    assert("resources"@.len() == 9);
    assert("prompts"@.len() == 7);
    crate::lsp::laws::lemma_two(
        ("resources"@, Json::List(Seq::empty())),
        ("prompts"@, Json::List(Seq::empty())),
    );
    let j = mcp::initialize_json()->Object_0;
    let f = seq![
        ("protocolVersion"@, Json::Text(mcp::PROTOCOL_VERSION@)),
        ("capabilities"@, json::obj(seq![("tools"@, json::obj(Seq::empty()))])),
        ("serverInfo"@, j["serverInfo"@]),
    ];
    lemma_fields(f);
    assert(f[0].0 == "protocolVersion"@);
    assert(f[1].0 == "capabilities"@);
    assert(f[2].0 == "serverInfo"@);
    reveal_with_fuel(json::put, 4);
}

} // verus!
