//! The JSON of what the tools return.

use serde_json::Value;
use vstd::prelude::*;

use crate::buffer;
use crate::git::{LogEntry, StatusEntry};
use crate::json;
use crate::json::{
    boolean, list, list_texts, maybe_string, maybe_unsigned, null, obj2, obj3, obj4, obj5, obj6,
    string, unsigned,
};
use crate::lsp::{Diagnostic, Location, Position, Range, SymbolInformation};
use crate::proposals;
use crate::proposals::{Proposal, ProposalKind};
use crate::protocol;
use crate::protocol::{
    BufferListEntry, BufferReadResponse, BulkAcceptError, BulkAcceptResult, ClientInfo,
    ContextSlice, DiagWaitResult, ImportEntry, InlineTask, PackedContext, RenameApplied,
    RenameResult, ScopeReport, SymbolRef,
};
use crate::runtime;
use crate::runtime::insight;
use crate::scan;
use crate::syntax;
use crate::syntax::AstMatch;
use crate::test_runner;
use crate::test_runner::{TestFailure, TestResults};
use crate::tx;
use crate::tx::{Change, Moment};

verus! {

/// A value that has a JSON form.
pub trait ToJson: Sized {
    spec fn tree(self) -> json::Json;

    fn to_value(&self) -> (r: Value)
        ensures
            json::value_json(r) == self.tree(),
    ;
}

pub open spec fn all_trees<T: ToJson>(v: Seq<T>) -> Seq<json::Json> {
    Seq::new(v.len(), |i: int| v[i].tree())
}

/// The list of the forms.
pub fn list_of<T: ToJson>(v: &Vec<T>) -> (r: Value)
    ensures
        json::value_json(r) == json::Json::List(all_trees(v@)),
{
    let ghost all = all_trees(v@);
    let mut vs: Vec<Value> = Vec::new();
    let mut i: usize = 0;
    while i < v.len()
        invariant
            all == all_trees(v@),
            i <= v@.len(),
            json::trees(vs@) == all.take(i as int),
        decreases v@.len() - i,
    {
        let ghost before = json::trees(vs@);
        vs.push(v[i].to_value());
        assert(json::trees(vs@) =~= before.push(all[i as int]));
        i += 1;
        assert(all.take(i as int) =~= before.push(all[i - 1]));
    }
    assert(all.take(i as int) =~= all);
    list(vs)
}

pub open spec fn int_json(n: int) -> json::Json {
    json::Json::Int(n)
}

pub open spec fn text_json(s: Seq<char>) -> json::Json {
    json::Json::Text(s)
}

// --------------------------------------------------------------------- buffers

/// A buffer in the list of buffers.
pub open spec fn entry_json(id: u64, path: Option<Seq<char>>, dirty: bool, version: u64) -> json::Json {
    json::obj(
        seq![
            ("id"@, int_json(id as int)),
            ("path"@, json::opt_text(path)),
            ("dirty"@, json::Json::Bool(dirty)),
            ("version"@, int_json(version as int)),
        ],
    )
}

impl ToJson for BufferListEntry {
    open spec fn tree(self) -> json::Json {
        entry_json(self.id, buffer::option_view(self.path), self.dirty, self.version)
    }

    fn to_value(&self) -> Value {
        obj4(
            "id",
            unsigned(self.id),
            "path",
            maybe_string(&self.path),
            "dirty",
            boolean(self.dirty),
            "version",
            unsigned(self.version),
        )
    }
}

/// The list of the open buffers.
pub open spec fn entries_json(entries: Seq<runtime::EntryModel>) -> json::Json {
    json::Json::List(
        Seq::new(
            entries.len(),
            |i: int|
                entry_json(
                    entries[i].id,
                    entries[i].buffer.path,
                    entries[i].buffer.dirty,
                    entries[i].buffer.version,
                ),
        ),
    )
}

/// What reading a buffer gave.
pub open spec fn read_json(s: Seq<char>, version: u64) -> json::Json {
    json::obj(seq![("text"@, text_json(s)), ("version"@, int_json(version as int))])
}

impl ToJson for BufferReadResponse {
    open spec fn tree(self) -> json::Json {
        read_json(self.text@, self.version)
    }

    fn to_value(&self) -> Value {
        obj2("text", string(&self.text), "version", unsigned(self.version))
    }
}

/// A client of the runtime.
pub open spec fn client_json(id: Seq<char>, kind: Seq<char>, focus: Option<u64>) -> json::Json {
    json::obj(
        seq![
            ("id"@, text_json(id)),
            ("kind"@, text_json(kind)),
            ("focus"@, json::opt_int(focus)),
        ],
    )
}

impl ToJson for ClientInfo {
    open spec fn tree(self) -> json::Json {
        client_json(self.id@, self.kind@, self.focus)
    }

    fn to_value(&self) -> Value {
        obj3(
            "id",
            string(&self.id),
            "kind",
            string(&self.kind),
            "focus",
            maybe_unsigned(self.focus),
        )
    }
}

// --------------------------------------------------------------------- queries

pub open spec fn match_json(m: syntax::MatchModel) -> json::Json {
    json::obj(
        seq![
            ("capture"@, text_json(m.capture)),
            ("kind"@, text_json(m.kind)),
            ("byte_start"@, int_json(m.start)),
            ("byte_end"@, int_json(m.end)),
        ],
    )
}

impl ToJson for AstMatch {
    open spec fn tree(self) -> json::Json {
        match_json(self@)
    }

    fn to_value(&self) -> Value {
        obj4(
            "capture",
            string(&self.capture),
            "kind",
            string(&self.kind),
            "byte_start",
            unsigned(self.byte_start as u64),
            "byte_end",
            unsigned(self.byte_end as u64),
        )
    }
}

pub open spec fn matches_json(ms: Seq<syntax::MatchModel>) -> json::Json {
    json::Json::List(Seq::new(ms.len(), |i: int| match_json(ms[i])))
}

// ------------------------------------------------------------------- proposals

pub open spec fn kind_json(k: proposals::ReplaceModel) -> json::Json {
    json::obj(
        seq![
            ("kind"@, text_json("replace_range"@)),
            ("version"@, int_json(k.version as int)),
            ("start"@, int_json(k.start)),
            ("end"@, int_json(k.end)),
            ("text"@, text_json(k.text)),
        ],
    )
}

pub open spec fn proposal_json(p: proposals::ProposalModel) -> json::Json {
    json::obj(
        seq![
            ("id"@, int_json(p.id as int)),
            ("buffer_id"@, int_json(p.buffer_id as int)),
            ("intent"@, text_json(p.intent)),
            ("kind"@, kind_json(p.kind)),
        ],
    )
}

impl ToJson for Proposal {
    open spec fn tree(self) -> json::Json {
        proposal_json(self@)
    }

    fn to_value(&self) -> Value {
        let kind = match &self.kind {
            ProposalKind::ReplaceRange { version, start, end, text } => obj5(
                "kind",
                string("replace_range"),
                "version",
                unsigned(*version),
                "start",
                unsigned(*start as u64),
                "end",
                unsigned(*end as u64),
                "text",
                string(text),
            ),
        };
        obj4(
            "id",
            unsigned(self.id.0),
            "buffer_id",
            unsigned(self.buffer_id),
            "intent",
            string(&self.intent),
            "kind",
            kind,
        )
    }
}

pub open spec fn proposals_json(ps: Seq<proposals::ProposalModel>) -> json::Json {
    json::Json::List(Seq::new(ps.len(), |i: int| proposal_json(ps[i])))
}

pub open spec fn bulk_error_json(id: u64, message: Seq<char>) -> json::Json {
    json::obj(seq![("proposal_id"@, int_json(id as int)), ("message"@, text_json(message))])
}

impl ToJson for BulkAcceptError {
    open spec fn tree(self) -> json::Json {
        bulk_error_json(self.proposal_id.0, self.message@)
    }

    fn to_value(&self) -> Value {
        obj2("proposal_id", unsigned(self.proposal_id.0), "message", string(&self.message))
    }
}

/// The outcome of accepting every proposal.
pub open spec fn bulk_json(accepted: nat, errors: Seq<(u64, Seq<char>)>) -> json::Json {
    json::obj(
        seq![
            ("accepted"@, int_json(accepted as int)),
            (
                "errors"@,
                json::Json::List(
                    Seq::new(errors.len(), |i: int| bulk_error_json(errors[i].0, errors[i].1)),
                ),
            ),
        ],
    )
}

pub fn bulk_value(r: &BulkAcceptResult) -> (v: Value)
    ensures
        json::value_json(v) == bulk_json(
            r.accepted as nat,
            runtime::approval::bulk_errors(r.errors@),
        ),
{
    let ghost errors = runtime::approval::bulk_errors(r.errors@);
    assert(all_trees(r.errors@) =~= Seq::new(
        errors.len(),
        |i: int| bulk_error_json(errors[i].0, errors[i].1),
    ));
    obj2("accepted", unsigned(r.accepted as u64), "errors", list_of(&r.errors))
}

// --------------------------------------------------------------------- history

/// A moment as a tree.
pub open spec fn moment_json(at: Moment) -> json::Json {
    json::obj(
        seq![
            ("secs_since_epoch"@, int_json(at.secs as int)),
            ("nanos_since_epoch"@, int_json(at.nanos as int)),
        ],
    )
}

/// A history entry.
pub open spec fn change_json(c: tx::ChangeModel) -> json::Json {
    json::obj(
        seq![
            ("change_id"@, int_json(c.change as int)),
            ("tx_id"@, int_json(c.tx as int)),
            ("intent"@, text_json(c.intent)),
            ("conversation_id"@, json::opt_text(c.conversation)),
            ("timestamp"@, moment_json(c.at)),
            ("files"@, json::Json::List(json::text_trees(c.files))),
        ],
    )
}

/// The history entries.
pub open spec fn changes_json(cs: Seq<tx::ChangeModel>) -> json::Json {
    json::Json::List(Seq::new(cs.len(), |i: int| change_json(cs[i])))
}

fn change_value(c: &Change) -> (r: Value)
    ensures
        json::value_json(r) == change_json(c@),
{
    let at = obj2(
        "secs_since_epoch",
        unsigned(c.timestamp.secs),
        "nanos_since_epoch",
        unsigned(c.timestamp.nanos as u64),
    );
    obj6(
        "change_id",
        unsigned(c.change_id.0),
        "tx_id",
        unsigned(c.tx_id.0),
        "intent",
        string(&c.intent),
        "conversation_id",
        maybe_string(&c.conversation_id),
        "timestamp",
        at,
        "files",
        list_texts(&c.files),
    )
}

/// The JSON of history entries.
pub fn changes_value(cs: &[Change]) -> (r: Value)
    ensures
        json::value_json(r) == changes_json(tx::change_views(cs@)),
{
    let ghost models = tx::change_views(cs@);
    let mut vs: Vec<Value> = Vec::new();
    let mut i: usize = 0;
    while i < cs.len()
        invariant
            models == tx::change_views(cs@),
            i <= cs@.len(),
            vs@.len() == i,
            forall|k: int| 0 <= k < i ==> json::value_json(#[trigger] vs@[k]) == change_json(
                models[k],
            ),
        decreases cs@.len() - i,
    {
        vs.push(change_value(&cs[i]));
        i += 1;
    }
    assert(json::trees(vs@) =~= Seq::new(models.len(), |i: int| change_json(models[i])));
    list(vs)
}

// ------------------------------------------------------------------ repository

impl ToJson for StatusEntry {
    open spec fn tree(self) -> json::Json {
        json::obj(
            seq![
                ("path"@, text_json(self.path@)),
                ("staged"@, text_json(seq![self.staged])),
                ("unstaged"@, text_json(seq![self.unstaged])),
            ],
        )
    }

    fn to_value(&self) -> Value {
        obj3(
            "path",
            string(&self.path),
            "staged",
            letter(self.staged),
            "unstaged",
            letter(self.unstaged),
        )
    }
}

fn letter(c: char) -> (r: Value)
    ensures
        json::value_json(r) == text_json(seq![c]),
{
    let mut s = String::new();
    s.push(c);
    assert(s@ =~= seq![c]);
    string(&s)
}

impl ToJson for LogEntry {
    open spec fn tree(self) -> json::Json {
        json::obj(
            seq![
                ("sha"@, text_json(self.sha@)),
                ("short_sha"@, text_json(self.short_sha@)),
                ("author"@, text_json(self.author@)),
                ("date"@, text_json(self.date@)),
                ("subject"@, text_json(self.subject@)),
            ],
        )
    }

    fn to_value(&self) -> Value {
        obj5(
            "sha",
            string(&self.sha),
            "short_sha",
            string(&self.short_sha),
            "author",
            string(&self.author),
            "date",
            string(&self.date),
            "subject",
            string(&self.subject),
        )
    }
}

// ------------------------------------------------------------ language servers

impl ToJson for Position {
    open spec fn tree(self) -> json::Json {
        json::obj(
            seq![
                ("line"@, int_json(self.line as int)),
                ("character"@, int_json(self.character as int)),
            ],
        )
    }

    fn to_value(&self) -> Value {
        obj2("line", unsigned(self.line as u64), "character", unsigned(self.character as u64))
    }
}

impl ToJson for Range {
    open spec fn tree(self) -> json::Json {
        json::obj(seq![("start"@, self.start.tree()), ("end"@, self.end.tree())])
    }

    fn to_value(&self) -> Value {
        obj2("start", self.start.to_value(), "end", self.end.to_value())
    }
}

impl ToJson for Location {
    open spec fn tree(self) -> json::Json {
        json::obj(seq![("uri"@, text_json(self.uri@)), ("range"@, self.range.tree())])
    }

    fn to_value(&self) -> Value {
        obj2("uri", string(&self.uri), "range", self.range.to_value())
    }
}

impl ToJson for SymbolInformation {
    open spec fn tree(self) -> json::Json {
        json::obj(
            seq![
                ("name"@, text_json(self.name@)),
                ("kind"@, int_json(self.kind as int)),
                ("location"@, self.location.tree()),
                ("containerName"@, json::opt_text(buffer::option_view(self.container_name))),
            ],
        )
    }

    fn to_value(&self) -> Value {
        obj4(
            "name",
            string(&self.name),
            "kind",
            unsigned(self.kind as u64),
            "location",
            self.location.to_value(),
            "containerName",
            maybe_string(&self.container_name),
        )
    }
}

/// A severity as a number.
pub open spec fn wide(n: Option<u8>) -> Option<u64> {
    match n {
        Some(n) => Some(n as u64),
        None => None,
    }
}

impl ToJson for Diagnostic {
    open spec fn tree(self) -> json::Json {
        json::obj(
            seq![
                ("range"@, self.range.tree()),
                ("severity"@, json::opt_int(wide(self.severity))),
                ("message"@, text_json(self.message@)),
                ("source"@, json::opt_text(buffer::option_view(self.source))),
            ],
        )
    }

    fn to_value(&self) -> Value {
        let severity: Option<u64> = match self.severity {
            Some(n) => Some(n as u64),
            None => None,
        };
        assert(severity == wide(self.severity));
        obj4(
            "range",
            self.range.to_value(),
            "severity",
            maybe_unsigned(severity),
            "message",
            string(&self.message),
            "source",
            maybe_string(&self.source),
        )
    }
}

impl ToJson for DiagWaitResult {
    open spec fn tree(self) -> json::Json {
        json::obj(
            seq![
                ("caught_up"@, json::Json::Bool(self.caught_up)),
                ("diagnostics"@, json::Json::List(all_trees(self.diagnostics@))),
            ],
        )
    }

    fn to_value(&self) -> Value {
        obj2("caught_up", boolean(self.caught_up), "diagnostics", list_of(&self.diagnostics))
    }
}

impl ToJson for InlineTask {
    open spec fn tree(self) -> json::Json {
        json::obj(
            seq![
                ("path"@, text_json(self.path@)),
                ("line"@, int_json(self.line as int)),
                ("kind"@, text_json(self.kind@)),
                ("text"@, text_json(self.text@)),
            ],
        )
    }

    fn to_value(&self) -> Value {
        obj4(
            "path",
            string(&self.path),
            "line",
            unsigned(self.line as u64),
            "kind",
            string(&self.kind),
            "text",
            string(&self.text),
        )
    }
}

impl ToJson for RenameApplied {
    open spec fn tree(self) -> json::Json {
        json::obj(
            seq![
                ("buffer_id"@, int_json(self.buffer_id as int)),
                ("uri"@, text_json(self.uri@)),
                ("edits"@, int_json(self.edits as int)),
                ("new_version"@, int_json(self.new_version as int)),
            ],
        )
    }

    fn to_value(&self) -> Value {
        obj4(
            "buffer_id",
            unsigned(self.buffer_id),
            "uri",
            string(&self.uri),
            "edits",
            unsigned(self.edits as u64),
            "new_version",
            unsigned(self.new_version),
        )
    }
}

impl ToJson for RenameResult {
    open spec fn tree(self) -> json::Json {
        json::obj(
            seq![
                ("applied"@, json::Json::List(all_trees(self.applied@))),
                (
                    "skipped_files"@,
                    json::Json::List(json::text_trees(scan::string_views(self.skipped_files@))),
                ),
            ],
        )
    }

    fn to_value(&self) -> Value {
        obj2(
            "applied",
            list_of(&self.applied),
            "skipped_files",
            list_texts(&self.skipped_files),
        )
    }
}

// ----------------------------------------------------------- scopes and contexts

/// An import declaration, and the line it starts on.
pub open spec fn import_json(text: Seq<char>, line: int) -> json::Json {
    json::obj(seq![("text"@, text_json(text)), ("line"@, int_json(line))])
}

impl ToJson for ImportEntry {
    open spec fn tree(self) -> json::Json {
        import_json(self.text@, self.line as int)
    }

    fn to_value(&self) -> Value {
        obj2("text", string(&self.text), "line", unsigned(self.line as u64))
    }
}

pub open spec fn imports_json(v: Seq<(Seq<char>, int)>) -> json::Json {
    json::Json::List(Seq::new(v.len(), |i: int| import_json(v[i].0, v[i].1)))
}

/// The JSON of import declarations.
pub fn imports_value(v: &Vec<ImportEntry>) -> (r: Value)
    ensures
        json::value_json(r) == imports_json(insight::import_views(v@)),
{
    let ghost ms = insight::import_views(v@);
    assert(all_trees(v@) =~= Seq::new(ms.len(), |i: int| import_json(ms[i].0, ms[i].1)));
    list_of(v)
}

pub open spec fn symbol_json(s: protocol::SymbolModel) -> json::Json {
    json::obj(
        seq![
            ("name"@, text_json(s.name)),
            ("kind"@, int_json(s.kind as int)),
            ("range"@, s.range.tree()),
        ],
    )
}

impl ToJson for SymbolRef {
    open spec fn tree(self) -> json::Json {
        symbol_json(self@)
    }

    fn to_value(&self) -> Value {
        obj3(
            "name",
            string(&self.name),
            "kind",
            unsigned(self.kind as u64),
            "range",
            self.range.to_value(),
        )
    }
}

pub open spec fn symbols_json(v: Seq<protocol::SymbolModel>) -> json::Json {
    json::Json::List(Seq::new(v.len(), |i: int| symbol_json(v[i])))
}

fn symbols_value(v: &Vec<SymbolRef>) -> (r: Value)
    ensures
        json::value_json(r) == symbols_json(protocol::symbol_views(v@)),
{
    let ghost ms = protocol::symbol_views(v@);
    assert(all_trees(v@) =~= Seq::new(ms.len(), |i: int| symbol_json(ms[i])));
    list_of(v)
}

/// What is visible at a point.
pub open spec fn scope_json(
    enclosing: Seq<protocol::SymbolModel>,
    imports: Seq<(Seq<char>, int)>,
    siblings: Seq<protocol::SymbolModel>,
) -> json::Json {
    json::obj(
        seq![
            ("enclosing"@, symbols_json(enclosing)),
            ("imports"@, imports_json(imports)),
            ("siblings"@, symbols_json(siblings)),
        ],
    )
}

impl ToJson for ScopeReport {
    open spec fn tree(self) -> json::Json {
        scope_json(
            protocol::symbol_views(self.enclosing@),
            insight::import_views(self.imports@),
            protocol::symbol_views(self.siblings@),
        )
    }

    fn to_value(&self) -> Value {
        obj3(
            "enclosing",
            symbols_value(&self.enclosing),
            "imports",
            imports_value(&self.imports),
            "siblings",
            symbols_value(&self.siblings),
        )
    }
}

pub open spec fn slice_json(s: protocol::SliceModel) -> json::Json {
    json::obj(
        seq![
            ("path"@, json::opt_text(s.path)),
            ("range"@, s.range.tree()),
            ("reason"@, text_json(s.reason)),
            ("text"@, text_json(s.text)),
            ("estimated_tokens"@, int_json(s.tokens as int)),
        ],
    )
}

impl ToJson for ContextSlice {
    open spec fn tree(self) -> json::Json {
        slice_json(self@)
    }

    fn to_value(&self) -> Value {
        obj5(
            "path",
            maybe_string(&self.path),
            "range",
            self.range.to_value(),
            "reason",
            string(&self.reason),
            "text",
            string(&self.text),
            "estimated_tokens",
            unsigned(self.estimated_tokens as u64),
        )
    }
}

pub open spec fn maybe_range_json(r: Option<Range>) -> json::Json {
    match r {
        Some(r) => r.tree(),
        None => json::Json::Null,
    }
}

/// A pack of context.
pub open spec fn pack_json(p: protocol::PackModel) -> json::Json {
    json::obj(
        seq![
            ("anchor"@, maybe_range_json(p.anchor)),
            (
                "slices"@,
                json::Json::List(Seq::new(p.slices.len(), |i: int| slice_json(p.slices[i]))),
            ),
            ("estimated_tokens"@, int_json(p.tokens as int)),
            ("truncated"@, json::Json::Bool(p.truncated)),
        ],
    )
}

impl ToJson for PackedContext {
    open spec fn tree(self) -> json::Json {
        pack_json(self@)
    }

    fn to_value(&self) -> Value {
        let anchor = match &self.anchor {
            Some(r) => r.to_value(),
            None => null(),
        };
        let ghost ms = self@.slices;
        assert(all_trees(self.slices@) =~= Seq::new(ms.len(), |i: int| slice_json(ms[i])));
        obj4(
            "anchor",
            anchor,
            "slices",
            list_of(&self.slices),
            "estimated_tokens",
            unsigned(self.estimated_tokens as u64),
            "truncated",
            boolean(self.truncated),
        )
    }
}

// ------------------------------------------------------------------------ tests

pub open spec fn failure_json(name: Seq<char>, message: Seq<char>) -> json::Json {
    json::obj(seq![("name"@, text_json(name)), ("message"@, text_json(message))])
}

impl ToJson for TestFailure {
    open spec fn tree(self) -> json::Json {
        failure_json(self.name@, self.message@)
    }

    fn to_value(&self) -> Value {
        obj2("name", string(&self.name), "message", string(&self.message))
    }
}

/// The outcome of a test run.
pub open spec fn results_json(t: test_runner::ResultsModel) -> json::Json {
    json::obj(
        seq![
            ("passed"@, int_json(t.passed as int)),
            ("failed"@, int_json(t.failed as int)),
            ("ignored"@, int_json(t.ignored as int)),
            (
                "failures"@,
                json::Json::List(
                    Seq::new(
                        t.failures.len(),
                        |i: int| failure_json(t.failures[i].0, t.failures[i].1),
                    ),
                ),
            ),
            ("exit_ok"@, json::Json::Bool(t.exit_ok)),
            ("raw_tail"@, text_json(t.raw_tail)),
        ],
    )
}

impl ToJson for TestResults {
    open spec fn tree(self) -> json::Json {
        results_json(self@)
    }

    fn to_value(&self) -> Value {
        let ghost fs = self@.failures;
        assert(all_trees(self.failures@) =~= Seq::new(
            fs.len(),
            |i: int| failure_json(fs[i].0, fs[i].1),
        ));
        obj6(
            "passed",
            unsigned(self.passed as u64),
            "failed",
            unsigned(self.failed as u64),
            "ignored",
            unsigned(self.ignored as u64),
            "failures",
            list_of(&self.failures),
            "exit_ok",
            boolean(self.exit_ok),
            "raw_tail",
            string(&self.raw_tail),
        )
    }
}

} // verus!
