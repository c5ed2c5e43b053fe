//! The tools of the agent server: their names, what they are for, and what they
//! take.

use serde_json::Value;
use vstd::prelude::*;

use crate::json;
use crate::json::{list, list_texts2, make_object, obj1, obj2, obj3, string, unsigned};
use crate::scan;
use crate::text::same;

verus! {

#[derive(Clone, Copy, Debug, PartialEq, Eq, Structural)]
pub enum Tool {
    BufferList,
    BufferOpen,
    BufferClose,
    ClientsList,
    GitDiff,
    GitStatus,
    GitLog,
    GitShow,
    GitStage,
    GitUnstage,
    GitCommit,
    ProposeRange,
    ProposalsList,
    ProposalsAccept,
    ProposalsReject,
    ProposalsAcceptAll,
    ProposalsRejectAll,
    BufferRead,
    AstQuery,
    ReplaceRange,
    ReplaceNode,
    TxBegin,
    TxCommit,
    TxRollback,
    HistoryRecent,
    SymbolDefinition,
    SymbolReferences,
    SymbolHover,
    BufferVersion,
    ProposalsCount,
    WorkspaceSearch,
    DiagCurrent,
    DiagWait,
    TasksList,
    RenameSymbol,
    TestRun,
    TestLastResults,
    ScopeImports,
    ScopeInScope,
    ContextPack,
}

/// What an argument is.
#[derive(Clone, Copy, Debug, PartialEq, Eq, Structural)]
pub enum FieldKind {
    /// An id or a version.
    Id,
    /// A number of milliseconds.
    Millis,
    /// A zero-based line or character.
    Coordinate,
    /// A number of things.
    Size,
    /// A number of things, of which at least one is meant.
    Positive,
    Flag,
    Text,
    CharSpan,
    ByteSpan,
}

/// What becomes of an argument that is not given.
#[derive(Clone, Copy, Debug, PartialEq, Eq, Structural)]
pub enum Presence {
    Required,
    Optional,
    Defaulted,
}

#[derive(Clone, Copy, Debug)]
pub struct Field {
    pub name: &'static str,
    pub kind: FieldKind,
    pub presence: Presence,
}

/// The tools, in the order they are listed.
pub open spec fn tool_list() -> Seq<Tool> {
    seq![
        Tool::BufferList,
        Tool::BufferOpen,
        Tool::BufferClose,
        Tool::ClientsList,
        Tool::GitDiff,
        Tool::GitStatus,
        Tool::GitLog,
        Tool::GitShow,
        Tool::GitStage,
        Tool::GitUnstage,
        Tool::GitCommit,
        Tool::ProposeRange,
        Tool::ProposalsList,
        Tool::ProposalsAccept,
        Tool::ProposalsReject,
        Tool::ProposalsAcceptAll,
        Tool::ProposalsRejectAll,
        Tool::BufferRead,
        Tool::AstQuery,
        Tool::ReplaceRange,
        Tool::ReplaceNode,
        Tool::TxBegin,
        Tool::TxCommit,
        Tool::TxRollback,
        Tool::HistoryRecent,
        Tool::SymbolDefinition,
        Tool::SymbolReferences,
        Tool::SymbolHover,
        Tool::BufferVersion,
        Tool::ProposalsCount,
        Tool::WorkspaceSearch,
        Tool::DiagCurrent,
        Tool::DiagWait,
        Tool::TasksList,
        Tool::RenameSymbol,
        Tool::TestRun,
        Tool::TestLastResults,
        Tool::ScopeImports,
        Tool::ScopeInScope,
        Tool::ContextPack,
    ]
}

/// The tools, in the order they are listed.
pub fn all_tools() -> (r: Vec<Tool>)
    ensures
        r@ == tool_list(),
{
    vec![
        Tool::BufferList,
        Tool::BufferOpen,
        Tool::BufferClose,
        Tool::ClientsList,
        Tool::GitDiff,
        Tool::GitStatus,
        Tool::GitLog,
        Tool::GitShow,
        Tool::GitStage,
        Tool::GitUnstage,
        Tool::GitCommit,
        Tool::ProposeRange,
        Tool::ProposalsList,
        Tool::ProposalsAccept,
        Tool::ProposalsReject,
        Tool::ProposalsAcceptAll,
        Tool::ProposalsRejectAll,
        Tool::BufferRead,
        Tool::AstQuery,
        Tool::ReplaceRange,
        Tool::ReplaceNode,
        Tool::TxBegin,
        Tool::TxCommit,
        Tool::TxRollback,
        Tool::HistoryRecent,
        Tool::SymbolDefinition,
        Tool::SymbolReferences,
        Tool::SymbolHover,
        Tool::BufferVersion,
        Tool::ProposalsCount,
        Tool::WorkspaceSearch,
        Tool::DiagCurrent,
        Tool::DiagWait,
        Tool::TasksList,
        Tool::RenameSymbol,
        Tool::TestRun,
        Tool::TestLastResults,
        Tool::ScopeImports,
        Tool::ScopeInScope,
        Tool::ContextPack,
    ]
}

/// The name of a tool.
pub open spec fn tool_name(t: Tool) -> Seq<char> {
    match t {
        Tool::BufferList => "buffer.list"@,
        Tool::BufferOpen => "buffer.open"@,
        Tool::BufferClose => "buffer.close"@,
        Tool::ClientsList => "clients.list"@,
        Tool::GitDiff => "git.diff"@,
        Tool::GitStatus => "git.status"@,
        Tool::GitLog => "git.log"@,
        Tool::GitShow => "git.show"@,
        Tool::GitStage => "git.stage"@,
        Tool::GitUnstage => "git.unstage"@,
        Tool::GitCommit => "git.commit"@,
        Tool::ProposeRange => "edit.propose_range"@,
        Tool::ProposalsList => "proposals.list"@,
        Tool::ProposalsAccept => "proposals.accept"@,
        Tool::ProposalsReject => "proposals.reject"@,
        Tool::ProposalsAcceptAll => "proposals.accept_all"@,
        Tool::ProposalsRejectAll => "proposals.reject_all"@,
        Tool::BufferRead => "buffer.read"@,
        Tool::AstQuery => "ast.query"@,
        Tool::ReplaceRange => "edit.replace_range"@,
        Tool::ReplaceNode => "edit.replace_node"@,
        Tool::TxBegin => "tx.begin"@,
        Tool::TxCommit => "tx.commit"@,
        Tool::TxRollback => "tx.rollback"@,
        Tool::HistoryRecent => "history.recent"@,
        Tool::SymbolDefinition => "symbol.definition"@,
        Tool::SymbolReferences => "symbol.references"@,
        Tool::SymbolHover => "symbol.hover"@,
        Tool::BufferVersion => "buffer.version"@,
        Tool::ProposalsCount => "proposals.count"@,
        Tool::WorkspaceSearch => "symbol.workspace_search"@,
        Tool::DiagCurrent => "diag.current"@,
        Tool::DiagWait => "diag.wait_until_idle"@,
        Tool::TasksList => "tasks.list"@,
        Tool::RenameSymbol => "edit.rename_symbol"@,
        Tool::TestRun => "test.run"@,
        Tool::TestLastResults => "test.last_results"@,
        Tool::ScopeImports => "scope.imports"@,
        Tool::ScopeInScope => "scope.in_scope"@,
        Tool::ContextPack => "context.pack"@,
    }
}

/// What a tool is for.
pub open spec fn tool_description(t: Tool) -> Seq<char> {
    match t {
        Tool::BufferList =>
            "List all open buffers."@,
        Tool::BufferOpen =>
            "Open a file as an additional buffer; returns the new buffer_id."@,
        Tool::BufferClose =>
            "Close a buffer by id. If it's the focused buffer, focus shifts to the lowest remaining id (or None when no buffers remain)."@,
        Tool::ClientsList =>
            "List active clients with id, kind (agent | human), and currently focused buffer_id."@,
        Tool::GitDiff =>
            "Return the raw `git diff HEAD --no-color -- <path>` for the buffer's file. Errors when the file isn't tracked or git isn't usable."@,
        Tool::GitStatus =>
            "List `git status --porcelain=v1` entries for the repo containing the buffer's file. Each entry: {path, staged, unstaged}; staged/unstaged are porcelain chars (space = unchanged, M/A/D/?/etc)."@,
        Tool::GitLog =>
            "Most recent `limit` commits in the buffer's repo. Each entry: {sha, short_sha, author, date, subject}."@,
        Tool::GitShow =>
            "Full `git show --no-color <sha>` output for a commit in the buffer's repo. SHA accepted in any form git recognises (full, short, ref)."@,
        Tool::GitStage =>
            "Stage a file via `git add`. When `path` is omitted, stages the buffer's own file. When set, takes the string as a path relative to the repo root."@,
        Tool::GitUnstage =>
            "Unstage a file via `git restore --staged`. Same path semantics as git.stage."@,
        Tool::GitCommit =>
            "Commit currently-staged changes with `message`. Returns git's stdout. Pre-commit hook failures and 'nothing to commit' surface as the error text."@,
        Tool::ProposeRange =>
            "Queue an `edit.replace_range` for review instead of applying it. Returns a proposal_id. The other side (eventually a human at the TUI) accepts or rejects via the `proposals.*` tools."@,
        Tool::ProposalsList =>
            "List queued proposals: [{id, buffer_id, intent, kind: {kind, ...}}]."@,
        Tool::ProposalsAccept =>
            "Apply a queued proposal through the tx machinery (using the proposal's intent). Errors if the buffer version moved; the proposal is re-queued so the agent can retry."@,
        Tool::ProposalsReject =>
            "Discard a queued proposal without applying."@,
        Tool::ProposalsAcceptAll =>
            "Accept every queued proposal in id order, each through the same tx machinery as proposals.accept. Returns {accepted, errors: [{proposal_id, message}]}; individual failures (typically version mismatches) re-queue the offending proposal under a fresh id without stopping the batch."@,
        Tool::ProposalsRejectAll =>
            "Discard every queued proposal. Returns {rejected} — the count dropped."@,
        Tool::BufferRead =>
            "Read all or part of a buffer's text. Returns {text, version}."@,
        Tool::AstQuery =>
            "Run a tree-sitter query against a buffer's parse tree. Returns [{capture, kind, byte_start, byte_end}]."@,
        Tool::ReplaceRange =>
            "Replace a char range with new text. version must match buffer's current version. Returns new_version."@,
        Tool::ReplaceNode =>
            "Replace the bytes of a tree-sitter node (typically from ast.query) with new text. Returns new_version."@,
        Tool::TxBegin =>
            "Open a transaction against `buffer_id` with a stated intent. Subsequent edits to that buffer join this tx until tx.commit or tx.rollback."@,
        Tool::TxCommit =>
            "Close the current transaction and record a Change in flat history. Returns change_id."@,
        Tool::TxRollback =>
            "Discard the current transaction and restore the buffer to its pre-tx state."@,
        Tool::HistoryRecent =>
            "Return the most-recent `limit` history entries."@,
        Tool::SymbolDefinition =>
            "Find the LSP definition location for a symbol at the given zero-based line/character. Requires a running language server (rust-analyzer for .rs, metals for .scala/.sc/.sbt)."@,
        Tool::SymbolReferences =>
            "Find all references to the symbol at (line, character) via LSP `textDocument/references`. `include_declaration` (default true) controls whether the symbol's own declaration is in the result. Requires a running language server (rust-analyzer for .rs, metals for .scala/.sc/.sbt)."@,
        Tool::SymbolHover =>
            "Plain-text hover/signature body for the symbol at (line, character), via LSP `textDocument/hover`. Returns {text: string | null}; null means the server had nothing to report. Requires a running language server (rust-analyzer for .rs, metals for .scala/.sc/.sbt)."@,
        Tool::BufferVersion =>
            "Current version of a buffer (the optimistic-concurrency token edits must reference). Cheaper than buffer.read when the agent only wants to check whether something has moved."@,
        Tool::ProposalsCount =>
            "Number of proposals currently in the queue. Cheap status check that avoids the cost of a full proposals.list."@,
        Tool::WorkspaceSearch =>
            "Fuzzy-search workspace symbols (types, functions, etc) via LSP `workspace/symbol`. `buffer_id` picks the language server to query; the search itself is workspace-wide. Requires a running language server (rust-analyzer for .rs, metals for .scala/.sc/.sbt)."@,
        Tool::DiagCurrent =>
            "Return cached LSP diagnostics for a buffer (severity 1=error..4=hint). Requires a running language server (rust-analyzer for .rs, metals for .scala/.sc/.sbt)."@,
        Tool::DiagWait =>
            "Block until the LSP serving `buffer_id` has acknowledged the latest sync with a publishDiagnostics, and (for rust-analyzer / metals) is no longer indexing. Returns {caught_up, diagnostics}; caught_up=false means the timeout fired and the diagnostics may be stale. Pair with an edit.* call to do edit-then-verify without polling. `timeout_ms` defaults to 3000."@,
        Tool::TasksList =>
            "Scan the workspace beneath `buffer_id` for inline agent-task markers (`NAME: ...`, `TODO(name): ...` for the agent's name, case-insensitive). Walks the buffer's git repo when present, else its parent directory. Returns [{path, line, kind, text}] sorted by path+line; `kind` is the name or `todo`. Lets you drop intent into comments and pick it up on the next pass without copy-paste."@,
        Tool::RenameSymbol =>
            "Rename the symbol at (line, character) to new_name. Applies in-buffer edits as one transaction; cross-file changes come back in skipped_files. Requires a running language server (rust-analyzer for .rs, metals for .scala/.sc/.sbt)."@,
        Tool::TestRun =>
            "Run the test command of the buffer's language in its workspace (`cargo test` for Rust), filtered by `target` (a test-name substring) when given. Returns {passed, failed, ignored, failures: [{name, message}], exit_ok, raw_tail}; failing tests are a successful call with exit_ok=false. The result is kept for test.last_results."@,
        Tool::TestLastResults =>
            "Return the most recent test.run result, or null when no run has happened this session."@,
        Tool::ScopeImports =>
            "List the import declarations in a buffer via its parse tree: [{text, line}]. Needs no language server; errors for languages with no import query."@,
        Tool::ScopeInScope =>
            "What's in scope at (line, character): {enclosing, imports, siblings}. `enclosing` runs outer to inner; `siblings` are the other top-level symbols. Requires a running language server (rust-analyzer for .rs, metals for .scala/.sc/.sbt)."@,
        Tool::ContextPack =>
            "Pack source context around (line, character) into at most `token_budget` estimated tokens: the enclosing function first, then imports, then sibling signatures. Returns {anchor, slices: [{path, range, reason, text, estimated_tokens}], estimated_tokens, truncated}; truncated=true means the budget left candidates out. Needs no language server."@,
    }
}

/// What a tool takes.
pub open spec fn tool_fields(t: Tool) -> Seq<Field> {
    match t {
        Tool::BufferList | Tool::ClientsList | Tool::ProposalsList | Tool::ProposalsAcceptAll | Tool::ProposalsRejectAll | Tool::ProposalsCount | Tool::TestLastResults => Seq::empty(),
        Tool::BufferOpen => seq![
            Field { name: "path", kind: FieldKind::Text, presence: Presence::Required },
        ],
        Tool::BufferClose | Tool::GitDiff | Tool::GitStatus | Tool::BufferVersion | Tool::DiagCurrent | Tool::TasksList | Tool::ScopeImports => seq![
            Field { name: "buffer_id", kind: FieldKind::Id, presence: Presence::Required },
        ],
        Tool::GitLog => seq![
            Field { name: "buffer_id", kind: FieldKind::Id, presence: Presence::Required },
            Field { name: "limit", kind: FieldKind::Positive, presence: Presence::Required },
        ],
        Tool::GitShow => seq![
            Field { name: "buffer_id", kind: FieldKind::Id, presence: Presence::Required },
            Field { name: "sha", kind: FieldKind::Text, presence: Presence::Required },
        ],
        Tool::GitStage | Tool::GitUnstage => seq![
            Field { name: "buffer_id", kind: FieldKind::Id, presence: Presence::Required },
            Field { name: "path", kind: FieldKind::Text, presence: Presence::Optional },
        ],
        Tool::GitCommit => seq![
            Field { name: "buffer_id", kind: FieldKind::Id, presence: Presence::Required },
            Field { name: "message", kind: FieldKind::Text, presence: Presence::Required },
        ],
        Tool::ProposeRange => seq![
            Field { name: "buffer_id", kind: FieldKind::Id, presence: Presence::Required },
            Field { name: "version", kind: FieldKind::Id, presence: Presence::Required },
            Field { name: "range", kind: FieldKind::CharSpan, presence: Presence::Required },
            Field { name: "text", kind: FieldKind::Text, presence: Presence::Required },
            Field { name: "intent", kind: FieldKind::Text, presence: Presence::Required },
        ],
        Tool::ProposalsAccept | Tool::ProposalsReject => seq![
            Field { name: "proposal_id", kind: FieldKind::Id, presence: Presence::Required },
        ],
        Tool::BufferRead => seq![
            Field { name: "buffer_id", kind: FieldKind::Id, presence: Presence::Required },
            Field { name: "range", kind: FieldKind::CharSpan, presence: Presence::Optional },
        ],
        Tool::AstQuery | Tool::WorkspaceSearch => seq![
            Field { name: "buffer_id", kind: FieldKind::Id, presence: Presence::Required },
            Field { name: "query", kind: FieldKind::Text, presence: Presence::Required },
        ],
        Tool::ReplaceRange => seq![
            Field { name: "buffer_id", kind: FieldKind::Id, presence: Presence::Required },
            Field { name: "version", kind: FieldKind::Id, presence: Presence::Required },
            Field { name: "range", kind: FieldKind::CharSpan, presence: Presence::Required },
            Field { name: "text", kind: FieldKind::Text, presence: Presence::Required },
        ],
        Tool::ReplaceNode => seq![
            Field { name: "buffer_id", kind: FieldKind::Id, presence: Presence::Required },
            Field { name: "version", kind: FieldKind::Id, presence: Presence::Required },
            Field { name: "byte_range", kind: FieldKind::ByteSpan, presence: Presence::Required },
            Field { name: "text", kind: FieldKind::Text, presence: Presence::Required },
        ],
        Tool::TxBegin => seq![
            Field { name: "buffer_id", kind: FieldKind::Id, presence: Presence::Required },
            Field { name: "intent", kind: FieldKind::Text, presence: Presence::Required },
            Field { name: "conversation_id", kind: FieldKind::Text, presence: Presence::Optional },
        ],
        Tool::TxCommit | Tool::TxRollback => seq![
            Field { name: "tx_id", kind: FieldKind::Id, presence: Presence::Required },
        ],
        Tool::HistoryRecent => seq![
            Field { name: "limit", kind: FieldKind::Size, presence: Presence::Required },
        ],
        Tool::SymbolDefinition | Tool::SymbolHover | Tool::ScopeInScope => seq![
            Field { name: "buffer_id", kind: FieldKind::Id, presence: Presence::Required },
            Field { name: "line", kind: FieldKind::Coordinate, presence: Presence::Required },
            Field { name: "character", kind: FieldKind::Coordinate, presence: Presence::Required },
        ],
        Tool::SymbolReferences => seq![
            Field { name: "buffer_id", kind: FieldKind::Id, presence: Presence::Required },
            Field { name: "line", kind: FieldKind::Coordinate, presence: Presence::Required },
            Field { name: "character", kind: FieldKind::Coordinate, presence: Presence::Required },
            Field { name: "include_declaration", kind: FieldKind::Flag, presence: Presence::Defaulted },
        ],
        Tool::DiagWait => seq![
            Field { name: "buffer_id", kind: FieldKind::Id, presence: Presence::Required },
            Field { name: "timeout_ms", kind: FieldKind::Millis, presence: Presence::Defaulted },
        ],
        Tool::TestRun => seq![
            Field { name: "buffer_id", kind: FieldKind::Id, presence: Presence::Required },
            Field { name: "target", kind: FieldKind::Text, presence: Presence::Optional },
        ],
        Tool::ContextPack => seq![
            Field { name: "buffer_id", kind: FieldKind::Id, presence: Presence::Required },
            Field { name: "line", kind: FieldKind::Coordinate, presence: Presence::Required },
            Field { name: "character", kind: FieldKind::Coordinate, presence: Presence::Required },
            Field { name: "token_budget", kind: FieldKind::Size, presence: Presence::Required },
        ],
        Tool::RenameSymbol => seq![
            Field { name: "buffer_id", kind: FieldKind::Id, presence: Presence::Required },
            Field { name: "version", kind: FieldKind::Id, presence: Presence::Required },
            Field { name: "line", kind: FieldKind::Coordinate, presence: Presence::Required },
            Field { name: "character", kind: FieldKind::Coordinate, presence: Presence::Required },
            Field { name: "new_name", kind: FieldKind::Text, presence: Presence::Required },
        ],
    }
}

impl Tool {
    /// The name of the tool.
    pub fn name(self) -> (r: &'static str)
        ensures
            r@ == tool_name(self),
    {
        match self {
            Tool::BufferList => "buffer.list",
            Tool::BufferOpen => "buffer.open",
            Tool::BufferClose => "buffer.close",
            Tool::ClientsList => "clients.list",
            Tool::GitDiff => "git.diff",
            Tool::GitStatus => "git.status",
            Tool::GitLog => "git.log",
            Tool::GitShow => "git.show",
            Tool::GitStage => "git.stage",
            Tool::GitUnstage => "git.unstage",
            Tool::GitCommit => "git.commit",
            Tool::ProposeRange => "edit.propose_range",
            Tool::ProposalsList => "proposals.list",
            Tool::ProposalsAccept => "proposals.accept",
            Tool::ProposalsReject => "proposals.reject",
            Tool::ProposalsAcceptAll => "proposals.accept_all",
            Tool::ProposalsRejectAll => "proposals.reject_all",
            Tool::BufferRead => "buffer.read",
            Tool::AstQuery => "ast.query",
            Tool::ReplaceRange => "edit.replace_range",
            Tool::ReplaceNode => "edit.replace_node",
            Tool::TxBegin => "tx.begin",
            Tool::TxCommit => "tx.commit",
            Tool::TxRollback => "tx.rollback",
            Tool::HistoryRecent => "history.recent",
            Tool::SymbolDefinition => "symbol.definition",
            Tool::SymbolReferences => "symbol.references",
            Tool::SymbolHover => "symbol.hover",
            Tool::BufferVersion => "buffer.version",
            Tool::ProposalsCount => "proposals.count",
            Tool::WorkspaceSearch => "symbol.workspace_search",
            Tool::DiagCurrent => "diag.current",
            Tool::DiagWait => "diag.wait_until_idle",
            Tool::TasksList => "tasks.list",
            Tool::RenameSymbol => "edit.rename_symbol",
            Tool::TestRun => "test.run",
            Tool::TestLastResults => "test.last_results",
            Tool::ScopeImports => "scope.imports",
            Tool::ScopeInScope => "scope.in_scope",
            Tool::ContextPack => "context.pack",
        }
    }

    /// What the tool is for.
    pub fn description(self) -> (r: &'static str)
        ensures
            r@ == tool_description(self),
    {
        match self {
            Tool::BufferList =>
                "List all open buffers.",
            Tool::BufferOpen =>
                "Open a file as an additional buffer; returns the new buffer_id.",
            Tool::BufferClose =>
                "Close a buffer by id. If it's the focused buffer, focus shifts to the lowest remaining id (or None when no buffers remain).",
            Tool::ClientsList =>
                "List active clients with id, kind (agent | human), and currently focused buffer_id.",
            Tool::GitDiff =>
                "Return the raw `git diff HEAD --no-color -- <path>` for the buffer's file. Errors when the file isn't tracked or git isn't usable.",
            Tool::GitStatus =>
                "List `git status --porcelain=v1` entries for the repo containing the buffer's file. Each entry: {path, staged, unstaged}; staged/unstaged are porcelain chars (space = unchanged, M/A/D/?/etc).",
            Tool::GitLog =>
                "Most recent `limit` commits in the buffer's repo. Each entry: {sha, short_sha, author, date, subject}.",
            Tool::GitShow =>
                "Full `git show --no-color <sha>` output for a commit in the buffer's repo. SHA accepted in any form git recognises (full, short, ref).",
            Tool::GitStage =>
                "Stage a file via `git add`. When `path` is omitted, stages the buffer's own file. When set, takes the string as a path relative to the repo root.",
            Tool::GitUnstage =>
                "Unstage a file via `git restore --staged`. Same path semantics as git.stage.",
            Tool::GitCommit =>
                "Commit currently-staged changes with `message`. Returns git's stdout. Pre-commit hook failures and 'nothing to commit' surface as the error text.",
            Tool::ProposeRange =>
                "Queue an `edit.replace_range` for review instead of applying it. Returns a proposal_id. The other side (eventually a human at the TUI) accepts or rejects via the `proposals.*` tools.",
            Tool::ProposalsList =>
                "List queued proposals: [{id, buffer_id, intent, kind: {kind, ...}}].",
            Tool::ProposalsAccept =>
                "Apply a queued proposal through the tx machinery (using the proposal's intent). Errors if the buffer version moved; the proposal is re-queued so the agent can retry.",
            Tool::ProposalsReject =>
                "Discard a queued proposal without applying.",
            Tool::ProposalsAcceptAll =>
                "Accept every queued proposal in id order, each through the same tx machinery as proposals.accept. Returns {accepted, errors: [{proposal_id, message}]}; individual failures (typically version mismatches) re-queue the offending proposal under a fresh id without stopping the batch.",
            Tool::ProposalsRejectAll =>
                "Discard every queued proposal. Returns {rejected} — the count dropped.",
            Tool::BufferRead =>
                "Read all or part of a buffer's text. Returns {text, version}.",
            Tool::AstQuery =>
                "Run a tree-sitter query against a buffer's parse tree. Returns [{capture, kind, byte_start, byte_end}].",
            Tool::ReplaceRange =>
                "Replace a char range with new text. version must match buffer's current version. Returns new_version.",
            Tool::ReplaceNode =>
                "Replace the bytes of a tree-sitter node (typically from ast.query) with new text. Returns new_version.",
            Tool::TxBegin =>
                "Open a transaction against `buffer_id` with a stated intent. Subsequent edits to that buffer join this tx until tx.commit or tx.rollback.",
            Tool::TxCommit =>
                "Close the current transaction and record a Change in flat history. Returns change_id.",
            Tool::TxRollback =>
                "Discard the current transaction and restore the buffer to its pre-tx state.",
            Tool::HistoryRecent =>
                "Return the most-recent `limit` history entries.",
            Tool::SymbolDefinition =>
                "Find the LSP definition location for a symbol at the given zero-based line/character. Requires a running language server (rust-analyzer for .rs, metals for .scala/.sc/.sbt).",
            Tool::SymbolReferences =>
                "Find all references to the symbol at (line, character) via LSP `textDocument/references`. `include_declaration` (default true) controls whether the symbol's own declaration is in the result. Requires a running language server (rust-analyzer for .rs, metals for .scala/.sc/.sbt).",
            Tool::SymbolHover =>
                "Plain-text hover/signature body for the symbol at (line, character), via LSP `textDocument/hover`. Returns {text: string | null}; null means the server had nothing to report. Requires a running language server (rust-analyzer for .rs, metals for .scala/.sc/.sbt).",
            Tool::BufferVersion =>
                "Current version of a buffer (the optimistic-concurrency token edits must reference). Cheaper than buffer.read when the agent only wants to check whether something has moved.",
            Tool::ProposalsCount =>
                "Number of proposals currently in the queue. Cheap status check that avoids the cost of a full proposals.list.",
            Tool::WorkspaceSearch =>
                "Fuzzy-search workspace symbols (types, functions, etc) via LSP `workspace/symbol`. `buffer_id` picks the language server to query; the search itself is workspace-wide. Requires a running language server (rust-analyzer for .rs, metals for .scala/.sc/.sbt).",
            Tool::DiagCurrent =>
                "Return cached LSP diagnostics for a buffer (severity 1=error..4=hint). Requires a running language server (rust-analyzer for .rs, metals for .scala/.sc/.sbt).",
            Tool::DiagWait =>
                "Block until the LSP serving `buffer_id` has acknowledged the latest sync with a publishDiagnostics, and (for rust-analyzer / metals) is no longer indexing. Returns {caught_up, diagnostics}; caught_up=false means the timeout fired and the diagnostics may be stale. Pair with an edit.* call to do edit-then-verify without polling. `timeout_ms` defaults to 3000.",
            Tool::TasksList =>
                "Scan the workspace beneath `buffer_id` for inline agent-task markers (`NAME: ...`, `TODO(name): ...` for the agent's name, case-insensitive). Walks the buffer's git repo when present, else its parent directory. Returns [{path, line, kind, text}] sorted by path+line; `kind` is the name or `todo`. Lets you drop intent into comments and pick it up on the next pass without copy-paste.",
            Tool::RenameSymbol =>
                "Rename the symbol at (line, character) to new_name. Applies in-buffer edits as one transaction; cross-file changes come back in skipped_files. Requires a running language server (rust-analyzer for .rs, metals for .scala/.sc/.sbt).",
            Tool::TestRun =>
                "Run the test command of the buffer's language in its workspace (`cargo test` for Rust), filtered by `target` (a test-name substring) when given. Returns {passed, failed, ignored, failures: [{name, message}], exit_ok, raw_tail}; failing tests are a successful call with exit_ok=false. The result is kept for test.last_results.",
            Tool::TestLastResults =>
                "Return the most recent test.run result, or null when no run has happened this session.",
            Tool::ScopeImports =>
                "List the import declarations in a buffer via its parse tree: [{text, line}]. Needs no language server; errors for languages with no import query.",
            Tool::ScopeInScope =>
                "What's in scope at (line, character): {enclosing, imports, siblings}. `enclosing` runs outer to inner; `siblings` are the other top-level symbols. Requires a running language server (rust-analyzer for .rs, metals for .scala/.sc/.sbt).",
            Tool::ContextPack =>
                "Pack source context around (line, character) into at most `token_budget` estimated tokens: the enclosing function first, then imports, then sibling signatures. Returns {anchor, slices: [{path, range, reason, text, estimated_tokens}], estimated_tokens, truncated}; truncated=true means the budget left candidates out. Needs no language server.",
        }
    }

    /// What the tool takes.
    pub fn fields(self) -> (r: Vec<Field>)
        ensures
            r@ == tool_fields(self),
    {
        match self {
            Tool::BufferList | Tool::ClientsList | Tool::ProposalsList | Tool::ProposalsAcceptAll | Tool::ProposalsRejectAll | Tool::ProposalsCount | Tool::TestLastResults => Vec::new(),
            Tool::BufferOpen => vec![
            Field { name: "path", kind: FieldKind::Text, presence: Presence::Required },
        ],
            Tool::BufferClose | Tool::GitDiff | Tool::GitStatus | Tool::BufferVersion | Tool::DiagCurrent | Tool::TasksList | Tool::ScopeImports => vec![
            Field { name: "buffer_id", kind: FieldKind::Id, presence: Presence::Required },
        ],
            Tool::GitLog => vec![
            Field { name: "buffer_id", kind: FieldKind::Id, presence: Presence::Required },
            Field { name: "limit", kind: FieldKind::Positive, presence: Presence::Required },
        ],
            Tool::GitShow => vec![
            Field { name: "buffer_id", kind: FieldKind::Id, presence: Presence::Required },
            Field { name: "sha", kind: FieldKind::Text, presence: Presence::Required },
        ],
            Tool::GitStage | Tool::GitUnstage => vec![
            Field { name: "buffer_id", kind: FieldKind::Id, presence: Presence::Required },
            Field { name: "path", kind: FieldKind::Text, presence: Presence::Optional },
        ],
            Tool::GitCommit => vec![
            Field { name: "buffer_id", kind: FieldKind::Id, presence: Presence::Required },
            Field { name: "message", kind: FieldKind::Text, presence: Presence::Required },
        ],
            Tool::ProposeRange => vec![
            Field { name: "buffer_id", kind: FieldKind::Id, presence: Presence::Required },
            Field { name: "version", kind: FieldKind::Id, presence: Presence::Required },
            Field { name: "range", kind: FieldKind::CharSpan, presence: Presence::Required },
            Field { name: "text", kind: FieldKind::Text, presence: Presence::Required },
            Field { name: "intent", kind: FieldKind::Text, presence: Presence::Required },
        ],
            Tool::ProposalsAccept | Tool::ProposalsReject => vec![
            Field { name: "proposal_id", kind: FieldKind::Id, presence: Presence::Required },
        ],
            Tool::BufferRead => vec![
            Field { name: "buffer_id", kind: FieldKind::Id, presence: Presence::Required },
            Field { name: "range", kind: FieldKind::CharSpan, presence: Presence::Optional },
        ],
            Tool::AstQuery | Tool::WorkspaceSearch => vec![
            Field { name: "buffer_id", kind: FieldKind::Id, presence: Presence::Required },
            Field { name: "query", kind: FieldKind::Text, presence: Presence::Required },
        ],
            Tool::ReplaceRange => vec![
            Field { name: "buffer_id", kind: FieldKind::Id, presence: Presence::Required },
            Field { name: "version", kind: FieldKind::Id, presence: Presence::Required },
            Field { name: "range", kind: FieldKind::CharSpan, presence: Presence::Required },
            Field { name: "text", kind: FieldKind::Text, presence: Presence::Required },
        ],
            Tool::ReplaceNode => vec![
            Field { name: "buffer_id", kind: FieldKind::Id, presence: Presence::Required },
            Field { name: "version", kind: FieldKind::Id, presence: Presence::Required },
            Field { name: "byte_range", kind: FieldKind::ByteSpan, presence: Presence::Required },
            Field { name: "text", kind: FieldKind::Text, presence: Presence::Required },
        ],
            Tool::TxBegin => vec![
            Field { name: "buffer_id", kind: FieldKind::Id, presence: Presence::Required },
            Field { name: "intent", kind: FieldKind::Text, presence: Presence::Required },
            Field { name: "conversation_id", kind: FieldKind::Text, presence: Presence::Optional },
        ],
            Tool::TxCommit | Tool::TxRollback => vec![
            Field { name: "tx_id", kind: FieldKind::Id, presence: Presence::Required },
        ],
            Tool::HistoryRecent => vec![
            Field { name: "limit", kind: FieldKind::Size, presence: Presence::Required },
        ],
            Tool::SymbolDefinition | Tool::SymbolHover | Tool::ScopeInScope => vec![
            Field { name: "buffer_id", kind: FieldKind::Id, presence: Presence::Required },
            Field { name: "line", kind: FieldKind::Coordinate, presence: Presence::Required },
            Field { name: "character", kind: FieldKind::Coordinate, presence: Presence::Required },
        ],
            Tool::SymbolReferences => vec![
            Field { name: "buffer_id", kind: FieldKind::Id, presence: Presence::Required },
            Field { name: "line", kind: FieldKind::Coordinate, presence: Presence::Required },
            Field { name: "character", kind: FieldKind::Coordinate, presence: Presence::Required },
            Field { name: "include_declaration", kind: FieldKind::Flag, presence: Presence::Defaulted },
        ],
            Tool::DiagWait => vec![
            Field { name: "buffer_id", kind: FieldKind::Id, presence: Presence::Required },
            Field { name: "timeout_ms", kind: FieldKind::Millis, presence: Presence::Defaulted },
        ],
            Tool::TestRun => vec![
            Field { name: "buffer_id", kind: FieldKind::Id, presence: Presence::Required },
            Field { name: "target", kind: FieldKind::Text, presence: Presence::Optional },
        ],
            Tool::ContextPack => vec![
            Field { name: "buffer_id", kind: FieldKind::Id, presence: Presence::Required },
            Field { name: "line", kind: FieldKind::Coordinate, presence: Presence::Required },
            Field { name: "character", kind: FieldKind::Coordinate, presence: Presence::Required },
            Field { name: "token_budget", kind: FieldKind::Size, presence: Presence::Required },
        ],
            Tool::RenameSymbol => vec![
            Field { name: "buffer_id", kind: FieldKind::Id, presence: Presence::Required },
            Field { name: "version", kind: FieldKind::Id, presence: Presence::Required },
            Field { name: "line", kind: FieldKind::Coordinate, presence: Presence::Required },
            Field { name: "character", kind: FieldKind::Coordinate, presence: Presence::Required },
            Field { name: "new_name", kind: FieldKind::Text, presence: Presence::Required },
        ],
        }
    }
}

/// The tool with a name: the first in the list.
pub open spec fn named_from(name: Seq<char>, i: int) -> Option<Tool>
    decreases tool_list().len() - i,
{
    if i < 0 || i >= tool_list().len() {
        None
    } else if tool_name(tool_list()[i]) == name {
        Some(tool_list()[i])
    } else {
        named_from(name, i + 1)
    }
}

/// The tool with a name.
pub open spec fn tool_named(name: Seq<char>) -> Option<Tool> {
    named_from(name, 0)
}

/// What is said of a name that no tool has.
pub open spec fn unknown_text(name: Seq<char>) -> Seq<char> {
    "unknown tool: "@ + name
}

/// A text says of some name that no tool has it.
pub open spec fn says_unknown(s: Seq<char>) -> bool {
    scan::starts_with(s, "unknown tool: "@)
}

/// What is said of a name that no tool has says so.
pub proof fn lemma_unknown_text(name: Seq<char>)
    ensures
        says_unknown(unknown_text(name)),
{
    let p = "unknown tool: "@;
    assert(unknown_text(name).subrange(0, p.len() as int) =~= p);
}

/// A text that starts with another letter does not say so.
pub proof fn lemma_starts_otherwise(s: Seq<char>)
    requires
        s.len() > 0,
        s[0] != 'u',
    ensures
        !says_unknown(s),
{
    reveal_strlit("unknown tool: ");
    if says_unknown(s) {
        assert(s.subrange(0, 14)[0] == s[0]);
    }
}

/// Finds the tool with a name.
pub fn find_tool(name: &str) -> (r: Option<Tool>)
    ensures
        r == tool_named(name@),
{
    let tools = all_tools();
    let mut i: usize = 0;
    while i < tools.len()
        invariant
            tools@ == tool_list(),
            i <= tools@.len(),
            tool_named(name@) == named_from(name@, i as int),
        decreases tools@.len() - i,
    {
        if same(tools[i].name(), name) {
            return Some(tools[i]);
        }
        i += 1;
    }
    None
}

// --------------------------------------------------------------------- schemas

pub open spec fn integer_schema() -> json::Json {
    json::obj(seq![("type"@, json::Json::Text("integer"@))])
}

pub open spec fn bounded_schema(least: int) -> json::Json {
    json::obj(
        seq![("type"@, json::Json::Text("integer"@)), ("minimum"@, json::Json::Int(least))],
    )
}

pub open spec fn span_schema() -> json::Json {
    json::obj(
        seq![
            ("type"@, json::Json::Text("object"@)),
            (
                "required"@,
                json::Json::List(seq![json::Json::Text("start"@), json::Json::Text("end"@)]),
            ),
            (
                "properties"@,
                json::obj(seq![("start"@, bounded_schema(0)), ("end"@, bounded_schema(0))]),
            ),
        ],
    )
}

/// The schema of an argument.
pub open spec fn kind_schema(kind: FieldKind) -> json::Json {
    match kind {
        FieldKind::Id => integer_schema(),
        FieldKind::Millis | FieldKind::Coordinate | FieldKind::Size => bounded_schema(0),
        FieldKind::Positive => bounded_schema(1),
        FieldKind::Flag => json::obj(seq![("type"@, json::Json::Text("boolean"@))]),
        FieldKind::Text => json::obj(seq![("type"@, json::Json::Text("string"@))]),
        FieldKind::CharSpan | FieldKind::ByteSpan => span_schema(),
    }
}

/// The names of the arguments among the first `n` that have to be given.
pub open spec fn required_names(fields: Seq<Field>, n: int) -> Seq<json::Json>
    decreases n,
{
    if n <= 0 {
        Seq::empty()
    } else {
        let before = required_names(fields, n - 1);
        if fields[n - 1].presence == Presence::Required {
            before.push(json::Json::Text(fields[n - 1].name@))
        } else {
            before
        }
    }
}

/// The arguments with their schemas.
pub open spec fn field_schemas(fields: Seq<Field>) -> Seq<(Seq<char>, json::Json)> {
    Seq::new(fields.len(), |i: int| (fields[i].name@, kind_schema(fields[i].kind)))
}

/// The schema of what a tool takes.
pub open spec fn input_schema(fields: Seq<Field>) -> json::Json {
    if fields.len() == 0 {
        json::obj(
            seq![
                ("type"@, json::Json::Text("object"@)),
                ("properties"@, json::obj(Seq::empty())),
            ],
        )
    } else {
        json::obj(
            seq![
                ("type"@, json::Json::Text("object"@)),
                (
                    "required"@,
                    json::Json::List(required_names(fields, fields.len() as int)),
                ),
                ("properties"@, json::obj(field_schemas(fields))),
            ],
        )
    }
}

/// The entry of a tool in the list.
pub open spec fn tool_entry(t: Tool) -> json::Json {
    json::obj(
        seq![
            ("name"@, json::Json::Text(tool_name(t))),
            ("description"@, json::Json::Text(tool_description(t))),
            ("inputSchema"@, input_schema(tool_fields(t))),
        ],
    )
}

/// The answer to `tools/list`.
pub open spec fn tools_json() -> json::Json {
    json::obj(
        seq![
            (
                "tools"@,
                json::Json::List(
                    Seq::new(tool_list().len(), |i: int| tool_entry(tool_list()[i])),
                ),
            ),
        ],
    )
}

fn make_bounded(least: u64) -> (r: Value)
    ensures
        json::value_json(r) == bounded_schema(least as int),
{
    obj2("type", string("integer"), "minimum", unsigned(least))
}

fn make_kind_schema(kind: FieldKind) -> (r: Value)
    ensures
        json::value_json(r) == kind_schema(kind),
{
    match kind {
        FieldKind::Id => obj1("type", string("integer")),
        FieldKind::Millis | FieldKind::Coordinate | FieldKind::Size => make_bounded(0),
        FieldKind::Positive => make_bounded(1),
        FieldKind::Flag => obj1("type", string("boolean")),
        FieldKind::Text => obj1("type", string("string")),
        FieldKind::CharSpan | FieldKind::ByteSpan => obj3(
            "type",
            string("object"),
            "required",
            list_texts2("start", "end"),
            "properties",
            obj2("start", make_bounded(0), "end", make_bounded(0)),
        ),
    }
}

fn make_input_schema(fields: &Vec<Field>) -> (r: Value)
    ensures
        json::value_json(r) == input_schema(fields@),
{
    let mut required: Vec<Value> = Vec::new();
    let mut properties: Vec<(&'static str, Value)> = Vec::new();
    let mut i: usize = 0;
    let ghost schemas = field_schemas(fields@);
    assert(json::trees(required@) =~= required_names(fields@, 0));
    while i < fields.len()
        invariant
            schemas == field_schemas(fields@),
            i <= fields@.len(),
            json::trees(required@) == required_names(fields@, i as int),
            json::member_trees(properties@) == schemas.take(i as int),
        decreases fields@.len() - i,
    {
        let f = fields[i];
        let ghost names = json::trees(required@);
        let ghost before = json::member_trees(properties@);
        if f.presence == Presence::Required {
            required.push(string(f.name));
            assert(json::trees(required@) =~= names.push(json::Json::Text(f.name@)));
        }
        properties.push((f.name, make_kind_schema(f.kind)));
        assert(json::member_trees(properties@) =~= before.push(schemas[i as int]));
        i += 1;
        assert(schemas.take(i as int) =~= before.push(schemas[i - 1]));
    }
    assert(schemas.take(i as int) =~= schemas);
    let object = make_object(properties);
    if fields.len() == 0 {
        assert(schemas =~= Seq::<(Seq<char>, json::Json)>::empty());
        obj2("type", string("object"), "properties", object)
    } else {
        obj3("type", string("object"), "required", list(required), "properties", object)
    }
}

/// The entry of a tool in the list.
pub fn tool_def(name: &str, description: &str, schema: Value) -> (r: Value)
    ensures
        json::value_json(r) == json::obj(
            seq![
                ("name"@, json::Json::Text(name@)),
                ("description"@, json::Json::Text(description@)),
                ("inputSchema"@, json::value_json(schema)),
            ],
        ),
{
    obj3("name", string(name), "description", string(description), "inputSchema", schema)
}

/// The answer to `tools/list`.
pub fn tools_list_result() -> (r: Value)
    ensures
        json::value_json(r) == tools_json(),
{
    let tools = all_tools();
    let mut entries: Vec<Value> = Vec::new();
    let ghost goal = Seq::new(tool_list().len(), |i: int| tool_entry(tool_list()[i]));
    let mut i: usize = 0;
    while i < tools.len()
        invariant
            tools@ == tool_list(),
            goal == Seq::new(tool_list().len(), |i: int| tool_entry(tool_list()[i])),
            i <= tools@.len(),
            json::trees(entries@) == goal.take(i as int),
        decreases tools@.len() - i,
    {
        let t = tools[i];
        let ghost before = json::trees(entries@);
        let schema = make_input_schema(&t.fields());
        entries.push(tool_def(t.name(), t.description(), schema));
        assert(json::trees(entries@) =~= before.push(goal[i as int]));
        i += 1;
        assert(goal.take(i as int) =~= before.push(goal[i - 1]));
    }
    assert(goal.take(i as int) =~= goal);
    obj1("tools", list(entries))
}

// ------------------------------------------------------------------------- laws

/// Four marks of a name: its length, its sixth character, its last one, and the
/// sixth from the end.
spec fn marks(name: Seq<char>) -> (int, char, char, char) {
    let n = name.len() as int;
    (n, name[5], name[n - 1], name[n - 6])
}

/// The marks of a tool's name.
spec fn tool_marks(t: Tool) -> (int, char, char, char) {
    match t {
        Tool::BufferList => (11, 'r', 't', 'r'),
        Tool::BufferOpen => (11, 'r', 'n', 'r'),
        Tool::BufferClose => (12, 'r', 'e', '.'),
        Tool::ClientsList => (12, 't', 't', 's'),
        Tool::GitDiff => (8, 'i', 'f', 't'),
        Tool::GitStatus => (10, 't', 's', 's'),
        Tool::GitLog => (7, 'o', 'g', 'i'),
        Tool::GitShow => (8, 'h', 'w', 't'),
        Tool::GitStage => (9, 't', 'e', '.'),
        Tool::GitUnstage => (11, 'n', 'e', 'n'),
        Tool::GitCommit => (10, 'o', 't', 'c'),
        Tool::ProposeRange => (18, 'p', 'e', '_'),
        Tool::ProposalsList => (14, 's', 't', 's'),
        Tool::ProposalsAccept => (16, 's', 't', 'a'),
        Tool::ProposalsReject => (16, 's', 't', 'r'),
        Tool::ProposalsAcceptAll => (20, 's', 'l', 'p'),
        Tool::ProposalsRejectAll => (20, 's', 'l', 'c'),
        Tool::BufferRead => (11, 'r', 'd', 'r'),
        Tool::AstQuery => (9, 'u', 'y', '.'),
        Tool::ReplaceRange => (18, 'r', 'e', '_'),
        Tool::ReplaceNode => (17, 'r', 'e', 'e'),
        Tool::TxBegin => (8, 'g', 'n', '.'),
        Tool::TxCommit => (9, 'm', 't', 'c'),
        Tool::TxRollback => (11, 'l', 'k', 'l'),
        Tool::HistoryRecent => (14, 'r', 't', 'r'),
        Tool::SymbolDefinition => (17, 'l', 'n', 'n'),
        Tool::SymbolReferences => (17, 'l', 's', 'r'),
        Tool::SymbolHover => (12, 'l', 'r', '.'),
        Tool::BufferVersion => (14, 'r', 'n', 'e'),
        Tool::ProposalsCount => (15, 's', 't', '.'),
        Tool::WorkspaceSearch => (23, 'l', 'h', 's'),
        Tool::DiagCurrent => (12, 'c', 't', 'u'),
        Tool::DiagWait => (20, 'w', 'e', 'l'),
        Tool::TasksList => (10, '.', 't', 's'),
        Tool::RenameSymbol => (18, 'r', 'l', 's'),
        Tool::TestRun => (8, 'r', 'n', 's'),
        Tool::TestLastResults => (17, 'l', 's', 'e'),
        Tool::ScopeImports => (13, '.', 's', 'm'),
        Tool::ScopeInScope => (14, '.', 'e', '_'),
        Tool::ContextPack => (12, 'x', 'k', 't'),
    }
}

proof fn lemma_marks(t: Tool)
    ensures
        marks(tool_name(t)) == tool_marks(t),
{
    match t {
        Tool::BufferList => {
            reveal_strlit("buffer.list");
        },
        Tool::BufferOpen => {
            reveal_strlit("buffer.open");
        },
        Tool::BufferClose => {
            reveal_strlit("buffer.close");
        },
        Tool::ClientsList => {
            reveal_strlit("clients.list");
        },
        Tool::GitDiff => {
            reveal_strlit("git.diff");
        },
        Tool::GitStatus => {
            reveal_strlit("git.status");
        },
        Tool::GitLog => {
            reveal_strlit("git.log");
        },
        Tool::GitShow => {
            reveal_strlit("git.show");
        },
        Tool::GitStage => {
            reveal_strlit("git.stage");
        },
        Tool::GitUnstage => {
            reveal_strlit("git.unstage");
        },
        Tool::GitCommit => {
            reveal_strlit("git.commit");
        },
        Tool::ProposeRange => {
            reveal_strlit("edit.propose_range");
        },
        Tool::ProposalsList => {
            reveal_strlit("proposals.list");
        },
        Tool::ProposalsAccept => {
            reveal_strlit("proposals.accept");
        },
        Tool::ProposalsReject => {
            reveal_strlit("proposals.reject");
        },
        Tool::ProposalsAcceptAll => {
            reveal_strlit("proposals.accept_all");
        },
        Tool::ProposalsRejectAll => {
            reveal_strlit("proposals.reject_all");
        },
        Tool::BufferRead => {
            reveal_strlit("buffer.read");
        },
        Tool::AstQuery => {
            reveal_strlit("ast.query");
        },
        Tool::ReplaceRange => {
            reveal_strlit("edit.replace_range");
        },
        Tool::ReplaceNode => {
            reveal_strlit("edit.replace_node");
        },
        Tool::TxBegin => {
            reveal_strlit("tx.begin");
        },
        Tool::TxCommit => {
            reveal_strlit("tx.commit");
        },
        Tool::TxRollback => {
            reveal_strlit("tx.rollback");
        },
        Tool::HistoryRecent => {
            reveal_strlit("history.recent");
        },
        Tool::SymbolDefinition => {
            reveal_strlit("symbol.definition");
        },
        Tool::SymbolReferences => {
            reveal_strlit("symbol.references");
        },
        Tool::SymbolHover => {
            reveal_strlit("symbol.hover");
        },
        Tool::BufferVersion => {
            reveal_strlit("buffer.version");
        },
        Tool::ProposalsCount => {
            reveal_strlit("proposals.count");
        },
        Tool::WorkspaceSearch => {
            reveal_strlit("symbol.workspace_search");
        },
        Tool::DiagCurrent => {
            reveal_strlit("diag.current");
        },
        Tool::DiagWait => {
            reveal_strlit("diag.wait_until_idle");
        },
        Tool::TasksList => {
            reveal_strlit("tasks.list");
        },
        Tool::RenameSymbol => {
            reveal_strlit("edit.rename_symbol");
        },
        Tool::TestRun => {
            reveal_strlit("test.run");
        },
        Tool::TestLastResults => {
            reveal_strlit("test.last_results");
        },
        Tool::ScopeImports => {
            reveal_strlit("scope.imports");
        },
        Tool::ScopeInScope => {
            reveal_strlit("scope.in_scope");
        },
        Tool::ContextPack => {
            reveal_strlit("context.pack");
        },
    }
}

/// A tool's name is no other tool's.
pub proof fn law_names_tell_tools_apart(a: Tool, b: Tool)
    ensures
        tool_name(a) == tool_name(b) <==> a == b,
{
    lemma_marks(a);
    lemma_marks(b);
}

/// A name is listed.
pub open spec fn listed(name: Seq<char>) -> bool {
    exists|i: int| 0 <= i < tool_list().len() && tool_name(#[trigger] tool_list()[i]) == name
}

proof fn lemma_named_from(name: Seq<char>, i: int)
    requires
        0 <= i <= tool_list().len(),
    ensures
        match named_from(name, i) {
            Some(t) => tool_name(t) == name && exists|j: int|
                i <= j < tool_list().len() && #[trigger] tool_list()[j] == t,
            None => forall|j: int|
                i <= j < tool_list().len() ==> tool_name(#[trigger] tool_list()[j]) != name,
        },
    decreases tool_list().len() - i,
{
    if i < tool_list().len() {
        lemma_named_from(name, i + 1);
    }
}

proof fn lemma_every_tool_is_listed(t: Tool)
    ensures
        exists|i: int| 0 <= i < tool_list().len() && #[trigger] tool_list()[i] == t,
{
    assert(tool_list()[place(t)] == t);
}

/// The names that are listed are those that a tool is found by, each is listed once,
/// and every tool is found by its own.
pub proof fn law_listed_tools_are_found(name: Seq<char>, t: Tool, i: int, j: int)
    ensures
        tool_named(name) is Some <==> listed(name),
        tool_named(name) == Some(t) <==> tool_name(t) == name,
        listed(tool_name(t)),
        0 <= i < j < tool_list().len() ==> tool_name(tool_list()[i]) != tool_name(tool_list()[j]),
{
    lemma_named_from(name, 0);
    lemma_every_tool_is_listed(t);
    if let Some(found) = tool_named(name) {
        law_names_tell_tools_apart(found, t);
    }
    if 0 <= i < j < tool_list().len() {
        lemma_listed_once(i, j);
        law_names_tell_tools_apart(tool_list()[i], tool_list()[j]);
    }
}

/// The place of a tool in the list.
spec fn place(t: Tool) -> int {
    match t {
        Tool::BufferList => 0,
        Tool::BufferOpen => 1,
        Tool::BufferClose => 2,
        Tool::ClientsList => 3,
        Tool::GitDiff => 4,
        Tool::GitStatus => 5,
        Tool::GitLog => 6,
        Tool::GitShow => 7,
        Tool::GitStage => 8,
        Tool::GitUnstage => 9,
        Tool::GitCommit => 10,
        Tool::ProposeRange => 11,
        Tool::ProposalsList => 12,
        Tool::ProposalsAccept => 13,
        Tool::ProposalsReject => 14,
        Tool::ProposalsAcceptAll => 15,
        Tool::ProposalsRejectAll => 16,
        Tool::BufferRead => 17,
        Tool::AstQuery => 18,
        Tool::ReplaceRange => 19,
        Tool::ReplaceNode => 20,
        Tool::TxBegin => 21,
        Tool::TxCommit => 22,
        Tool::TxRollback => 23,
        Tool::HistoryRecent => 24,
        Tool::SymbolDefinition => 25,
        Tool::SymbolReferences => 26,
        Tool::SymbolHover => 27,
        Tool::BufferVersion => 28,
        Tool::ProposalsCount => 29,
        Tool::WorkspaceSearch => 30,
        Tool::DiagCurrent => 31,
        Tool::DiagWait => 32,
        Tool::TasksList => 33,
        Tool::RenameSymbol => 34,
        Tool::TestRun => 35,
        Tool::TestLastResults => 36,
        Tool::ScopeImports => 37,
        Tool::ScopeInScope => 38,
        Tool::ContextPack => 39,
    }
}

proof fn lemma_listed_once(i: int, j: int)
    requires
        0 <= i < j < tool_list().len(),
    ensures
        tool_list()[i] != tool_list()[j],
{
    lemma_place(i);
    lemma_place(j);
}

proof fn lemma_place(i: int)
    requires
        0 <= i < tool_list().len(),
    ensures
        place(tool_list()[i]) == i,
{
}

} // verus!
