//! The editor's refusals, and the text of each.

use vstd::prelude::*;

use crate::language;
use crate::language::Language;
use crate::scan;
use crate::scan::number;
use crate::text::{join2, join3};

verus! {

/// Why an operation was refused.
#[derive(Debug, PartialEq, Eq)]
pub enum EditorError {
    UnknownBuffer { id: u64 },
    RangeOutside { start: usize, end: usize, len: usize },
    ByteRangeOutside { start: usize, end: usize, len: usize },
    VersionMismatch { id: u64, at: u64, sent: u64 },
    TransactionOpen,
    NotTheOpenTransaction { tx: u64 },
    UnknownTransaction { tx: u64 },
    UnknownProposal { id: u64 },
    LineOutOfBounds { line: usize, count: usize },
    CharacterPastEnd { character: usize, line: usize, len: usize },
    NoPathToSave,
    NoPathToDiff,
    NoPathForTests,
    NoPathToScan,
    NoPathForRepo,
    NoLanguageForTests,
    NoLanguageForImports,
    NoLanguageForContext,
    NoLanguageForServer,
    NoUri,
    NoSyntax,
    NotParsed,
    BadQuery,
    NoTestRunner { language: Language },
    NoImportQuery { language: Language },
    ServerNotRunning { language: Language },
    EmptyTestCommand,
    FilterLooksLikeFlag { filter: String },
    /// What a file system, a version control system or a language server
    /// reported.
    Outside { message: String },
}

/// What is said of a test filter that looks like a flag.
pub open spec fn flag_filter_text(shown: Seq<char>) -> Seq<char> {
    "test target filter must not start with '-': "@ + shown
}

/// `prefix`, the number in decimal, then `suffix`.
pub open spec fn with_number(prefix: Seq<char>, n: int, suffix: Seq<char>) -> Seq<char> {
    prefix + scan::decimal(n as nat) + suffix
}

/// The text of a refusal.
pub open spec fn error_text(e: EditorError) -> Seq<char> {
    match e {
        EditorError::UnknownBuffer { id } => with_number("unknown buffer_id "@, id as int, ""@),
        EditorError::RangeOutside { start, end, len } => with_number(
            with_number(
                with_number("range "@, start as int, ".."@),
                end as int,
                " outside buffer (len_chars = "@,
            ),
            len as int,
            ")"@,
        ),
        EditorError::ByteRangeOutside { start, end, len } => with_number(
            with_number(
                with_number("byte range "@, start as int, ".."@),
                end as int,
                " outside buffer (len_bytes = "@,
            ),
            len as int,
            ")"@,
        ),
        EditorError::VersionMismatch { id, at, sent } => with_number(
            with_number(
                with_number("version mismatch: buffer "@, id as int, " is at "@),
                at as int,
                ", caller sent "@,
            ),
            sent as int,
            ""@,
        ),
        EditorError::TransactionOpen =>
            "a transaction is already open; commit or rollback it first"@,
        EditorError::NotTheOpenTransaction { tx } => with_number(
            "tx_id TxId("@,
            tx as int,
            ") is not the currently open transaction"@,
        ),
        EditorError::UnknownTransaction { tx } => with_number(
            "unknown tx_id TxId("@,
            tx as int,
            ")"@,
        ),
        EditorError::UnknownProposal { id } => with_number(
            "unknown proposal_id ProposalId("@,
            id as int,
            ")"@,
        ),
        EditorError::LineOutOfBounds { line, count } => with_number(
            with_number("lsp position line "@, line as int, " out of bounds (line_count = "@),
            count as int,
            ")"@,
        ),
        EditorError::CharacterPastEnd { character, line, len } => with_number(
            with_number(
                with_number("lsp position character "@, character as int, " past end of line "@),
                line as int,
                " (len = "@,
            ),
            len as int,
            ")"@,
        ),
        EditorError::NoPathToSave => "buffer has no associated path"@,
        EditorError::NoPathToDiff => "buffer has no path; cannot diff against HEAD"@,
        EditorError::NoPathForTests => "buffer has no path; cannot locate a test workspace"@,
        EditorError::NoPathToScan => "buffer has no path; cannot locate a scan root"@,
        EditorError::NoPathForRepo => "buffer has no path; cannot locate a git repo"@,
        EditorError::NoLanguageForTests => "buffer language is unknown; cannot run tests"@,
        EditorError::NoLanguageForImports =>
            "buffer has no recognized language; cannot list imports"@,
        EditorError::NoLanguageForContext =>
            "buffer has no recognized language; cannot pack context"@,
        EditorError::NoLanguageForServer =>
            "buffer has no recognized language; cannot query LSP"@,
        EditorError::NoUri => "buffer has no file URI; cannot query LSP"@,
        EditorError::NoSyntax => "buffer has no syntax (unsupported language)"@,
        EditorError::NotParsed => "buffer has not been parsed"@,
        EditorError::BadQuery => "compiling tree-sitter query"@,
        EditorError::NoTestRunner { language } => "no test runner configured for "@
            + language::language_name(language),
        EditorError::NoImportQuery { language } => "no import query for "@
            + language::language_name(language),
        EditorError::ServerNotRunning { language } => language::server_binary(language)
            + " not running (see `"@ + language::server_install_hint(language) + "`)"@,
        EditorError::EmptyTestCommand => "empty test command (language descriptor bug)"@,
        EditorError::FilterLooksLikeFlag { filter } => flag_filter_text(filter@),
        EditorError::Outside { message } => message@,
    }
}

/// `prefix`, the number in decimal, then `suffix`.
pub fn numbered(prefix: &str, n: u64, suffix: &str) -> (r: String)
    ensures
        r@ == with_number(prefix@, n as int, suffix@),
{
    let digits = number(n);
    join3(prefix, &digits, suffix)
}

impl EditorError {
    /// The text of the refusal.
    pub fn message(&self) -> (r: String)
        ensures
            r@ == error_text(*self),
    {
        match self {
            EditorError::UnknownBuffer { id } => numbered("unknown buffer_id ", *id, ""),
            EditorError::RangeOutside { start, end, len } => {
                let a = numbered("range ", *start as u64, "..");
                let b = numbered(&a, *end as u64, " outside buffer (len_chars = ");
                numbered(&b, *len as u64, ")")
            },
            EditorError::ByteRangeOutside { start, end, len } => {
                let a = numbered("byte range ", *start as u64, "..");
                let b = numbered(&a, *end as u64, " outside buffer (len_bytes = ");
                numbered(&b, *len as u64, ")")
            },
            EditorError::VersionMismatch { id, at, sent } => {
                let a = numbered("version mismatch: buffer ", *id, " is at ");
                let b = numbered(&a, *at, ", caller sent ");
                numbered(&b, *sent, "")
            },
            EditorError::TransactionOpen =>
                "a transaction is already open; commit or rollback it first".to_string(),
            EditorError::NotTheOpenTransaction { tx } => numbered(
                "tx_id TxId(",
                *tx,
                ") is not the currently open transaction",
            ),
            EditorError::UnknownTransaction { tx } => numbered("unknown tx_id TxId(", *tx, ")"),
            EditorError::UnknownProposal { id } => numbered(
                "unknown proposal_id ProposalId(",
                *id,
                ")",
            ),
            EditorError::LineOutOfBounds { line, count } => {
                let a = numbered(
                    "lsp position line ",
                    *line as u64,
                    " out of bounds (line_count = ",
                );
                numbered(&a, *count as u64, ")")
            },
            EditorError::CharacterPastEnd { character, line, len } => {
                let a = numbered(
                    "lsp position character ",
                    *character as u64,
                    " past end of line ",
                );
                let b = numbered(&a, *line as u64, " (len = ");
                numbered(&b, *len as u64, ")")
            },
            EditorError::NoPathToSave => "buffer has no associated path".to_string(),
            EditorError::NoPathToDiff =>
                "buffer has no path; cannot diff against HEAD".to_string(),
            EditorError::NoPathForTests =>
                "buffer has no path; cannot locate a test workspace".to_string(),
            EditorError::NoPathToScan =>
                "buffer has no path; cannot locate a scan root".to_string(),
            EditorError::NoPathForRepo =>
                "buffer has no path; cannot locate a git repo".to_string(),
            EditorError::NoLanguageForTests =>
                "buffer language is unknown; cannot run tests".to_string(),
            EditorError::NoLanguageForImports =>
                "buffer has no recognized language; cannot list imports".to_string(),
            EditorError::NoLanguageForContext =>
                "buffer has no recognized language; cannot pack context".to_string(),
            EditorError::NoLanguageForServer =>
                "buffer has no recognized language; cannot query LSP".to_string(),
            EditorError::NoUri => "buffer has no file URI; cannot query LSP".to_string(),
            EditorError::NoSyntax => "buffer has no syntax (unsupported language)".to_string(),
            EditorError::NotParsed => "buffer has not been parsed".to_string(),
            EditorError::BadQuery => "compiling tree-sitter query".to_string(),
            EditorError::NoTestRunner { language } => join2(
                "no test runner configured for ",
                language.display_name(),
            ),
            EditorError::NoImportQuery { language } => join2(
                "no import query for ",
                language.display_name(),
            ),
            EditorError::ServerNotRunning { language } => {
                let a = join3(
                    language.lsp_binary(),
                    " not running (see `",
                    language.install_hint(),
                );
                join2(&a, "`)")
            },
            EditorError::EmptyTestCommand =>
                "empty test command (language descriptor bug)".to_string(),
            EditorError::FilterLooksLikeFlag { filter } => join2(
                "test target filter must not start with '-': ",
                filter,
            ),
            EditorError::Outside { message } => message.clone(),
        }
    }
}

} // verus!
