//! Positions, ranges and the other values that language servers exchange with
//! the editor.

use vstd::prelude::*;

use crate::scan;
use crate::scan::occurs_here;
use crate::language;
use crate::language::Language;
use crate::paths;
use crate::paths::{find_marked, parent_of, paths_to_probe};
use crate::text::{join2, owned, substring, to_chars};

pub mod asked;
pub mod client;
pub mod laws;
pub mod messages;
pub mod sync;
pub mod wire;

verus! {

#[derive(Clone, Copy, Debug, PartialEq, Eq, Structural)]
pub struct Position {
    pub line: u32,
    pub character: u32,
}

#[derive(Clone, Copy, Debug, PartialEq, Eq, Structural)]
pub struct Range {
    pub start: Position,
    pub end: Position,
}

#[derive(Debug)]
pub struct Location {
    pub uri: String,
    pub range: Range,
}

#[derive(Debug)]
pub struct Diagnostic {
    pub range: Range,
    pub severity: Option<u8>,
    pub message: String,
    pub source: Option<String>,
}

/// What a diagnostic is.
pub struct DiagnosticModel {
    pub range: Range,
    pub severity: Option<u8>,
    pub message: Seq<char>,
    pub source: Option<Seq<char>>,
}

impl View for Diagnostic {
    type V = DiagnosticModel;

    open spec fn view(&self) -> DiagnosticModel {
        DiagnosticModel {
            range: self.range,
            severity: self.severity,
            message: self.message@,
            source: match self.source {
                Some(s) => Some(s@),
                None => None,
            },
        }
    }
}

impl Diagnostic {
    /// A copy.
    pub fn duplicate(&self) -> (r: Diagnostic)
        ensures
            r@ == self@,
    {
        Diagnostic {
            range: self.range,
            severity: self.severity,
            message: owned(&self.message),
            source: match &self.source {
                Some(s) => Some(owned(s)),
                None => None,
            },
        }
    }
}

impl Default for Position {
    fn default() -> (r: Position)
        ensures
            r == (Position { line: 0, character: 0 }),
    {
        Position { line: 0, character: 0 }
    }
}

impl Default for Range {
    fn default() -> (r: Range)
        ensures
            r.start == (Position { line: 0, character: 0 }),
            r.end == (Position { line: 0, character: 0 }),
    {
        Range { start: Position::default(), end: Position::default() }
    }
}

/// One range replacement of a [`WorkspaceEdit`].
#[derive(Debug)]
pub struct TextEdit {
    pub range: Range,
    pub new_text: String,
}

/// The edits that a rename asks for: a document's address and its edits.
#[derive(Debug)]
pub struct WorkspaceEdit {
    pub changes: Vec<(String, Vec<TextEdit>)>,
}

impl Default for WorkspaceEdit {
    fn default() -> (r: WorkspaceEdit)
        ensures
            r.changes@.len() == 0,
    {
        WorkspaceEdit { changes: Vec::new() }
    }
}

#[derive(Debug)]
pub struct SymbolInformation {
    pub name: String,
    pub kind: u32,
    pub location: Location,
    pub container_name: Option<String>,
}

/// A symbol of one document, with the symbols it encloses.
#[derive(Debug)]
pub struct DocumentSymbol {
    pub name: String,
    pub kind: u32,
    pub range: Range,
    pub children: Vec<DocumentSymbol>,
}

/// The `file://` address of the file at the absolute path `path`.
pub open spec fn uri_of(path: Seq<char>) -> Seq<char> {
    "file://"@ + path
}

/// The `file://` address of the file at an absolute path.
pub fn path_to_uri(path: &str) -> (r: String)
    ensures
        r@ == uri_of(path@),
{
    join2("file://", path)
}

/// The path that a `file://` address stands for.
pub open spec fn path_of(uri: Seq<char>) -> Option<Seq<char>> {
    if scan::starts_with(uri, "file://"@) {
        Some(uri.skip("file://"@.len() as int))
    } else {
        None
    }
}

/// The path that a `file://` address stands for.
pub fn uri_to_path(uri: &str) -> (r: Option<String>)
    ensures
        match r {
            Some(p) => path_of(uri@) == Some(p@),
            None => path_of(uri@) is None,
        },
{
    let cs = to_chars(uri);
    let scheme = to_chars("file://");
    if occurs_here(&cs, &scheme, 0) {
        let p = substring(&cs, scheme.len(), cs.len());
        assert(p@ =~= uri@.skip(scheme@.len() as int));
        Some(p)
    } else {
        None
    }
}

/// The address of a file leads back to its path.
pub proof fn law_uri_leads_back(path: Seq<char>)
    ensures
        path_of(uri_of(path)) == Some(path),
{
    let scheme = "file://"@;
    let uri = uri_of(path);
    assert(uri.subrange(0, scheme.len() as int) =~= scheme);
    assert(uri.skip(scheme.len() as int) =~= path);
}

/// The directory that a server works in for a file: the nearest one with a file
/// that marks a workspace, or else the one that the file is in. `existing` lists
/// those of the paths to probe that exist.
pub open spec fn workspace_of(absolute: Seq<char>, l: Language, existing: Seq<Seq<char>>) -> Seq<
    char,
> {
    let base = file_dir(absolute);
    match paths::nearest_marked(base, language::workspace_marker_names(l), existing) {
        Some(d) => d,
        None => base,
    }
}

/// The directory that a file is in.
pub open spec fn file_dir(absolute: Seq<char>) -> Seq<char> {
    match paths::parent(absolute) {
        Some(p) => p,
        None => "/"@,
    }
}

fn dir_of_file(absolute: &str) -> (r: String)
    ensures
        r@ == file_dir(absolute@),
{
    match parent_of(absolute) {
        Some(p) => p,
        None => owned("/"),
    }
}

/// The directory that a server works in for the file at an absolute path.
pub fn workspace_root_for(absolute: &str, l: Language, existing: &Vec<String>) -> (r: String)
    ensures
        r@ == workspace_of(absolute@, l, scan::string_views(existing@)),
{
    let base = dir_of_file(absolute);
    let markers = l.workspace_markers();
    match find_marked(&base, &markers, existing) {
        Some(d) => d,
        None => base,
    }
}

/// The paths whose existence decides which directory that is.
pub fn workspace_probes(absolute: &str, l: Language) -> (r: Vec<String>)
    ensures
        scan::string_views(r@) == paths::probes(
            file_dir(absolute@),
            language::workspace_marker_names(l),
        ),
{
    let base = dir_of_file(absolute);
    let markers = l.workspace_markers();
    paths_to_probe(&base, &markers)
}

} // verus!
