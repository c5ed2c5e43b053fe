//! The languages the editor knows, and what each of them needs from a language
//! server, a grammar and a test runner.

use serde_json::Value;
use vstd::prelude::*;

use crate::json;
use crate::json::{boolean, obj1, obj3, string};
use crate::paths;
use crate::paths::extension_of;
use crate::text::same;

pub mod laws;

verus! {

#[derive(Clone, Copy, Debug, PartialEq, Eq, Hash, Structural)]
pub enum Language {
    Rust,
    Scala,
    Elm,
}

/// The textual format of a test runner's output.
#[derive(Clone, Copy, Debug, PartialEq, Eq, Structural)]
pub enum TestRunnerKind {
    CargoTest,
}

/// The language of files with extension `ext`.
pub open spec fn language_of_extension(ext: Seq<char>) -> Option<Language> {
    if ext == "rs"@ {
        Some(Language::Rust)
    } else if ext == "scala"@ || ext == "sc"@ || ext == "sbt"@ {
        Some(Language::Scala)
    } else if ext == "elm"@ {
        Some(Language::Elm)
    } else {
        None
    }
}

/// The language of a file, by its extension.
pub open spec fn language_of(path: Seq<char>) -> Option<Language> {
    match paths::extension(path) {
        Some(ext) => language_of_extension(ext),
        None => None,
    }
}

/// The language's name in messages, and as an LSP `languageId`.
pub open spec fn language_name(l: Language) -> Seq<char> {
    match l {
        Language::Rust => "rust"@,
        Language::Scala => "scala"@,
        Language::Elm => "elm"@,
    }
}

pub open spec fn server_binary(l: Language) -> Seq<char> {
    match l {
        Language::Rust => "rust-analyzer"@,
        Language::Scala => "metals"@,
        Language::Elm => "elm-language-server"@,
    }
}

pub open spec fn server_install_hint(l: Language) -> Seq<char> {
    match l {
        Language::Rust => "rustup component add rust-analyzer"@,
        Language::Scala => "coursier install metals"@,
        Language::Elm => "npm install -g @elm-tooling/elm-language-server"@,
    }
}

impl Language {
    /// Picks a language from a file path's extension.
    pub fn for_path(path: &str) -> (r: Option<Language>)
        ensures
            r == language_of(path@),
    {
        match extension_of(path) {
            Some(ext) => {
                if same(&ext, "rs") {
                    Some(Language::Rust)
                } else if same(&ext, "scala") || same(&ext, "sc") || same(&ext, "sbt") {
                    Some(Language::Scala)
                } else if same(&ext, "elm") {
                    Some(Language::Elm)
                } else {
                    None
                }
            },
            None => None,
        }
    }

    /// User-visible name used in status messages and error strings.
    pub fn display_name(self) -> (r: &'static str)
        ensures
            r@ == language_name(self),
    {
        match self {
            Language::Rust => "rust",
            Language::Scala => "scala",
            Language::Elm => "elm",
        }
    }

    /// `languageId` sent in `textDocument/didOpen`.
    pub fn lsp_language_id(self) -> (r: &'static str)
        ensures
            r@ == language_name(self),
    {
        match self {
            Language::Rust => "rust",
            Language::Scala => "scala",
            Language::Elm => "elm",
        }
    }

    /// Server binary spawned for this language.
    pub fn lsp_binary(self) -> (r: &'static str)
        ensures
            r@ == server_binary(self),
    {
        match self {
            Language::Rust => "rust-analyzer",
            Language::Scala => "metals",
            Language::Elm => "elm-language-server",
        }
    }

    /// Hint shown when the LSP binary is missing from `PATH`.
    pub fn install_hint(self) -> (r: &'static str)
        ensures
            r@ == server_install_hint(self),
    {
        match self {
            Language::Rust => "rustup component add rust-analyzer",
            Language::Scala => "coursier install metals",
            Language::Elm => "npm install -g @elm-tooling/elm-language-server",
        }
    }

    /// Files whose presence marks a workspace root for this language.
    pub fn workspace_markers(self) -> (r: Vec<&'static str>)
        ensures
            r@ == workspace_marker_names(self),
    {
        match self {
            Language::Rust => vec!["Cargo.toml"],
            Language::Scala => vec![
                "build.sbt",
                "build.sc",
                "build.mill",
                "project/build.properties",
            ],
            Language::Elm => vec!["elm.json"],
        }
    }

    /// Whether the server emits rust-analyzer's `experimental/serverStatus`
    /// extension.
    pub fn advertises_rust_analyzer_server_status(self) -> (r: bool)
        ensures
            r == (self == Language::Rust),
    {
        match self {
            Language::Rust => true,
            _ => false,
        }
    }

    /// Whether the server emits indexing-status notifications that the editor
    /// can interpret.
    pub fn tracks_indexing_status(self) -> (r: bool)
        ensures
            r == (self == Language::Rust || self == Language::Scala),
    {
        match self {
            Language::Rust | Language::Scala => true,
            Language::Elm => false,
        }
    }

    /// Whether the type annotation on the source line stands in for an empty
    /// hover.
    pub fn supports_type_from_source_line(self) -> (r: bool)
        ensures
            r == (self == Language::Rust),
    {
        match self {
            Language::Rust => true,
            _ => false,
        }
    }

    /// How many seconds to wait for the server's `initialize` response.
    pub fn initialize_timeout(self) -> (r: u64)
        ensures
            r == (if self == Language::Scala {
                60u64
            } else {
                30u64
            }),
    {
        match self {
            Language::Rust => 30,
            Language::Scala => 60,
            Language::Elm => 30,
        }
    }

    /// Argv for running this language's test suite; `None` for languages
    /// without a runner.
    pub fn test_command(self) -> (r: Option<Vec<&'static str>>)
        ensures
            match r {
                Some(argv) => test_argv(self) == Some(argv@),
                None => test_argv(self) is None,
            },
    {
        match self {
            Language::Rust => Some(vec!["cargo", "test"]),
            Language::Scala | Language::Elm => None,
        }
    }

    /// Tree-sitter query whose `@import` capture selects import declarations.
    pub fn import_query(self) -> (r: Option<&'static str>)
        ensures
            match r {
                Some(q) => import_query_text(self) == Some(q@),
                None => import_query_text(self) is None,
            },
    {
        match self {
            Language::Rust => Some("(use_declaration) @import"),
            Language::Scala => Some("(import_declaration) @import"),
            Language::Elm => Some("(import_clause) @import"),
        }
    }

    /// Tree-sitter query whose `@fn` capture selects function definitions.
    pub fn function_query(self) -> (r: Option<&'static str>)
        ensures
            match r {
                Some(q) => function_query_text(self) == Some(q@),
                None => function_query_text(self) is None,
            },
    {
        match self {
            Language::Rust => Some("(function_item) @fn"),
            Language::Scala | Language::Elm => None,
        }
    }

    /// Tree-sitter query whose `@item` capture selects the top-level items.
    pub fn module_items_query(self) -> (r: Option<&'static str>)
        ensures
            match r {
                Some(q) => module_items_query_text(self) == Some(q@),
                None => module_items_query_text(self) is None,
            },
    {
        match self {
            Language::Rust => Some("(source_file (_) @item)"),
            Language::Scala | Language::Elm => None,
        }
    }

    /// Which output parser fits this language's test command.
    pub fn test_runner_kind(self) -> (r: Option<TestRunnerKind>)
        ensures
            r == runner_kind(self),
    {
        match self {
            Language::Rust => Some(TestRunnerKind::CargoTest),
            Language::Scala | Language::Elm => None,
        }
    }

    /// The options that the server wants when it is started.
    pub fn initialization_options(self) -> (r: Option<Value>)
        ensures
            match r {
                Some(v) => options_json(self) == Some(json::value_json(v)),
                None => options_json(self) is None,
            },
    {
        match self {
            Language::Scala => Some(
                obj3(
                    "isHttpEnabled",
                    boolean(false),
                    "compilerOptions",
                    obj1("snippetAutoIndent", boolean(false)),
                    "statusBarProvider",
                    string("on"),
                ),
            ),
            Language::Rust | Language::Elm => None,
        }
    }
}

/// The options that a server wants when it is started: only Metals wants any.
pub open spec fn options_json(l: Language) -> Option<json::Json> {
    match l {
        Language::Scala => Some(
            json::obj(
                seq![
                    ("isHttpEnabled"@, json::Json::Bool(false)),
                    (
                        "compilerOptions"@,
                        json::obj(seq![("snippetAutoIndent"@, json::Json::Bool(false))]),
                    ),
                    ("statusBarProvider"@, json::Json::Text("on"@)),
                ],
            ),
        ),
        _ => None,
    }
}

pub open spec fn workspace_marker_names(l: Language) -> Seq<&'static str> {
    match l {
        Language::Rust => seq!["Cargo.toml"],
        Language::Scala => seq![
            "build.sbt",
            "build.sc",
            "build.mill",
            "project/build.properties",
        ],
        Language::Elm => seq!["elm.json"],
    }
}

pub open spec fn test_argv(l: Language) -> Option<Seq<&'static str>> {
    match l {
        Language::Rust => Some(seq!["cargo", "test"]),
        _ => None,
    }
}

pub open spec fn runner_kind(l: Language) -> Option<TestRunnerKind> {
    match l {
        Language::Rust => Some(TestRunnerKind::CargoTest),
        _ => None,
    }
}

pub open spec fn import_query_text(l: Language) -> Option<Seq<char>> {
    match l {
        Language::Rust => Some("(use_declaration) @import"@),
        Language::Scala => Some("(import_declaration) @import"@),
        Language::Elm => Some("(import_clause) @import"@),
    }
}

pub open spec fn function_query_text(l: Language) -> Option<Seq<char>> {
    match l {
        Language::Rust => Some("(function_item) @fn"@),
        _ => None,
    }
}

pub open spec fn module_items_query_text(l: Language) -> Option<Seq<char>> {
    match l {
        Language::Rust => Some("(source_file (_) @item)"@),
        _ => None,
    }
}

/// A language has an output parser exactly when it has a test command.
pub proof fn law_runner_exactly_with_command(l: Language)
    ensures
        runner_kind(l) is Some <==> test_argv(l) is Some,
{
}

} // verus!
