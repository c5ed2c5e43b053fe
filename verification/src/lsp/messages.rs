//! The messages that the editor sends to a language server, and what it makes of
//! the answers.

use serde_json::Value;
use vstd::prelude::*;

use crate::json;
use crate::json::{
    as_list, as_text, boolean, get, is_null, is_object, list1, null, obj0, obj1, obj2, obj3, obj4,
    obj5, signed, string, unsigned,
};
use crate::language;
use crate::language::Language;
use crate::runtime::requests;
use crate::runtime::requests::ServerRequest;
use crate::scan;
use crate::scan::{is_blank, join_chars};
use crate::text::to_chars;

verus! {

// --------------------------------------------------------------------- envelope

/// The envelope of a question.
pub open spec fn request_json(id: i64, method: Seq<char>, params: json::Json) -> json::Json {
    json::obj(
        seq![
            ("jsonrpc"@, json::Json::Text("2.0"@)),
            ("id"@, json::Json::Int(id as int)),
            ("method"@, json::Json::Text(method)),
            ("params"@, params),
        ],
    )
}

/// A question to a server.
pub fn request_message(id: i64, method: &str, params: Value) -> (r: Value)
    ensures
        json::value_json(r) == request_json(id, method@, json::value_json(params)),
{
    obj4("jsonrpc", string("2.0"), "id", signed(id), "method", string(method), "params", params)
}

/// The envelope of something that is told and not asked.
pub open spec fn notification_json(method: Seq<char>, params: json::Json) -> json::Json {
    json::obj(
        seq![
            ("jsonrpc"@, json::Json::Text("2.0"@)),
            ("method"@, json::Json::Text(method)),
            ("params"@, params),
        ],
    )
}

/// Something that a server is told.
pub fn notification_message(method: &str, params: Value) -> (r: Value)
    ensures
        json::value_json(r) == notification_json(method@, json::value_json(params)),
{
    obj3("jsonrpc", string("2.0"), "method", string(method), "params", params)
}

/// The envelope of a reply to the server.
pub open spec fn reply_json(id: json::Json, result: json::Json) -> json::Json {
    json::obj(
        seq![("jsonrpc"@, json::Json::Text("2.0"@)), ("id"@, id), ("result"@, result)],
    )
}

/// A reply to something that the server asked.
pub fn reply_message(id: Value, result: Value) -> (r: Value)
    ensures
        json::value_json(r) == reply_json(json::value_json(id), json::value_json(result)),
{
    obj3("jsonrpc", string("2.0"), "id", id, "result", result)
}

// ------------------------------------------------------------------- initialize

/// What the editor can do with a text document.
pub open spec fn document_capabilities() -> json::Json {
    let no = json::Json::Bool(false);
    json::obj(
        seq![
            ("publishDiagnostics"@, json::obj(seq![("relatedInformation"@, no)])),
            ("definition"@, json::obj(seq![("linkSupport"@, no)])),
            ("hover"@, json::obj(Seq::empty())),
            (
                "synchronization"@,
                json::obj(
                    seq![("didSave"@, no), ("willSave"@, no), ("willSaveWaitUntil"@, no)],
                ),
            ),
        ],
    )
}

/// What the editor can do. A server that reports when it has indexed the workspace
/// is asked to.
pub open spec fn capabilities(l: Language) -> json::Json {
    if l == Language::Rust {
        json::obj(
            seq![
                ("textDocument"@, document_capabilities()),
                (
                    "experimental"@,
                    json::obj(seq![("serverStatusNotification"@, json::Json::Bool(true))]),
                ),
            ],
        )
    } else {
        json::obj(seq![("textDocument"@, document_capabilities())])
    }
}

fn make_capabilities(l: Language) -> (r: Value)
    ensures
        json::value_json(r) == capabilities(l),
{
    let document = obj4(
        "publishDiagnostics",
        obj1("relatedInformation", boolean(false)),
        "definition",
        obj1("linkSupport", boolean(false)),
        "hover",
        obj0(),
        "synchronization",
        obj3(
            "didSave",
            boolean(false),
            "willSave",
            boolean(false),
            "willSaveWaitUntil",
            boolean(false),
        ),
    );
    if l.advertises_rust_analyzer_server_status() {
        obj2(
            "textDocument",
            document,
            "experimental",
            obj1("serverStatusNotification", boolean(true)),
        )
    } else {
        obj1("textDocument", document)
    }
}

/// The parameters of the first question to a server.
pub open spec fn initialize_json(l: Language, process: u32, root_uri: Seq<char>) -> json::Json {
    let p = ("processId"@, json::Json::Int(process as int));
    let r = ("rootUri"@, json::Json::Text(root_uri));
    let c = ("capabilities"@, capabilities(l));
    let i = ("clientInfo"@, json::obj(seq![("name"@, json::Json::Text("dyad"@))]));
    match language::options_json(l) {
        Some(o) => json::obj(seq![p, r, c, i, ("initializationOptions"@, o)]),
        None => json::obj(seq![p, r, c, i]),
    }
}

/// The parameters of the first question to a server; `root_uri` is the address of
/// the workspace.
pub fn initialize_params(l: Language, process: u32, root_uri: &str) -> (r: Value)
    ensures
        json::value_json(r) == initialize_json(l, process, root_uri@),
{
    let process = unsigned(process as u64);
    let root = string(root_uri);
    let able = make_capabilities(l);
    let info = obj1("name", string("dyad"));
    match l.initialization_options() {
        Some(o) => obj5(
            "processId",
            process,
            "rootUri",
            root,
            "capabilities",
            able,
            "clientInfo",
            info,
            "initializationOptions",
            o,
        ),
        None => obj4(
            "processId",
            process,
            "rootUri",
            root,
            "capabilities",
            able,
            "clientInfo",
            info,
        ),
    }
}

// ---------------------------------------------------------------- notifications

/// The parameters that tell of an opened document.
pub open spec fn did_open_json(uri: Seq<char>, language_id: Seq<char>, text: Seq<char>) -> json::Json {
    json::obj(
        seq![
            (
                "textDocument"@,
                json::obj(
                    seq![
                        ("uri"@, json::Json::Text(uri)),
                        ("languageId"@, json::Json::Text(language_id)),
                        ("version"@, json::Json::Int(0)),
                        ("text"@, json::Json::Text(text)),
                    ],
                ),
            ),
        ],
    )
}

/// Tells of a document that was opened.
pub fn did_open(uri: &str, language_id: &str, text: &str) -> (r: Value)
    ensures
        json::value_json(r) == notification_json(
            "textDocument/didOpen"@,
            did_open_json(uri@, language_id@, text@),
        ),
{
    let document = obj4(
        "uri",
        string(uri),
        "languageId",
        string(language_id),
        "version",
        unsigned(0),
        "text",
        string(text),
    );
    notification_message("textDocument/didOpen", obj1("textDocument", document))
}

/// The parameters that tell of a changed document: the whole text is sent.
pub open spec fn did_change_json(uri: Seq<char>, version: i32, text: Seq<char>) -> json::Json {
    json::obj(
        seq![
            (
                "textDocument"@,
                json::obj(
                    seq![
                        ("uri"@, json::Json::Text(uri)),
                        ("version"@, json::Json::Int(version as int)),
                    ],
                ),
            ),
            (
                "contentChanges"@,
                json::Json::List(seq![json::obj(seq![("text"@, json::Json::Text(text))])]),
            ),
        ],
    )
}

/// Tells of a document that was changed.
pub fn did_change(uri: &str, version: i32, text: &str) -> (r: Value)
    ensures
        json::value_json(r) == notification_json(
            "textDocument/didChange"@,
            did_change_json(uri@, version, text@),
        ),
{
    let document = obj2("uri", string(uri), "version", signed(version as i64));
    let changes = list1(obj1("text", string(text)));
    notification_message(
        "textDocument/didChange",
        obj2("textDocument", document, "contentChanges", changes),
    )
}

/// A document by its address.
pub open spec fn document_json(uri: Seq<char>) -> json::Json {
    json::obj(seq![("uri"@, json::Json::Text(uri))])
}

/// Tells of a document that was closed.
pub fn did_close(uri: &str) -> (r: Value)
    ensures
        json::value_json(r) == notification_json(
            "textDocument/didClose"@,
            json::obj(seq![("textDocument"@, document_json(uri@))]),
        ),
{
    notification_message(
        "textDocument/didClose",
        obj1("textDocument", obj1("uri", string(uri))),
    )
}

/// Tells that the server is done with.
pub fn exit() -> (r: Value)
    ensures
        json::value_json(r) == notification_json("exit"@, json::Json::Null),
{
    notification_message("exit", null())
}

/// Tells that the answer to the first question has come.
pub fn initialized() -> (r: Value)
    ensures
        json::value_json(r) == notification_json("initialized"@, json::obj(Seq::empty())),
{
    notification_message("initialized", obj0())
}

// -------------------------------------------------------------------- questions

/// A place in a document.
pub open spec fn position_json(line: u32, character: u32) -> json::Json {
    json::obj(
        seq![
            ("line"@, json::Json::Int(line as int)),
            ("character"@, json::Json::Int(character as int)),
        ],
    )
}

fn position_value(line: u32, character: u32) -> (r: Value)
    ensures
        json::value_json(r) == position_json(line, character),
{
    obj2("line", unsigned(line as u64), "character", unsigned(character as u64))
}

fn document_value(uri: &str) -> (r: Value)
    ensures
        json::value_json(r) == document_json(uri@),
{
    obj1("uri", string(uri))
}

/// How a question is put: its method, its parameters, and how many seconds to wait
/// for the answer.
pub struct Question {
    pub method: &'static str,
    pub params: Value,
    pub timeout_secs: u64,
}

pub struct QuestionModel {
    pub method: Seq<char>,
    pub params: json::Json,
    pub timeout_secs: u64,
}

impl View for Question {
    type V = QuestionModel;

    open spec fn view(&self) -> QuestionModel {
        QuestionModel {
            method: self.method@,
            params: json::value_json(self.params),
            timeout_secs: self.timeout_secs,
        }
    }
}

/// The parameters of a question about a place.
pub open spec fn at_place(uri: Seq<char>, line: u32, character: u32) -> json::Json {
    json::obj(
        seq![
            ("textDocument"@, document_json(uri)),
            ("position"@, position_json(line, character)),
        ],
    )
}

/// How a question is put. What the server has published is not asked for.
pub open spec fn question_of(q: requests::RequestModel) -> Option<QuestionModel> {
    match q {
        requests::RequestModel::Definition { language: _, uri, line, character } => Some(
            QuestionModel {
                method: "textDocument/definition"@,
                params: at_place(uri, line, character),
                timeout_secs: 10,
            },
        ),
        requests::RequestModel::References {
            language: _,
            uri,
            line,
            character,
            include_declaration,
        } => Some(
            QuestionModel {
                method: "textDocument/references"@,
                params: json::obj(
                    seq![
                        ("textDocument"@, document_json(uri)),
                        ("position"@, position_json(line, character)),
                        (
                            "context"@,
                            json::obj(
                                seq![
                                    ("includeDeclaration"@, json::Json::Bool(include_declaration)),
                                ],
                            ),
                        ),
                    ],
                ),
                timeout_secs: 10,
            },
        ),
        requests::RequestModel::Hover { language: _, uri, line, character } => Some(
            QuestionModel {
                method: "textDocument/hover"@,
                params: at_place(uri, line, character),
                timeout_secs: 10,
            },
        ),
        requests::RequestModel::WorkspaceSymbol { language: _, query } => Some(
            QuestionModel {
                method: "workspace/symbol"@,
                params: json::obj(seq![("query"@, json::Json::Text(query))]),
                timeout_secs: 10,
            },
        ),
        requests::RequestModel::DocumentSymbols { language: _, uri } => Some(
            QuestionModel {
                method: "textDocument/documentSymbol"@,
                params: json::obj(seq![("textDocument"@, document_json(uri))]),
                timeout_secs: 10,
            },
        ),
        requests::RequestModel::Rename { language: _, uri, line, character, new_name } => Some(
            QuestionModel {
                method: "textDocument/rename"@,
                params: json::obj(
                    seq![
                        ("textDocument"@, document_json(uri)),
                        ("position"@, position_json(line, character)),
                        ("newName"@, json::Json::Text(new_name)),
                    ],
                ),
                timeout_secs: 15,
            },
        ),
        requests::RequestModel::Diagnostics { .. } => None,
        requests::RequestModel::WaitUntilIdle { .. } => None,
    }
}

fn place_params(uri: &str, line: u32, character: u32) -> (r: Value)
    ensures
        json::value_json(r) == at_place(uri@, line, character),
{
    obj2("textDocument", document_value(uri), "position", position_value(line, character))
}

/// How a question is put; `None` for what is answered from what the server has
/// published.
pub fn question(q: &ServerRequest) -> (r: Option<Question>)
    ensures
        match r {
            Some(x) => question_of(q@) == Some(x@),
            None => question_of(q@) is None,
        },
{
    match q {
        ServerRequest::Definition { language: _, uri, line, character } => Some(
            Question {
                method: "textDocument/definition",
                params: place_params(uri, *line, *character),
                timeout_secs: 10,
            },
        ),
        ServerRequest::References { language: _, uri, line, character, include_declaration } =>
            Some(
            Question {
                method: "textDocument/references",
                params: obj3(
                    "textDocument",
                    document_value(uri),
                    "position",
                    position_value(*line, *character),
                    "context",
                    obj1("includeDeclaration", boolean(*include_declaration)),
                ),
                timeout_secs: 10,
            },
        ),
        ServerRequest::Hover { language: _, uri, line, character } => Some(
            Question {
                method: "textDocument/hover",
                params: place_params(uri, *line, *character),
                timeout_secs: 10,
            },
        ),
        ServerRequest::WorkspaceSymbol { language: _, query } => Some(
            Question {
                method: "workspace/symbol",
                params: obj1("query", string(query)),
                timeout_secs: 10,
            },
        ),
        ServerRequest::DocumentSymbols { language: _, uri } => Some(
            Question {
                method: "textDocument/documentSymbol",
                params: obj1("textDocument", document_value(uri)),
                timeout_secs: 10,
            },
        ),
        ServerRequest::Rename { language: _, uri, line, character, new_name } => Some(
            Question {
                method: "textDocument/rename",
                params: obj3(
                    "textDocument",
                    document_value(uri),
                    "position",
                    position_value(*line, *character),
                    "newName",
                    string(new_name),
                ),
                timeout_secs: 15,
            },
        ),
        ServerRequest::Diagnostics { .. } => None,
        ServerRequest::WaitUntilIdle { .. } => None,
    }
}

// ---------------------------------------------------------------------- answers

/// How many things an answer holds.
#[derive(Clone, Copy, Debug, PartialEq, Eq, Structural)]
pub enum AnswerShape {
    Nothing,
    One,
    Many,
}

/// Where a symbol is defined: a place, a list of places, or nothing.
pub open spec fn definition_shape(j: json::Json) -> AnswerShape {
    match j {
        json::Json::List(_) => AnswerShape::Many,
        json::Json::Object(_) => AnswerShape::One,
        _ => AnswerShape::Nothing,
    }
}

pub fn shape_of_definition(v: &Value) -> (r: AnswerShape)
    ensures
        r == definition_shape(json::value_json(*v)),
{
    if as_list(v).is_some() {
        AnswerShape::Many
    } else if is_object(v) {
        AnswerShape::One
    } else {
        AnswerShape::Nothing
    }
}

/// The symbols of a workspace: a list, or nothing.
pub fn shape_of_symbols(v: &Value) -> (r: AnswerShape)
    ensures
        r == (match json::value_json(*v) {
            json::Json::List(_) => AnswerShape::Many,
            _ => AnswerShape::Nothing,
        }),
{
    if as_list(v).is_some() {
        AnswerShape::Many
    } else {
        AnswerShape::Nothing
    }
}

/// The edits of a rename: nothing where the server has none.
pub fn shape_of_rename(v: &Value) -> (r: AnswerShape)
    ensures
        r == (match json::value_json(*v) {
            json::Json::Null => AnswerShape::Nothing,
            _ => AnswerShape::One,
        }),
{
    if is_null(v) {
        AnswerShape::Nothing
    } else {
        AnswerShape::One
    }
}

/// The text of what a server says of a symbol: a text, something with a text for
/// its value, or a list of those, whose texts are put below each other.
pub open spec fn hover_text(j: json::Json) -> Seq<char>
    decreases j,
{
    match j {
        json::Json::Text(s) => s,
        json::Json::Object(m) => if m.contains_key("value"@) {
            match m["value"@] {
                json::Json::Text(s) => s,
                _ => Seq::empty(),
            }
        } else {
            Seq::empty()
        },
        json::Json::List(xs) => scan::join(hover_parts(xs), "\n\n"@),
        _ => Seq::empty(),
    }
}

/// The texts in a list, without those that are empty.
pub open spec fn hover_parts(xs: Seq<json::Json>) -> Seq<Seq<char>>
    decreases xs,
{
    if xs.len() == 0 {
        Seq::empty()
    } else {
        let before = hover_parts(xs.subrange(0, xs.len() - 1));
        let s = hover_text(xs[xs.len() - 1]);
        if s.len() > 0 {
            before.push(s)
        } else {
            before
        }
    }
}

/// The text of what a server says of a symbol.
pub fn stringify_hover_contents(c: &Value) -> (r: String)
    ensures
        r@ == hover_text(json::value_json(*c)),
    decreases json::value_json(*c),
{
    match as_text(c) {
        Some(s) => {
            return s;
        },
        None => {},
    }
    if is_object(c) {
        return match get(c, "value") {
            Some(v) => match as_text(&v) {
                Some(s) => s,
                None => String::new(),
            },
            None => String::new(),
        };
    }
    match as_list(c) {
        Some(xs) => {
            let ghost js = json::trees(xs@);
            let mut parts: Vec<Vec<char>> = Vec::new();
            let mut i: usize = 0;
            assert(scan::views(parts@) =~= Seq::empty());
            while i < xs.len()
                invariant
                    i <= xs@.len(),
                    js == json::trees(xs@),
                    json::value_json(*c) == json::Json::List(js),
                    scan::views(parts@) == hover_parts(js.take(i as int)),
                decreases xs@.len() - i,
            {
                let ghost before = scan::views(parts@);
                assert(js[i as int] == json::value_json(xs@[i as int]));
                assert(decreases_to!(json::value_json(*c) => json::value_json(*c)->List_0));
                assert(decreases_to!(js => js[i as int]));
                let part = stringify_hover_contents(&xs[i]);
                let cs = to_chars(&part);
                let ghost model = cs@;
                i += 1;
                assert(js.take(i as int).subrange(0, i - 1) =~= js.take(i - 1));
                if cs.len() > 0 {
                    parts.push(cs);
                    assert(scan::views(parts@) =~= before.push(model));
                }
            }
            assert(js.take(i as int) =~= js);
            join_chars(&parts, "\n\n")
        },
        None => String::new(),
    }
}

/// What is shown of an answer about a symbol; `None` where there is nothing to
/// show.
pub open spec fn hover_of(j: json::Json) -> Option<Seq<char>> {
    match json::member(j, "contents"@) {
        Some(c) => if scan::blank(hover_text(c)) {
            None
        } else {
            Some(hover_text(c))
        },
        None => None,
    }
}

/// What is shown of an answer about a symbol.
pub fn hover_answer(v: &Value) -> (r: Option<String>)
    ensures
        match r {
            Some(s) => hover_of(json::value_json(*v)) == Some(s@),
            None => hover_of(json::value_json(*v)) is None,
        },
{
    match get(v, "contents") {
        Some(c) => {
            let text = stringify_hover_contents(&c);
            if is_blank(&text) {
                None
            } else {
                Some(text)
            }
        },
        None => None,
    }
}

} // verus!
