//! What the messages to and from a language server say.

use vstd::prelude::*;

use crate::json;
use crate::json::Json;
use crate::language::Language;
use crate::lsp;
use crate::lsp::client;
use crate::lsp::messages;
use crate::lsp::sync;
use crate::runtime::requests;
use crate::scan;
use crate::text;

verus! {

/// A tree is an object with a member of that name and value.
pub open spec fn says(j: Json, key: Seq<char>, value: Json) -> bool {
    j is Object && j->Object_0.contains_key(key) && j->Object_0[key] == value
}

/// The address of a file is its path behind `file://`, and leads back to it; no other
/// address leads to a file.
pub proof fn law_addresses(path: Seq<char>, uri: Seq<char>)
    ensures
        lsp::uri_of(path) == "file://"@ + path,
        lsp::path_of("file://"@ + path) == Some(path),
        match lsp::path_of(uri) {
            Some(p) => uri == "file://"@ + p,
            None => forall|p: Seq<char>| uri != #[trigger] ("file://"@ + p),
        },
{
    let mark = "file://"@;
    lemma_address(path);
    match lsp::path_of(uri) {
        Some(p) => {
            assert(uri.subrange(0, mark.len() as int) == mark);
            assert(uri =~= mark + p);
        },
        None => {
            assert forall|p: Seq<char>| uri != #[trigger] (mark + p) by {
                lemma_address(p);
            }
        },
    }
}

proof fn lemma_address(path: Seq<char>)
    ensures
        lsp::path_of("file://"@ + path) == Some(path),
{
    let mark = "file://"@;
    let uri = mark + path;
    assert(uri.subrange(0, mark.len() as int) =~= mark);
    assert(uri.skip(mark.len() as int) =~= path);
}

// -------------------------------------------------------------- what is written

pub proof fn lemma_two(a: (Seq<char>, Json), b: (Seq<char>, Json))
    requires
        a.0 != b.0,
    ensures
        says(json::obj(seq![a, b]), a.0, a.1),
        says(json::obj(seq![a, b]), b.0, b.1),
        says(json::obj(seq![a]), a.0, a.1),
{
    reveal_with_fuel(json::put, 3);
    assert(seq![a, b].drop_last() =~= seq![a]);
    assert(seq![a].drop_last() =~= Seq::<(Seq<char>, Json)>::empty());
}

pub proof fn lemma_three(a: (Seq<char>, Json), b: (Seq<char>, Json), c: (Seq<char>, Json))
    requires
        a.0 != b.0 && a.0 != c.0 && b.0 != c.0,
    ensures
        says(json::obj(seq![a, b, c]), a.0, a.1),
        says(json::obj(seq![a, b, c]), b.0, b.1),
        says(json::obj(seq![a, b, c]), c.0, c.1),
{
    lemma_two(a, b);
    assert(seq![a, b, c].drop_last() =~= seq![a, b]);
    assert(seq![a, b, c].last() == c);
}

pub proof fn lemma_four(
    a: (Seq<char>, Json),
    b: (Seq<char>, Json),
    c: (Seq<char>, Json),
    d: (Seq<char>, Json),
)
    requires
        a.0 != b.0 && a.0 != c.0 && b.0 != c.0 && a.0 != d.0 && b.0 != d.0 && c.0 != d.0,
    ensures
        says(json::obj(seq![a, b, c, d]), a.0, a.1),
        says(json::obj(seq![a, b, c, d]), b.0, b.1),
        says(json::obj(seq![a, b, c, d]), c.0, c.1),
        says(json::obj(seq![a, b, c, d]), d.0, d.1),
{
    lemma_three(a, b, c);
    assert(seq![a, b, c, d].drop_last() =~= seq![a, b, c]);
    assert(seq![a, b, c, d].last() == d);
}

proof fn lemma_keys()
    ensures
        "jsonrpc"@ != "id"@ && "jsonrpc"@ != "method"@ && "jsonrpc"@ != "params"@ && "id"@
            != "method"@ && "id"@ != "params"@ && "method"@ != "params"@ && "jsonrpc"@
            != "result"@ && "id"@ != "result"@,
        "uri"@ != "version"@ && "uri"@ != "text"@ && "uri"@ != "languageId"@ && "version"@
            != "text"@ && "version"@ != "languageId"@ && "text"@ != "languageId"@,
        "textDocument"@ != "contentChanges"@ && "textDocument"@ != "position"@ && "textDocument"@
            != "newName"@ && "position"@ != "newName"@ && "textDocument"@ != "context"@
            && "position"@ != "context"@ && "line"@ != "character"@,
{
    reveal_strlit("jsonrpc");
    reveal_strlit("id");
    reveal_strlit("method");
    reveal_strlit("params");
    reveal_strlit("result");
    reveal_strlit("uri");
    reveal_strlit("version");
    reveal_strlit("text");
    reveal_strlit("languageId");
    reveal_strlit("textDocument");
    reveal_strlit("contentChanges");
    reveal_strlit("position");
    reveal_strlit("newName");
    reveal_strlit("context");
    reveal_strlit("line");
    reveal_strlit("character");
    assert("jsonrpc"@.len() == 7);
    assert("id"@.len() == 2);
    assert("method"@.len() == 6);
    assert("params"@.len() == 6);
    assert("result"@.len() == 6);
    assert("uri"@.len() == 3);
    assert("version"@.len() == 7);
    assert("text"@.len() == 4);
    assert("languageId"@.len() == 10);
    assert("textDocument"@.len() == 12);
    assert("contentChanges"@.len() == 14);
    assert("position"@.len() == 8);
    assert("newName"@.len() == 7);
    assert("context"@.len() == 7);
    assert("line"@.len() == 4);
    assert("character"@.len() == 9);
    assert("method"@[0] != "params"@[0]);
    assert("method"@[0] != "result"@[0]);
    assert("params"@[0] != "result"@[0]);
    assert("jsonrpc"@[0] != "version"@[0]);
    assert("text"@[0] != "line"@[0]);
    assert("version"@[0] != "newName"@[0]);
    assert("version"@[0] != "context"@[0]);
    assert("newName"@[0] != "context"@[0]);
}

/// A request has a number, a method and parameters, a notification no number, and a reply the
/// number of what it answers.
pub proof fn law_envelopes(id: i64, asked: Json, method: Seq<char>, params: Json)
    ensures
        ({
            let q = messages::request_json(id, method, params);
            let n = messages::notification_json(method, params);
            let r = messages::reply_json(asked, params);
            &&& says(q, "jsonrpc"@, Json::Text("2.0"@)) && says(n, "jsonrpc"@, Json::Text("2.0"@))
                && says(r, "jsonrpc"@, Json::Text("2.0"@))
            &&& says(q, "id"@, Json::Int(id as int))
            &&& says(q, "method"@, Json::Text(method)) && says(n, "method"@, Json::Text(method))
            &&& says(q, "params"@, params) && says(n, "params"@, params)
            &&& says(r, "id"@, asked) && says(r, "result"@, params)
        }),
{
    lemma_keys();
    lemma_four(
        ("jsonrpc"@, Json::Text("2.0"@)),
        ("id"@, Json::Int(id as int)),
        ("method"@, Json::Text(method)),
        ("params"@, params),
    );
    lemma_three(
        ("jsonrpc"@, Json::Text("2.0"@)),
        ("method"@, Json::Text(method)),
        ("params"@, params),
    );
    lemma_three(("jsonrpc"@, Json::Text("2.0"@)), ("id"@, asked), ("result"@, params));
}

/// A document that is opened is described by its address, its language, its first version and
/// its text; one that has changed by its address, its version and its whole text.
pub proof fn law_document_notices(
    uri: Seq<char>,
    language_id: Seq<char>,
    version: i32,
    text: Seq<char>,
)
    ensures
        ({
            let opened = messages::did_open_json(uri, language_id, text);
            let changed = messages::did_change_json(uri, version, text);
            let d = opened->Object_0["textDocument"@];
            let e = changed->Object_0["textDocument"@];
            let c = changed->Object_0["contentChanges"@];
            &&& says(opened, "textDocument"@, d)
            &&& says(d, "uri"@, Json::Text(uri)) && says(d, "text"@, Json::Text(text)) && says(
                d,
                "version"@,
                Json::Int(0),
            ) && says(d, "languageId"@, Json::Text(language_id))
            &&& says(changed, "textDocument"@, e) && says(changed, "contentChanges"@, c)
            &&& says(e, "uri"@, Json::Text(uri)) && says(e, "version"@, Json::Int(version as int))
            &&& c is List && c->List_0.len() == 1 && says(c->List_0[0], "text"@, Json::Text(text))
        }),
{
    lemma_keys();
    let d = json::obj(
        seq![
            ("uri"@, Json::Text(uri)),
            ("languageId"@, Json::Text(language_id)),
            ("version"@, Json::Int(0)),
            ("text"@, Json::Text(text)),
        ],
    );
    lemma_four(
        ("uri"@, Json::Text(uri)),
        ("languageId"@, Json::Text(language_id)),
        ("version"@, Json::Int(0)),
        ("text"@, Json::Text(text)),
    );
    lemma_two(("textDocument"@, d), ("position"@, d));
    let e = json::obj(seq![("uri"@, Json::Text(uri)), ("version"@, Json::Int(version as int))]);
    lemma_two(("uri"@, Json::Text(uri)), ("version"@, Json::Int(version as int)));
    let one = json::obj(seq![("text"@, Json::Text(text))]);
    lemma_two(("text"@, Json::Text(text)), ("uri"@, Json::Text(uri)));
    let c = Json::List(seq![one]);
    lemma_two(("textDocument"@, e), ("contentChanges"@, c));
}

/// Which method a question goes to, and that it is about the document and the place that are
/// asked about.
pub proof fn law_questions(
    language: Language,
    uri: Seq<char>,
    line: u32,
    character: u32,
    name: Seq<char>,
    declared: bool,
)
    ensures
        ({
            let d = messages::question_of(
                requests::RequestModel::Definition { language, uri, line, character },
            );
            let h = messages::question_of(
                requests::RequestModel::Hover { language, uri, line, character },
            );
            let r = messages::question_of(
                requests::RequestModel::Rename {
                    language,
                    uri,
                    line,
                    character,
                    new_name: name,
                },
            );
            let f = messages::question_of(
                requests::RequestModel::References {
                    language,
                    uri,
                    line,
                    character,
                    include_declaration: declared,
                },
            );
            let w = messages::question_of(
                requests::RequestModel::WorkspaceSymbol { language, query: name },
            );
            let s = messages::question_of(requests::RequestModel::DocumentSymbols { language, uri });
            &&& d is Some && h is Some && r is Some && f is Some && w is Some && s is Some
            &&& d->Some_0.method == "textDocument/definition"@
            &&& h->Some_0.method == "textDocument/hover"@
            &&& r->Some_0.method == "textDocument/rename"@
            &&& f->Some_0.method == "textDocument/references"@
            &&& w->Some_0.method == "workspace/symbol"@
            &&& s->Some_0.method == "textDocument/documentSymbol"@
            &&& at(d->Some_0.params, uri, line, character)
            &&& at(h->Some_0.params, uri, line, character)
            &&& at(r->Some_0.params, uri, line, character)
            &&& at(f->Some_0.params, uri, line, character)
            &&& says(r->Some_0.params, "newName"@, Json::Text(name))
            &&& says(w->Some_0.params, "query"@, Json::Text(name))
            &&& says(
                f->Some_0.params,
                "context"@,
                json::obj(seq![("includeDeclaration"@, Json::Bool(declared))]),
            )
        }),
{
    lemma_keys();
    let doc = ("textDocument"@, messages::document_json(uri));
    let pos = ("position"@, messages::position_json(line, character));
    let new = ("newName"@, Json::Text(name));
    let ctx = ("context"@, json::obj(seq![("includeDeclaration"@, Json::Bool(declared))]));
    lemma_two(("uri"@, Json::Text(uri)), ("text"@, Json::Null));
    lemma_two(("line"@, Json::Int(line as int)), ("character"@, Json::Int(character as int)));
    lemma_two(doc, pos);
    lemma_three(doc, pos, new);
    lemma_three(doc, pos, ctx);
    reveal_strlit("query");
    reveal_strlit("id");
    assert("query"@.len() != "id"@.len());
    lemma_two(("query"@, Json::Text(name)), ("id"@, Json::Null));
}

/// The parameters of a question name a document and a place in it.
pub open spec fn at(params: Json, uri: Seq<char>, line: u32, character: u32) -> bool {
    let d = params->Object_0["textDocument"@];
    let p = params->Object_0["position"@];
    &&& says(params, "textDocument"@, d)
    &&& says(d, "uri"@, Json::Text(uri))
    &&& says(params, "position"@, p)
    &&& says(p, "line"@, Json::Int(line as int))
    &&& says(p, "character"@, Json::Int(character as int))
}

// ----------------------------------------------------------------- what is read

/// A question from the server is answered under its number; to one that offers actions the
/// one that imports the build is the answer, or else the first one, and to any other nothing.
pub proof fn law_questions_of_the_server(
    m: client::StateModel,
    msg: Json,
    id: Json,
    method: Seq<char>,
)
    requires
        says(msg, "id"@, id),
        says(msg, "method"@, Json::Text(method)),
    ensures
        ({
            let (n, r) = client::received(m, msg);
            &&& n == m
            &&& r is Reply
            &&& says(r->Reply_0, "id"@, id)
            &&& method != "window/showMessageRequest"@ ==> says(r->Reply_0, "result"@, Json::Null)
        }),
{
    let result = client::received(m, msg).1->Reply_0->Object_0["result"@];
    lemma_keys();
    let params = json::member(msg, "params"@);
    let v = if method == "window/showMessageRequest"@ {
        client::picked_action(params)
    } else {
        Json::Null
    };
    lemma_three(("jsonrpc"@, Json::Text("2.0"@)), ("id"@, id), ("result"@, v));
}

/// A message with a number and no method answers the question of that number.
pub proof fn law_answers_of_the_server(m: client::StateModel, msg: Json, id: i64)
    requires
        says(msg, "id"@, Json::Int(id as int)),
        !msg->Object_0.contains_key("method"@),
    ensures
        ({
            let (n, r) = client::received(m, msg);
            &&& n == m
            &&& r is Answer
            &&& r->id == id
            &&& msg->Object_0.contains_key("result"@) ==> r->result == msg->Object_0["result"@]
            &&& !msg->Object_0.contains_key("result"@) ==> r->result == Json::Null
        }),
{
}

/// What the server says of itself: the problems of a document are passed on, and whether it
/// is still busy is kept.
pub proof fn law_news_of_the_server(
    m: client::StateModel,
    msg: Json,
    method: Seq<char>,
    params: Json,
    uri: Seq<char>,
    quiet: bool,
)
    requires
        msg is Object,
        !msg->Object_0.contains_key("id"@),
        says(msg, "method"@, Json::Text(method)),
        says(msg, "params"@, params),
    ensures
        ({
            let (n, r) = client::received(m, msg);
            &&& n.published == m.published
            &&& method == "textDocument/publishDiagnostics"@ && says(params, "uri"@, Json::Text(uri))
                ==> n == m && r is Diagnostics && r->uri == uri && (
            params->Object_0.contains_key("diagnostics"@) ==> r->items == Some(
                params->Object_0["diagnostics"@],
            ))
            &&& method == "experimental/serverStatus"@ && says(params, "quiescent"@, Json::Bool(quiet))
                ==> n.quiescent == quiet && r is Nothing
        }),
{
    reveal_strlit("textDocument/publishDiagnostics");
    reveal_strlit("experimental/serverStatus");
    assert("textDocument/publishDiagnostics"@[0] != "experimental/serverStatus"@[0]);
}

/// A server is idle once it has seen a document as it is now, and, but for the one of Elm,
/// has said that it is done with indexing.
pub proof fn law_idle_servers(
    seen: Set<Seq<char>>,
    known: client::StateModel,
    l: Language,
    uri: Seq<char>,
)
    ensures
        sync::idle(seen, known, l, uri) <==> seen.contains(uri) && (l == Language::Elm
            || known.quiescent),
{
}

/// The text of a hover: a text is taken as it is, a value out of an object that has one, and
/// of a list each of its texts that is not empty, with a blank line between. Where that is
/// blank there is none.
pub proof fn law_hover_texts(s: Seq<char>, j: Json, xs: Seq<Json>, x: Json)
    ensures
        messages::hover_text(Json::Text(s)) == s,
        says(j, "value"@, Json::Text(s)) ==> messages::hover_text(j) == s,
        messages::hover_text(Json::List(xs)) == scan::join(messages::hover_parts(xs), "\n\n"@),
        messages::hover_parts(xs.push(x)) == (if messages::hover_text(x).len() > 0 {
            messages::hover_parts(xs).push(messages::hover_text(x))
        } else {
            messages::hover_parts(xs)
        }),
        messages::hover_parts(Seq::empty()).len() == 0,
        says(j, "contents"@, Json::Text(s)) ==> messages::hover_of(j) == (if scan::trim(s).len()
            == 0 {
            None
        } else {
            Some(s)
        }),
{
    assert(xs.push(x).subrange(0, xs.len() as int) =~= xs);
    reveal_with_fuel(messages::hover_parts, 2);
    reveal_with_fuel(messages::hover_text, 2);
}

} // verus!
