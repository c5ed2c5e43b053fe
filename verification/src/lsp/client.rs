//! What the editor knows of a language server from what the server has sent.

use serde_json::Value;
use vstd::prelude::*;

use super::Diagnostic;
use crate::json;
use crate::json::{as_bool, as_i64, as_list, as_text, copy_value, get, null};
use crate::language::Language;
use crate::lsp;
use crate::lsp::messages;
use crate::lsp::messages::reply_message;
use crate::order;
use crate::scan;
use crate::scan::text_starts_with;
use crate::text;
use crate::text::{lower_ascii_chars, owned, same, same_chars, to_chars};

verus! {

/// What a server has published.
#[derive(Debug)]
pub struct LspState {
    /// The diagnostics of each document, by its address.
    pub published: Vec<(String, Vec<Diagnostic>)>,
    /// The server has said that it is done with indexing.
    pub quiescent: bool,
}

pub struct StateModel {
    pub published: Map<Seq<char>, Seq<lsp::DiagnosticModel>>,
    pub quiescent: bool,
}

/// The diagnostics of a document among the first `n` entries; of two entries for
/// one document the later counts.
pub open spec fn diagnostics_of(
    v: Seq<(String, Vec<Diagnostic>)>,
    uri: Seq<char>,
    n: int,
) -> Option<Seq<lsp::DiagnosticModel>>
    decreases n,
{
    if n <= 0 {
        None
    } else if v[n - 1].0@ == uri {
        Some(order::views_of(v[n - 1].1@))
    } else {
        diagnostics_of(v, uri, n - 1)
    }
}

/// The diagnostics by document.
pub open spec fn published_map(v: Seq<(String, Vec<Diagnostic>)>) -> Map<
    Seq<char>,
    Seq<lsp::DiagnosticModel>,
> {
    Map::new(
        |u: Seq<char>| diagnostics_of(v, u, v.len() as int) is Some,
        |u: Seq<char>| diagnostics_of(v, u, v.len() as int)->Some_0,
    )
}

impl View for LspState {
    type V = StateModel;

    open spec fn view(&self) -> StateModel {
        StateModel { published: published_map(self.published@), quiescent: self.quiescent }
    }
}

/// What is to be done about a message from the server.
#[derive(Debug)]
pub enum Incoming {
    /// Send this to the server.
    Reply(Value),
    /// This answers the question with that number.
    Answer { id: i64, result: Value },
    /// These are the diagnostics of a document, as the server has put them.
    Diagnostics { uri: String, items: Option<Value> },
    Nothing,
}

pub enum IncomingModel {
    Reply(json::Json),
    Answer { id: i64, result: json::Json },
    Diagnostics { uri: Seq<char>, items: Option<json::Json> },
    Nothing,
}

impl View for Incoming {
    type V = IncomingModel;

    open spec fn view(&self) -> IncomingModel {
        match *self {
            Incoming::Reply(v) => IncomingModel::Reply(json::value_json(v)),
            Incoming::Answer { id, result } => IncomingModel::Answer {
                id,
                result: json::value_json(result),
            },
            Incoming::Diagnostics { uri, items } => IncomingModel::Diagnostics {
                uri: uri@,
                items: match items {
                    Some(v) => Some(json::value_json(v)),
                    None => None,
                },
            },
            Incoming::Nothing => IncomingModel::Nothing,
        }
    }
}

// ------------------------------------------------------------------ what is sent

/// The text of a member that is one.
pub open spec fn text_member(j: json::Json, key: Seq<char>) -> Option<Seq<char>> {
    match json::member(j, key) {
        Some(json::Json::Text(s)) => Some(s),
        _ => None,
    }
}

fn get_text(v: &Value, key: &str) -> (r: Option<String>)
    ensures
        match r {
            Some(s) => text_member(json::value_json(*v), key@) == Some(s@),
            None => text_member(json::value_json(*v), key@) is None,
        },
{
    match get(v, key) {
        Some(x) => as_text(&x),
        None => None,
    }
}

/// The truth value of a member that is one.
pub open spec fn bool_member(j: json::Json, key: Seq<char>) -> Option<bool> {
    match json::member(j, key) {
        Some(json::Json::Bool(b)) => Some(b),
        _ => None,
    }
}

fn get_bool(v: &Value, key: &str) -> (r: Option<bool>)
    ensures
        r == bool_member(json::value_json(*v), key@),
{
    match get(v, key) {
        Some(x) => as_bool(&x),
        None => None,
    }
}

/// The action offers to import the build.
pub open spec fn imports_build(action: json::Json) -> bool {
    match text_member(action, "title"@) {
        Some(t) => text::ascii_lower_all(t) == text::ascii_lower_all("Import build"@),
        None => false,
    }
}

/// The first of the actions from `i` on that offers to import the build.
pub open spec fn first_import(actions: Seq<json::Json>, i: int) -> Option<json::Json>
    decreases actions.len() - i,
{
    if i < 0 || i >= actions.len() {
        None
    } else if imports_build(actions[i]) {
        Some(actions[i])
    } else {
        first_import(actions, i + 1)
    }
}

/// The action that is picked where the server lets the user choose: one that
/// imports the build, or else the first.
pub open spec fn picked_action(params: Option<json::Json>) -> json::Json {
    match params {
        None => json::Json::Null,
        Some(p) => match json::member(p, "actions"@) {
            Some(json::Json::List(actions)) => if actions.len() == 0 {
                json::Json::Null
            } else {
                match first_import(actions, 0) {
                    Some(a) => a,
                    None => actions[0],
                }
            },
            _ => json::Json::Null,
        },
    }
}

fn offers_import(action: &Value) -> (r: bool)
    ensures
        r == imports_build(json::value_json(*action)),
{
    match get_text(action, "title") {
        Some(t) => {
            let title = lower_ascii_chars(&to_chars(&t));
            let wanted = lower_ascii_chars(&to_chars("Import build"));
            same_chars(&title, &wanted)
        },
        None => false,
    }
}

/// Picks an action for the user: declining by silence would leave the server idle.
pub fn auto_pick_show_message_action(params: Option<&Value>) -> (r: Value)
    ensures
        json::value_json(r) == picked_action(
            match params {
                Some(p) => Some(json::value_json(*p)),
                None => None,
            },
        ),
{
    let given = match params {
        Some(p) => p,
        None => {
            return null();
        },
    };
    let offered = match get(given, "actions") {
        Some(v) => as_list(&v),
        None => None,
    };
    match offered {
        Some(actions) => {
            if actions.len() == 0 {
                return null();
            }
            let ghost js = json::trees(actions@);
            let mut i: usize = 0;
            while i < actions.len()
                invariant
                    i <= actions@.len(),
                    js == json::trees(actions@),
                    first_import(js, i as int) == first_import(js, 0),
                    js.len() > 0,
                    params == Some(given),
                    picked_action(Some(json::value_json(*given))) == (match first_import(js, 0) {
                        Some(a) => a,
                        None => js[0],
                    }),
                decreases actions@.len() - i,
            {
                assert(js[i as int] == json::value_json(actions@[i as int]));
                if offers_import(&actions[i]) {
                    return copy_value(&actions[i]);
                }
                i += 1;
            }
            assert(js[0] == json::value_json(actions@[0]));
            copy_value(&actions[0])
        },
        None => null(),
    }
}

/// The server is busy, going by the text of its status: it starts with what the
/// server is doing.
pub open spec fn busy_text(s: Seq<char>) -> bool {
    ||| scan::starts_with(s, "Indexing"@)
    ||| scan::starts_with(s, "Compiling"@)
    ||| scan::starts_with(s, "Importing"@)
    ||| scan::starts_with(s, "Building"@)
    ||| scan::starts_with(s, "Loading"@)
}

/// The server is busy, going by its status: one that is hidden says that it is not.
pub open spec fn busy_status(params: json::Json) -> bool {
    &&& bool_member(params, "hide"@) != Some(true)
    &&& match text_member(params, "text"@) {
        Some(t) => busy_text(t),
        None => busy_text(""@),
    }
}

// ---------------------------------------------------------------------- messages

/// What a message that the server tells of its own accord does.
pub open spec fn told(m: StateModel, method: Seq<char>, params: Option<json::Json>) -> (
    StateModel,
    IncomingModel,
) {
    match params {
        None => (m, IncomingModel::Nothing),
        Some(p) => if method == "textDocument/publishDiagnostics"@ {
            match text_member(p, "uri"@) {
                Some(uri) => (
                    m,
                    IncomingModel::Diagnostics { uri, items: json::member(p, "diagnostics"@) },
                ),
                None => (m, IncomingModel::Nothing),
            }
        } else if method == "experimental/serverStatus"@ {
            match bool_member(p, "quiescent"@) {
                Some(q) => (StateModel { quiescent: q, ..m }, IncomingModel::Nothing),
                None => (m, IncomingModel::Nothing),
            }
        } else if method == "metals/status"@ {
            (StateModel { quiescent: !busy_status(p), ..m }, IncomingModel::Nothing)
        } else {
            (m, IncomingModel::Nothing)
        },
    }
}

/// What a message does: one with a number and a method is a question of the
/// server's, which gets a reply; one with a number alone is an answer; one with a
/// method alone is told.
pub open spec fn received(m: StateModel, msg: json::Json) -> (StateModel, IncomingModel) {
    let params = json::member(msg, "params"@);
    match (json::member(msg, "id"@), text_member(msg, "method"@)) {
        (Some(id), Some(method)) => (
            m,
            IncomingModel::Reply(
                messages::reply_json(
                    id,
                    if method == "window/showMessageRequest"@ {
                        picked_action(params)
                    } else {
                        json::Json::Null
                    },
                ),
            ),
        ),
        (Some(id), None) => (
            m,
            match id {
                json::Json::Int(n) => if i64::MIN <= n <= i64::MAX {
                    IncomingModel::Answer {
                        id: n as i64,
                        result: match json::member(msg, "result"@) {
                            Some(r) => r,
                            None => json::Json::Null,
                        },
                    }
                } else {
                    IncomingModel::Nothing
                },
                _ => IncomingModel::Nothing,
            },
        ),
        (None, Some(method)) => told(m, method, params),
        (None, None) => (m, IncomingModel::Nothing),
    }
}

proof fn lemma_diagnostics_push(
    v: Seq<(String, Vec<Diagnostic>)>,
    x: (String, Vec<Diagnostic>),
    uri: Seq<char>,
    n: int,
)
    requires
        0 <= n <= v.len(),
    ensures
        diagnostics_of(v.push(x), uri, n) == diagnostics_of(v, uri, n),
    decreases n,
{
    if n > 0 {
        lemma_diagnostics_push(v, x, uri, n - 1);
    }
}

proof fn lemma_diagnostics_update(
    v: Seq<(String, Vec<Diagnostic>)>,
    k: int,
    x: (String, Vec<Diagnostic>),
    uri: Seq<char>,
    n: int,
)
    requires
        0 <= k < v.len(),
        0 <= n <= v.len(),
        v[k].0@ == x.0@,
        forall|i: int| k < i < v.len() ==> #[trigger] v[i].0@ != x.0@,
    ensures
        uri != x.0@ || n <= k ==> diagnostics_of(v.update(k, x), uri, n) == diagnostics_of(
            v,
            uri,
            n,
        ),
        uri == x.0@ && n > k ==> diagnostics_of(v.update(k, x), uri, n) == Some(
            order::views_of(x.1@),
        ),
    decreases n,
{
    if n > 0 {
        lemma_diagnostics_update(v, k, x, uri, n - 1);
    }
}

impl LspState {
    /// A server that was just started has published nothing and is still indexing.
    pub fn new() -> (r: LspState)
        ensures
            r@ == (StateModel { published: Map::empty(), quiescent: false }),
    {
        let r = LspState { published: Vec::new(), quiescent: false };
        assert(r@.published =~= Map::empty());
        r
    }

    /// Keeps the diagnostics of a document in place of those before.
    pub fn update_diagnostics(&mut self, uri: String, diagnostics: Vec<Diagnostic>)
        ensures
            final(self)@ == (StateModel {
                published: old(self)@.published.insert(uri@, order::views_of(diagnostics@)),
                ..old(self)@
            }),
    {
        let ghost v = self.published@;
        let ghost u = uri@;
        let ghost model = order::views_of(diagnostics@);
        let mut i: usize = self.published.len();
        while i > 0
            invariant
                i <= v.len(),
                v == self.published@,
                u == uri@,
                model == order::views_of(diagnostics@),
                *self == *old(self),
                forall|k: int| i <= k < v.len() ==> #[trigger] v[k].0@ != u,
            decreases i,
        {
            i -= 1;
            if same(&self.published[i].0, &uri) {
                let entry = (uri, diagnostics);
                let ghost x = entry;
                self.published.set(i, entry);
                proof {
                    assert forall|a: Seq<char>|
                        #![trigger diagnostics_of(self.published@, a, v.len() as int)]
                        diagnostics_of(self.published@, a, v.len() as int) == (if a == u {
                            Some(model)
                        } else {
                            diagnostics_of(v, a, v.len() as int)
                        }) by {
                        lemma_diagnostics_update(v, i as int, x, a, v.len() as int);
                    }
                    assert(published_map(self.published@) =~= published_map(v).insert(u, model));
                }
                return;
            }
        }
        let entry = (uri, diagnostics);
        let ghost x = entry;
        self.published.push(entry);
        let ghost w = self.published@;
        proof {
            assert forall|a: Seq<char>|
                #![trigger diagnostics_of(w, a, w.len() as int)]
                diagnostics_of(w, a, w.len() as int) == (if a == u {
                    Some(model)
                } else {
                    diagnostics_of(v, a, v.len() as int)
                }) by {
                lemma_diagnostics_push(v, x, a, v.len() as int);
            }
            assert(published_map(self.published@) =~= published_map(v).insert(u, model));
        }
    }

    /// The diagnostics of a document that were published last.
    pub fn diagnostics(&self, uri: &str) -> (r: Vec<Diagnostic>)
        ensures
            order::views_of(r@) == (if self@.published.contains_key(uri@) {
                self@.published[uri@]
            } else {
                Seq::empty()
            }),
    {
        let ghost v = self.published@;
        let mut i: usize = self.published.len();
        while i > 0
            invariant
                i <= v.len(),
                v == self.published@,
                diagnostics_of(v, uri@, i as int) == diagnostics_of(v, uri@, v.len() as int),
            decreases i,
        {
            i -= 1;
            if same(&self.published[i].0, uri) {
                return copy_diagnostics(&self.published[i].1);
            }
        }
        let none: Vec<Diagnostic> = Vec::new();
        assert(order::views_of(none@) =~= Seq::empty());
        none
    }

    /// The server still loads the workspace, so that its answers may be empty. A
    /// server that does not say so is taken to be done.
    pub fn is_indexing(&self, l: Language) -> (r: bool)
        ensures
            r == (l != Language::Elm && !self@.quiescent),
    {
        l.tracks_indexing_status() && !self.quiescent
    }

    fn tell(&mut self, method: &str, params: Option<Value>) -> (r: Incoming)
        ensures
            (final(self)@, r@) == told(
                old(self)@,
                method@,
                match params {
                    Some(p) => Some(json::value_json(p)),
                    None => None,
                },
            ),
    {
        let p = match params {
            Some(p) => p,
            None => {
                return Incoming::Nothing;
            },
        };
        if same(method, "textDocument/publishDiagnostics") {
            match get_text(&p, "uri") {
                Some(uri) => {
                    return Incoming::Diagnostics { uri, items: get(&p, "diagnostics") };
                },
                None => {},
            }
        } else if same(method, "experimental/serverStatus") {
            match get_bool(&p, "quiescent") {
                Some(q) => {
                    self.quiescent = q;
                },
                None => {},
            }
        } else if same(method, "metals/status") {
            self.quiescent = !is_busy(&p);
        }
        Incoming::Nothing
    }

    /// Takes a message from the server.
    pub fn receive(&mut self, msg: &Value) -> (r: Incoming)
        ensures
            (final(self)@, r@) == received(old(self)@, json::value_json(*msg)),
    {
        let id = get(msg, "id");
        let method = get_text(msg, "method");
        match (id, method) {
            (Some(id), Some(m)) => {
                let result = if same(&m, "window/showMessageRequest") {
                    match get(msg, "params") {
                        Some(p) => auto_pick_show_message_action(Some(&p)),
                        None => auto_pick_show_message_action(None),
                    }
                } else {
                    null()
                };
                Incoming::Reply(reply_message(id, result))
            },
            (Some(id), None) => match as_i64(&id) {
                Some(id) => {
                    let result = match get(msg, "result") {
                        Some(r) => r,
                        None => null(),
                    };
                    Incoming::Answer { id, result }
                },
                None => Incoming::Nothing,
            },
            (None, Some(m)) => self.tell(&m, get(msg, "params")),
            (None, None) => Incoming::Nothing,
        }
    }
}

fn is_busy(params: &Value) -> (r: bool)
    ensures
        r == busy_status(json::value_json(*params)),
{
    match get_bool(params, "hide") {
        Some(true) => {
            return false;
        },
        _ => {},
    }
    let text = match get_text(params, "text") {
        Some(t) => t,
        None => owned(""),
    };
    text_starts_with(&text, "Indexing") || text_starts_with(&text, "Compiling")
        || text_starts_with(&text, "Importing") || text_starts_with(&text, "Building")
        || text_starts_with(&text, "Loading")
}

fn copy_diagnostics(v: &Vec<Diagnostic>) -> (r: Vec<Diagnostic>)
    ensures
        order::views_of(r@) == order::views_of(v@),
{
    let ghost all = order::views_of(v@);
    let mut r: Vec<Diagnostic> = Vec::new();
    let mut i: usize = 0;
    while i < v.len()
        invariant
            i <= v@.len(),
            all == order::views_of(v@),
            order::views_of(r@) == all.take(i as int),
        decreases v@.len() - i,
    {
        let ghost before = order::views_of(r@);
        let d = v[i].duplicate();
        let ghost model = d@;
        r.push(d);
        assert(order::views_of(r@) =~= before.push(model));
        i += 1;
        assert(all.take(i as int) =~= before.push(all[i - 1]));
    }
    assert(all.take(i as int) =~= all);
    r
}

/// Every question of the server's gets a reply that carries its number, whatever
/// the question is.
pub proof fn law_server_is_never_left_waiting(m: StateModel, msg: json::Json)
    requires
        json::member(msg, "id"@) is Some,
        text_member(msg, "method"@) is Some,
    ensures
        received(m, msg).0 == m,
        received(m, msg).1 matches IncomingModel::Reply(r) && json::member(r, "id"@)
            == json::member(msg, "id"@),
{
    reveal_strlit("jsonrpc");
    reveal_strlit("id");
    reveal_strlit("result");
    reveal_with_fuel(json::put, 4);
    let id = json::member(msg, "id"@)->Some_0;
    let fields = seq![
        ("jsonrpc"@, json::Json::Text("2.0"@)),
        ("id"@, id),
        ("result"@, received(m, msg).1->Reply_0->Object_0["result"@]),
    ];
    assert("jsonrpc"@.len() != "id"@.len());
    assert("result"@.len() != "id"@.len());
    assert(fields.drop_last().last() == fields[1]);
}

} // verus!
