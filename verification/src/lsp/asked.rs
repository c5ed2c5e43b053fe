//! What a server is answered when it asks for a choice, and when it counts as busy.

use vstd::prelude::*;

use crate::json::Json;
use crate::lsp::client;
use crate::lsp::laws::says;
use crate::lsp::messages;
use crate::scan;
use crate::text;

verus! {

/// An action goes by a title, whatever the case of its letters.
pub open spec fn titled(action: Json, title: Seq<char>) -> bool {
    &&& action is Object && action->Object_0.contains_key("title"@)
    &&& action->Object_0["title"@] is Text
    &&& ({
        let t = action->Object_0["title"@]->Text_0;
        &&& t.len() == title.len()
        &&& forall|i: int|
            0 <= i < t.len() ==> text::ascii_lower(#[trigger] t[i]) == text::ascii_lower(title[i])
    })
}

proof fn lemma_titled(action: Json)
    ensures
        client::imports_build(action) <==> titled(action, "Import build"@),
{
    if action is Object && action->Object_0.contains_key("title"@) && action->Object_0["title"@]
        is Text {
        let t = action->Object_0["title"@]->Text_0;
        let w = "Import build"@;
        if titled(action, w) {
            assert(text::ascii_lower_all(t) =~= text::ascii_lower_all(w));
        }
        if text::ascii_lower_all(t) == text::ascii_lower_all(w) {
            assert(text::ascii_lower_all(t).len() == t.len());
            assert(text::ascii_lower_all(w).len() == w.len());
            assert forall|i: int| 0 <= i < t.len() implies text::ascii_lower(#[trigger] t[i])
                == text::ascii_lower(w[i]) by {
                assert(text::ascii_lower_all(t)[i] == text::ascii_lower_all(w)[i]);
            }
        }
    }
}

proof fn lemma_first_import(actions: Seq<Json>, i: int, k: int)
    requires
        0 <= i <= k <= actions.len(),
        forall|j: int| i <= j < k ==> !titled(#[trigger] actions[j], "Import build"@),
        k < actions.len() ==> titled(actions[k], "Import build"@),
    ensures
        client::first_import(actions, i) == (if k < actions.len() {
            Some(actions[k])
        } else {
            None
        }),
    decreases k - i,
{
    if i < actions.len() {
        lemma_titled(actions[i]);
    }
    if i < k {
        assert(!titled(actions[i], "Import build"@));
        lemma_first_import(actions, i + 1, k);
    }
}

/// A server that asks which action to take is answered with the first that imports the
/// build, or else with the first of all. What else it asks is answered with nothing.
pub proof fn law_choices(
    m: client::StateModel,
    msg: Json,
    id: Json,
    method: Seq<char>,
    params: Json,
    actions: Seq<Json>,
    k: int,
)
    requires
        says(msg, "id"@, id),
        says(msg, "method"@, Json::Text(method)),
        says(msg, "params"@, params),
        says(params, "actions"@, Json::List(actions)),
        0 <= k <= actions.len(),
        forall|j: int| 0 <= j < k ==> !titled(#[trigger] actions[j], "Import build"@),
        k < actions.len() ==> titled(actions[k], "Import build"@),
    ensures
        client::received(m, msg) == (
            m,
            client::IncomingModel::Reply(
                messages::reply_json(
                    id,
                    if method == "window/showMessageRequest"@ && actions.len() > 0 {
                        if k < actions.len() {
                            actions[k]
                        } else {
                            actions[0]
                        }
                    } else {
                        Json::Null
                    },
                ),
            ),
        ),
{
    lemma_first_import(actions, 0, k);
}

proof fn lemma_begun(word: Seq<char>, rest: Seq<char>)
    ensures
        scan::starts_with(word + rest, word),
{
    assert((word + rest).subrange(0, word.len() as int) =~= word);
}

/// A server whose status says that it indexes, compiles, imports, builds or loads is busy,
/// unless the status is hidden.
pub proof fn law_busy_servers(
    m: client::StateModel,
    msg: Json,
    params: Json,
    word: Seq<char>,
    rest: Seq<char>,
)
    requires
        msg is Object,
        !msg->Object_0.contains_key("id"@),
        says(msg, "method"@, Json::Text("metals/status"@)),
        says(msg, "params"@, params),
        says(params, "text"@, Json::Text(word + rest)),
        word == "Indexing"@ || word == "Compiling"@ || word == "Importing"@ || word == "Building"@
            || word == "Loading"@,
    ensures
        ({
            let n = client::received(m, msg).0;
            &&& !params->Object_0.contains_key("hide"@) ==> !n.quiescent
            &&& says(params, "hide"@, Json::Bool(true)) ==> n.quiescent
            &&& says(params, "hide"@, Json::Bool(false)) ==> !n.quiescent
        }),
{
    reveal_strlit("metals/status");
    reveal_strlit("textDocument/publishDiagnostics");
    reveal_strlit("experimental/serverStatus");
    assert("metals/status"@.len() == 13 && "textDocument/publishDiagnostics"@.len() == 31
        && "experimental/serverStatus"@.len() == 25);
    lemma_begun(word, rest);
}

/// A server whose status says anything else is at rest.
pub proof fn law_servers_at_rest(m: client::StateModel, msg: Json, params: Json, said: Seq<char>)
    requires
        msg is Object,
        !msg->Object_0.contains_key("id"@),
        says(msg, "method"@, Json::Text("metals/status"@)),
        says(msg, "params"@, params),
        says(params, "text"@, Json::Text(said)),
        said.len() == 0 || (said[0] != 'I' && said[0] != 'C' && said[0] != 'B' && said[0] != 'L'),
    ensures
        client::received(m, msg).0.quiescent,
{
    reveal_strlit("metals/status");
    reveal_strlit("textDocument/publishDiagnostics");
    reveal_strlit("experimental/serverStatus");
    assert("metals/status"@.len() == 13 && "textDocument/publishDiagnostics"@.len() == 31
        && "experimental/serverStatus"@.len() == 25);
    reveal_strlit("Indexing");
    reveal_strlit("Compiling");
    reveal_strlit("Importing");
    reveal_strlit("Building");
    reveal_strlit("Loading");
    lemma_first(said, "Indexing"@);
    lemma_first(said, "Compiling"@);
    lemma_first(said, "Importing"@);
    lemma_first(said, "Building"@);
    lemma_first(said, "Loading"@);
}

proof fn lemma_first(s: Seq<char>, word: Seq<char>)
    requires
        word.len() > 0,
    ensures
        scan::starts_with(s, word) ==> s.len() > 0 && s[0] == word[0],
{
    if scan::starts_with(s, word) {
        assert(s.subrange(0, word.len() as int)[0] == s[0]);
    }
}

} // verus!
