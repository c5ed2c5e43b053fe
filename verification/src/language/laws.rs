//! What the name of a file says of its language, and what a server is told at first.

use vstd::prelude::*;

use crate::install;
use crate::json::Json;
use crate::language;
use crate::language::Language;
use crate::lsp::laws::says;
use crate::lsp::messages;
use crate::lsp::messages::AnswerShape;
use crate::paths;
use crate::scan::laws::lacks;

verus! {

/// The language of a file goes by what stands behind the last full stop of its name,
/// wherever the file lies.
pub proof fn law_languages(dir: Seq<char>, stem: Seq<char>, ext: Seq<char>)
    requires
        stem.len() > 0,
        lacks(stem, '/'),
        lacks(ext, '/'),
        lacks(ext, '.'),
        stem != seq!['.'] || ext.len() > 0,
    ensures
        ({
            let l = language::language_of(dir + seq!['/'] + (stem + seq!['.'] + ext));
            &&& l == Some(Language::Rust) <==> ext == "rs"@
            &&& l == Some(Language::Scala) <==> ext == "scala"@ || ext == "sc"@ || ext == "sbt"@
            &&& l == Some(Language::Elm) <==> ext == "elm"@
        }),
        lacks(stem, '.') ==> language::language_of(dir + seq!['/'] + stem) is None,
{
    paths::laws::law_extensions(dir, stem, ext);
    reveal_strlit("rs");
    reveal_strlit("scala");
    reveal_strlit("sc");
    reveal_strlit("sbt");
    reveal_strlit("elm");
    assert("rs"@.len() == 2 && "scala"@.len() == 5 && "sc"@.len() == 2 && "sbt"@.len() == 3
        && "elm"@.len() == 3);
    assert("rs"@[0] != "sc"@[0]);
    assert("sbt"@[0] != "elm"@[0]);
}

/// Each language goes by its own name and its own server.
pub proof fn law_servers_of_languages(a: Language, b: Language)
    ensures
        a != b ==> language::language_name(a) != language::language_name(b),
        a != b ==> language::server_binary(a) != language::server_binary(b),
        language::test_argv(a) is Some <==> a == Language::Rust,
        language::runner_kind(a) is Some <==> a == Language::Rust,
        language::function_query_text(a) is Some <==> a == Language::Rust,
        language::module_items_query_text(a) is Some <==> a == Language::Rust,
        language::import_query_text(a) is Some,
        language::options_json(a) is Some <==> a == Language::Scala,
{
    reveal_strlit("rust");
    reveal_strlit("scala");
    reveal_strlit("elm");
    reveal_strlit("rust-analyzer");
    reveal_strlit("metals");
    reveal_strlit("elm-language-server");
    assert("rust"@.len() == 4 && "scala"@.len() == 5 && "elm"@.len() == 3);
    assert("rust-analyzer"@.len() == 13 && "metals"@.len() == 6 && "elm-language-server"@.len()
        == 19);
}

/// A server is told the process, the root of the workspace and, where its language has some,
/// its options.
pub proof fn law_first_message(l: Language, process: u32, root: Seq<char>)
    ensures
        ({
            let j = messages::initialize_json(l, process, root);
            &&& says(j, "processId"@, Json::Int(process as int))
            &&& says(j, "rootUri"@, Json::Text(root))
            &&& says(j, "capabilities"@, messages::capabilities(l))
            &&& l == Language::Scala ==> says(
                j,
                "initializationOptions"@,
                language::options_json(l)->Some_0,
            )
            &&& l != Language::Scala ==> !j->Object_0.contains_key("initializationOptions"@)
        }),
{
    reveal_strlit("processId");
    reveal_strlit("rootUri");
    reveal_strlit("capabilities");
    reveal_strlit("clientInfo");
    reveal_strlit("initializationOptions");
    assert("processId"@.len() == 9 && "rootUri"@.len() == 7 && "capabilities"@.len() == 12
        && "clientInfo"@.len() == 10 && "initializationOptions"@.len() == 21);
    let p = ("processId"@, Json::Int(process as int));
    let r = ("rootUri"@, Json::Text(root));
    let c = ("capabilities"@, messages::capabilities(l));
    let j = messages::initialize_json(l, process, root)->Object_0;
    let i = ("clientInfo"@, crate::json::obj(seq![("name"@, Json::Text("dyad"@))]));
    crate::lsp::laws::lemma_four(p, r, c, i);
    let four = seq![p, r, c, i];
    assert(four.drop_last() =~= seq![p, r, c]);
    assert(seq![p, r, c].drop_last() =~= seq![p, r]);
    assert(seq![p, r].drop_last() =~= seq![p]);
    assert(seq![p].drop_last() =~= Seq::<(Seq<char>, Json)>::empty());
    reveal_with_fuel(crate::json::put, 6);
    if let Some(o) = language::options_json(l) {
        let five = seq![p, r, c, i, ("initializationOptions"@, o)];
        assert(five.drop_last() =~= four);
        assert(five.last().0 == "initializationOptions"@);
    }
}

/// A definition is answered by one place, by a list of places, or by nothing.
pub proof fn law_shapes_of_definitions(j: Json)
    ensures
        messages::definition_shape(j) is Many <==> j is List,
        messages::definition_shape(j) is One <==> j is Object,
        messages::definition_shape(j) is Nothing <==> !(j is List) && !(j is Object),
{
}

/// The binary is copied unless a directory stands in its place or it is already there; what
/// stands there is removed first.
pub proof fn law_installing(target: Seq<char>, found: install::Found)
    ensures
        ({
            let p = install::planned(target, found);
            &&& p is Refuse <==> found is Directory
            &&& p is Done <==> found is File && found->running
            &&& p is Copy ==> (p->replace <==> !(found is Nothing))
        }),
{
}

} // verus!
