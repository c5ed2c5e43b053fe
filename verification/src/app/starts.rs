//! How the editor starts, what it tells a server of a file that is opened, and what it says
//! of a type.

use vstd::prelude::*;

use crate::app::navigation;
use crate::app::session;
use crate::app::{AppModel, Env, Jump, Mode, OpenedFile};
use crate::git;
use crate::hover;
use crate::language;
use crate::language::Language;
use crate::lsp;
use crate::rope;
use crate::runtime;
use crate::tree;

verus! {

/// The editor starts without a file with an empty text that can be typed into and with the
/// tree in front. Nothing is unsaved, nothing is open, and there is nothing to go back to.
pub proof fn law_starting_without_a_file(root: Seq<char>, items: Seq<tree::ItemModel>)
    ensures
        ({
            let m = session::empty_app(root, items);
            &&& m.buffer.text.len() == 0 && m.buffer.path is None && !m.buffer.dirty
            &&& m.view.line == 0 && m.view.col == 0
            &&& m.mode == Mode::Edit
            &&& m.running && !m.quit_pending && !m.autosave
            &&& m.tree.root == root && m.tree.focused && m.tree.cursor == 0
            &&& m.nav.len() == 0 && m.outbox.len() == 0 && m.servers.len() == 0
            &&& m.prompt is None && m.history is None && m.open_file is None && m.type_search
                is None && m.text_search is None && m.diff is None && !m.keys_help
            &&& m.language is None && m.uri is None && m.syntax is None
        }),
{
}

/// The editor starts with a file with what the file holds, which is only read at first, and
/// with the tree behind. The server of its language counts as running if it came up.
pub proof fn law_starting_with_a_file(
    path: Seq<char>,
    contents: Option<Seq<char>>,
    absolute: Seq<char>,
    diff: Result<String, String>,
    spawned: bool,
    root: Seq<char>,
    items: Seq<tree::ItemModel>,
)
    ensures
        ({
            let m = session::file_app(path, contents, absolute, diff, spawned, root, items);
            let l = language::language_of(path);
            &&& m.buffer.text == (match contents {
                Some(c) => c,
                None => Seq::empty(),
            })
            &&& m.buffer.path == Some(path) && !m.buffer.dirty && m.buffer.version == 0
            &&& m.mode == Mode::View
            &&& m.tree.root == root && !m.tree.focused
            &&& m.language == l
            &&& l is Some && spawned ==> m.servers == seq![l->Some_0] && m.uri == Some(
                lsp::uri_of(absolute),
            )
            &&& l is None || !spawned ==> m.servers.len() == 0 && m.uri is None
            &&& m.outbox.len() == 0 && m.nav.len() == 0
            &&& m.view.line == 0 && m.view.col == 0
            &&& diff is Err ==> m.git_status.len() == 0
            &&& diff is Ok && git::line_numbers_fit(diff->Ok_0@) ==> m.git_status
                == git::changes_of(diff->Ok_0@)
        }),
{
}

/// A server that runs is told of a file of its language once, with what the file holds. One
/// that does not run is told nothing, and counts as running from then on if it came up.
pub proof fn law_servers_hear_of_opened_files(
    m: AppModel,
    path: Seq<char>,
    jump: Jump,
    file: OpenedFile,
    env: Env,
)
    requires
        file.loaded is Ok,
        jump is Dialog || jump is TextHit || jump is TypeHit || jump is Tree || jump is Created,
    ensures
        ({
            let r = navigation::file_opened(m, path, jump, file, env);
            let l = language::language_of(path);
            let s = match file.loaded->Ok_0 {
                Some(c) => c@,
                None => Seq::empty(),
            };
            &&& r.uri == Some(lsp::uri_of(file.absolute@))
            &&& r.lsp_version == 0
            &&& l is None ==> r.outbox == m.outbox && r.servers == m.servers
            &&& l is Some && m.servers.contains(l->Some_0) ==> r.servers == m.servers && r.outbox
                == m.outbox.push(
                runtime::NoticeModel::Open {
                    language: l->Some_0,
                    uri: lsp::uri_of(file.absolute@),
                    text: s,
                },
            )
            &&& l is Some && !m.servers.contains(l->Some_0) ==> r.outbox == m.outbox && r.servers
                == (if file.spawned {
                m.servers.push(l->Some_0)
            } else {
                m.servers
            })
            &&& r.autosave == m.autosave && r.running == m.running
        }),
{
}

/// A type is shown by its signature; a signature in Rust that is only a path gives way to
/// the type that the line under the cursor writes down, if it does. What is not known is
/// said to be so.
pub proof fn law_shown_types(m: AppModel, answer: Result<Option<String>, String>, env: Env)
    ensures
        ({
            let r = navigation::type_known(m, answer, env);
            let line = rope::line_text(m.buffer.text, m.view.line);
            &&& r == (AppModel { status: r.status, ..m })
            &&& answer is Err ==> r.status == "Hover failed: "@ + answer->Err_0@
            &&& answer is Ok && answer->Ok_0 is None && !env.indexing ==> r.status
                == "No type info"@
            &&& answer is Ok && answer->Ok_0 is Some ==> ({
                let sig = hover::signature_of(answer->Ok_0->Some_0@);
                &&& sig is None ==> r.status == "No type info"@
                &&& sig is Some && (m.language != Some(Language::Rust) || !hover::path_only(
                    sig->Some_0,
                )) ==> r.status == "type: "@ + sig->Some_0
                &&& sig is Some && m.language == Some(Language::Rust) && hover::path_only(
                    sig->Some_0,
                ) && m.view.line < rope::line_count(m.buffer.text) ==> r.status == "type: "@ + (
                match hover::annotated_type(line) {
                    Some(t) => t,
                    None => sig->Some_0,
                })
            })
        }),
{
}

} // verus!
